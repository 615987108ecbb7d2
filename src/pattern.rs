use vstd::prelude::*;

use crate::life::Cell;
use crate::text::{
    begins_with, chars_of, contains, includes, parse_u32, parse_u32_spec, split, split_on,
    starts_with, string_of, trim, trimmed,
};

verus! {

/// Why a pattern file could not be read.
#[derive(Debug, Clone)]
pub enum ParseError {
    /// No line gives both `x = ...` and `y = ...`.
    MissingHeader,
    /// A header field holds a value that is not a `u32`.
    InvalidHeader(String),
    /// The run-length data holds a character it cannot hold, or a run or
    /// position too large.
    InvalidPattern(String),
}

/// A Game of Life pattern read from a run-length encoded (RLE) file.
#[derive(Debug, Clone)]
pub struct Pattern {
    pub name: Option<String>,
    pub author: Option<String>,
    pub comments: Vec<String>,
    pub width: u32,
    pub height: u32,
    pub rule: String,
    /// The live cells, row by row from the top left; `x` grows to the right
    /// and `y` downwards.
    pub cells: Vec<Cell>,
}

/// A `ParseError` as plain values.
pub enum RleFailure {
    MissingHeader,
    InvalidHeader(Seq<char>),
    InvalidPattern(Seq<char>),
}

/// A `Pattern` as plain values.
pub struct PatternModel {
    pub name: Option<Seq<char>>,
    pub author: Option<Seq<char>>,
    pub comments: Seq<Seq<char>>,
    pub width: u32,
    pub height: u32,
    pub rule: Seq<char>,
    pub cells: Seq<Cell>,
}

/// What the lines of a file have given so far: the metadata, the header
/// fields and the run-length data, joined from its lines.
pub struct RleLines {
    pub name: Option<Seq<char>>,
    pub author: Option<Seq<char>>,
    pub comments: Seq<Seq<char>>,
    pub width: Option<u32>,
    pub height: Option<u32>,
    pub rule: Seq<char>,
    pub data: Seq<char>,
}

/// Where the run-length decoder stands: the position of the next cell, the
/// pending run count (0 when none was written) and the cells so far.
pub struct RleCursor {
    pub x: int,
    pub y: int,
    pub run: nat,
    pub cells: Seq<Cell>,
}

impl View for ParseError {
    type V = RleFailure;

    open spec fn view(&self) -> RleFailure {
        match self {
            ParseError::MissingHeader => RleFailure::MissingHeader,
            ParseError::InvalidHeader(m) => RleFailure::InvalidHeader(m@),
            ParseError::InvalidPattern(m) => RleFailure::InvalidPattern(m@),
        }
    }
}

/// The view of an optional string.
pub open spec fn opt_view(s: Option<String>) -> Option<Seq<char>> {
    match s {
        Some(t) => Some(t@),
        None => None,
    }
}

impl View for Pattern {
    type V = PatternModel;

    open spec fn view(&self) -> PatternModel {
        PatternModel {
            name: opt_view(self.name),
            author: opt_view(self.author),
            comments: self.comments@.map_values(|c: String| c@),
            width: self.width,
            height: self.height,
            rule: self.rule@,
            cells: self.cells@,
        }
    }
}

/// The header fields so far: width, height and rule.
pub type HeaderFields = (Option<u32>, Option<u32>, Seq<char>);

/// `p` after `prefix`, where `p` starts with it.
pub open spec fn after(p: Seq<char>, prefix: Seq<char>) -> Seq<char> {
    p.skip(prefix.len() as int)
}

/// One comma-separated field of a header line: `x = <u32>`, `y = <u32>` or
/// `rule = <text>` (also without the space before `=`); any other field is
/// ignored. A bad number gives the message for the error.
pub open spec fn header_field(h: HeaderFields, part: Seq<char>) -> Result<HeaderFields, Seq<char>> {
    let p = trim(part);
    if starts_with(p, "x ="@) || starts_with(p, "x="@) {
        let rest = if starts_with(p, "x ="@) {
            after(p, "x ="@)
        } else {
            after(p, "x="@)
        };
        match parse_u32_spec(trim(rest)) {
            Some(v) => Ok((Some(v), h.1, h.2)),
            None => Err("Invalid x value: "@ + rest),
        }
    } else if starts_with(p, "y ="@) || starts_with(p, "y="@) {
        let rest = if starts_with(p, "y ="@) {
            after(p, "y ="@)
        } else {
            after(p, "y="@)
        };
        match parse_u32_spec(trim(rest)) {
            Some(v) => Ok((h.0, Some(v), h.2)),
            None => Err("Invalid y value: "@ + rest),
        }
    } else if starts_with(p, "rule ="@) || starts_with(p, "rule="@) {
        let rest = if starts_with(p, "rule ="@) {
            after(p, "rule ="@)
        } else {
            after(p, "rule="@)
        };
        Ok((h.0, h.1, trim(rest)))
    } else {
        Ok(h)
    }
}

/// The header fields after reading `parts` in order, or the first error.
pub open spec fn header_fields(h: HeaderFields, parts: Seq<Seq<char>>) -> Result<HeaderFields, Seq<char>>
    decreases parts.len(),
{
    if parts.len() == 0 {
        Ok(h)
    } else {
        match header_field(h, parts[0]) {
            Ok(n) => header_fields(n, parts.drop_first()),
            Err(m) => Err(m),
        }
    }
}

/// One line of a file. Once trimmed: `#N`, `#O`, `#C` or `#c` followed by a
/// space give the name, the author or a comment; other `#` lines are
/// ignored; a line holding `x =` or `x=` is the header; any other non-empty
/// line is run-length data.
pub open spec fn read_line(st: RleLines, line: Seq<char>) -> Result<RleLines, RleFailure> {
    let t = trim(line);
    if starts_with(t, "#N "@) {
        Ok(RleLines { name: Some(trim(after(t, "#N "@))), ..st })
    } else if starts_with(t, "#O "@) {
        Ok(RleLines { author: Some(trim(after(t, "#O "@))), ..st })
    } else if starts_with(t, "#C "@) || starts_with(t, "#c "@) {
        Ok(RleLines { comments: st.comments.push(trim(after(t, "#C "@))), ..st })
    } else if starts_with(t, "#"@) {
        Ok(st)
    } else if contains(t, "x ="@) || contains(t, "x="@) {
        match header_fields((st.width, st.height, st.rule), split(t, ',')) {
            Ok(h) => Ok(RleLines { width: h.0, height: h.1, rule: h.2, ..st }),
            Err(m) => Err(RleFailure::InvalidHeader(m)),
        }
    } else if t.len() > 0 {
        Ok(RleLines { data: st.data + t, ..st })
    } else {
        Ok(st)
    }
}

/// What `lines` give in order, or the first error.
pub open spec fn read_lines(st: RleLines, lines: Seq<Seq<char>>) -> Result<RleLines, RleFailure>
    decreases lines.len(),
{
    if lines.len() == 0 {
        Ok(st)
    } else {
        match read_line(st, lines[0]) {
            Ok(n) => read_lines(n, lines.drop_first()),
            Err(e) => Err(e),
        }
    }
}

/// The length of a run: the pending count, or 1 when none was written.
pub open spec fn run_length(run: nat) -> nat {
    if run == 0 {
        1
    } else {
        run
    }
}

/// The cells `(x, y) .. (x + n - 1, y)`.
pub open spec fn row_cells(x: int, y: int, n: nat) -> Seq<Cell> {
    Seq::new(n, |k: int| ((x + k) as i64, y as i64))
}

/// One character of run-length data: digits build a count; `b` skips
/// dead cells, `o` adds live ones, `$` ends rows; blanks are ignored.
pub open spec fn decode_char(st: RleCursor, c: char) -> Result<RleCursor, Seq<char>> {
    let n = run_length(st.run);
    if '0' <= c && c <= '9' {
        let run = st.run * 10 + (c as u32 - '0' as u32) as nat;
        if run > u32::MAX {
            Err("Run count out of range"@)
        } else {
            Ok(RleCursor { run: run, ..st })
        }
    } else if c == 'b' || c == 'o' {
        if st.x + n > i64::MAX {
            Err("Position out of range"@)
        } else if c == 'b' {
            Ok(RleCursor { x: st.x + n, run: 0, ..st })
        } else {
            Ok(RleCursor { x: st.x + n, run: 0, cells: st.cells + row_cells(st.x, st.y, n), ..st })
        }
    } else if c == '$' {
        if st.y + n > i64::MAX {
            Err("Position out of range"@)
        } else {
            Ok(RleCursor { x: 0, y: st.y + n, run: 0, ..st })
        }
    } else if c == ' ' || c == '\n' || c == '\r' || c == '\t' {
        Ok(st)
    } else {
        Err("Unknown character: '"@ + seq![c] + "'"@)
    }
}

/// The decoder after reading `s` up to its end or its first `!`, or the
/// first error.
pub open spec fn decode(st: RleCursor, s: Seq<char>) -> Result<RleCursor, Seq<char>>
    decreases s.len(),
{
    if s.len() == 0 || s[0] == '!' {
        Ok(st)
    } else {
        match decode_char(st, s[0]) {
            Ok(n) => decode(n, s.drop_first()),
            Err(m) => Err(m),
        }
    }
}

/// The decoder before any data.
pub open spec fn cursor_start() -> RleCursor {
    RleCursor { x: 0, y: 0, run: 0, cells: Seq::empty() }
}

/// Nothing read yet; the rule defaults to Conway's `B3/S23`.
pub open spec fn lines_start() -> RleLines {
    RleLines {
        name: None,
        author: None,
        comments: Seq::empty(),
        width: None,
        height: None,
        rule: "B3/S23"@,
        data: Seq::empty(),
    }
}

/// The pattern that the file `input` describes, or why it cannot be read:
/// the first bad line, then a missing header, then bad run-length data.
pub open spec fn parse_rle_spec(input: Seq<char>) -> Result<PatternModel, RleFailure> {
    match read_lines(lines_start(), split(input, '\n')) {
        Err(e) => Err(e),
        Ok(t) => if t.width is None || t.height is None {
            Err(RleFailure::MissingHeader)
        } else {
            match decode(cursor_start(), t.data) {
                Err(m) => Err(RleFailure::InvalidPattern(m)),
                Ok(d) => Ok(
                    PatternModel {
                        name: t.name,
                        author: t.author,
                        comments: t.comments,
                        width: t.width->Some_0,
                        height: t.height->Some_0,
                        rule: t.rule,
                        cells: d.cells,
                    },
                ),
            }
        },
    }
}

/// The decoder's cells are distinct and all lie before its position:
/// on an earlier row, or earlier on the current row.
pub open spec fn cursor_ordered(st: RleCursor) -> bool {
    &&& 0 <= st.x <= i64::MAX
    &&& 0 <= st.y <= i64::MAX
    &&& st.cells.no_duplicates()
    &&& forall|k: int|
        0 <= k < st.cells.len() ==> (#[trigger] st.cells[k]).1 < st.y || (st.cells[k].1 == st.y
            && st.cells[k].0 < st.x)
}

proof fn lemma_decode_char_ordered(st: RleCursor, c: char)
    requires
        cursor_ordered(st),
    ensures
        decode_char(st, c) matches Ok(n) ==> cursor_ordered(n),
{
    let n = run_length(st.run);
    if c == 'o' && st.x + n <= i64::MAX {
        let row = row_cells(st.x, st.y, n);
        let cells = st.cells + row;
        assert forall|a: int, b: int| 0 <= a < cells.len() && 0 <= b < cells.len() && a != b implies cells[a] != cells[b] by {
            if a >= st.cells.len() && b >= st.cells.len() {
                assert(cells[a].0 != cells[b].0);
            } else if a >= st.cells.len() {
                assert(cells[b] == st.cells[b]);
            } else if b >= st.cells.len() {
                assert(cells[a] == st.cells[a]);
            }
        }
        assert forall|k: int| 0 <= k < cells.len() implies (#[trigger] cells[k]).1 < st.y || (cells[k].1 == st.y
            && cells[k].0 < st.x + n) by {
            if k < st.cells.len() {
                assert(cells[k] == st.cells[k]);
            }
        }
    }
}

proof fn lemma_decode_ordered(st: RleCursor, s: Seq<char>)
    requires
        cursor_ordered(st),
    ensures
        decode(st, s) matches Ok(d) ==> cursor_ordered(d),
    decreases s.len(),
{
    if s.len() > 0 && s[0] != '!' {
        lemma_decode_char_ordered(st, s[0]);
        if let Ok(n) = decode_char(st, s[0]) {
            lemma_decode_ordered(n, s.drop_first());
        }
    }
}

/// The cells of a pattern read from any file are distinct.
pub proof fn lemma_parsed_cells_distinct(input: Seq<char>)
    ensures
        parse_rle_spec(input) matches Ok(m) ==> m.cells.no_duplicates(),
{
    if let Ok(t) = read_lines(lines_start(), split(input, '\n')) {
        lemma_decode_ordered(cursor_start(), t.data);
    }
}

/// `a` followed by `b`.
fn joined(a: &Vec<char>, b: &Vec<char>) -> (r: Vec<char>)
    ensures
        r@ == a@ + b@,
{
    let mut out: Vec<char> = Vec::new();
    let mut i: usize = 0;
    while i < a.len()
        invariant
            0 <= i <= a.len(),
            out@ == a@.take(i as int),
        decreases a.len() - i,
    {
        out.push(a[i]);
        i += 1;
        assert(out@ =~= a@.take(i as int));
    }
    let mut j: usize = 0;
    while j < b.len()
        invariant
            0 <= j <= b.len(),
            out@ == a@ + b@.take(j as int),
        decreases b.len() - j,
    {
        out.push(b[j]);
        j += 1;
        assert(out@ =~= a@ + b@.take(j as int));
    }
    assert(a@.take(a.len() as int) =~= a@);
    assert(b@.take(b.len() as int) =~= b@);
    out
}

/// `p` after its first `n` characters.
fn rest_after(p: &Vec<char>, n: usize) -> (r: Vec<char>)
    requires
        n <= p.len(),
    ensures
        r@ == p@.skip(n as int),
{
    crate::text::slice(p, n, p.len())
}

/// Reads one comma-separated header field into the fields so far; a bad
/// number gives the message for the error.
fn read_header_field(part: &Vec<char>, width: &mut Option<u32>, height: &mut Option<u32>, rule: &mut Vec<char>) -> (r: Result<(), Vec<char>>)
    ensures
        match header_field((*old(width), *old(height), old(rule)@), part@) {
            Ok(h) => r is Ok && *final(width) == h.0 && *final(height) == h.1 && final(rule)@ == h.2,
            Err(m) => (r matches Err(e) && e@ == m),
        },
{
    let p = trimmed(part);
    let x_spaced = chars_of("x =");
    let x_tight = chars_of("x=");
    let y_spaced = chars_of("y =");
    let y_tight = chars_of("y=");
    let rule_spaced = chars_of("rule =");
    let rule_tight = chars_of("rule=");
    if begins_with(&p, &x_spaced) || begins_with(&p, &x_tight) {
        let rest = if begins_with(&p, &x_spaced) {
            rest_after(&p, x_spaced.len())
        } else {
            rest_after(&p, x_tight.len())
        };
        match parse_u32(&trimmed(&rest)) {
            Some(v) => {
                *width = Some(v);
                Ok(())
            },
            None => Err(joined(&chars_of("Invalid x value: "), &rest)),
        }
    } else if begins_with(&p, &y_spaced) || begins_with(&p, &y_tight) {
        let rest = if begins_with(&p, &y_spaced) {
            rest_after(&p, y_spaced.len())
        } else {
            rest_after(&p, y_tight.len())
        };
        match parse_u32(&trimmed(&rest)) {
            Some(v) => {
                *height = Some(v);
                Ok(())
            },
            None => Err(joined(&chars_of("Invalid y value: "), &rest)),
        }
    } else if begins_with(&p, &rule_spaced) || begins_with(&p, &rule_tight) {
        let rest = if begins_with(&p, &rule_spaced) {
            rest_after(&p, rule_spaced.len())
        } else {
            rest_after(&p, rule_tight.len())
        };
        *rule = trimmed(&rest);
        Ok(())
    } else {
        Ok(())
    }
}

/// Reads a header line (`x = 3, y = 4, rule = B3/S23`) into the fields so
/// far; the first bad number fails with `InvalidHeader`.
fn parse_header_line(line: &Vec<char>, width: &mut Option<u32>, height: &mut Option<u32>, rule: &mut Vec<char>) -> (r: Result<(), ParseError>)
    ensures
        match header_fields((*old(width), *old(height), old(rule)@), split(line@, ',')) {
            Ok(h) => r is Ok && *final(width) == h.0 && *final(height) == h.1 && final(rule)@ == h.2,
            Err(m) => (r matches Err(ParseError::InvalidHeader(e)) && e@ == m),
        },
{
    let parts = split_on(line, ',');
    let ghost all = split(line@, ',');
    let ghost goal = header_fields((*width, *height, rule@), all);
    assert(all.skip(0) =~= all);
    let mut i: usize = 0;
    while i < parts.len()
        invariant
            0 <= i <= parts.len(),
            all == split(line@, ','),
            parts@.len() == all.len(),
            forall|k: int| 0 <= k < parts@.len() ==> (#[trigger] parts@[k])@ == all[k],
            goal == header_fields((*width, *height, rule@), all.skip(i as int)),
            goal == header_fields((*old(width), *old(height), old(rule)@), all),
        decreases parts.len() - i,
    {
        let ghost before = (*width, *height, rule@);
        assert(all.skip(i as int)[0] == all[i as int]);
        assert(all.skip(i as int).drop_first() =~= all.skip(i + 1));
        assert(parts@[i as int]@ == all[i as int]);
        match read_header_field(&parts[i], width, height, rule) {
            Ok(()) => {},
            Err(m) => {
                let msg = string_of(m.as_slice());
                assert(goal == Err::<HeaderFields, Seq<char>>(m@));
                return Err(ParseError::InvalidHeader(msg));
            },
        }
        i += 1;
    }
    assert(all.skip(i as int) =~= Seq::<Seq<char>>::empty());
    Ok(())
}

/// The cursor that the decoder's variables stand for.
pub open spec fn cursor(x: i64, y: i64, run: u32, cells: Seq<Cell>) -> RleCursor {
    RleCursor { x: x as int, y: y as int, run: run as nat, cells }
}

/// Appends the cells `(x, y) .. (x + n - 1, y)`.
fn push_row(cells: &mut Vec<Cell>, x: i64, y: i64, n: i64)
    requires
        0 <= n,
        0 <= x,
        x + n <= i64::MAX,
    ensures
        final(cells)@ == old(cells)@ + row_cells(x as int, y as int, n as nat),
{
    let mut k: i64 = 0;
    while k < n
        invariant
            0 <= k <= n,
            x + n <= i64::MAX,
            cells@ == old(cells)@ + row_cells(x as int, y as int, k as nat),
        decreases n - k,
    {
        cells.push((x + k, y));
        k += 1;
        assert(cells@ =~= old(cells)@ + row_cells(x as int, y as int, k as nat));
    }
}

/// Decodes run-length data into the live cells, up to its end or its
/// first `!`; a character outside the format, or a run or position beyond
/// range, fails with `InvalidPattern`.
fn parse_pattern_data(data: &Vec<char>) -> (r: Result<Vec<Cell>, ParseError>)
    ensures
        match decode(cursor_start(), data@) {
            Ok(d) => (r matches Ok(cells) && cells@ == d.cells),
            Err(m) => (r matches Err(ParseError::InvalidPattern(e)) && e@ == m),
        },
{
    let ghost goal = decode(cursor_start(), data@);
    let mut cells: Vec<Cell> = Vec::new();
    let mut x: i64 = 0;
    let mut y: i64 = 0;
    let mut run: u32 = 0;
    assert(data@.skip(0) =~= data@);
    assert(cursor(x, y, run, cells@) == cursor_start());
    let mut i: usize = 0;
    loop
        invariant
            0 <= i <= data.len(),
            0 <= x,
            0 <= y,
            goal == decode(cursor_start(), data@),
            goal == decode(cursor(x, y, run, cells@), data@.skip(i as int)),
        ensures
            goal == Ok::<RleCursor, Seq<char>>(cursor(x, y, run, cells@)),
        decreases data.len() - i,
    {
        if i == data.len() {
            assert(data@.skip(i as int) =~= Seq::<char>::empty());
            break;
        }
        let c = data[i];
        let ghost st = cursor(x, y, run, cells@);
        assert(data@.skip(i as int)[0] == c);
        assert(data@.skip(i as int).drop_first() =~= data@.skip(i + 1));
        if c == '!' {
            break;
        }
        let n: u32 = if run == 0 {
            1
        } else {
            run
        };
        if '0' <= c && c <= '9' {
            let next: u64 = run as u64 * 10 + (c as u32 - '0' as u32) as u64;
            if next > u32::MAX as u64 {
                return Err(ParseError::InvalidPattern(string_of(chars_of("Run count out of range").as_slice())));
            }
            run = next as u32;
        } else if c == 'b' || c == 'o' {
            if x > i64::MAX - n as i64 {
                return Err(ParseError::InvalidPattern(string_of(chars_of("Position out of range").as_slice())));
            }
            if c == 'o' {
                push_row(&mut cells, x, y, n as i64);
            }
            x = x + n as i64;
            run = 0;
        } else if c == '$' {
            if y > i64::MAX - n as i64 {
                return Err(ParseError::InvalidPattern(string_of(chars_of("Position out of range").as_slice())));
            }
            y = y + n as i64;
            x = 0;
            run = 0;
        } else if c == ' ' || c == '\n' || c == '\r' || c == '\t' {
        } else {
            let mut msg = chars_of("Unknown character: '");
            msg.push(c);
            let msg = joined(&msg, &chars_of("'"));
            return Err(ParseError::InvalidPattern(string_of(msg.as_slice())));
        }
        assert(decode_char(st, c) == Ok::<RleCursor, Seq<char>>(cursor(x, y, run, cells@)));
        i += 1;
    }
    Ok(cells)
}

/// The view of an optional character vector.
pub open spec fn opt_chars(s: Option<Vec<char>>) -> Option<Seq<char>> {
    match s {
        Some(t) => Some(t@),
        None => None,
    }
}

/// What the lines of a file have given so far, as the reader holds it.
struct LineReader {
    name: Option<Vec<char>>,
    author: Option<Vec<char>>,
    comments: Vec<Vec<char>>,
    width: Option<u32>,
    height: Option<u32>,
    rule: Vec<char>,
    data: Vec<char>,
}

impl LineReader {
    spec fn model(&self) -> RleLines {
        RleLines {
            name: opt_chars(self.name),
            author: opt_chars(self.author),
            comments: self.comments@.map_values(|c: Vec<char>| c@),
            width: self.width,
            height: self.height,
            rule: self.rule@,
            data: self.data@,
        }
    }

    /// Reads one line of a file.
    fn read(&mut self, line: &Vec<char>) -> (r: Result<(), ParseError>)
        ensures
            match read_line(old(self).model(), line@) {
                Ok(n) => r is Ok && final(self).model() == n,
                Err(f) => (r matches Err(e) && e@ == f),
            },
    {
        let t = trimmed(line);
        let name_tag = chars_of("#N ");
        let author_tag = chars_of("#O ");
        let comment_tag = chars_of("#C ");
        let comment_tag_lower = chars_of("#c ");
        let hash = chars_of("#");
        let x_spaced = chars_of("x =");
        let x_tight = chars_of("x=");
        if begins_with(&t, &name_tag) {
            self.name = Some(trimmed(&rest_after(&t, name_tag.len())));
            Ok(())
        } else if begins_with(&t, &author_tag) {
            self.author = Some(trimmed(&rest_after(&t, author_tag.len())));
            Ok(())
        } else if begins_with(&t, &comment_tag) || begins_with(&t, &comment_tag_lower) {
            proof {
                reveal_strlit("#C ");
                reveal_strlit("#c ");
            }
            let comment = trimmed(&rest_after(&t, comment_tag.len()));
            let ghost before = self.comments@;
            self.comments.push(comment);
            assert(self.comments@.map_values(|c: Vec<char>| c@) =~= before.map_values(
                |c: Vec<char>| c@,
            ).push(comment@));
            Ok(())
        } else if begins_with(&t, &hash) {
            Ok(())
        } else if includes(&t, &x_spaced) || includes(&t, &x_tight) {
            parse_header_line(&t, &mut self.width, &mut self.height, &mut self.rule)
        } else if t.len() > 0 {
            self.data = joined(&self.data, &t);
            Ok(())
        } else {
            Ok(())
        }
    }
}

/// Strings of the character vectors `cs`, in order.
fn strings_of(cs: &Vec<Vec<char>>) -> (r: Vec<String>)
    ensures
        r@.map_values(|s: String| s@) == cs@.map_values(|c: Vec<char>| c@),
{
    let mut out: Vec<String> = Vec::new();
    let mut i: usize = 0;
    while i < cs.len()
        invariant
            0 <= i <= cs.len(),
            out@.map_values(|s: String| s@) == cs@.take(i as int).map_values(|c: Vec<char>| c@),
        decreases cs.len() - i,
    {
        let ghost before = out@;
        let next = string_of(cs[i].as_slice());
        assert(next@ == cs@[i as int]@);
        out.push(next);
        assert(cs@.take(i + 1).map_values(|c: Vec<char>| c@) =~= cs@.take(i as int).map_values(
            |c: Vec<char>| c@,
        ).push(cs@[i as int]@));
        assert(out@.map_values(|s: String| s@) =~= before.map_values(|s: String| s@).push(next@));
        i += 1;
    }
    assert(cs@.take(cs.len() as int) =~= cs@);
    out
}

/// The string of an optional character vector.
fn opt_string(s: &Option<Vec<char>>) -> (r: Option<String>)
    ensures
        opt_view(r) == opt_chars(*s),
{
    match s {
        Some(t) => Some(string_of(t.as_slice())),
        None => None,
    }
}

impl Pattern {
    /// Reads a pattern from the text of an RLE file: `#N`, `#O` and `#C`
    /// lines give its name, author and comments, the `x = .., y = ..` line
    /// its size and rule (Conway's `B3/S23` when none is given), and the
    /// remaining lines the run-length encoded cells.
    pub fn parse_rle(input: &str) -> (r: Result<Pattern, ParseError>)
        ensures
            match parse_rle_spec(input@) {
                Ok(m) => (r matches Ok(p) && p@ == m),
                Err(f) => (r matches Err(e) && e@ == f),
            },
            r matches Ok(p) ==> p.cells@.no_duplicates(),
    {
        proof {
            lemma_parsed_cells_distinct(input@);
        }
        let text = chars_of(input);
        let lines = split_on(&text, '\n');
        let ghost all = split(input@, '\n');
        let mut reader = LineReader {
            name: None,
            author: None,
            comments: Vec::new(),
            width: None,
            height: None,
            rule: chars_of("B3/S23"),
            data: Vec::new(),
        };
        assert(reader.model().comments =~= Seq::<Seq<char>>::empty());
        assert(reader.model() == lines_start());
        let ghost goal = read_lines(lines_start(), all);
        assert(all.skip(0) =~= all);
        let mut i: usize = 0;
        while i < lines.len()
            invariant
                0 <= i <= lines.len(),
                all == split(input@, '\n'),
                lines@.len() == all.len(),
                forall|k: int| 0 <= k < lines@.len() ==> (#[trigger] lines@[k])@ == all[k],
                goal == read_lines(lines_start(), all),
                goal == read_lines(reader.model(), all.skip(i as int)),
            decreases lines.len() - i,
        {
            assert(all.skip(i as int)[0] == all[i as int]);
            assert(all.skip(i as int).drop_first() =~= all.skip(i + 1));
            assert(lines@[i as int]@ == all[i as int]);
            match reader.read(&lines[i]) {
                Ok(()) => {},
                Err(e) => {
                    return Err(e);
                },
            }
            i += 1;
        }
        assert(all.skip(i as int) =~= Seq::<Seq<char>>::empty());
        let width = match reader.width {
            Some(w) => w,
            None => {
                return Err(ParseError::MissingHeader);
            },
        };
        let height = match reader.height {
            Some(h) => h,
            None => {
                return Err(ParseError::MissingHeader);
            },
        };
        let cells = match parse_pattern_data(&reader.data) {
            Ok(cells) => cells,
            Err(e) => {
                return Err(e);
            },
        };
        let comments = strings_of(&reader.comments);
        Ok(
            Pattern {
                name: opt_string(&reader.name),
                author: opt_string(&reader.author),
                comments,
                width,
                height,
                rule: string_of(reader.rule.as_slice()),
                cells,
            },
        )
    }
}

} // verus!
