use vstd::prelude::*;

use crate::pattern::{opt_view, parse_rle_spec, ParseError, Pattern, PatternModel};
use crate::text::{chars_of, contains, includes, split, split_on, string_of};

verus! {

/// The lower-case form of `s`, as `str::to_lowercase` gives it.
pub uninterp spec fn lower_of(s: Seq<char>) -> Seq<char>;

/// Relies on str::to_lowercase: the result depends on the characters of `s` alone.
#[verifier::external_body]
fn lowercase(s: &str) -> (r: String)
    ensures
        r@ == lower_of(s@),
        s@.len() == 0 ==> r@.len() == 0,
{
    s.to_lowercase()
}

/// Whether `a` comes strictly before `b`, comparing characters by code point
/// and a proper prefix before the longer string, as `str`'s ordering does.
pub open spec fn text_lt(a: Seq<char>, b: Seq<char>) -> bool
    decreases a.len(),
{
    if a.len() == 0 {
        b.len() > 0
    } else if b.len() == 0 {
        false
    } else if a[0] != b[0] {
        a[0] < b[0]
    } else {
        text_lt(a.drop_first(), b.drop_first())
    }
}

/// The name a pattern is listed under: its own, or `Unnamed`.
pub open spec fn display_name_spec(p: PatternModel) -> Seq<char> {
    match p.name {
        Some(n) => n,
        None => "Unnamed"@,
    }
}

/// The key a pattern is ordered and searched by.
pub open spec fn sort_key(p: PatternModel) -> Seq<char> {
    lower_of(display_name_spec(p))
}

/// Whether entry `i` comes before entry `j` of `keys`: by key, then by
/// position, so that equal keys keep their order.
pub open spec fn entry_lt(keys: Seq<Seq<char>>, i: int, j: int) -> bool {
    text_lt(keys[i], keys[j]) || (keys[i] == keys[j] && i < j)
}

/// `order` lists each position of `keys` once, ascending by `entry_lt`.
pub open spec fn sorted_order(keys: Seq<Seq<char>>, order: Seq<usize>) -> bool {
    &&& order.len() == keys.len()
    &&& order.no_duplicates()
    &&& forall|k: int| 0 <= k < order.len() ==> #[trigger] order[k] < keys.len()
    &&& forall|k: int| 0 <= k < order.len() - 1 ==> entry_lt(keys, #[trigger] order[k] as int, order[k + 1] as int)
}

/// Whether `path` names a file with the extension `rle`: the part after the
/// last `/` ends in `.rle` with something before the dot.
pub open spec fn is_rle_path(path: Seq<char>) -> bool {
    let name = split(path, '/').last();
    name.len() > 4 && name.skip(name.len() - 4) == ".rle"@
}

/// The patterns among `files` (path and UTF-8 contents, if any) that have
/// the extension `rle`, readable contents, and parse, in file order.
pub open spec fn readable_patterns(files: Seq<(Seq<char>, Option<Seq<char>>)>) -> Seq<PatternModel>
    decreases files.len(),
{
    if files.len() == 0 {
        Seq::empty()
    } else {
        let rest = readable_patterns(files.drop_last());
        let (path, contents) = files.last();
        if is_rle_path(path) && contents is Some && crate::pattern::parse_rle_spec(contents->Some_0) is Ok {
            rest.push(crate::pattern::parse_rle_spec(contents->Some_0)->Ok_0)
        } else {
            rest
        }
    }
}

proof fn lemma_text_lt_total(a: Seq<char>, b: Seq<char>)
    ensures
        a == b || text_lt(a, b) || text_lt(b, a),
        !(text_lt(a, b) && text_lt(b, a)),
    decreases a.len(),
{
    if a.len() > 0 && b.len() > 0 && a[0] == b[0] {
        lemma_text_lt_total(a.drop_first(), b.drop_first());
        if a.drop_first() == b.drop_first() {
            assert(a =~= seq![a[0]] + a.drop_first());
            assert(b =~= seq![b[0]] + b.drop_first());
        }
    } else if a.len() == 0 && b.len() == 0 {
        assert(a =~= b);
    }
}

/// Whether `a` comes strictly before `b`.
fn text_less(a: &Vec<char>, b: &Vec<char>) -> (r: bool)
    ensures
        r == text_lt(a@, b@),
{
    let mut i: usize = 0;
    assert(a@.skip(0) =~= a@);
    assert(b@.skip(0) =~= b@);
    while i < a.len() && i < b.len() && a[i] == b[i]
        invariant
            0 <= i <= a.len(),
            i <= b.len(),
            text_lt(a@, b@) == text_lt(a@.skip(i as int), b@.skip(i as int)),
        decreases a.len() - i,
    {
        assert(a@.skip(i as int).drop_first() =~= a@.skip(i + 1));
        assert(b@.skip(i as int).drop_first() =~= b@.skip(i + 1));
        i += 1;
    }
    if i == a.len() {
        i < b.len()
    } else if i == b.len() {
        false
    } else {
        a[i] < b[i]
    }
}

/// The positions of `keys` ordered by key, equal keys in their own order.
pub fn key_order(keys: &Vec<Vec<char>>) -> (r: Vec<usize>)
    ensures
        sorted_order(keys@.map_values(|k: Vec<char>| k@), r@),
{
    let ghost ks = keys@.map_values(|k: Vec<char>| k@);
    let mut order: Vec<usize> = Vec::new();
    let mut n: usize = 0;
    while n < keys.len()
        invariant
            0 <= n <= keys.len(),
            ks == keys@.map_values(|k: Vec<char>| k@),
            order@.len() == n,
            order@.no_duplicates(),
            forall|k: int| 0 <= k < order@.len() ==> #[trigger] order@[k] < n,
            forall|k: int| 0 <= k < order@.len() - 1 ==> entry_lt(ks, #[trigger] order@[k] as int, order@[k + 1] as int),
        decreases keys.len() - n,
    {
        let mut p: usize = 0;
        while p < order.len() && !text_less(&keys[n], &keys[order[p]])
            invariant
                0 <= p <= order@.len(),
                forall|k: int| 0 <= k < order@.len() ==> #[trigger] order@[k] < n,
                n < keys.len(),
                ks == keys@.map_values(|k: Vec<char>| k@),
                p > 0 ==> entry_lt(ks, order@[p - 1] as int, n as int),
            decreases order@.len() - p,
        {
            proof {
                lemma_text_lt_total(ks[n as int], ks[order@[p as int] as int]);
            }
            p += 1;
        }
        proof {
            if p < order@.len() {
                assert(text_lt(ks[n as int], ks[order@[p as int] as int]));
            }
        }
        let ghost old_order = order@;
        order.insert(p, n);
        assert(order@ == old_order.insert(p as int, n));
        assert forall|k: int| 0 <= k < order@.len() implies #[trigger] order@[k] < n + 1 by {
            if k < p {
                assert(order@[k] == old_order[k]);
            } else if k > p {
                assert(order@[k] == old_order[k - 1]);
            }
        }
        assert forall|k: int| 0 <= k < order@.len() - 1 implies entry_lt(ks, #[trigger] order@[k] as int, order@[k + 1] as int) by {
            if k + 1 < p {
                assert(order@[k] == old_order[k]);
                assert(order@[k + 1] == old_order[k + 1]);
            } else if k + 1 == p {
                assert(order@[k] == old_order[k]);
            } else if k == p {
                assert(order@[k + 1] == old_order[k]);
            } else {
                assert(order@[k] == old_order[k - 1]);
                assert(order@[k + 1] == old_order[k]);
            }
        }
        assert(order@.no_duplicates()) by {
            assert forall|a: int, b: int| 0 <= a < order@.len() && 0 <= b < order@.len() && a != b implies order@[a] != order@[b] by {
                if a != p && b != p {
                    let oa = if a < p { a } else { a - 1 };
                    let ob = if b < p { b } else { b - 1 };
                    assert(order@[a] == old_order[oa]);
                    assert(order@[b] == old_order[ob]);
                } else if a == p {
                    let ob = if b < p { b } else { b - 1 };
                    assert(order@[b] == old_order[ob]);
                } else {
                    let oa = if a < p { a } else { a - 1 };
                    assert(order@[a] == old_order[oa]);
                }
            }
        }
        n += 1;
    }
    order
}

/// A file handed to `PatternCollection::load`: its path, and its contents
/// when they are valid UTF-8.
pub type PatternFile = (String, Option<String>);

/// The view of a list of files.
pub open spec fn files_view(files: Seq<PatternFile>) -> Seq<(Seq<char>, Option<Seq<char>>)> {
    files.map_values(|f: PatternFile| (f.0@, opt_view(f.1)))
}

/// The sort keys of `found`, in order.
pub open spec fn keys_of(found: Seq<PatternModel>) -> Seq<Seq<char>> {
    found.map_values(|p: PatternModel| sort_key(p))
}

/// The entries of `found` at the positions `order`.
pub open spec fn picked(found: Seq<PatternModel>, order: Seq<usize>) -> Seq<PatternModel> {
    order.map_values(|i: usize| found[i as int])
}

/// `listed` is `found` ordered by key, equal keys in their own order.
pub open spec fn ordered_by_key(found: Seq<PatternModel>, listed: Seq<PatternModel>) -> bool {
    exists|order: Seq<usize>| #[trigger] sorted_order(keys_of(found), order) && listed == picked(found, order)
}

/// Whether `path` names a file with the extension `rle`.
pub fn is_rle_file(path: &String) -> (r: bool)
    ensures
        r == is_rle_path(path@),
{
    let chars = chars_of(path.as_str());
    let parts = split_on(&chars, '/');
    let name = &parts[parts.len() - 1];
    let ext = chars_of(".rle");
    proof {
        reveal_strlit(".rle");
    }
    if name.len() <= 4 {
        return false;
    }
    let r = crate::text::matches_at(name, &ext, name.len() - 4);
    assert(r == (name@.skip(name@.len() - 4) == ".rle"@)) by {
        assert(name@.subrange(name@.len() - 4, name@.len() as int) =~= name@.skip(name@.len() - 4));
    }
    r
}

impl Pattern {
    /// The name the pattern is listed under: its own, or `Unnamed`.
    pub fn display_name(&self) -> (r: String)
        ensures
            r@ == display_name_spec(self@),
    {
        match &self.name {
            Some(n) => n.clone(),
            None => "Unnamed".to_owned(),
        }
    }
}

/// The patterns of a directory of RLE files, ordered by name.
pub struct PatternCollection {
    patterns: Vec<Pattern>,
}

impl View for PatternCollection {
    type V = Seq<PatternModel>;

    closed spec fn view(&self) -> Seq<PatternModel> {
        self.patterns@.map_values(|p: Pattern| p@)
    }
}

impl PatternCollection {
    /// The patterns of `files` (path and UTF-8 contents, if readable): those
    /// with the extension `rle` whose contents parse, ordered by lower-case
    /// display name, equal names in file order. Files that do not qualify
    /// are skipped, so loading always succeeds.
    pub fn load(files: &Vec<PatternFile>) -> (r: Result<PatternCollection, ParseError>)
        ensures
            r matches Ok(c) && ordered_by_key(readable_patterns(files_view(files@)), c@),
    {
        let ghost fv = files_view(files@);
        let mut found: Vec<Option<Pattern>> = Vec::new();
        let mut keys: Vec<Vec<char>> = Vec::new();
        let mut i: usize = 0;
        while i < files.len()
            invariant
                0 <= i <= files.len(),
                fv == files_view(files@),
                found@.len() == keys@.len(),
                found@.len() == readable_patterns(fv.take(i as int)).len(),
                forall|k: int| 0 <= k < found@.len() ==> (#[trigger] found@[k]) is Some
                    && found@[k]->Some_0@ == readable_patterns(fv.take(i as int))[k],
                forall|k: int| 0 <= k < keys@.len() ==> (#[trigger] keys@[k])@ == sort_key(
                    readable_patterns(fv.take(i as int))[k],
                ),
            decreases files.len() - i,
        {
            let ghost before = readable_patterns(fv.take(i as int));
            assert(fv.take(i + 1).drop_last() =~= fv.take(i as int));
            assert(fv.take(i + 1).last() == fv[i as int]);
            let ghost now = readable_patterns(fv.take(i + 1));
            if is_rle_file(&files[i].0) {
                match &files[i].1 {
                    Some(text) => {
                        match Pattern::parse_rle(text.as_str()) {
                            Ok(p) => {
                                let name = p.display_name();
                                let key = chars_of(lowercase(name.as_str()).as_str());
                                assert(now == before.push(p@));
                                keys.push(key);
                                found.push(Some(p));
                            },
                            Err(_) => {
                                assert(now == before);
                            },
                        }
                    },
                    None => {
                        assert(now == before);
                    },
                }
            } else {
                assert(now == before);
            }
            i += 1;
        }
        assert(fv.take(files.len() as int) =~= fv);
        let ghost all = readable_patterns(fv);
        let ghost ks = keys@.map_values(|k: Vec<char>| k@);
        assert(ks =~= all.map_values(|p: PatternModel| sort_key(p)));
        let order = key_order(&keys);
        assert(ks == keys_of(all));
        let mut patterns: Vec<Pattern> = Vec::new();
        let mut k: usize = 0;
        while k < order.len()
            invariant
                0 <= k <= order@.len(),
                ks == keys_of(all),
                sorted_order(ks, order@),
                found@.len() == all.len(),
                forall|j: int| k <= j < order@.len() ==> (#[trigger] found@[order@[j] as int]) is Some
                    && found@[order@[j] as int]->Some_0@ == all[order@[j] as int],
                patterns@.map_values(|p: Pattern| p@) == order@.take(k as int).map_values(
                    |i: usize| all[i as int],
                ),
            decreases order@.len() - k,
        {
            let ghost found_before = found@;
            let ghost listed_before = patterns@;
            let mut slot: Option<Pattern> = None;
            found.set_and_swap(order[k], &mut slot);
            assert forall|j: int| k + 1 <= j < order@.len() implies (#[trigger] found@[order@[j] as int]) is Some
                && found@[order@[j] as int]->Some_0@ == all[order@[j] as int] by {
                assert(order@[j] != order@[k as int]);
                assert(found@[order@[j] as int] == found_before[order@[j] as int]);
            }
            match slot {
                Some(p) => {
                    patterns.push(p);
                    assert(order@.take(k + 1).map_values(|i: usize| all[i as int]) =~= order@.take(
                        k as int,
                    ).map_values(|i: usize| all[i as int]).push(all[order@[k as int] as int]));
                    assert(patterns@.map_values(|p: Pattern| p@) =~= listed_before.map_values(
                        |p: Pattern| p@,
                    ).push(p@));
                },
                None => {},
            }
            k += 1;
        }
        assert(order@.take(order@.len() as int) =~= order@);
        let c = PatternCollection { patterns };
        assert(c@ == picked(all, order@));
        assert(ks == keys_of(all));
        assert(sorted_order(keys_of(all), order@));
        Ok(c)
    }

    /// All patterns, in order.
    pub fn patterns(&self) -> (r: &[Pattern])
        ensures
            r@.map_values(|p: Pattern| p@) == self@,
    {
        self.patterns.as_slice()
    }

    /// The number of patterns.
    pub fn len(&self) -> (r: usize)
        ensures
            r == self@.len(),
    {
        self.patterns.len()
    }

    /// Whether there is no pattern.
    pub fn is_empty(&self) -> (r: bool)
        ensures
            r == (self@.len() == 0),
    {
        self.patterns.len() == 0
    }
    /// The patterns whose lower-case display name contains the lower-case
    /// `query`, in order.
    pub fn search(&self, query: &str) -> (r: Vec<&Pattern>)
        ensures
            r@.map_values(|p: &Pattern| p@) == self@.filter(
                |p: PatternModel| contains(sort_key(p), lower_of(query@)),
            ),
    {
        let query_lower = lowercase(query);
        let mut out: Vec<&Pattern> = Vec::new();
        let mut i: usize = 0;
        while i < self.patterns.len()
            invariant
                0 <= i <= self.patterns.len(),
                query_lower@ == lower_of(query@),
                out@.map_values(|p: &Pattern| p@) == self@.take(i as int).filter(
                    |p: PatternModel| contains(sort_key(p), lower_of(query@)),
                ),
            decreases self.patterns.len() - i,
        {
            let p = &self.patterns[i];
            let name = p.display_name();
            let name_lower = lowercase(name.as_str());
            let ghost before = out@;
            proof {
                let f = |q: PatternModel| contains(sort_key(q), lower_of(query@));
                assert(self@.take(i + 1) =~= self@.take(i as int).push(p@));
                self@.take(i as int).lemma_filter_push(p@, f);
            }
            if name_matches(name_lower.as_str(), query_lower.as_str()) {
                out.push(p);
                assert(out@.map_values(|q: &Pattern| q@) =~= before.map_values(|q: &Pattern| q@).push(p@));
            }
            i += 1;
        }
        assert(self@.take(self@.len() as int) =~= self@);
        out
    }
}

/// Whether the lower-case name `name_lower` contains the lower-case query
/// `query_lower`; an empty query matches every name.
pub fn name_matches(name_lower: &str, query_lower: &str) -> (r: bool)
    ensures
        r == contains(name_lower@, query_lower@),
{
    includes(&chars_of(name_lower), &chars_of(query_lower))
}

} // verus!
