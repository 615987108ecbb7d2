use multi_agent::{is_rle_file, name_matches, ParseError, Pattern, PatternCollection};

const GLIDER: &str = "#N Glider\n#O Richard K. Guy\n#C The smallest spaceship.\n#c Found in 1969.\nx = 3, y = 3, rule = B3/S23\nbob$2bo$3o!\n";

fn sorted(mut cells: Vec<(i64, i64)>) -> Vec<(i64, i64)> {
    cells.sort();
    cells
}

#[test]
fn parses_glider_file() {
    let p = Pattern::parse_rle(GLIDER).unwrap();
    assert_eq!(p.name.as_deref(), Some("Glider"));
    assert_eq!(p.author.as_deref(), Some("Richard K. Guy"));
    assert_eq!(
        p.comments,
        vec!["The smallest spaceship.".to_string(), "Found in 1969.".to_string()]
    );
    assert_eq!(p.width, 3);
    assert_eq!(p.height, 3);
    assert_eq!(p.rule, "B3/S23");
    assert_eq!(p.cells, vec![(1, 0), (2, 1), (0, 2), (1, 2), (2, 2)]);
}

#[test]
fn rule_defaults_to_conway() {
    let p = Pattern::parse_rle("x=2,y=1\n2o!").unwrap();
    assert_eq!(p.rule, "B3/S23");
    assert_eq!(p.name, None);
    assert_eq!(p.cells, vec![(0, 0), (1, 0)]);
}

#[test]
fn header_reads_rule_and_data_spans_lines() {
    let p = Pattern::parse_rle("x = 4, y = 2, rule = B36/S23\r\n2o\r\n$4o!").unwrap();
    assert_eq!(p.rule, "B36/S23");
    assert_eq!(sorted(p.cells), vec![(0, 0), (0, 1), (1, 0), (1, 1), (2, 1), (3, 1)]);
}

#[test]
fn data_after_bang_is_ignored() {
    let p = Pattern::parse_rle("x = 1, y = 1\no!zzz").unwrap();
    assert_eq!(p.cells, vec![(0, 0)]);
}

#[test]
fn run_counts_apply_to_rows() {
    let p = Pattern::parse_rle("x = 3, y = 4\n3b2$o!").unwrap();
    assert_eq!(p.cells, vec![(0, 2)]);
}

#[test]
fn missing_header_is_reported() {
    assert!(matches!(Pattern::parse_rle("#N Lonely\nbo!"), Err(ParseError::MissingHeader)));
    assert!(matches!(Pattern::parse_rle(""), Err(ParseError::MissingHeader)));
    assert!(matches!(Pattern::parse_rle("x = 3\nbo!"), Err(ParseError::MissingHeader)));
}

#[test]
fn bad_header_value_is_reported() {
    match Pattern::parse_rle("x = abc, y = 2\no!") {
        Err(ParseError::InvalidHeader(msg)) => assert_eq!(msg, "Invalid x value:  abc"),
        other => panic!("unexpected {:?}", other),
    }
    match Pattern::parse_rle("x = 1, y=-2\no!") {
        Err(ParseError::InvalidHeader(msg)) => assert_eq!(msg, "Invalid y value: -2"),
        other => panic!("unexpected {:?}", other),
    }
}

#[test]
fn header_value_accepts_plus_and_rejects_overflow() {
    assert_eq!(Pattern::parse_rle("x = +7, y = 1\no!").unwrap().width, 7);
    assert!(matches!(
        Pattern::parse_rle("x = 4294967296, y = 1\no!"),
        Err(ParseError::InvalidHeader(_))
    ));
    assert_eq!(Pattern::parse_rle("x = 4294967295, y = 1\no!").unwrap().width, u32::MAX);
}

#[test]
fn unknown_character_is_reported() {
    match Pattern::parse_rle("x = 1, y = 1\nz!") {
        Err(ParseError::InvalidPattern(msg)) => assert_eq!(msg, "Unknown character: 'z'"),
        other => panic!("unexpected {:?}", other),
    }
}

#[test]
fn oversized_run_count_is_reported() {
    assert!(matches!(
        Pattern::parse_rle("x = 1, y = 1\n99999999999o!"),
        Err(ParseError::InvalidPattern(_))
    ));
}

#[test]
fn display_name_falls_back_to_unnamed() {
    let named = Pattern::parse_rle(GLIDER).unwrap();
    let unnamed = Pattern::parse_rle("x = 1, y = 1\no!").unwrap();
    assert_eq!(named.display_name(), "Glider");
    assert_eq!(unnamed.display_name(), "Unnamed");
}

fn file(path: &str, contents: Option<&str>) -> (String, Option<String>) {
    (path.to_string(), contents.map(|c| c.to_string()))
}

#[test]
fn rle_extension_check() {
    assert!(is_rle_file(&"glider.rle".to_string()));
    assert!(is_rle_file(&"dir/a.b.rle".to_string()));
    assert!(!is_rle_file(&".rle".to_string()));
    assert!(!is_rle_file(&"dir/.rle".to_string()));
    assert!(!is_rle_file(&"glider.txt".to_string()));
    assert!(!is_rle_file(&"rle".to_string()));
}

#[test]
fn collection_loads_sorted_and_skips_bad_files() {
    let files = vec![
        file("zeta.rle", Some("#N zeta\nx = 1, y = 1\no!")),
        file("notes.txt", Some("#N Notes\nx = 1, y = 1\no!")),
        file("Alpha.rle", Some("#N Alpha\nx = 1, y = 1\no!")),
        file("broken.rle", Some("#N Broken\nx = 1, y = 1\nq!")),
        file("binary.rle", None),
        file("beta.rle", Some("#N beta\nx = 1, y = 1\n2o!")),
    ];
    let collection = PatternCollection::load(&files).unwrap();
    let names: Vec<String> = collection.patterns().iter().map(|p| p.display_name()).collect();
    assert_eq!(names, vec!["Alpha", "beta", "zeta"]);
    assert_eq!(collection.len(), 3);
    assert!(!collection.is_empty());
}

#[test]
fn collection_keeps_file_order_for_equal_names() {
    let files = vec![
        file("b.rle", Some("#N Same\nx = 2, y = 1\n2o!")),
        file("a.rle", Some("#N same\nx = 1, y = 1\no!")),
    ];
    let collection = PatternCollection::load(&files).unwrap();
    let widths: Vec<u32> = collection.patterns().iter().map(|p| p.width).collect();
    assert_eq!(widths, vec![2, 1]);
}

#[test]
fn empty_collection() {
    let collection = PatternCollection::load(&Vec::new()).unwrap();
    assert!(collection.is_empty());
    assert_eq!(collection.len(), 0);
    assert!(collection.search("x").is_empty());
}

#[test]
fn search_is_case_insensitive() {
    let files = vec![
        file("g.rle", Some("#N Glider Gun\nx = 1, y = 1\no!")),
        file("b.rle", Some("#N Blinker\nx = 1, y = 1\no!")),
        file("s.rle", Some("#N Small GLIDER\nx = 1, y = 1\no!")),
    ];
    let collection = PatternCollection::load(&files).unwrap();
    let found: Vec<String> = collection.search("gLiDeR").iter().map(|p| p.display_name()).collect();
    assert_eq!(found, vec!["Glider Gun", "Small GLIDER"]);
    assert_eq!(collection.search("").len(), 3);
    assert!(collection.search("pulsar").is_empty());
}

#[test]
fn name_matching_on_lowered_text() {
    assert!(name_matches("glider gun", "gun"));
    assert!(name_matches("glider gun", ""));
    assert!(!name_matches("glider", "Glider"));
    assert!(!name_matches("gun", "glider gun"));
}
