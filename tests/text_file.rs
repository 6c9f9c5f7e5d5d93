use rust_basics::lines::split_lines;
use rust_basics::search::{line_contains, scan_first_match, search_first_match};
use rust_basics::workflow::{
    labelled_lines, search_request, TextFile, APPENDED_TEXT, DEFAULT_PATH, LINE_LABEL, NAMES_TEXT,
};

fn strings(items: &[&str]) -> Vec<String> {
    items.iter().map(|s| s.to_string()).collect()
}

fn standard_file() -> TextFile {
    let mut f = TextFile::from_content(String::new());
    f.initialize();
    f.append(APPENDED_TEXT);
    f
}

#[test]
fn initialize_writes_the_names() {
    let mut f = TextFile::from_content("old content\nmore".to_string());
    f.initialize();
    assert_eq!(f.content(), "Moses\nChristopher\nCarrotPi");
    assert_eq!(f.content(), NAMES_TEXT);
}

#[test]
fn initialize_twice_same_as_once() {
    let mut once = TextFile::from_content("anything".to_string());
    once.initialize();
    let mut twice = TextFile::from_content("anything".to_string());
    twice.initialize();
    twice.initialize();
    assert_eq!(once.content(), twice.content());
}

#[test]
fn initialize_after_append_discards_appended() {
    let mut f = standard_file();
    f.initialize();
    assert_eq!(f.content(), NAMES_TEXT);
}

#[test]
fn append_keeps_existing_content() {
    let mut f = TextFile::from_content("a\nb".to_string());
    f.append("\nc");
    assert_eq!(f.content(), "a\nb\nc");
}

#[test]
fn append_then_read_all_in_order() {
    let f = standard_file();
    assert_eq!(f.read_all(), strings(&["Moses", "Christopher", "CarrotPi", "Steve"]));
}

#[test]
fn read_all_round_trips_initialized_content() {
    let mut f = TextFile::from_content(String::new());
    f.initialize();
    assert_eq!(f.read_all().join("\n"), NAMES_TEXT);
}

#[test]
fn split_lines_round_trips_edge_texts() {
    for text in ["", "\n", "a\n\nb\n", "x\r\ny", "one", "\n\n", "ünï\ncödé"] {
        assert_eq!(split_lines(text).join("\n"), text);
    }
}

#[test]
fn split_lines_empty_text_is_one_empty_line() {
    assert_eq!(split_lines(""), strings(&[""]));
}

#[test]
fn split_lines_keeps_empty_lines() {
    assert_eq!(split_lines("a\n\nb\n"), strings(&["a", "", "b", ""]));
    assert_eq!(split_lines("x\r\ny"), strings(&["x\r", "y"]));
}

#[test]
fn search_finds_substring_in_first_line() {
    assert!(search_first_match(&strings(&["abc", "def", "abcd"]), "bc"));
}

#[test]
fn search_without_match_is_false() {
    assert!(!search_first_match(&strings(&["abc", "def"]), "xyz"));
}

#[test]
fn search_is_case_sensitive() {
    assert!(!search_first_match(&strings(&["Moses"]), "moses"));
}

#[test]
fn search_in_no_lines_is_false() {
    assert!(!search_first_match(&Vec::new(), "a"));
    assert!(!search_first_match(&Vec::new(), ""));
}

#[test]
fn empty_needle_matches_any_line() {
    assert!(search_first_match(&strings(&[""]), ""));
    assert_eq!(scan_first_match(&strings(&["x", "y"]), ""), (true, 1));
}

#[test]
fn scan_stops_at_first_match() {
    assert_eq!(scan_first_match(&strings(&["abc", "def", "abcd"]), "bc"), (true, 1));
    assert_eq!(scan_first_match(&strings(&["x", "ab", "ab", "ab"]), "ab"), (true, 2));
}

#[test]
fn scan_without_match_examines_every_line() {
    assert_eq!(scan_first_match(&strings(&["abc", "def"]), "xyz"), (false, 2));
}

#[test]
fn line_contains_cases() {
    assert!(line_contains("Christopher", "stop"));
    assert!(line_contains("Christopher", "Christopher"));
    assert!(!line_contains("Christopher", "Christophers"));
    assert!(!line_contains("", "a"));
    assert!(line_contains("", ""));
    assert!(line_contains("naïve café", "é"));
    assert!(!line_contains("aab", "abb"));
}

#[test]
fn labelled_lines_prefix_each_line() {
    let shown = labelled_lines(&strings(&["Moses", ""]));
    assert_eq!(shown, strings(&["line-by-line: Moses", "line-by-line: "]));
    assert!(shown.iter().all(|l| l.starts_with(LINE_LABEL)));
}

#[test]
fn run_without_arguments_shows_four_lines_and_no_search() {
    let f = standard_file();
    assert_eq!(f.content(), "Moses\nChristopher\nCarrotPi\nSteve");
    let shown = labelled_lines(&f.read_all());
    assert_eq!(shown.len(), 4);
    assert!(shown.iter().all(|l| l.starts_with("line-by-line:")));
    assert!(search_request(&Vec::new()).is_none());
    assert!(search_request(&strings(&["only-one"])).is_none());
}

#[test]
fn run_with_matching_needle_finds_a_match() {
    let req = search_request(&strings(&[DEFAULT_PATH, "Moses"])).unwrap();
    assert_eq!(req.path, "text-data/names.txt");
    assert_eq!(req.needle, "Moses");
    let f = standard_file();
    assert!(search_first_match(&f.read_all(), &req.needle));
}

#[test]
fn run_with_missing_needle_finds_no_match() {
    let req = search_request(&strings(&[DEFAULT_PATH, "Zzz"])).unwrap();
    let f = standard_file();
    assert!(!search_first_match(&f.read_all(), &req.needle));
}

#[test]
fn search_request_ignores_extra_arguments() {
    let req = search_request(&strings(&["p", "n", "extra"])).unwrap();
    assert_eq!(req.path, "p");
    assert_eq!(req.needle, "n");
}
