use findex::entry::AppInfo;
use findex::query::{filter, Matcher};

fn app(name: &str) -> AppInfo {
    AppInfo { name: name.to_string(), command: name.to_lowercase(), icon: "x".to_string() }
}

fn names(apps: &[AppInfo]) -> Vec<&str> {
    apps.iter().map(|a| a.name.as_str()).collect()
}

fn catalog() -> Vec<AppInfo> {
    vec![app("Firefox"), app("files"), app("GIMP"), app("Fish Shell"), app(".*weird"), app("Terminal")]
}

#[test]
fn empty_text_shows_nothing() {
    let r = filter(&catalog(), "").unwrap();
    assert!(r.is_empty());
    let r = filter(&Vec::new(), "").unwrap();
    assert!(r.is_empty());
}

#[test]
fn prefix_is_case_insensitive_and_ordered() {
    let r = filter(&catalog(), "F").unwrap();
    assert_eq!(names(&r), vec!["Firefox", "files", "Fish Shell"]);
    let r = filter(&catalog(), "fi").unwrap();
    assert_eq!(names(&r), vec!["Firefox", "files", "Fish Shell"]);
    let r = filter(&catalog(), "FIL").unwrap();
    assert_eq!(names(&r), vec!["files"]);
}

#[test]
fn match_is_anchored_at_the_start() {
    let r = filter(&catalog(), "shell").unwrap();
    assert!(r.is_empty());
    let r = filter(&catalog(), "gimp").unwrap();
    assert_eq!(names(&r), vec!["GIMP"]);
}

#[test]
fn metacharacters_match_themselves() {
    let r = filter(&catalog(), ".*").unwrap();
    assert_eq!(names(&r), vec![".*weird"]);
    let r = filter(&catalog(), ".").unwrap();
    assert_eq!(names(&r), vec![".*weird"]);
    let cat = vec![app("C++ IDE"), app("Cxx"), app("(paren)"), app("a+b")];
    assert_eq!(names(&filter(&cat, "c+").unwrap()), vec!["C++ IDE"]);
    assert_eq!(names(&filter(&cat, "(").unwrap()), vec!["(paren)"]);
    assert!(filter(&cat, "a*").unwrap().is_empty());
}

#[test]
fn no_match_gives_empty() {
    assert!(filter(&catalog(), "zzz").unwrap().is_empty());
    assert!(filter(&catalog(), "firefox2").unwrap().is_empty());
}

#[test]
fn duplicates_are_kept() {
    let cat = vec![app("Term"), app("Other"), app("term")];
    let r = filter(&cat, "TE").unwrap();
    assert_eq!(names(&r), vec!["Term", "term"]);
    assert_eq!(r[1].command, "term");
}

#[test]
fn literal_prefix_matcher() {
    let m = Matcher::literal_prefix(".*").ok().unwrap();
    assert!(m.matches(".*abc"));
    assert!(m.matches(".*"));
    assert!(!m.matches("abc"));
    assert!(!m.matches("x.*"));
    let m = Matcher::literal_prefix("a|b").ok().unwrap();
    assert!(m.matches("a|bc"));
    assert!(!m.matches("b"));
}

#[test]
fn pattern_text_never_fails() {
    let cat = vec![app("([+*?$|\\ odd"), app("Firefox")];
    for text in ["(", "[", "+", "*", "?", "$", "|", "\\", "^", "([+*?$|\\"] {
        assert!(filter(&cat, text).is_ok(), "text {:?}", text);
    }
    assert_eq!(names(&filter(&cat, "([+*?$|\\").unwrap()), vec!["([+*?$|\\ odd"]);
}

#[test]
fn longer_text_never_adds_results() {
    let cat = catalog();
    let short = filter(&cat, "f").unwrap();
    let long = filter(&cat, "fi").unwrap();
    let longer = filter(&cat, "fir").unwrap();
    assert_eq!(names(&short), vec!["Firefox", "files", "Fish Shell"]);
    assert_eq!(names(&long), vec!["Firefox", "files", "Fish Shell"]);
    assert_eq!(names(&longer), vec!["Firefox"]);
}
