use chatcore::search::find_by_globs;
use shlex::Shlex;

fn shlex_split(input: &str) -> Vec<String> {
    let shlex = Shlex::new(input);
    shlex.collect()
}

#[test]
fn shlex_base() {
    assert_eq!(shlex_split("Hello world"), &["Hello", "world"]);
    assert_eq!(shlex_split(r#"Hello world"#), &["Hello", "world"]);
    assert_eq!(shlex_split(r#"Hello "world""#), &["Hello", "world"]);
    assert_eq!(shlex_split(r#"hi \"world\""#), &["hi", "\"world\""]);
    assert_eq!(shlex_split(r#"hi !world"#), &["hi", "!world"]);
    assert_eq!(shlex_split(r#"hi !"world""#), &["hi", "!world"]);
}

#[test]
fn find_by_globs_test() {
    let paths: Vec<String> = vec![r#"local work\savv2\something.xlsx"#.to_string()];

    assert_eq!(find_by_globs(&paths, "savv something").unwrap().len(), 1);
    assert_eq!(find_by_globs(&paths, "something savv").unwrap().len(), 1);
    assert_eq!(find_by_globs(&paths, "something").unwrap().len(), 1);
    assert_eq!(find_by_globs(&paths, "something not").unwrap().len(), 0);
    assert_eq!(find_by_globs(&paths, "something !savv").unwrap().len(), 0);
    assert_eq!(find_by_globs(&paths, "").unwrap().len(), 1);
    assert_eq!(find_by_globs(&paths, "work").unwrap().len(), 1);
    assert_eq!(find_by_globs(&paths, r"work\\savv").unwrap().len(), 1);
}

#[test]
fn find_by_globs_keeps_matching_paths_only() {
    let paths: Vec<String> = vec![
        "reports/alpha.pdf".to_string(),
        "reports/beta.txt".to_string(),
        "notes/alpha.txt".to_string(),
    ];
    let hit = find_by_globs(&paths, "alpha").unwrap();
    assert_eq!(hit, vec!["reports/alpha.pdf".to_string(), "notes/alpha.txt".to_string()]);
    let hit = find_by_globs(&paths, "alpha !pdf").unwrap();
    assert_eq!(hit, vec!["notes/alpha.txt".to_string()]);
    let hit = find_by_globs(&paths, "ALPHA reports").unwrap();
    assert_eq!(hit, vec!["reports/alpha.pdf".to_string()]);
}
