use compress_jsonl::filter::{is_allowed_language, is_candidate, is_data_file, select_sources};
use compress_jsonl::paths::{map_destination, parent_of, PathError};

fn path(parts: &[&str]) -> Vec<String> {
    parts.iter().map(|s| s.to_string()).collect()
}

#[test]
fn every_listed_language_is_allowed() {
    for code in ["ar", "en", "es", "fr", "hi", "ja", "pt", "ru", "zh"] {
        assert!(is_allowed_language(code), "{}", code);
    }
}

#[test]
fn other_directory_names_are_refused() {
    for name in ["xx", "EN", "e", "enn", "", "de", "en "] {
        assert!(!is_allowed_language(name), "{}", name);
    }
}

#[test]
fn data_file_needs_a_name_before_the_extension() {
    assert!(is_data_file("a.jsonl"));
    assert!(is_data_file("part.001.jsonl"));
    assert!(!is_data_file(".jsonl"));
    assert!(!is_data_file("jsonl"));
    assert!(!is_data_file("a.json"));
    assert!(!is_data_file("a.jsonl.gz"));
    assert!(!is_data_file("a.JSONL"));
}

#[test]
fn candidate_needs_language_directory_and_data_file() {
    assert!(is_candidate(&path(&["en", "a.jsonl"])));
    assert!(is_candidate(&path(&["zh", "x", "y", "z.jsonl"])));
    assert!(!is_candidate(&path(&["xx", "b.jsonl"])));
    assert!(!is_candidate(&path(&["a.jsonl"])));
    assert!(!is_candidate(&path(&["en", "notes.txt"])));
    assert!(!is_candidate(&path(&[])));
}

#[test]
fn disallowed_directory_yields_nothing() {
    let found = vec![
        path(&["xx", "b.jsonl"]),
        path(&["xx", "deep", "c.jsonl"]),
        path(&["de", "d.jsonl"]),
    ];
    assert!(select_sources(&found).is_empty());
}

#[test]
fn selection_keeps_order_and_only_candidates() {
    let found = vec![
        path(&["fr", "one.jsonl"]),
        path(&["xx", "b.jsonl"]),
        path(&["en", "sub", "two.jsonl"]),
        path(&["en", "readme.md"]),
        path(&["ar", "three.jsonl"]),
    ];
    let kept = select_sources(&found);
    assert_eq!(
        kept,
        vec![path(&["fr", "one.jsonl"]), path(&["en", "sub", "two.jsonl"]), path(&["ar", "three.jsonl"])]
    );
}

#[test]
fn destination_mirrors_the_source_tree() {
    let src_root = path(&["/", "data", "src"]);
    let dst_root = path(&["/", "data", "gz"]);
    let source = path(&["/", "data", "src", "en", "sub", "deeper", "name.jsonl"]);
    let dest = map_destination(&source, &src_root, &dst_root).unwrap();
    assert_eq!(dest, path(&["/", "data", "gz", "en", "sub", "deeper", "name.jsonl.gz"]));
}

#[test]
fn destination_keeps_the_source_extension() {
    let dest = map_destination(&path(&["s", "ja", "f.jsonl"]), &path(&["s"]), &path(&["d", "e"])).unwrap();
    assert_eq!(dest, path(&["d", "e", "ja", "f.jsonl.gz"]));
}

#[test]
fn source_outside_the_root_is_an_error() {
    let r = map_destination(&path(&["/", "other", "en", "a.jsonl"]), &path(&["/", "data"]), &path(&["/", "gz"]));
    assert_eq!(r, Err(PathError::NotUnderRoot));
}

#[test]
fn the_root_itself_is_not_under_the_root() {
    let r = map_destination(&path(&["/", "data"]), &path(&["/", "data"]), &path(&["/", "gz"]));
    assert_eq!(r, Err(PathError::NotUnderRoot));
}

#[test]
fn parent_drops_the_file_name() {
    assert_eq!(parent_of(&path(&["/", "gz", "en", "a.jsonl.gz"])), path(&["/", "gz", "en"]));
    assert_eq!(parent_of(&path(&["a.jsonl.gz"])), path(&[]));
}
