use todo_check::diff_source::{diff_line_hit, extract_for_existing_files, DiffLine};
use todo_check::error::ScanError;
use todo_check::matcher::{LineMatcher, TodoMatcher};
use todo_check::record::{render_trimmed, to_decimal, TodoLine};
use todo_check::scan::{render_all, scan};
use todo_check::text::split_lines;
use todo_check::untracked::{
    decode_lines, extract_for_new_files, hits_in_lines, new_file_paths, NewFile, StatusEntry,
};

fn matcher() -> TodoMatcher {
    match TodoMatcher::new() {
        Ok(m) => m,
        Err(e) => panic!("{}", e.message()),
    }
}

fn diff_line(path: &str, is_addition: bool, content: &[u8], new_lineno: Option<u32>) -> DiffLine {
    DiffLine { path: path.as_bytes().to_vec(), is_addition, content: content.to_vec(), new_lineno }
}

fn new_file(path: &str, content: &[u8]) -> NewFile {
    NewFile { path: path.to_string(), content: content.to_vec() }
}

fn summary(records: &[TodoLine]) -> Vec<(String, String, u64)> {
    records.iter().map(|t| (t.line.clone(), t.filename.clone(), t.lineno)).collect()
}

#[test]
fn matcher_accepts_any_case() {
    let m = matcher();
    assert!(m.matches("// Todo"));
    assert!(m.matches("// TODO"));
    assert!(m.matches("// ToDo"));
    assert!(m.matches("    let x = 1; // todo: later"));
    assert!(m.matches("//TODO"));
}

#[test]
fn matcher_needs_comment_opener_first() {
    let m = matcher();
    assert!(!m.matches("todo"));
    assert!(!m.matches("TODO: no comment"));
    assert!(!m.matches("todo // after"));
    assert!(!m.matches("/ / todo"));
    assert!(!m.matches("// to do"));
    assert!(!m.matches("//\ntodo"));
}

#[test]
fn split_lines_follows_line_endings() {
    assert_eq!(split_lines(b"a\r\nb\nc"), vec![b"a".to_vec(), b"b".to_vec(), b"c".to_vec()]);
    assert_eq!(split_lines(b""), Vec::<Vec<u8>>::new());
    assert_eq!(split_lines(b"a\n"), vec![b"a".to_vec()]);
    assert_eq!(split_lines(b"a\r"), vec![b"a\r".to_vec()]);
    assert_eq!(split_lines(b"\n\n"), vec![Vec::<u8>::new(), Vec::<u8>::new()]);
}

#[test]
fn decode_lines_drops_binary_lines() {
    let lines = vec![b"one".to_vec(), vec![0xff, 0xfe], b"two".to_vec()];
    assert_eq!(decode_lines(&lines), vec!["one".to_string(), "two".to_string()]);
}

#[test]
fn decimal_notation() {
    assert_eq!(to_decimal(0), "0");
    assert_eq!(to_decimal(7), "7");
    assert_eq!(to_decimal(42), "42");
    assert_eq!(to_decimal(1000), "1000");
    assert_eq!(to_decimal(u64::MAX), "18446744073709551615");
}

#[test]
fn render_trims_trailing_whitespace_only() {
    let t = TodoLine::new("  // TODO: x  \n".to_string(), "src/a.rs".to_string(), 7);
    assert_eq!(t.render(), "src/a.rs:7 -   // TODO: x");
    assert_eq!(render_trimmed("f", 12, "x"), "f:12 - x");
}

#[test]
fn render_all_keeps_order() {
    let records = vec![
        TodoLine::new("// todo\n".to_string(), "b.rs".to_string(), 3),
        TodoLine::new("// TODO".to_string(), "a.rs".to_string(), 0),
    ];
    assert_eq!(render_all(&records), vec!["b.rs:3 - // todo".to_string(), "a.rs:0 - // TODO".to_string()]);
}

#[test]
fn clean_directory_no_matches() {
    let m = matcher();
    let entries = vec![StatusEntry { is_new: false, path: Some("tracked.rs".to_string()) }];
    let paths = new_file_paths(&entries).ok().unwrap();
    assert!(paths.is_empty());
    let r = scan(&m, &Vec::new(), &Vec::new()).ok().unwrap();
    assert!(r.is_empty());
}

#[test]
fn changed_line_detected_with_new_line_number() {
    let m = matcher();
    let diff = vec![
        diff_line("src/lib.rs", false, b"fn a() {}\n", Some(1)),
        diff_line("src/lib.rs", false, b"let x = 1;\n", None),
        diff_line("src/lib.rs", true, b"// TODO: x\n", Some(2)),
        diff_line("src/lib.rs", false, b"fn b() {}\n", Some(3)),
    ];
    let r = scan(&m, &diff, &Vec::new()).ok().unwrap();
    assert_eq!(summary(&r), vec![("// TODO: x\n".to_string(), "src/lib.rs".to_string(), 2)]);
}

#[test]
fn removed_line_never_reported() {
    let m = matcher();
    let diff = vec![
        diff_line("src/lib.rs", false, b"// TODO: old\n", None),
        diff_line("src/lib.rs", true, b"done\n", Some(4)),
    ];
    let r = scan(&m, &diff, &Vec::new()).ok().unwrap();
    assert!(r.is_empty());
}

#[test]
fn binary_diff_line_skipped() {
    let m = matcher();
    let diff = vec![
        diff_line("data.txt", true, &[0xff, 0xfe, b'/', b'/', b't', b'o', b'd', b'o', b'\n'], Some(1)),
        diff_line("data.txt", true, b"// todo here\n", Some(2)),
    ];
    let r = scan(&m, &diff, &Vec::new()).ok().unwrap();
    assert_eq!(summary(&r), vec![("// todo here\n".to_string(), "data.txt".to_string(), 2)]);
}

#[test]
fn invalid_diff_path_fails_on_match_only() {
    let m = matcher();
    let bad = DiffLine { path: vec![0xff, b'a'], is_addition: true, content: b"// TODO\n".to_vec(), new_lineno: Some(1) };
    let mut results = vec![TodoLine::new("x".to_string(), "y".to_string(), 1)];
    assert_eq!(extract_for_existing_files(&vec![bad], &m, &mut results), Err(ScanError::InvalidPath));
    assert_eq!(results.len(), 1);
    let quiet = DiffLine { path: vec![0xff, b'a'], is_addition: true, content: b"plain\n".to_vec(), new_lineno: Some(1) };
    assert_eq!(extract_for_existing_files(&vec![quiet], &m, &mut results), Ok(()));
    assert_eq!(results.len(), 1);
}

#[test]
fn diff_line_hit_outcomes() {
    let m = matcher();
    let hit = diff_line_hit(&m, "// ToDo\n".to_string(), Some("f.rs".to_string()), 9).ok().unwrap().unwrap();
    assert_eq!((hit.line.as_str(), hit.filename.as_str(), hit.lineno), ("// ToDo\n", "f.rs", 9));
    assert!(diff_line_hit(&m, "nothing\n".to_string(), None, 9).ok().unwrap().is_none());
    assert_eq!(diff_line_hit(&m, "// todo\n".to_string(), None, 9).err(), Some(ScanError::InvalidPath));
}

#[test]
fn untracked_file_line_found_at_index() {
    let m = matcher();
    let files = vec![new_file("new.rs", b"fn main() {}\n\n// todo\n")];
    let r = scan(&m, &Vec::new(), &files).ok().unwrap();
    assert_eq!(summary(&r), vec![("// todo".to_string(), "new.rs".to_string(), 2)]);
}

#[test]
fn untracked_numbering_skips_binary_lines() {
    let m = matcher();
    let mut results = Vec::new();
    extract_for_new_files(&vec![new_file("n.txt", b"x\n\xff\xfe\n// TODO\r\n")], &m, &mut results);
    assert_eq!(summary(&results), vec![("// TODO".to_string(), "n.txt".to_string(), 1)]);
}

#[test]
fn hits_in_lines_numbers_from_zero() {
    let m = matcher();
    let texts = vec!["// todo a".to_string(), "b".to_string(), "// TODO c".to_string()];
    let r = hits_in_lines(&m, &"p".to_string(), &texts);
    assert_eq!(
        summary(&r),
        vec![("// todo a".to_string(), "p".to_string(), 0), ("// TODO c".to_string(), "p".to_string(), 2)]
    );
}

#[test]
fn new_paths_keep_only_new_entries() {
    let entries = vec![
        StatusEntry { is_new: true, path: Some("a".to_string()) },
        StatusEntry { is_new: false, path: Some("b".to_string()) },
        StatusEntry { is_new: false, path: None },
        StatusEntry { is_new: true, path: Some("c".to_string()) },
    ];
    assert_eq!(new_file_paths(&entries).ok().unwrap(), vec!["a".to_string(), "c".to_string()]);
}

#[test]
fn new_entry_without_text_path_fails() {
    let entries = vec![
        StatusEntry { is_new: true, path: Some("a".to_string()) },
        StatusEntry { is_new: true, path: None },
    ];
    assert_eq!(new_file_paths(&entries).err(), Some(ScanError::InvalidPath));
}

#[test]
fn tracked_matches_precede_untracked() {
    let m = matcher();
    let diff = vec![diff_line("z.rs", true, b"// TODO: z\n", Some(5))];
    let files = vec![new_file("a.rs", b"// TODO: a\n")];
    let r = scan(&m, &diff, &files).ok().unwrap();
    assert_eq!(
        summary(&r),
        vec![("// TODO: z\n".to_string(), "z.rs".to_string(), 5), ("// TODO: a".to_string(), "a.rs".to_string(), 0)]
    );
}

#[test]
fn diff_error_stops_scan() {
    let m = matcher();
    let diff = vec![DiffLine { path: vec![0xc3], is_addition: true, content: b"// todo\n".to_vec(), new_lineno: Some(1) }];
    let files = vec![new_file("a.rs", b"// TODO\n")];
    assert_eq!(scan(&m, &diff, &files).err(), Some(ScanError::InvalidPath));
}

#[test]
fn matcher_always_builds() {
    assert!(TodoMatcher::new().is_ok());
}

#[test]
fn unchanged_context_line_not_reported() {
    let m = matcher();
    let diff = vec![
        diff_line("src/lib.rs", false, b"// TODO: already committed\n", Some(1)),
        diff_line("src/lib.rs", false, b"let x = 1;\n", None),
        diff_line("src/lib.rs", true, b"// TODO: x\n", Some(2)),
    ];
    let r = scan(&m, &diff, &Vec::new()).ok().unwrap();
    assert_eq!(summary(&r), vec![("// TODO: x\n".to_string(), "src/lib.rs".to_string(), 2)]);
}

#[test]
fn untracked_directories_left_out() {
    let entries = vec![
        StatusEntry { is_new: true, path: Some("build/".to_string()) },
        StatusEntry { is_new: true, path: Some("notes.txt".to_string()) },
        StatusEntry { is_new: true, path: Some("/".to_string()) },
    ];
    assert_eq!(new_file_paths(&entries).ok().unwrap(), vec!["notes.txt".to_string()]);
}

#[test]
fn render_keeps_leading_whitespace() {
    let t = TodoLine::new("\t// todo \r\n".to_string(), "x".to_string(), 0);
    assert_eq!(t.render(), "x:0 - \t// todo");
}
