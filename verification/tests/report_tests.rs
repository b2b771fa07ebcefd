use search::errors::AppError;
use search::result::{format_result, format_usize, scan_results, SearchResult};

#[test]
fn decimal_rendering_is_exact() {
    assert_eq!(format_usize(0), b"0".to_vec());
    assert_eq!(format_usize(7), b"7".to_vec());
    assert_eq!(format_usize(10), b"10".to_vec());
    assert_eq!(format_usize(105), b"105".to_vec());
    assert_eq!(format_usize(987654321), b"987654321".to_vec());
}

#[test]
fn content_match_line_has_double_colon_and_offset() {
    let r = SearchResult::ContentMatch { path: b"a/b.txt".to_vec(), offset: 42 };
    let line = format_result(&r);
    assert_eq!(line, Some(b"a/b.txt::42\n".to_vec()));
}

#[test]
fn name_match_line_is_the_bare_path() {
    let r = SearchResult::NameMatch { path: b"a/b.txt".to_vec() };
    let line = format_result(&r);
    assert_eq!(line, Some(b"a/b.txt\n".to_vec()));
}

#[test]
fn error_results_are_not_written_to_the_output_sink() {
    let r = SearchResult::Error {
        kind: AppError::FileIO(String::from("denied")),
        path: b"a".to_vec(),
        query: b"q".to_vec(),
    };
    assert!(format_result(&r).is_none());
}

#[test]
fn scan_reports_every_offset_with_the_path() {
    let rs = scan_results(
        &b"x.txt".to_vec(),
        &b"ab".to_vec(),
        &b"zabzab!".to_vec(),
    );
    assert_eq!(rs.len(), 2);
    assert!(
        matches!(&rs[0], SearchResult::ContentMatch { path, offset } if path == b"x.txt" && *offset == 3)
    );
    assert!(
        matches!(&rs[1], SearchResult::ContentMatch { path, offset } if path == b"x.txt" && *offset == 6)
    );
}

#[test]
fn scan_of_notes_file_reports_one_past_the_caught_occurrence() {
    // Contents hold the query twice; the second occurrence ends at the very
    // last byte and is truncated away, while the first, followed by more
    // content, is reported one past its end.
    let rs = scan_results(
        &b"notes.txt".to_vec(),
        &b"hello".to_vec(),
        &b"helloworldhello".to_vec(),
    );
    assert_eq!(rs.len(), 1);
    assert!(
        matches!(&rs[0], SearchResult::ContentMatch { path, offset } if path == b"notes.txt" && *offset == 5)
    );
    let line = format_result(&rs[0]);
    assert_eq!(line, Some(b"notes.txt::5\n".to_vec()));
}
