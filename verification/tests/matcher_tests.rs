use search::matcher::find_matches;

#[test]
fn whole_input_emits_nothing() {
    // The pattern occupies the entire input: detection needs one trailing
    // byte that does not exist, so nothing is reported.
    let r = find_matches(&b"abc".to_vec(), &b"abc".to_vec());
    assert_eq!(r, Vec::<usize>::new());
}

#[test]
fn offsets_are_one_past_the_end() {
    // Each occurrence is reported at the position of the byte visited when
    // the completed match is noticed: one past the end of the matched run.
    let r = find_matches(&b"xabcabcx".to_vec(), &b"abc".to_vec());
    assert_eq!(r, vec![4, 7]);
}

#[test]
fn non_overlapping_occurrences_only() {
    // After a completed match the counter restarts at zero, so the
    // overlapping second occurrence is not retried: one report, not two.
    let r = find_matches(&b"aaaa".to_vec(), &b"aa".to_vec());
    assert_eq!(r, vec![2]);
}

#[test]
fn match_ending_at_last_byte_is_missed() {
    let r = find_matches(&b"abcd".to_vec(), &b"cd".to_vec());
    assert_eq!(r, Vec::<usize>::new());
}

#[test]
fn trailing_byte_makes_match_visible() {
    let r = find_matches(&b"abcd!".to_vec(), &b"cd".to_vec());
    assert_eq!(r, vec![4]);
}

#[test]
fn adjacent_occurrences_all_reported_increasing() {
    let r = find_matches(&b"ababab".to_vec(), &b"ab".to_vec());
    assert_eq!(r, vec![2, 4]);
}

#[test]
fn empty_input_emits_nothing() {
    let r = find_matches(&Vec::new(), &b"a".to_vec());
    assert_eq!(r, Vec::<usize>::new());
}

#[test]
fn empty_query_emits_nothing() {
    let r = find_matches(&b"abc".to_vec(), &Vec::new());
    assert_eq!(r, Vec::<usize>::new());
}

#[test]
fn single_byte_query() {
    let r = find_matches(&b"zaza".to_vec(), &b"a".to_vec());
    // Occurrences end at indices 1 and 3; only the first is followed by a
    // byte, and is reported when that byte is visited.
    assert_eq!(r, vec![2]);
}

#[test]
fn mismatch_resets_without_backtracking() {
    // On a mismatch the counter resets to zero instead of retrying an
    // overlapping partial match, so scanning resumes at the mismatching
    // byte with an empty run.
    let r = find_matches(&b"aabaaab".to_vec(), &b"aa".to_vec());
    assert_eq!(r, vec![2, 5]);
}
