use fs_syntax::text::char_offset;

#[test]
fn char_offsets_count_bytes() {
    let s = "a\u{e9}\u{2728}b";
    assert_eq!(char_offset(s, 0), 0);
    assert_eq!(char_offset(s, 1), 1);
    assert_eq!(char_offset(s, 2), 3);
    assert_eq!(char_offset(s, 3), 6);
    // Past the last character: the length in bytes.
    assert_eq!(char_offset(s, 4), 7);
    assert_eq!(char_offset(s, 9), 7);
    assert_eq!(char_offset("", 0), 0);
}
