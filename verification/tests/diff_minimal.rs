use kei::render::line_diff;

#[test]
fn diff_keeps_a_longest_common_subsequence() {
    // Matching the first lines greedily would keep one line; the longest
    // common subsequence is `a`, `b`.
    assert_eq!(line_diff("x\na\nb\n", "a\nb\nx\n"), "-x\n a\n b\n+x\n");
}

#[test]
fn diff_of_equal_texts_keeps_every_line() {
    assert_eq!(line_diff("a\nb\n", "a\nb\n"), " a\n b\n");
}
