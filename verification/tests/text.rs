use ttstack::text::{chars_of, trim_ws, words_of};

#[test]
fn words_split_on_unicode_white_space_as_std_does() {
    let s = "a\u{3000}b\u{200B}c\u{85}d \t\u{2009}e\u{A0}";
    let got: Vec<String> = words_of(&chars_of(s)).iter().map(|w| w.iter().collect()).collect();
    let want: Vec<String> = s.split_whitespace().map(|w| w.to_string()).collect();
    assert_eq!(got, want);
    assert_eq!(got, vec!["a", "b\u{200B}c", "d", "e"]);
    let trimmed: String = trim_ws(&chars_of("\u{2028} x y\u{205F}")).iter().collect();
    assert_eq!(trimmed, "x y");
}
