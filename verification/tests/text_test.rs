use playwright_core::text::{same, trim};

#[test]
fn trim_takes_white_space_from_both_ends() {
    assert_eq!(trim("  hello world \n"), "hello world");
    assert_eq!(trim("hello"), "hello");
    assert_eq!(trim(""), "");
    assert_eq!(trim(" \t\r\n"), "");
    assert_eq!(trim("a"), "a");
    assert_eq!(trim(" a"), "a");
    assert_eq!(trim("a "), "a");
    assert_eq!(trim("\u{3000}\u{e9}t\u{e9} \u{1f600}\u{a0}"), "\u{e9}t\u{e9} \u{1f600}");
}

#[test]
fn trim_agrees_with_the_standard_library() {
    let samples = [
        "",
        " ",
        "x",
        "  x  y  ",
        "\u{9}\u{a}\u{b}\u{c}\u{d}\u{20}x\u{85}\u{a0}\u{1680}",
        "\u{2000}\u{2001}\u{2002}\u{2003}\u{2004}\u{2005}x\u{2006}\u{2007}\u{2008}\u{2009}\u{200a}",
        "\u{2028}\u{2029}\u{202f}\u{205f}\u{3000}x",
        "\u{200b}x\u{200b}",
        "\u{180e}x\u{feff}",
        "\u{1c}\u{1d}\u{1e}\u{1f}x",
        "\u{0}x\u{7f}",
        " \u{1f600} ",
    ];
    for sample in samples {
        assert_eq!(trim(sample), sample.trim());
    }
}

#[test]
fn same_compares_the_characters() {
    assert!(same("", ""));
    assert!(same("abc", "abc"));
    assert!(same("\u{e9}\u{1f600}", "\u{e9}\u{1f600}"));
    assert!(!same("abc", "abd"));
    assert!(!same("abc", "ab"));
    assert!(!same("", "a"));
    assert!(!same("e\u{301}", "\u{e9}"));
    assert!(!same("ABC", "abc"));
}
