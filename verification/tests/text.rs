use quick_crawler::execute::text::{chars_of, clean_markup, is_whitespace_char, trim};

#[test]
fn trim_matches_std_on_samples() {
    let samples = [
        "",
        "   ",
        "abc",
        "  abc  ",
        "\t\n a b \r\n",
        "\u{3000}wide\u{3000}",
        "\u{a0}nbsp\u{85}",
        "\u{200b}zero width\u{200b}",
        "x\u{2028}",
        "  set 1: test ingredient 1\n  ",
    ];
    for s in samples.iter() {
        assert_eq!(trim(s), s.trim().to_string(), "trim of {:?}", s);
    }
}

#[test]
fn whitespace_matches_std() {
    for n in 0u32..0x3100 {
        if let Some(c) = char::from_u32(n) {
            assert_eq!(is_whitespace_char(c), c.is_whitespace(), "char {:#x}", n);
        }
    }
}

#[test]
fn clean_markup_joins_lines_and_trims() {
    assert_eq!(clean_markup("\n  <a href=\"x\">\n  link\n</a>  \n"), "  <a href=\"x\">  link</a>".trim().to_string());
    assert_eq!(clean_markup("<li>\n step 1\n</li>"), "<li> step 1</li>");
    assert_eq!(clean_markup("\n\n"), "");
}

#[test]
fn chars_of_keeps_order() {
    assert_eq!(chars_of("héllo"), vec!['h', 'é', 'l', 'l', 'o']);
    assert_eq!(chars_of(""), Vec::<char>::new());
}

#[test]
fn trim_is_idempotent_and_leaves_no_edge_space() {
    for s in ["  a  ", "\u{2003}b c\u{2003}", "", " \n ", "xyz"].iter() {
        let once = trim(s);
        assert_eq!(trim(&once), once);
        assert!(once.chars().next().map_or(true, |c| !c.is_whitespace()));
        assert!(once.chars().last().map_or(true, |c| !c.is_whitespace()));
        assert!(s.contains(once.as_str()));
    }
}

#[test]
fn cleaned_markup_has_no_line_feed() {
    let m = clean_markup("\n<div class='a'>\n  x\n  y\n</div>\n");
    assert!(!m.contains('\n'));
    assert_eq!(m, "<div class='a'>  x  y</div>");
}
