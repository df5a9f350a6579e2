use bletchmame::history_xml::markdown::markdown_from_history_text;
use bletchmame::history_xml::markdown::markdown_urls;

#[test]
fn markdown_from_history_text_cases() {
    let cases = [
        ("", ""),
        ("no formatting", "no formatting"),
        ("- HEADER -", "**HEADER**"),
        ("---", "\\---"),
        ("-----", "\\-----"),
        ("# Stuff after hash", "\\# Stuff after hash"),
        ("#### Stuff after hashes", "\\#### Stuff after hashes"),
        ("> Stuff after block quote", "\\> Stuff after block quote"),
        (">>> Stuff after block quotes", "\\>>> Stuff after block quotes"),
        ("=======================", "\\======================="),
        ("<a href=\"https://www.mamedev.org\">MAME</a>", "[MAME](https://www.mamedev.org)"),
    ];
    for (input, expected) in cases {
        assert_eq!(expected, markdown_from_history_text(input), "input {input:?}");
    }
}

#[test]
fn markdown_urls_cases() {
    let cases = [
        ("no url", "no url"),
        ("http://google.com", "[http://google.com](http://google.com)"),
        ("https://google.com", "[https://google.com](https://google.com)"),
        ("Visit http://google.com for info.", "Visit [http://google.com](http://google.com) for info."),
        ("Check (https://www.mamedev.org)", "Check ([https://www.mamedev.org](https://www.mamedev.org))"),
        ("<a href=\"https://www.mamedev.org\">MAME</a>", "[MAME](https://www.mamedev.org)"),
        ("Link: <a href=\"http://info.com\">Info</a>.", "Link: [Info](http://info.com)."),
        (
            "Multiple: http://one.com and https://two.com!",
            "Multiple: [http://one.com](http://one.com) and [https://two.com](https://two.com)!",
        ),
        (
            "Mixed: <a href=\"http://google.com\">Google</a> and http://bing.com",
            "Mixed: [Google](http://google.com) and [http://bing.com](http://bing.com)",
        ),
    ];
    for (input, expected) in cases {
        assert_eq!(expected, markdown_urls(input), "input {input:?}");
    }
}

#[test]
fn parse_markdown_urls_cases() {
    let cases = [
        ("no url", "no url"),
        ("http://google.com", "[http://google.com](http://google.com)"),
        ("https://google.com", "[https://google.com](https://google.com)"),
        ("Visit http://google.com for info.", "Visit [http://google.com](http://google.com) for info."),
        ("Check (https://www.mamedev.org)", "Check ([https://www.mamedev.org](https://www.mamedev.org))"),
        (
            "Multiple: http://one.com and https://two.com!",
            "Multiple: [http://one.com](http://one.com) and [https://two.com](https://two.com)!",
        ),
    ];
    for (input, expected) in cases {
        assert_eq!(expected, bletchmame::history_xml::parse::markdown_urls(input), "input {input:?}");
    }
}

#[test]
fn markdown_multiple_lines() {
    let actual = markdown_from_history_text("- TITLE -\n\nSee http://a.com\n# not a heading");
    assert_eq!("**TITLE**\n\nSee [http://a.com](http://a.com)\n\\# not a heading", actual);
}
