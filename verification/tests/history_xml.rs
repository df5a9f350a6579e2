use bletchmame::history_xml::parse::parse_from_events;
use bletchmame::history_xml::parse::HistoryError;
use bletchmame::history_xml::parse::MandatoryAttribute;
use bletchmame::xml::XmlEvent;

fn start(name: &str, attributes: &[(&str, &str)]) -> XmlEvent {
    XmlEvent::Start {
        name: name.to_string(),
        attributes: attributes.iter().map(|(a, b)| (a.to_string(), b.to_string())).collect(),
    }
}

fn end(text: &str) -> XmlEvent {
    XmlEvent::End { text: text.to_string() }
}

fn history_events() -> Vec<XmlEvent> {
    vec![
        start("history", &[("version", "1.0"), ("date", "2024-01-01")]),
        start("entry", &[]),
        start("systems", &[]),
        start("system", &[("name", "litware64")]),
        end(""),
        start("system", &[("name", "litware128")]),
        end(""),
        end(""),
        start("text", &[]),
        end("\n  The \"Litware 64\" and \"Litware 128\" never existed\n"),
        end(""),
        start("entry", &[]),
        start("software", &[]),
        start("item", &[("list", "contoso_flop"), ("name", "contoso_alpha01")]),
        end(""),
        start("item", &[("list", "contoso_flop"), ("name", "contoso_alpha02")]),
        end(""),
        end(""),
        start("comment", &[]),
        start("system", &[("name", "ignored")]),
        end(""),
        end(""),
        start("text", &[]),
        end("Contoso's alpha invaders never existed either"),
        end(""),
        end(""),
    ]
}

#[test]
fn by_system() {
    let history = parse_from_events(&history_events()).unwrap();
    let expected = "The \"Litware 64\" and \"Litware 128\" never existed".to_string();
    assert_eq!(Some(expected.clone()), history.by_system("litware64"));
    assert_eq!(Some(expected), history.by_system("litware128"));
    assert_eq!(None, history.by_system("DOESNT_EXIST"));
    assert_eq!(None, history.by_system("ignored"));
}

#[test]
fn by_software() {
    let history = parse_from_events(&history_events()).unwrap();
    let expected = "Contoso's alpha invaders never existed either".to_string();
    assert_eq!(Some(expected.clone()), history.by_software("contoso_flop", "contoso_alpha01"));
    assert_eq!(Some(expected), history.by_software("contoso_flop", "contoso_alpha02"));
    assert_eq!(None, history.by_software("contoso_flop", "DOESNT_EXIST"));
}

#[test]
fn history_markdown_and_errors() {
    let events = vec![
        start("history", &[]),
        start("entry", &[]),
        start("systems", &[]),
        start("system", &[("name", "pacman")]),
        end(""),
        end(""),
        start("text", &[]),
        end("- TITLE -\nSee http://a.com."),
        end(""),
        end(""),
    ];
    let history = parse_from_events(&events).unwrap();
    assert_eq!(Some("**TITLE**\nSee [http://a.com](http://a.com).".to_string()), history.by_system("pacman"));

    let missing = vec![start("history", &[]), start("entry", &[]), start("systems", &[]), start("system", &[])];
    assert_eq!(
        Some(HistoryError::MissingMandatoryAttribute(MandatoryAttribute::Name)),
        parse_from_events(&missing).err()
    );
    let missing_list = vec![
        start("history", &[]),
        start("entry", &[]),
        start("software", &[]),
        start("item", &[("name", "x")]),
    ];
    assert_eq!(
        Some(HistoryError::MissingMandatoryAttribute(MandatoryAttribute::List)),
        parse_from_events(&missing_list).err()
    );
    assert_eq!(Some(HistoryError::UnbalancedEnd), parse_from_events(&vec![end("")]).err());
}
