use ltlive::model::{Presentation, User};
use ltlive::queue::Presentations;
use ltlive::snapshot::{encode_snapshot, parse_snapshot};

fn pres(icon: Option<&str>, ident: Option<&str>, name: &str, title: &str) -> Presentation {
    Presentation {
        presenter: User {
            icon: icon.map(|s| s.to_string()),
            ident: ident.map(|s| s.to_string()),
            name: name.to_string(),
        },
        title: title.to_string(),
    }
}

#[test]
fn snapshot_round_trip_preserves_entries() {
    let entries = vec![
        pres(Some("https://example.test/a.png"), None, "Alice", "Intro: a tale of spaces"),
        pres(None, Some("alice#1"), "Bo b", "Title with\nnewline"),
    ];
    let q = Presentations::from_entries(entries.clone());
    let text = encode_snapshot(&q);
    let back = parse_snapshot(text.as_str()).expect("snapshot must parse back");
    assert_eq!(back, entries);
}

#[test]
fn snapshot_of_empty_queue_round_trips() {
    let q = Presentations::new();
    let text = encode_snapshot(&q);
    assert_eq!(text, "0\n");
    let back = parse_snapshot(text.as_str()).expect("empty snapshot must parse");
    assert!(back.is_empty());
}

#[test]
fn snapshot_encoding_is_the_documented_text() {
    let q = Presentations::from_entries(vec![pres(None, None, "Ann", "Go")]);
    let text = encode_snapshot(&q);
    assert_eq!(text, "1\n- - 3:Ann 2:Go\n");
}

#[test]
fn malformed_snapshot_is_rejected() {
    assert!(parse_snapshot("").is_none());
    assert!(parse_snapshot("x").is_none());
    assert!(parse_snapshot("1\n").is_none());
    assert!(parse_snapshot("1\n- - 3:Ann 9:Go\n").is_none());
    assert!(parse_snapshot("0\nextra").is_none());
    assert!(parse_snapshot("2\n- - 3:Ann 2:Go\n").is_none());
}
