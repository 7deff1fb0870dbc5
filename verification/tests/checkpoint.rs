use data_loader::checkpoint::Checkpoint;

fn cp(newest: Option<&str>, before: Option<&str>, until: Option<&str>) -> Checkpoint {
    Checkpoint {
        newest_transaction: newest.map(|s| s.to_string()),
        before: before.map(|s| s.to_string()),
        until: until.map(|s| s.to_string()),
    }
}

#[test]
fn round_trip_all_none() {
    let c = Checkpoint::new();
    let text = c.encode();
    assert_eq!(
        text,
        "{\"newest_transaction\":null,\"before\":null,\"until\":null}"
    );
    let back = Checkpoint::parse(&text).expect("the encoding must parse");
    assert_eq!(back, c);
}

#[test]
fn round_trip_all_set() {
    let c = cp(Some("5KtP3"), Some("9zXw1aB"), Some("2FqRr"));
    let text = c.encode();
    assert_eq!(
        text,
        "{\"newest_transaction\":\"5KtP3\",\"before\":\"9zXw1aB\",\"until\":\"2FqRr\"}"
    );
    let back = Checkpoint::parse(&text).expect("the encoding must parse");
    assert_eq!(back, c);
}

#[test]
fn round_trip_mixed_and_empty() {
    let cases = vec![
        cp(None, Some("abc123XYZ"), None),
        cp(Some("A"), None, Some("z9")),
        cp(Some(""), Some(""), Some("")),
        cp(None, None, Some("0")),
    ];
    for c in cases {
        let text = c.encode();
        let back = Checkpoint::parse(&text).expect("the encoding must parse");
        assert_eq!(back, c);
    }
}

#[test]
fn round_trip_through_from_stored() {
    let c = cp(Some("S1"), None, Some("S9"));
    let text = c.encode();
    let back = Checkpoint::from_stored(Some(&text));
    assert_eq!(back, c);
}

#[test]
fn cold_start_on_missing() {
    let c = Checkpoint::from_stored(None);
    assert_eq!(c, Checkpoint::new());
}

#[test]
fn cold_start_on_corrupt() {
    let corrupt = vec![
        "".to_string(),
        "not json at all".to_string(),
        "{\"newest_transaction\":null".to_string(),
        "{\"newest_transaction\":null,\"before\":null,\"until\":null}trailing".to_string(),
        "{\"newest_transaction\":\"unterminated,\"before\":null,\"until\":null}".to_string(),
        "{\"newest_transaction\":\"bad char!\",\"before\":null,\"until\":null}".to_string(),
        "{\"before\":null,\"newest_transaction\":null,\"until\":null}".to_string(),
        "{\"newest_transaction\":nul,\"before\":null,\"until\":null}".to_string(),
    ];
    for text in corrupt {
        assert!(Checkpoint::parse(&text).is_none(), "accepted: {}", text);
        let c = Checkpoint::from_stored(Some(&text));
        assert_eq!(c, Checkpoint::new(), "not a cold start for: {}", text);
    }
}

#[test]
fn parse_accepts_only_exact_field_order() {
    let good = "{\"newest_transaction\":\"aB1\",\"before\":null,\"until\":\"Zz9\"}";
    let parsed = Checkpoint::parse(good).expect("must parse");
    assert_eq!(parsed, cp(Some("aB1"), None, Some("Zz9")));
}

#[test]
fn encoding_is_json_serde_reads_it_back() {
    let c = cp(Some("5KtP3abc"), None, Some("2FqRr"));
    let text = c.encode();
    let value: serde_json::Value = serde_json::from_str(&text).expect("encode must emit JSON");
    assert_eq!(
        value
            .get("newest_transaction")
            .and_then(|v| v.as_str()),
        Some("5KtP3abc")
    );
    assert!(value.get("before").expect("field").is_null());
    assert_eq!(value.get("until").and_then(|v| v.as_str()), Some("2FqRr"));
}

#[test]
fn is_wf_flags_unencodable_signatures() {
    assert!(cp(Some("Base58Only"), None, None).is_wf());
    assert!(!cp(Some("with\"quote"), None, None).is_wf());
    assert!(!cp(None, Some("with space"), None).is_wf());
}
