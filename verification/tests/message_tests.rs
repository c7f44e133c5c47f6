use opencord::domain::json::{JsonNumber, JsonValue};
use opencord::domain::message::{
    normalize_components, normalize_content, normalize_embed, normalize_embed_json, normalize_embeds, normalize_mention_ids, normalize_webhook_avatar_url,
    normalize_webhook_username, MessageError,
};

fn s(v: &str) -> JsonValue {
    JsonValue::String(v.to_string())
}

fn obj(entries: Vec<(&str, JsonValue)>) -> JsonValue {
    JsonValue::Object(entries.into_iter().map(|(k, v)| (k.to_string(), v)).collect())
}

#[test]
fn content_is_trimmed_and_bounded() {
    assert_eq!(normalize_content("  hi  ".to_string(), false).unwrap(), "hi");
    assert_eq!(normalize_content("   ".to_string(), true).unwrap(), "");
    assert_eq!(
        normalize_content("   ".to_string(), false).unwrap_err(),
        MessageError::InvalidInput(
            "message content must be between 1 and 4000 characters unless attachments are present"
        )
    );
    assert!(normalize_content("x".repeat(4001), false).is_err());
}

#[test]
fn embed_fields_are_normalized() {
    let embed = obj(vec![
        ("title", s("  Release  ")),
        ("type", s("rich")),
        ("color", JsonValue::Number(JsonNumber::Unsigned(0x5865f2))),
        ("url", s("https://example.com/notes")),
    ]);
    let e = normalize_embed(&embed).unwrap();
    assert_eq!(e.title, Some("Release".to_string()));
    assert_eq!(e.color, Some(0x5865f2));
    assert_eq!(e.url, Some("https://example.com/notes".to_string()));
    assert_eq!(e.description, None);
}

#[test]
fn embed_errors() {
    assert_eq!(normalize_embed(&s("x")).unwrap_err(), MessageError::InvalidInput("message embeds must be objects"));
    assert_eq!(
        normalize_embed(&obj(vec![("bogus", s("x"))])).unwrap_err(),
        MessageError::InvalidInput("message embeds contain unsupported fields")
    );
    assert_eq!(
        normalize_embed(&obj(vec![("type", s("video"))])).unwrap_err(),
        MessageError::InvalidInput("embed type must be rich")
    );
    assert_eq!(
        normalize_embed(&obj(vec![("color", JsonValue::Number(JsonNumber::Unsigned(0x1000000)))])).unwrap_err(),
        MessageError::InvalidInput("embed color must be an integer between 0 and 16777215")
    );
    assert_eq!(
        normalize_embed(&obj(vec![("url", s("ftp://x"))])).unwrap_err().code(),
        "invalid_request"
    );
    let many: Vec<JsonValue> = (0..11).map(|_| obj(vec![])).collect();
    assert_eq!(
        normalize_embeds(&many).unwrap_err(),
        MessageError::InvalidInput("message embeds must contain 10 or fewer embeds")
    );
}

#[test]
fn mentions_keep_first_occurrences() {
    assert_eq!(normalize_mention_ids(vec![3, 1, 3, 2, 1]), vec![3, 1, 2]);
}

#[test]
fn webhook_overrides() {
    assert_eq!(normalize_webhook_username(Some("  Deploy Bot ".to_string())).unwrap(), Some("Deploy Bot".to_string()));
    assert_eq!(normalize_webhook_username(Some("   ".to_string())).unwrap(), None);
    assert!(normalize_webhook_username(Some("x".repeat(81))).is_err());
    assert_eq!(
        normalize_webhook_avatar_url(Some("https://cdn.example/a.png".to_string())).unwrap(),
        Some("https://cdn.example/a.png".to_string())
    );
    assert!(normalize_webhook_avatar_url(Some("javascript:alert(1)".to_string())).is_err());
}

fn render(v: &JsonValue) -> String {
    match v {
        JsonValue::Null => "null".to_string(),
        JsonValue::Bool(b) => b.to_string(),
        JsonValue::Number(JsonNumber::Unsigned(n)) => n.to_string(),
        JsonValue::Number(JsonNumber::Negative(n)) => n.to_string(),
        JsonValue::Number(JsonNumber::Fractional(t)) => t.clone(),
        JsonValue::String(t) => format!("{:?}", t),
        JsonValue::Array(xs) => format!("[{}]", xs.iter().map(render).collect::<Vec<_>>().join(",")),
        JsonValue::Object(es) => format!(
            "{{{}}}",
            es.iter().map(|(k, v)| format!("{:?}:{}", k, render(v))).collect::<Vec<_>>().join(",")
        ),
    }
}

#[test]
fn embed_json_is_sorted_and_typed() {
    let embed = obj(vec![
        ("title", s("  Release ")),
        ("timestamp", s("2026-07-01T10:00:00+02:00")),
        ("color", JsonValue::Number(JsonNumber::Unsigned(255))),
        ("footer", obj(vec![("text", s("ops"))])),
        ("fields", JsonValue::Array(vec![obj(vec![("name", s("a")), ("value", s("b"))])])),
    ]);
    let v = normalize_embed_json(&embed).unwrap();
    assert_eq!(
        render(&v),
        "{\"color\":255,\"fields\":[{\"inline\":false,\"name\":\"a\",\"value\":\"b\"}],\"footer\":{\"text\":\"ops\"},\"timestamp\":\"2026-07-01T08:00:00.000Z\",\"title\":\"Release\",\"type\":\"rich\"}"
    );
    assert!(normalize_embed_json(&s("x")).is_err());
}

#[test]
fn components_keep_fractional_numbers() {
    let row = obj(vec![("weight", JsonValue::Number(JsonNumber::Fractional("1.5".to_string())))]);
    let out = normalize_components(vec![row]).unwrap();
    assert_eq!(render(&out[0]), "{\"weight\":1.5}");
}
