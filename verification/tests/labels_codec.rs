use juan_note::labels::{labels_from_json, labels_to_json};

fn strings(items: &[&str]) -> Vec<String> {
    items.iter().map(|s| s.to_string()).collect()
}

#[test]
fn labels_round_trip_plain() {
    let labels = strings(&["work", "home", "errand list"]);
    let text = labels_to_json(&labels);
    assert_eq!(labels_from_json(&text), labels);
}

#[test]
fn labels_round_trip_empty() {
    let labels: Vec<String> = Vec::new();
    let text = labels_to_json(&labels);
    assert_eq!(text, "[]");
    assert_eq!(labels_from_json(&text), labels);
}

#[test]
fn labels_round_trip_escapes() {
    let labels = strings(&["say \"hi\"", "back\\slash", "line\nbreak", "tab\there", "cr\rend"]);
    let text = labels_to_json(&labels);
    assert_eq!(labels_from_json(&text), labels);
}

#[test]
fn labels_round_trip_control_chars() {
    let labels = vec![format!("bell{}", '\u{07}'), format!("esc{}", '\u{1b}')];
    let text = labels_to_json(&labels);
    assert_eq!(labels_from_json(&text), labels);
}

#[test]
fn labels_round_trip_unicode() {
    let labels = strings(&["caf\u{e9}", "\u{65e5}\u{672c}\u{8a9e}", "emoji \u{1f600}"]);
    let text = labels_to_json(&labels);
    assert_eq!(labels_from_json(&text), labels);
}

#[test]
fn labels_encoding_exact_text() {
    assert_eq!(labels_to_json(&strings(&["a"])), "[\"a\"]");
    assert_eq!(labels_to_json(&strings(&["a", "b"])), "[\"a\",\"b\"]");
    assert_eq!(labels_to_json(&strings(&["q\"q"])), "[\"q\\\"q\"]");
    assert_eq!(labels_to_json(&strings(&["n\nn"])), "[\"n\\nn\"]");
}

#[test]
fn labels_corrupted_text_decodes_to_empty() {
    assert_eq!(labels_from_json("not json at all"), Vec::<String>::new());
    assert_eq!(labels_from_json("[\"unclosed"), Vec::<String>::new());
    assert_eq!(labels_from_json("{\"a\":1}"), Vec::<String>::new());
    assert_eq!(labels_from_json(""), Vec::<String>::new());
    assert_eq!(labels_from_json("[1,2,3]"), Vec::<String>::new());
}

#[test]
fn labels_encoding_is_valid_json_for_serde() {
    let labels = strings(&["say \"hi\"", "line\nbreak", "caf\u{e9}", "plain"]);
    let text = labels_to_json(&labels);
    let parsed: Vec<String> = serde_json::from_str(&text).unwrap();
    assert_eq!(parsed, labels);
}

#[test]
fn labels_decoder_reads_serde_encoding() {
    let labels = strings(&["say \"hi\"", "line\nbreak", "caf\u{e9}", "plain"]);
    let text = serde_json::to_string(&labels).unwrap();
    assert_eq!(labels_from_json(&text), labels);
}
