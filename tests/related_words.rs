use related_words::{
    build_payload, build_request, check_status, envelope_text, extract_related_words,
    frame_payload, join_candidates, keywords, render_prompt, JsonValue, RequestError,
};

const HEAD: &str = r#"{"contents":[{"parts":[{"text":"#;
const TAIL: &str = r#"}]}],"generationConfig":{"responseMimeType":"application/json","responseSchema":{"type":"ARRAY","items":{"type":"OBJECT","properties":{"keyword":{"type":"STRING"}}}}}}"#;

fn words(list: &[&str]) -> Vec<String> {
    list.iter().map(|w| w.to_string()).collect()
}

fn envelope_with_text(text: &str) -> String {
    let quoted = serde_json::to_string(text).unwrap();
    format!(r#"{{"candidates":[{{"content":{{"parts":[{{"text":{}}}],"role":"model"}},"finishReason":"STOP"}}],"modelVersion":"x"}}"#, quoted)
}

fn text(s: &str) -> JsonValue {
    JsonValue::Str(s.to_string())
}

fn object(members: Vec<(&str, JsonValue)>) -> JsonValue {
    JsonValue::Object(members.into_iter().map(|(k, v)| (k.to_string(), v)).collect())
}

#[test]
fn join_of_no_candidates_is_empty() {
    assert_eq!(join_candidates(&Vec::new()), "");
}

#[test]
fn join_of_one_candidate_is_that_candidate() {
    assert_eq!(join_candidates(&words(&["solo"])), "solo");
}

#[test]
fn join_separates_with_comma_and_space() {
    assert_eq!(join_candidates(&words(&["a", "b b", "c"])), "a, b b, c");
}

#[test]
fn rendered_prompt_is_exact() {
    let r = render_prompt("sunny day", &words(&["beach", "snow", "sun"]));
    assert_eq!(
        r,
        "Which words from this list [beach, snow, sun] is most closely related to this prompt 'sunny day', Just return the three most related words, nothing else. Make sure that the returned words exist in the list I provided"
    );
}

#[test]
fn rendered_prompt_holds_every_candidate_verbatim() {
    let cands = words(&["ice cream", "dog", "x, y", "dog"]);
    let r = render_prompt("pets", &cands);
    assert!(r.contains("[ice cream, dog, x, y, dog]"));
    for c in &cands {
        assert!(r.contains(c.as_str()));
    }
}

#[test]
fn rendered_prompt_with_no_candidates_has_empty_brackets() {
    let r = render_prompt("p", &Vec::new());
    assert!(r.starts_with("Which words from this list [] is most"));
}

#[test]
fn payload_is_framed_around_escaped_text() {
    let body = build_payload("say \"hi\"", &words(&["a"]));
    let expected_text = serde_json::to_string(&render_prompt("say \"hi\"", &words(&["a"]))).unwrap();
    assert_eq!(body, format!("{}{}{}", HEAD, expected_text, TAIL));
    assert!(body.contains(r#"prompt 'say \"hi\"'"#));
}

#[test]
fn payload_is_valid_json_with_the_declared_schema() {
    let body = build_payload("line\nbreak", &words(&["a", "b"]));
    let v: serde_json::Value = serde_json::from_str(&body).unwrap();
    assert_eq!(
        v["contents"][0]["parts"][0]["text"].as_str().unwrap(),
        render_prompt("line\nbreak", &words(&["a", "b"]))
    );
    assert_eq!(v["generationConfig"]["responseMimeType"], "application/json");
    assert_eq!(v["generationConfig"]["responseSchema"]["type"], "ARRAY");
    assert_eq!(v["generationConfig"]["responseSchema"]["items"]["type"], "OBJECT");
    assert_eq!(
        v["generationConfig"]["responseSchema"]["items"]["properties"]["keyword"]["type"],
        "STRING"
    );
}

#[test]
fn payload_schema_is_the_same_across_calls() {
    let a = build_payload("one", &words(&["x"]));
    let b = build_payload("a longer prompt", &words(&["p", "q", "r"]));
    assert!(a.starts_with(HEAD) && b.starts_with(HEAD));
    assert!(a.ends_with(TAIL) && b.ends_with(TAIL));
    assert_ne!(a, b);
}

#[test]
fn frame_payload_wraps_quoted_text() {
    assert_eq!(frame_payload("\"t\""), format!("{}\"t\"{}", HEAD, TAIL));
}

#[test]
fn request_without_credential_is_refused() {
    assert_eq!(
        build_request(None, "p", &words(&["a"])),
        Err(RequestError::MissingCredential)
    );
}

#[test]
fn request_carries_credential_and_payload() {
    let req = build_request(Some("SECRET-REDACTED"), "p", &words(&["a", "b"])).unwrap();
    assert_eq!(
        req.url,
        "https://generativelanguage.googleapis.com/v1beta/models/gemini-1.5-flash:generateContent?key=SECRET-REDACTED"
    );
    assert_eq!(req.content_type, "application/json");
    assert_eq!(req.body, build_payload("p", &words(&["a", "b"])));
}

#[test]
fn same_inputs_give_the_same_request() {
    let a = build_request(Some("k"), "p", &words(&["a"])).unwrap();
    let b = build_request(Some("k"), "p", &words(&["a"])).unwrap();
    assert_eq!(a, b);
}

#[test]
fn status_500_fails_with_its_code() {
    assert_eq!(check_status(500), Err(RequestError::RequestFailed { status: 500 }));
}

#[test]
fn success_range_is_accepted() {
    assert_eq!(check_status(200), Ok(()));
    assert_eq!(check_status(299), Ok(()));
    assert_eq!(check_status(199), Err(RequestError::RequestFailed { status: 199 }));
    assert_eq!(check_status(300), Err(RequestError::RequestFailed { status: 300 }));
    assert_eq!(check_status(404), Err(RequestError::RequestFailed { status: 404 }));
}

#[test]
fn three_keywords_come_back_in_order() {
    let body = envelope_with_text(r#"[{"keyword":"alpha"},{"keyword":"beta"},{"keyword":"gamma"}]"#);
    assert_eq!(extract_related_words(&body), Ok(words(&["alpha", "beta", "gamma"])));
}

#[test]
fn entry_without_keyword_is_dropped() {
    let body = envelope_with_text(r#"[{"keyword":"alpha"},{"other":"x"}]"#);
    assert_eq!(extract_related_words(&body), Ok(words(&["alpha"])));
}

#[test]
fn non_string_keywords_and_non_objects_are_dropped() {
    let body = envelope_with_text(r#"[{"keyword":1},"beta",null,{"keyword":"delta","n":2}]"#);
    assert_eq!(extract_related_words(&body), Ok(words(&["delta"])));
}

#[test]
fn fewer_or_more_words_are_returned_as_given() {
    let one = envelope_with_text(r#"[{"keyword":"only"}]"#);
    assert_eq!(extract_related_words(&one), Ok(words(&["only"])));
    let none = envelope_with_text("[]");
    assert_eq!(extract_related_words(&none), Ok(Vec::new()));
    let four = envelope_with_text(r#"[{"keyword":"a"},{"keyword":"b"},{"keyword":"c"},{"keyword":"d"}]"#);
    assert_eq!(extract_related_words(&four), Ok(words(&["a", "b", "c", "d"])));
}

#[test]
fn envelope_without_text_field_is_malformed() {
    let body = r#"{"candidates":[{"content":{"parts":[{"inlineData":"x"}]}}]}"#;
    assert_eq!(extract_related_words(body), Err(RequestError::MalformedResponse));
    let empty = r#"{"candidates":[]}"#;
    assert_eq!(extract_related_words(empty), Err(RequestError::MalformedResponse));
    let other = r#"{"error":{"code":400}}"#;
    assert_eq!(extract_related_words(other), Err(RequestError::MalformedResponse));
}

#[test]
fn non_string_text_field_is_malformed() {
    let body = r#"{"candidates":[{"content":{"parts":[{"text":[1,2]}]}}]}"#;
    assert_eq!(extract_related_words(body), Err(RequestError::MalformedResponse));
}

#[test]
fn invalid_json_text_is_malformed() {
    let body = envelope_with_text("not json");
    assert_eq!(extract_related_words(&body), Err(RequestError::MalformedResponse));
}

#[test]
fn text_that_is_not_an_array_is_malformed() {
    let body = envelope_with_text(r#"{"keyword":"alpha"}"#);
    assert_eq!(extract_related_words(&body), Err(RequestError::MalformedResponse));
}

#[test]
fn body_that_is_not_json_is_malformed() {
    assert_eq!(extract_related_words("<html>"), Err(RequestError::MalformedResponse));
    assert_eq!(extract_related_words(""), Err(RequestError::MalformedResponse));
}

#[test]
fn envelope_text_follows_the_path() {
    let env = object(vec![(
        "candidates",
        JsonValue::Array(vec![object(vec![(
            "content",
            object(vec![("parts", JsonValue::Array(vec![object(vec![("text", text("hello"))])]))]),
        )])]),
    )]);
    assert_eq!(envelope_text(&env), Some("hello".to_string()));
    assert_eq!(envelope_text(&JsonValue::Null), None);
    assert_eq!(envelope_text(&object(vec![("candidates", JsonValue::Array(vec![]))])), None);
}

#[test]
fn keywords_of_a_built_array() {
    let arr = JsonValue::Array(vec![
        object(vec![("keyword", text("a"))]),
        object(vec![("other", text("b"))]),
        object(vec![("x", JsonValue::Bool(true)), ("keyword", text("c"))]),
        JsonValue::Number("3".to_string()),
    ]);
    assert_eq!(keywords(&arr), Some(words(&["a", "c"])));
    assert_eq!(keywords(&text("a")), None);
    assert_eq!(keywords(&JsonValue::Array(vec![])), Some(Vec::new()));
}
