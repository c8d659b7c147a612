use jobqueue::fences::sanitize_json;

#[test]
fn strips_json_fence_and_whitespace() {
    let reply = "  ```json\n{\"subject\": \"hi\", \"body\": \"joke\"}\n```  \n";
    assert_eq!(sanitize_json(reply), "{\"subject\": \"hi\", \"body\": \"joke\"}");
}

#[test]
fn strips_plain_fence() {
    assert_eq!(sanitize_json("```\n{}\n```"), "{}");
}

#[test]
fn leaves_bare_json_alone() {
    assert_eq!(sanitize_json("{\"a\": 1}"), "{\"a\": 1}");
}

#[test]
fn strips_repeated_fences_and_unicode_space() {
    assert_eq!(sanitize_json("\u{2003}```json```json```{\"x\":\"é\"}``````\u{3000}"), "{\"x\":\"é\"}");
}

#[test]
fn empty_and_fence_only_replies() {
    assert_eq!(sanitize_json(""), "");
    assert_eq!(sanitize_json("   "), "");
    assert_eq!(sanitize_json("``````"), "");
    assert_eq!(sanitize_json("``"), "``");
}
