use schoolthings::common::Cleaned;

#[test]
fn script_tag_is_neutralized() {
    let c = Cleaned::new(&"<script>alert(1)</script>".to_string());
    assert_eq!(c.html, "&lt;script&gt;alert(1)&lt;&#47;script&gt;");
    assert_eq!(c.url, "%3Cscript%3Ealert%281%29%3C%2Fscript%3E");
}

#[test]
fn plain_text_passes_through_html() {
    let c = Cleaned::new(&"hello".to_string());
    assert_eq!(c.html, "hello");
    assert_eq!(c.url, "hello");
}

#[test]
fn spaces_and_quotes_are_escaped() {
    let c = Cleaned::new(&"a \"b\"".to_string());
    assert_eq!(c.html, "a&#32;&quot;b&quot;");
    assert_eq!(c.url, "a%20%22b%22");
}

#[test]
fn non_ascii_is_percent_encoded_bytewise() {
    let c = Cleaned::new(&"é".to_string());
    // U+00E9 encodes as the bytes C3 A9
    assert_eq!(c.url, "%C3%A9");
    assert_eq!(c.html, "é");
}
