use site_monitor::discord::{discord_payload, is_delivered, webhook_url};

#[test]
fn webhook_url_is_parsed() {
    assert_eq!(
        webhook_url("123", "abc").unwrap(),
        "https://discordapp.com/api/webhooks/123/abc"
    );
    assert_eq!(
        webhook_url("\"123\"", "t").unwrap(),
        "https://discordapp.com/api/webhooks/%22123%22/t"
    );
}

#[test]
fn payload_wraps_the_message() {
    assert_eq!(discord_payload("Monitor crashed"), "{\n\t\"content\": \"Monitor crashed\"\n}");
    let body = discord_payload("Site has been updated!\\n");
    let parsed: serde_json::Value = serde_json::from_str(&body).unwrap();
    assert_eq!(parsed["content"], "Site has been updated!\n");
}

#[test]
fn only_no_content_counts_as_delivered() {
    assert!(is_delivered(204));
    assert!(!is_delivered(200));
    assert!(!is_delivered(404));
}
