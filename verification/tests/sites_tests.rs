use site_monitor::bol::Bol;
use site_monitor::json::{JsonMember, JsonValue};
use site_monitor::link_set::LinkSet;
use site_monitor::nike::{get_in_stock_id, reply_can_be_read, NikeProduct, NikeReply, NikeStage, NikeStep};
use site_monitor::not_text::NotText;
use site_monitor::nvidia::Nvidia;
use site_monitor::processing::{get_processing, processing_info_is_valid, SiteProcessor};
use site_monitor::shopify_variant::ShopifyVariant;

fn to_json(v: &serde_json::Value) -> JsonValue {
    match v {
        serde_json::Value::Null => JsonValue::Null,
        serde_json::Value::Bool(b) => JsonValue::Bool(*b),
        serde_json::Value::Number(n) => JsonValue::Number(n.as_f64().unwrap_or(f64::NAN).to_bits()),
        serde_json::Value::String(s) => JsonValue::Str(s.clone()),
        serde_json::Value::Array(items) => JsonValue::Array(items.iter().map(to_json).collect()),
        serde_json::Value::Object(m) => JsonValue::Object(
            m.iter().map(|(k, v)| JsonMember { key: k.clone(), value: to_json(v) }).collect(),
        ),
    }
}

fn json(text: &str) -> JsonValue {
    to_json(&serde_json::from_str::<serde_json::Value>(text).unwrap())
}

fn items(l: &LinkSet) -> Vec<String> {
    let mut v = l.links().clone();
    v.sort();
    v
}

fn bol() -> Bol {
    Bol::new(&json(r#"{"url": "HTTPS://www.Bol.com/p/1", "json": "https://api/1"}"#))
}

#[test]
fn bol_reports_page_when_priced() {
    let r = bol().process(&json(r#"{"analytics": {"price": 499.99}}"#)).unwrap();
    // The reported link is the URL's serialization, not the configured text.
    assert_eq!(items(&r), vec!["https://www.bol.com/p/1"]);
    let r = bol().process(&json(r#"{"analytics": {"price": 5}}"#)).unwrap();
    assert_eq!(r.len(), 1);
}

#[test]
fn bol_reports_nothing_at_price_zero_or_without_price() {
    assert!(bol().process(&json(r#"{"analytics": {"price": 0.0}}"#)).unwrap().is_empty());
    assert!(bol().process(&json(r#"{"analytics": {"price": 0}}"#)).unwrap().is_empty());
    assert!(bol().process(&json(r#"{"analytics": {"price": -0.0}}"#)).unwrap().is_empty());
    assert!(bol().process(&json(r#"{"analytics": {"price": "12"}}"#)).unwrap().is_empty());
    assert!(bol().process(&json(r#"{"analytics": {}}"#)).unwrap().is_empty());
    assert!(bol().process(&json(r#"[1, 2]"#)).unwrap().is_empty());
}

#[test]
fn bol_with_bad_url_fails() {
    let b = Bol::new(&json(r#"{"url": "not a url", "json": "x"}"#));
    assert!(b.process(&json(r#"{"analytics": {"price": 3}}"#)).is_err());
    assert!(b.process(&json(r#"{"analytics": {"price": 0}}"#)).unwrap().is_empty());
}

#[test]
fn nvidia_reports_page_unless_out_of_stock() {
    let n = Nvidia::new(&json(r#"{"url": "https://store.nvidia.com/3080", "json": "https://api/x"}"#));
    let doc = |status: &str| json(&format!(
        r#"{{"products": {{"product": [{{"inventoryStatus": {{"status": "{}"}}}}]}}}}"#,
        status
    ));
    assert_eq!(items(&n.process(&doc("PRODUCT_INVENTORY_IN_STOCK")).unwrap()), vec!["https://store.nvidia.com/3080"]);
    assert!(n.process(&doc("PRODUCT_INVENTORY_OUT_OF_STOCK")).unwrap().is_empty());
    assert!(n.process(&json(r#"{"products": {"product": []}}"#)).unwrap().is_empty());
    assert!(n.process(&json(r#"{}"#)).unwrap().is_empty());
}

#[test]
fn not_text_reports_page_unless_blocked() {
    let p = NotText::new(&json(r#"{"text": "t", "url": "https://shop.example/item"}"#));
    assert!(p.process("<html>Error 1020: Access denied</html>").unwrap().is_empty());
    assert_eq!(items(&p.process("<html>In stock</html>").unwrap()), vec!["https://shop.example/item"]);
}

fn shopify() -> ShopifyVariant {
    ShopifyVariant::new(&json(
        r#"{"url": "https://shop/products.json", "handle": "ps5", "prepend": "https://shop/cart/"}"#,
    ))
}

#[test]
fn shopify_links_each_variant_of_the_product() {
    let doc = json(
        r#"{"products": [
            {"handle": "xbox", "variants": [{"id": "1"}]},
            {"handle": "ps5", "variants": [{"id": "11"}, {"id": "12"}, {"id": 13}]}
        ]}"#,
    );
    let s = shopify();
    assert!(s.can_read(&doc));
    assert_eq!(items(&s.process(&doc)), vec!["https://shop/cart/11:1", "https://shop/cart/12:1"]);
}

#[test]
fn shopify_reports_nothing_without_product_or_variants() {
    let s = shopify();
    assert!(s.process(&json(r#"{}"#)).is_empty());
    assert!(s.process(&json(r#"{"products": [{"handle": "xbox"}]}"#)).is_empty());
    assert!(s.process(&json(r#"{"products": [{"handle": "ps5", "variants": 3}]}"#)).is_empty());
}

#[test]
fn shopify_find_target_product_takes_the_first_match() {
    let products = vec![
        json(r#"{"handle": "a", "n": 1}"#),
        json(r#"{"handle": "ps5", "n": 2}"#),
        json(r#"{"handle": "ps5", "n": 3}"#),
    ];
    let found = shopify().find_target_product(&products).unwrap();
    match found {
        JsonValue::Object(m) => assert_eq!(m[1].key, "n"),
        _ => panic!("not an object"),
    }
    assert!(std::ptr::eq(found, &products[1]));
    assert!(shopify().find_target_product(&vec![json(r#"{"handle": "a"}"#)]).is_none());
}

#[test]
fn shopify_can_read_flags_missing_handles() {
    let s = shopify();
    assert!(!s.can_read(&json(r#"{"products": [{"id": 1}, {"handle": "ps5"}]}"#)));
    assert!(s.can_read(&json(r#"{"products": [{"handle": "ps5"}, {"id": 1}]}"#)));
    assert!(s.can_read(&json(r#"{"products": 1}"#)));
}

fn nike() -> NikeProduct {
    NikeProduct::new(&json(r#"{"product_id": "abc-1", "handle": "dunk-low"}"#))
}

fn fetched_url(step: &NikeStep) -> String {
    match step {
        NikeStep::FetchText { url, .. } | NikeStep::FetchStatus { url, .. } | NikeStep::FetchJson { url, .. } => url.clone(),
        _ => panic!("expected a request"),
    }
}

fn next_stage(step: NikeStep) -> NikeStage {
    match step {
        NikeStep::FetchText { next, .. } | NikeStep::FetchStatus { next, .. } | NikeStep::FetchJson { next, .. } => next,
        _ => panic!("expected a request"),
    }
}

#[test]
fn nike_walks_through_its_requests() {
    let p = nike();
    let s1 = p.step(NikeStage::Start, NikeReply::Nothing);
    assert!(matches!(s1, NikeStep::FetchText { .. }));
    assert_eq!(fetched_url(&s1), "https://www.nike.com/nl/en/launch/t/dunk-low");
    let stage = next_stage(s1);
    assert!(matches!(stage, NikeStage::ProductPage));

    let s2 = p.step(stage, NikeReply::Page("<html>Buy now</html>".to_string()));
    assert!(matches!(s2, NikeStep::FetchStatus { .. }));
    assert_eq!(fetched_url(&s2), "https://api.nike.com/merch/products/v2/abc-1");
    let stage = next_stage(s2);

    let s3 = p.step(stage, NikeReply::Success(true));
    assert!(matches!(s3, NikeStep::FetchJson { .. }));
    assert_eq!(fetched_url(&s3), "https://api.nike.com/deliver/available_skus/v1/?filter=productIds(abc-1)");
    let stage = next_stage(s3);

    let stock = json(r#"{"objects": [
        {"id": "s1", "level": "HIGH"},
        {"id": "s2", "level": "OOS"},
        {"id": "s3", "level": "LOW"}
    ]}"#);
    let reply = NikeReply::Json(stock);
    assert!(reply_can_be_read(&stage, &reply));
    let s4 = p.step(stage, reply);
    assert_eq!(fetched_url(&s4), "https://api.nike.com/merch/skus/v2/?filter=productId(abc-1)&filter=country(NL)");
    let stage = next_stage(s4);
    match &stage {
        NikeStage::Sizes(ids) => assert_eq!(ids, &vec!["s1".to_string(), "s3".to_string()]),
        _ => panic!("expected the size stage"),
    }

    let sizes = json(r#"{"objects": [
        {"id": "s1", "nikeSize": "8.5"},
        {"id": "s2", "nikeSize": "9"},
        {"id": "s3", "nikeSize": "10"},
        {"id": "s4"}
    ]}"#);
    let reply = NikeReply::Json(sizes);
    assert!(reply_can_be_read(&stage, &reply));
    match p.step(stage, reply) {
        NikeStep::Done(l) => assert_eq!(items(&l), vec![
            "https://www.nike.com/nl/en/launch/t/dunk-low/?productId=abc-1&size=10",
            "https://www.nike.com/nl/en/launch/t/dunk-low/?productId=abc-1&size=8.5",
        ]),
        _ => panic!("expected the outcome"),
    }
}

#[test]
fn nike_stops_when_sold_out_blocked_or_inactive() {
    let p = nike();
    for body in ["Sold Out", "<p>Access Denied</p>"].iter() {
        match p.step(NikeStage::ProductPage, NikeReply::Page(body.to_string())) {
            NikeStep::Done(l) => assert!(l.is_empty()),
            _ => panic!("expected no links"),
        }
    }
    match p.step(NikeStage::ProductInfo, NikeReply::Success(false)) {
        NikeStep::Done(l) => assert!(l.is_empty()),
        _ => panic!("expected no links"),
    }
}

#[test]
fn nike_reply_checks() {
    assert!(!reply_can_be_read(&NikeStage::Start, &NikeReply::Success(true)));
    assert!(!reply_can_be_read(&NikeStage::Stock, &NikeReply::Json(json(r#"{"objects": [{"id": "x"}]}"#))));
    assert!(reply_can_be_read(&NikeStage::Stock, &NikeReply::Json(json(r#"{"objects": [{"level": "OOS"}]}"#))));
    assert!(!reply_can_be_read(&NikeStage::Sizes(vec![]), &NikeReply::Json(json(r#"{"objects": [{"nikeSize": "9"}]}"#))));
    assert!(!reply_can_be_read(&NikeStage::Sizes(vec![]), &NikeReply::Json(json(r#"{}"#))));
}

#[test]
fn in_stock_id_reads_level_and_id() {
    assert_eq!(get_in_stock_id(&json(r#"{"id": "a", "level": "HIGH"}"#)), Some("a".to_string()));
    assert_eq!(get_in_stock_id(&json(r#"{"id": "a", "level": "OOS"}"#)), None);
    assert_eq!(get_in_stock_id(&json(r#"{"level": "OOS"}"#)), None);
}

#[test]
fn processing_follows_data_type() {
    let site = json(r#"{"data_type": "nike", "product_id": "p", "handle": "h"}"#);
    assert!(processing_info_is_valid(&site));
    match get_processing(&site) {
        SiteProcessor::Nike(n) => {
            assert_eq!(n.product_id, "p");
            assert_eq!(n.product_handle, "h");
        }
        _ => panic!("wrong processor"),
    }
    let site = json(r#"{"data_type": "shopify_variant", "url": "u", "handle": "h", "prepend": "p"}"#);
    assert!(matches!(get_processing(&site), SiteProcessor::ShopifyVariant(_)));
    let site = json(r#"{"data_type": "not_text", "url": "u", "text": "t"}"#);
    assert!(matches!(get_processing(&site), SiteProcessor::NotText(_)));
    let site = json(r#"{"data_type": "nvidia", "url": "u", "json": "j"}"#);
    assert!(matches!(get_processing(&site), SiteProcessor::Nvidia(_)));
    assert!(!processing_info_is_valid(&json(r#"{"data_type": "json", "url": "u"}"#)));
    assert!(!processing_info_is_valid(&json(r#"{"data_type": "bol", "url": "u"}"#)));
    assert!(!processing_info_is_valid(&json(r#"{"url": "u"}"#)));
}
