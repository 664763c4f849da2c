//! The site processors: what each kind of monitored site reads from a page.
use vstd::prelude::*;
use crate::bol::Bol;
use crate::json::{JsonValue, as_str, at_key, json_at, json_str};
use crate::link_set::LinkSet;
use crate::nike::NikeProduct;
use crate::not_text::NotText;
use crate::nvidia::Nvidia;
use crate::shopify_variant::ShopifyVariant;
use crate::weburl::{parse_url, url_serialization};

verus! {

/// The processor that a monitor runs on its page, by the site's `data_type`.
pub enum SiteProcessor {
    NotText(NotText),
    Nike(NikeProduct),
    ShopifyVariant(ShopifyVariant),
    Bol(Bol),
    Nvidia(Nvidia),
}

/// `site_info[key].as_str()`.
pub open spec fn str_field(site_info: JsonValue, key: Seq<char>) -> Option<Seq<char>> {
    json_str(json_at(site_info, key))
}

/// Whether `site_info[key]` is a string.
pub open spec fn has_str(site_info: JsonValue, key: Seq<char>) -> bool {
    str_field(site_info, key) is Some
}

/// Whether `site_info` names a supported `data_type` and holds the string
/// fields that its processor reads.
pub open spec fn processing_info_valid(site_info: JsonValue) -> bool {
    match str_field(site_info, "data_type"@) {
        Some(t) => {
            ||| t == "not_text"@ && has_str(site_info, "text"@) && has_str(site_info, "url"@)
            ||| t == "nike"@ && has_str(site_info, "product_id"@) && has_str(site_info, "handle"@)
            ||| t == "shopify_variant"@ && has_str(site_info, "url"@) && has_str(
                site_info,
                "handle"@,
            ) && has_str(site_info, "prepend"@)
            ||| t == "bol"@ && has_str(site_info, "url"@) && has_str(site_info, "json"@)
            ||| t == "nvidia"@ && has_str(site_info, "url"@) && has_str(site_info, "json"@)
        },
        None => false,
    }
}

/// `r` is the processor that `site_info` describes: its kind is the
/// `data_type`, and its fields are the like-named strings of `site_info`
/// (a Nike product's handle is `handle`).
pub open spec fn processor_for(r: SiteProcessor, site_info: JsonValue) -> bool {
    let t = str_field(site_info, "data_type"@);
    match r {
        SiteProcessor::NotText(p) => {
            &&& t == Some("not_text"@)
            &&& str_field(site_info, "text"@) == Some(p.text@)
            &&& str_field(site_info, "url"@) == Some(p.url@)
        },
        SiteProcessor::Nike(p) => {
            &&& t == Some("nike"@)
            &&& str_field(site_info, "product_id"@) == Some(p.product_id@)
            &&& str_field(site_info, "handle"@) == Some(p.product_handle@)
        },
        SiteProcessor::ShopifyVariant(p) => {
            &&& t == Some("shopify_variant"@)
            &&& str_field(site_info, "url"@) == Some(p.url@)
            &&& str_field(site_info, "handle"@) == Some(p.handle@)
            &&& str_field(site_info, "prepend"@) == Some(p.prepend@)
        },
        SiteProcessor::Bol(p) => {
            &&& t == Some("bol"@)
            &&& str_field(site_info, "url"@) == Some(p.url@)
            &&& str_field(site_info, "json"@) == Some(p.json@)
        },
        SiteProcessor::Nvidia(p) => {
            &&& t == Some("nvidia"@)
            &&& str_field(site_info, "url"@) == Some(p.url@)
            &&& str_field(site_info, "json"@) == Some(p.json@)
        },
    }
}

/// Whether `site_info[key]` is a string.
fn has_str_field(site_info: &JsonValue, key: &str) -> (b: bool)
    ensures
        b == has_str(*site_info, key@),
{
    as_str(at_key(Some(site_info), key)).is_some()
}

/// Whether `text` is `literal`.
fn is_literal(text: &String, literal: &str) -> (b: bool)
    ensures
        b == (text@ == literal@),
{
    *text == String::from_str(literal)
}

/// Whether `site_info` names a supported `data_type` and holds the string
/// fields that its processor reads.
pub fn processing_info_is_valid(site_info: &JsonValue) -> (b: bool)
    ensures
        b == processing_info_valid(*site_info),
{
    let t = match as_str(at_key(Some(site_info), "data_type")) {
        Some(t) => t,
        None => {
            return false;
        },
    };
    let has = |key: &str| -> (b: bool)
        ensures
            b == has_str(*site_info, key@),
        { has_str_field(site_info, key) };
    (is_literal(t, "not_text") && has("text") && has("url")) || (is_literal(t, "nike") && has(
        "product_id",
    ) && has("handle")) || (is_literal(t, "shopify_variant") && has("url") && has("handle") && has(
        "prepend",
    )) || (is_literal(t, "bol") && has("url") && has("json")) || (is_literal(t, "nvidia") && has(
        "url",
    ) && has("json"))
}

/// The processor that `site_info` describes, by its `data_type`.
pub fn get_processing(site_info: &JsonValue) -> (r: SiteProcessor)
    requires
        processing_info_valid(*site_info),
    ensures
        processor_for(r, *site_info),
{
    proof {
        reveal_strlit("not_text");
        reveal_strlit("nike");
        reveal_strlit("shopify_variant");
        reveal_strlit("bol");
        reveal_strlit("nvidia");
        assert("not_text"@.len() == 8);
        assert("nike"@.len() == 4);
        assert("shopify_variant"@.len() == 15);
        assert("bol"@.len() == 3);
        assert("nvidia"@.len() == 6);
    }
    let t = as_str(at_key(Some(site_info), "data_type")).unwrap();
    if is_literal(t, "not_text") {
        SiteProcessor::NotText(NotText::new(site_info))
    } else if is_literal(t, "nike") {
        SiteProcessor::Nike(NikeProduct::new(site_info))
    } else if is_literal(t, "shopify_variant") {
        SiteProcessor::ShopifyVariant(ShopifyVariant::new(site_info))
    } else if is_literal(t, "bol") {
        SiteProcessor::Bol(Bol::new(site_info))
    } else {
        SiteProcessor::Nvidia(Nvidia::new(site_info))
    }
}

/// No link.
pub open spec fn no_links() -> Option<Set<Seq<char>>> {
    Some(Set::<Seq<char>>::empty())
}

/// The page `url` itself as the one link, or `None` where `url` does not
/// parse as a URL.
pub open spec fn page_links(url: Seq<char>) -> Option<Set<Seq<char>>> {
    match url_serialization(url) {
        Some(u) => Some(set![u]),
        None => None,
    }
}

/// `r` is the outcome `expected` describes: the links, or (for `None`) a
/// URL that did not parse.
pub open spec fn is_outcome(r: Result<LinkSet, url::ParseError>, expected: Option<Set<Seq<char>>>) -> bool {
    match expected {
        Some(links) => r matches Ok(s) && s.set() == links,
        None => r is Err,
    }
}

/// The page `url` as the only link: `Url::parse(url)?` put in a set.
pub fn page_link(url: &String) -> (r: Result<LinkSet, url::ParseError>)
    ensures
        is_outcome(r, page_links(url@)),
{
    match parse_url(url.as_str()) {
        Ok(u) => {
            let mut links = LinkSet::new();
            links.insert(u);
            Ok(links)
        },
        Err(e) => Err(e),
    }
}

/// Every supported kind of site is accepted with the fields its reader
/// needs: a description whose `data_type` is one of "not_text", "nike",
/// "shopify_variant", "bol" and "nvidia" and that has that kind's string
/// fields is valid.
pub proof fn law_supported_sites_are_accepted(site_info: JsonValue)
    ensures
        ({
            let t = json_str(json_at(site_info, "data_type"@));
            let has = |key: Seq<char>| json_str(json_at(site_info, key)) is Some;
            &&& (t == Some("not_text"@) && has("text"@) && has("url"@)) ==> processing_info_valid(
                site_info,
            )
            &&& (t == Some("nike"@) && has("product_id"@) && has("handle"@))
                ==> processing_info_valid(site_info)
            &&& (t == Some("shopify_variant"@) && has("url"@) && has("handle"@) && has(
                "prepend"@,
            )) ==> processing_info_valid(site_info)
            &&& (t == Some("bol"@) && has("url"@) && has("json"@)) ==> processing_info_valid(
                site_info,
            )
            &&& (t == Some("nvidia"@) && has("url"@) && has("json"@)) ==> processing_info_valid(
                site_info,
            )
        }),
{
}

/// Only supported kinds of site are accepted, each with the fields its
/// reader needs.
pub proof fn law_only_supported_sites_are_accepted(site_info: JsonValue)
    requires
        processing_info_valid(site_info),
    ensures
        ({
            let t = json_str(json_at(site_info, "data_type"@));
            let has = |key: Seq<char>| json_str(json_at(site_info, key)) is Some;
            ||| t == Some("not_text"@) && has("text"@) && has("url"@)
            ||| t == Some("nike"@) && has("product_id"@) && has("handle"@)
            ||| t == Some("shopify_variant"@) && has("url"@) && has("handle"@) && has("prepend"@)
            ||| t == Some("bol"@) && has("url"@) && has("json"@)
            ||| t == Some("nvidia"@) && has("url"@) && has("json"@)
        }),
{
}

/// The reader built for an accepted description is of the kind its
/// `data_type` names.
pub proof fn law_reader_kind_follows_data_type(r: SiteProcessor, site_info: JsonValue)
    requires
        processor_for(r, site_info),
    ensures
        json_str(json_at(site_info, "data_type"@)) == Some("not_text"@) <==> r is NotText,
        json_str(json_at(site_info, "data_type"@)) == Some("nike"@) <==> r is Nike,
        json_str(json_at(site_info, "data_type"@)) == Some("shopify_variant"@) <==> r is ShopifyVariant,
        json_str(json_at(site_info, "data_type"@)) == Some("bol"@) <==> r is Bol,
        json_str(json_at(site_info, "data_type"@)) == Some("nvidia"@) <==> r is Nvidia,
{
    reveal_strlit("not_text");
    reveal_strlit("nike");
    reveal_strlit("shopify_variant");
    reveal_strlit("bol");
    reveal_strlit("nvidia");
    assert("not_text"@.len() == 8);
    assert("nike"@.len() == 4);
    assert("shopify_variant"@.len() == 15);
    assert("bol"@.len() == 3);
    assert("nvidia"@.len() == 6);
}

} // verus!
