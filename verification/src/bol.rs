//! Monitoring a product on bol.com through its JSON data.
use vstd::prelude::*;
use crate::json::{JsonValue, as_number, as_str, at_key, f64_bits_are_zero, is_zero_f64, json_at, json_number, json_str};
use crate::link_set::LinkSet;
use crate::weburl::url_serialization;
use crate::processing::{is_outcome, no_links, page_link, page_links};

verus! {

/// A bol.com product: the page to report and the JSON document to read.
pub struct Bol {
    pub url: String,
    pub json: String,
}

/// The price in a bol.com product document: `v["analytics"]["price"]`, as
/// the bits of its `f64`.
pub open spec fn bol_price(v: JsonValue) -> Option<u64> {
    json_number(json_at(json_at(v, "analytics"@), "price"@))
}

/// What a bol.com product reports: its page while it has a price that is
/// not zero, else nothing.
pub open spec fn bol_links(url: Seq<char>, v: JsonValue) -> Option<Set<Seq<char>>> {
    match bol_price(v) {
        None => no_links(),
        Some(bits) => if is_zero_f64(bits) {
            no_links()
        } else {
            page_links(url)
        },
    }
}

impl Bol {
    /// The product that `site_info` describes by its `url` and `json`.
    pub fn new(site_info: &JsonValue) -> (r: Bol)
        requires
            json_str(json_at(*site_info, "url"@)) is Some,
            json_str(json_at(*site_info, "json"@)) is Some,
        ensures
            json_str(json_at(*site_info, "url"@)) == Some(r.url@),
            json_str(json_at(*site_info, "json"@)) == Some(r.json@),
    {
        let url = as_str(at_key(Some(site_info), "url")).unwrap().clone();
        let json = as_str(at_key(Some(site_info), "json")).unwrap().clone();
        Bol { url, json }
    }

    /// Reads the product's JSON document `v`.
    pub fn process(&self, v: &JsonValue) -> (r: Result<LinkSet, url::ParseError>)
        ensures
            is_outcome(r, bol_links(self.url@, *v)),
    {
        let price = as_number(at_key(at_key(Some(v), "analytics"), "price"));
        match price {
            None => Ok(LinkSet::new()),
            Some(bits) => {
                if f64_bits_are_zero(bits) {
                    Ok(LinkSet::new())
                } else {
                    page_link(&self.url)
                }
            },
        }
    }
}

/// The price at `v["analytics"]["price"]` decides: a price that is not
/// zero reports the page (as the URL it parses to), a zero price (`+0.0`
/// or `-0.0`) reports nothing.
pub proof fn law_price_decides(url: Seq<char>, v: JsonValue, bits: u64)
    requires
        json_at(json_at(v, "analytics"@), "price"@) == JsonValue::Number(bits),
    ensures
        bol_links(url, v) == if bits == 0 || bits == 0x8000_0000_0000_0000 {
            Some(Set::<Seq<char>>::empty())
        } else {
            match url_serialization(url) {
                Some(u) => Some(set![u]),
                None => None,
            }
        },
{
}

/// Without a number at `v["analytics"]["price"]`, nothing is reported.
pub proof fn law_no_price_reports_nothing(url: Seq<char>, v: JsonValue)
    requires
        !(json_at(json_at(v, "analytics"@), "price"@) is Number),
    ensures
        bol_links(url, v) == Some(Set::<Seq<char>>::empty()),
{
}

} // verus!
