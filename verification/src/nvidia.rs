//! Monitoring a product in the Nvidia store through its JSON data.
use vstd::prelude::*;
use crate::json::{JsonValue, as_str, at_item, at_key, json_array, json_at, json_item, json_str};
use crate::link_set::LinkSet;
use crate::weburl::url_serialization;
use crate::processing::{is_outcome, no_links, page_link, page_links};

verus! {

/// An Nvidia store product: the page to report and the JSON document to read.
pub struct Nvidia {
    pub url: String,
    pub json: String,
}

/// The inventory status in an Nvidia product document:
/// `v["products"]["product"][0]["inventoryStatus"]["status"]`.
pub open spec fn nvidia_status(v: JsonValue) -> Option<Seq<char>> {
    json_str(
        json_at(
            json_at(json_item(json_at(json_at(v, "products"@), "product"@), 0), "inventoryStatus"@),
            "status"@,
        ),
    )
}

/// What an Nvidia product reports: its page while it has a status that is
/// not out of stock, else nothing.
pub open spec fn nvidia_links(url: Seq<char>, v: JsonValue) -> Option<Set<Seq<char>>> {
    match nvidia_status(v) {
        None => no_links(),
        Some(status) => if status == "PRODUCT_INVENTORY_OUT_OF_STOCK"@ {
            no_links()
        } else {
            page_links(url)
        },
    }
}

impl Nvidia {
    /// The product that `site_info` describes by its `url` and `json`.
    pub fn new(site_info: &JsonValue) -> (r: Nvidia)
        requires
            json_str(json_at(*site_info, "url"@)) is Some,
            json_str(json_at(*site_info, "json"@)) is Some,
        ensures
            json_str(json_at(*site_info, "url"@)) == Some(r.url@),
            json_str(json_at(*site_info, "json"@)) == Some(r.json@),
    {
        let url = as_str(at_key(Some(site_info), "url")).unwrap().clone();
        let json = as_str(at_key(Some(site_info), "json")).unwrap().clone();
        Nvidia { url, json }
    }

    /// Reads the product's JSON document `v`.
    pub fn process(&self, v: &JsonValue) -> (r: Result<LinkSet, url::ParseError>)
        ensures
            is_outcome(r, nvidia_links(self.url@, *v)),
    {
        let product = at_item(at_key(at_key(Some(v), "products"), "product"), 0);
        let status = as_str(at_key(at_key(product, "inventoryStatus"), "status"));
        match status {
            None => Ok(LinkSet::new()),
            Some(s) => {
                let out_of_stock = String::from_str("PRODUCT_INVENTORY_OUT_OF_STOCK");
                if *s == out_of_stock {
                    Ok(LinkSet::new())
                } else {
                    page_link(&self.url)
                }
            },
        }
    }
}

/// The first product of the document decides: where
/// `v["products"]["product"]` is a list whose first product has status
/// `status`, the page is reported (as the URL it parses to) unless that
/// status is "PRODUCT_INVENTORY_OUT_OF_STOCK", whatever later products say.
pub proof fn law_first_product_decides(
    url: Seq<char>,
    v: JsonValue,
    products: Seq<JsonValue>,
    status: Seq<char>,
)
    requires
        json_array(json_at(json_at(v, "products"@), "product"@)) == Some(products),
        products.len() > 0,
        json_str(json_at(json_at(products[0], "inventoryStatus"@), "status"@)) == Some(status),
    ensures
        nvidia_links(url, v) == if status == "PRODUCT_INVENTORY_OUT_OF_STOCK"@ {
            Some(Set::<Seq<char>>::empty())
        } else {
            match url_serialization(url) {
                Some(u) => Some(set![u]),
                None => None,
            }
        },
{
    assert(json_item(json_at(json_at(v, "products"@), "product"@), 0) == products[0]);
}

/// Without a status string for the first product, nothing is reported:
/// where `v["products"]["product"]` is no list, an empty list, or a list
/// whose first product has no string status.
pub proof fn law_no_status_reports_nothing(url: Seq<char>, v: JsonValue)
    requires
        match json_array(json_at(json_at(v, "products"@), "product"@)) {
            Some(products) => products.len() == 0 || json_str(
                json_at(json_at(products[0], "inventoryStatus"@), "status"@),
            ) is None,
            None => true,
        },
    ensures
        nvidia_links(url, v) == Some(Set::<Seq<char>>::empty()),
{
    let list = json_at(json_at(v, "products"@), "product"@);
    match list {
        JsonValue::Array(items) => {
            if items@.len() > 0 {
                assert(json_item(list, 0) == items@[0]);
            }
        },
        _ => {},
    }
}

} // verus!
