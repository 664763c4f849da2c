//! Monitoring a product launch on nike.com.
//!
//! Reading a Nike product takes up to four requests, each chosen by what the
//! previous one returned. `NikeProduct::step` makes each choice: from the
//! stage reached and the reply to the last request it gives the next request
//! and stage, or the outcome.
use vstd::prelude::*;
use crate::json::{JsonValue, as_array, as_str, at_key, json_array, json_at, json_str};
use crate::link_set::{LinkSet, texts};
use crate::text::{contains_seq, contains_str};
use crate::weburl::{parse_url, url_serialization};

verus! {

/// A Nike product, by its product id and its page handle.
pub struct NikeProduct {
    pub product_id: String,
    pub product_handle: String,
}

/// How far the reading of a Nike product has come.
pub enum NikeStage {
    /// Nothing requested yet.
    Start,
    /// The product page was requested.
    ProductPage,
    /// The product's info was requested, to learn whether it is active.
    ProductInfo,
    /// The stock document was requested.
    Stock,
    /// The size document was requested; these sizes are in stock.
    Sizes(Vec<String>),
}

/// The reply to the last request.
pub enum NikeReply {
    /// No request was made yet.
    Nothing,
    /// The body of a page.
    Page(String),
    /// Whether the request succeeded (a 2xx status).
    Success(bool),
    /// A JSON document.
    Json(JsonValue),
}

/// What to do next.
pub enum NikeStep {
    /// Get the body of `url` as text, then go on at `next`.
    FetchText { url: String, next: NikeStage },
    /// Get `url` and note whether it succeeded, then go on at `next`.
    FetchStatus { url: String, next: NikeStage },
    /// Get `url` as a JSON document, then go on at `next`.
    FetchJson { url: String, next: NikeStage },
    /// The reading is over, with these links.
    Done(LinkSet),
    /// A URL to request did not parse.
    Failed(url::ParseError),
}

/// The product page.
pub open spec fn page_text(handle: Seq<char>) -> Seq<char> {
    "https://www.nike.com/nl/en/launch/t/"@ + handle
}

/// The product's info; it answers 200 while the product is active.
pub open spec fn info_text(id: Seq<char>) -> Seq<char> {
    "https://api.nike.com/merch/products/v2/"@ + id
}

/// The product's stock.
pub open spec fn stock_text(id: Seq<char>) -> Seq<char> {
    "https://api.nike.com/deliver/available_skus/v1/?filter=productIds("@ + id + ")"@
}

/// The product's sizes.
pub open spec fn sizes_text(id: Seq<char>) -> Seq<char> {
    "https://api.nike.com/merch/skus/v2/?filter=productId("@ + id + ")&filter=country(NL)"@
}

/// The launch page of one size, which takes the buyer to payment.
pub open spec fn launch_text(handle: Seq<char>, id: Seq<char>, size: Seq<char>) -> Seq<char> {
    "https://www.nike.com/nl/en/launch/t/"@ + handle + "/?productId="@ + id + "&size="@ + size
}

/// Whether a product page says the product cannot be had: it is sold out,
/// or the request was blocked.
pub open spec fn page_says_unavailable(body: Seq<char>) -> bool {
    contains_seq(body, "Sold Out"@) || contains_seq(body, "Access Denied"@)
}

/// A stock entry's id where it is in stock: `None` where its level is
/// "OOS".
pub open spec fn in_stock_id(entry: JsonValue) -> Option<Seq<char>> {
    if json_str(json_at(entry, "level"@)) == Some("OOS"@) {
        None
    } else {
        json_str(json_at(entry, "id"@))
    }
}

/// A stock entry has a string level, and a string id where it is in stock.
pub open spec fn stock_entry_readable(entry: JsonValue) -> bool {
    &&& json_str(json_at(entry, "level"@)) is Some
    &&& json_str(json_at(entry, "level"@)) != Some("OOS"@) ==> json_str(
        json_at(entry, "id"@),
    ) is Some
}

/// The ids of the entries in stock, in order.
pub open spec fn in_stock_ids(entries: Seq<JsonValue>) -> Seq<Seq<char>>
    decreases entries.len(),
{
    if entries.len() == 0 {
        Seq::empty()
    } else {
        let prev = in_stock_ids(entries.drop_last());
        match in_stock_id(entries.last()) {
            Some(id) => prev.push(id),
            None => prev,
        }
    }
}

/// The entries of a document: `v["objects"].as_array()`.
pub open spec fn objects(v: JsonValue) -> Option<Seq<JsonValue>> {
    json_array(json_at(v, "objects"@))
}

/// A stock document has a list of readable entries.
pub open spec fn stock_readable(v: JsonValue) -> bool {
    match objects(v) {
        Some(entries) => forall|i: int|
            0 <= i < entries.len() ==> stock_entry_readable(#[trigger] entries[i]),
        None => false,
    }
}

/// A size entry's Nike size where its id is among `available`.
pub open spec fn available_size(entry: JsonValue, available: Seq<Seq<char>>) -> Option<Seq<char>> {
    match json_str(json_at(entry, "id"@)) {
        Some(id) => if available.contains(id) {
            json_str(json_at(entry, "nikeSize"@))
        } else {
            None
        },
        None => None,
    }
}

/// A size document has a list of entries, each with a string id.
pub open spec fn sizes_readable(v: JsonValue) -> bool {
    match objects(v) {
        Some(entries) => forall|i: int|
            0 <= i < entries.len() ==> (json_str(json_at(#[trigger] entries[i], "id"@)) is Some),
        None => false,
    }
}

/// The launch page of a size entry whose id is among `available`, where it
/// parses as a URL.
pub open spec fn size_link(
    handle: Seq<char>,
    id: Seq<char>,
    entry: JsonValue,
    available: Seq<Seq<char>>,
) -> Option<Seq<char>> {
    match available_size(entry, available) {
        Some(size) => url_serialization(launch_text(handle, id, size)),
        None => None,
    }
}

/// The launch pages of the sizes in stock that parse as URLs.
pub open spec fn size_links(
    handle: Seq<char>,
    id: Seq<char>,
    entries: Seq<JsonValue>,
    available: Seq<Seq<char>>,
) -> Set<Seq<char>> {
    Set::new(
        |u: Seq<char>|
            exists|i: int|
                0 <= i < entries.len() && size_link(handle, id, #[trigger] entries[i], available)
                    == Some(u),
    )
}

/// `r` asks for the size document at `u` and remembers `ids` as the sizes
/// in stock.
pub open spec fn asks_sizes(r: NikeStep, u: Seq<char>, ids: Seq<Seq<char>>) -> bool {
    match r {
        NikeStep::FetchJson { url, next } => url@ == u && match next {
            NikeStage::Sizes(available) => texts(available@) == ids,
            _ => false,
        },
        _ => false,
    }
}

/// Whether `reply` answers the request made at `stage`, and a JSON reply
/// can be read.
pub open spec fn reply_fits(stage: NikeStage, reply: NikeReply) -> bool {
    match stage {
        NikeStage::Start => reply is Nothing,
        NikeStage::ProductPage => reply is Page,
        NikeStage::ProductInfo => reply is Success,
        NikeStage::Stock => reply matches NikeReply::Json(v) && stock_readable(v),
        NikeStage::Sizes(_) => reply matches NikeReply::Json(v) && sizes_readable(v),
    }
}

/// `r` asks to fetch `text` (as the URL it parses to) and go on at `next`,
/// or reports that `text` does not parse.
pub open spec fn fetches(r: NikeStep, kind: int, text: Seq<char>, next: NikeStage) -> bool {
    match url_serialization(text) {
        Some(u) => match r {
            NikeStep::FetchText { url, next: n } => kind == 0 && url@ == u && n == next,
            NikeStep::FetchStatus { url, next: n } => kind == 1 && url@ == u && n == next,
            NikeStep::FetchJson { url, next: n } => kind == 2 && url@ == u && n == next,
            _ => false,
        },
        None => r is Failed,
    }
}

/// `r` ends the reading with exactly the links `links`.
pub open spec fn finishes(r: NikeStep, links: Set<Seq<char>>) -> bool {
    r matches NikeStep::Done(l) && l.set() == links
}

/// Whether the strings in `v` include `s`.
fn contains_string(v: &Vec<String>, s: &String) -> (b: bool)
    ensures
        b == texts(v@).contains(s@),
{
    let n = v.len();
    let mut i: usize = 0;
    while i < n
        invariant
            i <= n == v.len(),
            forall|k: int| 0 <= k < i ==> texts(v@)[k] != s@,
        decreases n - i,
    {
        if v[i] == *s {
            assert(texts(v@)[i as int] == s@);
            return true;
        }
        i = i + 1;
    }
    false
}

/// `pattern` followed by `s`.
fn prefixed(pattern: &str, s: &String) -> (r: String)
    ensures
        r@ == pattern@ + s@,
{
    let mut r = String::from_str(pattern);
    r.append(s.as_str());
    r
}

/// `pattern` followed by `s`, and by `tail`.
fn text_with(pattern: &str, s: &String, tail: &str) -> (r: String)
    ensures
        r@ == pattern@ + s@ + tail@,
{
    let mut r = String::from_str(pattern);
    r.append(s.as_str());
    r.append(tail);
    r
}

/// `entry` as a stock entry: its id where it is in stock.
pub fn get_in_stock_id(entry: &JsonValue) -> (r: Option<String>)
    requires
        stock_entry_readable(*entry),
    ensures
        match r {
            Some(id) => in_stock_id(*entry) == Some(id@),
            None => in_stock_id(*entry) is None,
        },
{
    let level = as_str(at_key(Some(entry), "level")).unwrap();
    let oos = String::from_str("OOS");
    if *level == oos {
        return None;
    }
    Some(as_str(at_key(Some(entry), "id")).unwrap().clone())
}

/// Whether stock document `v` can be read.
fn stock_can_be_read(v: &JsonValue) -> (b: bool)
    ensures
        b == stock_readable(*v),
{
    let entries = match as_array(at_key(Some(v), "objects")) {
        Some(e) => e,
        None => {
            return false;
        },
    };
    let ghost es = entries@;
    assert(objects(*v) == Some(es));
    let oos = String::from_str("OOS");
    let n = entries.len();
    let mut i: usize = 0;
    while i < n
        invariant
            i <= n == entries.len(),
            es == entries@,
            objects(*v) == Some(es),
            oos@ == "OOS"@,
            forall|k: int| 0 <= k < i ==> stock_entry_readable(#[trigger] es[k]),
        decreases n - i,
    {
        match as_str(at_key(Some(&entries[i]), "level")) {
            None => {
                assert(!stock_entry_readable(objects(*v)->0[i as int]));
                return false;
            },
            Some(level) => {
                if !(*level == oos) && as_str(at_key(Some(&entries[i]), "id")).is_none() {
                    assert(!stock_entry_readable(objects(*v)->0[i as int]));
                    return false;
                }
            },
        }
        i = i + 1;
    }
    true
}

/// Whether size document `v` can be read.
fn sizes_can_be_read(v: &JsonValue) -> (b: bool)
    ensures
        b == sizes_readable(*v),
{
    let entries = match as_array(at_key(Some(v), "objects")) {
        Some(e) => e,
        None => {
            return false;
        },
    };
    let ghost es = entries@;
    assert(objects(*v) == Some(es));
    let n = entries.len();
    let mut i: usize = 0;
    while i < n
        invariant
            i <= n == entries.len(),
            es == entries@,
            objects(*v) == Some(es),
            forall|k: int| 0 <= k < i ==> (json_str(json_at(#[trigger] es[k], "id"@)) is Some),
        decreases n - i,
    {
        if as_str(at_key(Some(&entries[i]), "id")).is_none() {
            assert(json_str(json_at(es[i as int], "id"@)) is None);
            return false;
        }
        i = i + 1;
    }
    true
}

/// Whether `reply` answers the request made at `stage` and can be read:
/// what `NikeProduct::step` asks of its arguments.
pub fn reply_can_be_read(stage: &NikeStage, reply: &NikeReply) -> (b: bool)
    ensures
        b == reply_fits(*stage, *reply),
{
    match (stage, reply) {
        (NikeStage::Start, NikeReply::Nothing) => true,
        (NikeStage::ProductPage, NikeReply::Page(_)) => true,
        (NikeStage::ProductInfo, NikeReply::Success(_)) => true,
        (NikeStage::Stock, NikeReply::Json(v)) => stock_can_be_read(v),
        (NikeStage::Sizes(_), NikeReply::Json(v)) => sizes_can_be_read(v),
        _ => false,
    }
}

impl NikeProduct {
    /// The product that `site_info` describes by its `product_id` and
    /// `handle`.
    pub fn new(site_info: &JsonValue) -> (r: NikeProduct)
        requires
            json_str(json_at(*site_info, "product_id"@)) is Some,
            json_str(json_at(*site_info, "handle"@)) is Some,
        ensures
            json_str(json_at(*site_info, "product_id"@)) == Some(r.product_id@),
            json_str(json_at(*site_info, "handle"@)) == Some(r.product_handle@),
    {
        let product_id = as_str(at_key(Some(site_info), "product_id")).unwrap().clone();
        let product_handle = as_str(at_key(Some(site_info), "handle")).unwrap().clone();
        NikeProduct { product_id, product_handle }
    }

    /// A request for the URL that `text` parses to, going on at `next`;
    /// `kind` 0 asks for text, 1 for the status, 2 for JSON.
    fn request(text: String, kind: u8, next: NikeStage) -> (r: NikeStep)
        requires
            kind <= 2,
        ensures
            fetches(r, kind as int, text@, next),
    {
        match parse_url(text.as_str()) {
            Ok(url) => if kind == 0 {
                NikeStep::FetchText { url, next }
            } else if kind == 1 {
                NikeStep::FetchStatus { url, next }
            } else {
                NikeStep::FetchJson { url, next }
            },
            Err(e) => NikeStep::Failed(e),
        }
    }

    /// The ids of the entries of stock document `v` that are in stock.
    fn available_size_ids(v: &JsonValue) -> (r: Vec<String>)
        requires
            stock_readable(*v),
        ensures
            texts(r@) == in_stock_ids(objects(*v)->0),
    {
        let entries = as_array(at_key(Some(v), "objects")).unwrap();
        let ghost es = entries@;
        assert(objects(*v) == Some(es));
        assert forall|k: int| 0 <= k < es.len() implies stock_entry_readable(#[trigger] es[k]) by {
            assert(stock_entry_readable(objects(*v)->0[k]));
        }
        let mut ids: Vec<String> = Vec::new();
        let n = entries.len();
        let mut i: usize = 0;
        while i < n
            invariant
                i <= n == entries.len(),
                es == entries@,
                forall|k: int| 0 <= k < es.len() ==> stock_entry_readable(#[trigger] es[k]),
                texts(ids@) == in_stock_ids(es.subrange(0, i as int)),
            decreases n - i,
        {
            let ghost before = ids@;
            assert(es.subrange(0, i + 1).drop_last() =~= es.subrange(0, i as int));
            assert(es.subrange(0, i + 1).last() == es[i as int]);
            match get_in_stock_id(&entries[i]) {
                Some(id) => {
                    ids.push(id);
                    assert(texts(ids@) =~= texts(before).push(ids@.last()@)) by {
                        assert(ids@ =~= before.push(ids@.last()));
                    }
                },
                None => {},
            }
            i = i + 1;
        }
        assert(es.subrange(0, n as int) =~= es);
        ids
    }

    /// The launch pages of the sizes in size document `v` whose ids are
    /// among `available`.
    fn links_for_sizes(&self, v: &JsonValue, available: &Vec<String>) -> (r: LinkSet)
        requires
            sizes_readable(*v),
        ensures
            r.set() == size_links(
                self.product_handle@,
                self.product_id@,
                objects(*v)->0,
                texts(available@),
            ),
    {
        let entries = as_array(at_key(Some(v), "objects")).unwrap();
        let ghost es = entries@;
        let ghost handle = self.product_handle@;
        let ghost id = self.product_id@;
        let ghost avail = texts(available@);
        let mut links = LinkSet::new();
        let n = entries.len();
        let mut i: usize = 0;
        while i < n
            invariant
                i <= n == entries.len(),
                es == entries@,
                handle == self.product_handle@,
                id == self.product_id@,
                avail == texts(available@),
                forall|k: int| 0 <= k < es.len() ==> (json_str(json_at(#[trigger] es[k], "id"@)) is Some),
                links.set() == size_links(handle, id, es.subrange(0, i as int), avail),
            decreases n - i,
        {
            let entry = &entries[i];
            let ghost before = links.set();
            let ghost size_here = available_size(es[i as int], avail);
            let entry_id = as_str(at_key(Some(entry), "id")).unwrap();
            if contains_string(available, entry_id) {
                match as_str(at_key(Some(entry), "nikeSize")) {
                    Some(size) => {
                        let mut text = text_with(
                            "https://www.nike.com/nl/en/launch/t/",
                            &self.product_handle,
                            "/?productId=",
                        );
                        text.append(self.product_id.as_str());
                        text.append("&size=");
                        text.append(size.as_str());
                        assert(text@ =~= launch_text(handle, id, size@));
                        match parse_url(text.as_str()) {
                            Ok(u) => {
                                links.insert(u);
                            },
                            Err(_) => {},
                        }
                    },
                    None => {},
                }
            }
            proof {
                let next = es.subrange(0, i + 1);
                let prev = es.subrange(0, i as int);
                assert forall|u: Seq<char>|
                    links.set().contains(u) == size_links(handle, id, next, avail).contains(u) by {
                    if size_links(handle, id, next, avail).contains(u) {
                        let k = choose|k: int|
                            0 <= k < next.len() && size_link(handle, id, #[trigger] next[k], avail)
                                == Some(u);
                        if k < i {
                            assert(prev[k] == next[k]);
                            assert(size_links(handle, id, prev, avail).contains(u));
                        }
                    }
                    if before.contains(u) {
                        let k = choose|k: int|
                            0 <= k < prev.len() && size_link(handle, id, #[trigger] prev[k], avail)
                                == Some(u);
                        assert(next[k] == prev[k]);
                    }
                    if links.set().contains(u) && !before.contains(u) {
                        assert(next[i as int] == es[i as int]);
                    }
                }
                assert(links.set() =~= size_links(handle, id, next, avail));
            }
            i = i + 1;
        }
        assert(es.subrange(0, n as int) =~= es);
        links
    }

    /// The next move in reading the product, from the stage reached and the
    /// reply to the last request.
    pub fn step(&self, stage: NikeStage, reply: NikeReply) -> (r: NikeStep)
        requires
            reply_fits(stage, reply),
        ensures
            match stage {
                NikeStage::Start => fetches(
                    r,
                    0,
                    page_text(self.product_handle@),
                    NikeStage::ProductPage,
                ),
                NikeStage::ProductPage => match reply {
                    NikeReply::Page(body) => if page_says_unavailable(body@) {
                        finishes(r, Set::empty())
                    } else {
                        fetches(r, 1, info_text(self.product_id@), NikeStage::ProductInfo)
                    },
                    _ => false,
                },
                NikeStage::ProductInfo => match reply {
                    NikeReply::Success(ok) => if !ok {
                        finishes(r, Set::empty())
                    } else {
                        fetches(r, 2, stock_text(self.product_id@), NikeStage::Stock)
                    },
                    _ => false,
                },
                NikeStage::Stock => match reply {
                    NikeReply::Json(v) => match url_serialization(sizes_text(self.product_id@)) {
                        Some(u) => asks_sizes(r, u, in_stock_ids(objects(v)->0)),
                        None => r is Failed,
                    },
                    _ => false,
                },
                NikeStage::Sizes(available) => match reply {
                    NikeReply::Json(v) => finishes(
                        r,
                        size_links(
                            self.product_handle@,
                            self.product_id@,
                            objects(v)->0,
                            texts(available@),
                        ),
                    ),
                    _ => false,
                },
            },
    {
        match stage {
            NikeStage::Start => Self::request(
                prefixed("https://www.nike.com/nl/en/launch/t/", &self.product_handle),
                0,
                NikeStage::ProductPage,
            ),
            NikeStage::ProductPage => {
                let body = match reply {
                    NikeReply::Page(body) => body,
                    _ => {
                        return NikeStep::Done(LinkSet::new());
                    },
                };
                if contains_str(body.as_str(), "Sold Out") || contains_str(
                    body.as_str(),
                    "Access Denied",
                ) {
                    return NikeStep::Done(LinkSet::new());
                }
                Self::request(
                    prefixed("https://api.nike.com/merch/products/v2/", &self.product_id),
                    1,
                    NikeStage::ProductInfo,
                )
            },
            NikeStage::ProductInfo => {
                let ok = match reply {
                    NikeReply::Success(ok) => ok,
                    _ => {
                        return NikeStep::Done(LinkSet::new());
                    },
                };
                if !ok {
                    return NikeStep::Done(LinkSet::new());
                }
                Self::request(
                    text_with(
                        "https://api.nike.com/deliver/available_skus/v1/?filter=productIds(",
                        &self.product_id,
                        ")",
                    ),
                    2,
                    NikeStage::Stock,
                )
            },
            NikeStage::Stock => {
                let v = match reply {
                    NikeReply::Json(v) => v,
                    _ => {
                        return NikeStep::Done(LinkSet::new());
                    },
                };
                let available = Self::available_size_ids(&v);
                let text = text_with(
                    "https://api.nike.com/merch/skus/v2/?filter=productId(",
                    &self.product_id,
                    ")&filter=country(NL)",
                );
                match parse_url(text.as_str()) {
                    Ok(url) => NikeStep::FetchJson { url, next: NikeStage::Sizes(available) },
                    Err(e) => NikeStep::Failed(e),
                }
            },
            NikeStage::Sizes(available) => {
                let v = match reply {
                    NikeReply::Json(v) => v,
                    _ => {
                        return NikeStep::Done(LinkSet::new());
                    },
                };
                NikeStep::Done(self.links_for_sizes(&v, &available))
            },
        }
    }
}

/// Every size in stock is reported: where size document `v` lists entry
/// `i` with an id among `available` and Nike size `size`, and the launch
/// page of that size parses to `u`, the reading ends with `u` among its
/// links.
pub proof fn law_every_size_in_stock_is_reported(
    handle: Seq<char>,
    id: Seq<char>,
    v: JsonValue,
    available: Seq<Seq<char>>,
    entries: Seq<JsonValue>,
    i: int,
    entry_id: Seq<char>,
    size: Seq<char>,
    u: Seq<char>,
)
    requires
        json_array(json_at(v, "objects"@)) == Some(entries),
        0 <= i < entries.len(),
        json_str(json_at(entries[i], "id"@)) == Some(entry_id),
        available.contains(entry_id),
        json_str(json_at(entries[i], "nikeSize"@)) == Some(size),
        url_serialization(
            "https://www.nike.com/nl/en/launch/t/"@ + handle + "/?productId="@ + id + "&size="@
                + size,
        ) == Some(u),
    ensures
        size_links(handle, id, objects(v)->0, available).contains(u),
{
    assert(size_link(handle, id, entries[i], available) == Some(u));
}

/// Nothing but launch pages of sizes in stock is reported: each reported
/// link is what the launch page of some entry of the size document parses
/// to, that entry having an id among `available` and a Nike size.
pub proof fn law_only_sizes_in_stock_are_reported(
    handle: Seq<char>,
    id: Seq<char>,
    entries: Seq<JsonValue>,
    available: Seq<Seq<char>>,
    u: Seq<char>,
)
    requires
        size_links(handle, id, entries, available).contains(u),
    ensures
        exists|i: int, entry_id: Seq<char>, size: Seq<char>|
            #![trigger entries[i], available.contains(entry_id), url_serialization("https://www.nike.com/nl/en/launch/t/"@ + handle + "/?productId="@ + id + "&size="@ + size)]
            {
                &&& 0 <= i < entries.len()
                &&& json_str(json_at(entries[i], "id"@)) == Some(entry_id)
                &&& available.contains(entry_id)
                &&& json_str(json_at(entries[i], "nikeSize"@)) == Some(size)
                &&& url_serialization(
                    "https://www.nike.com/nl/en/launch/t/"@ + handle + "/?productId="@ + id
                        + "&size="@ + size,
                ) == Some(u)
            },
{
    let i = choose|i: int|
        0 <= i < entries.len() && size_link(handle, id, #[trigger] entries[i], available) == Some(u);
    let entry_id = json_str(json_at(entries[i], "id"@))->0;
    let size = json_str(json_at(entries[i], "nikeSize"@))->0;
    assert(available.contains(entry_id));
}

/// The sizes in stock are exactly the ids of the stock entries whose level
/// is not "OOS", in their order: an id is listed exactly when some such
/// entry has it, and there are never more ids than entries.
pub proof fn law_in_stock_ids_are_the_entries_not_out_of_stock(entries: Seq<JsonValue>)
    ensures
        forall|x: Seq<char>|
            #[trigger] in_stock_ids(entries).contains(x) <==> exists|i: int|
                0 <= i < entries.len() && json_str(json_at(#[trigger] entries[i], "level"@)) != Some(
                    "OOS"@,
                ) && json_str(json_at(entries[i], "id"@)) == Some(x),
        in_stock_ids(entries).len() <= entries.len(),
    decreases entries.len(),
{
    if entries.len() > 0 {
        let init = entries.drop_last();
        law_in_stock_ids_are_the_entries_not_out_of_stock(init);
        let last = entries.last();
        assert forall|x: Seq<char>|
            #[trigger] in_stock_ids(entries).contains(x) <==> exists|i: int|
                0 <= i < entries.len() && json_str(json_at(#[trigger] entries[i], "level"@)) != Some(
                    "OOS"@,
                ) && json_str(json_at(entries[i], "id"@)) == Some(x) by {
            let prev = in_stock_ids(init);
            if in_stock_ids(entries).contains(x) {
                if prev.contains(x) {
                    let i = choose|i: int|
                        0 <= i < init.len() && json_str(json_at(#[trigger] init[i], "level"@))
                            != Some("OOS"@) && json_str(json_at(init[i], "id"@)) == Some(x);
                    assert(entries[i] == init[i]);
                } else {
                    assert(in_stock_id(last) == Some(x));
                    assert(entries[entries.len() - 1] == last);
                }
            }
            if exists|i: int|
                0 <= i < entries.len() && json_str(json_at(#[trigger] entries[i], "level"@)) != Some(
                    "OOS"@,
                ) && json_str(json_at(entries[i], "id"@)) == Some(x) {
                let i = choose|i: int|
                    0 <= i < entries.len() && json_str(json_at(#[trigger] entries[i], "level"@))
                        != Some("OOS"@) && json_str(json_at(entries[i], "id"@)) == Some(x);
                if i < entries.len() - 1 {
                    assert(init[i] == entries[i]);
                    assert(prev.contains(x));
                    let k = choose|k: int| 0 <= k < prev.len() && prev[k] == x;
                    match in_stock_id(last) {
                        Some(y) => {
                            assert(prev.push(y)[k] == x);
                        },
                        None => {},
                    }
                } else {
                    assert(entries[i] == last);
                    assert(in_stock_id(last) == Some(x));
                    assert(prev.push(x)[prev.len() as int] == x);
                }
            }
        }
    }
}

/// A product page that shows "Sold Out" or "Access Denied" anywhere ends
/// the reading; one that shows neither does not.
pub proof fn law_page_stops_on_sold_out_or_blocked(before: Seq<char>, after: Seq<char>, body: Seq<char>)
    ensures
        page_says_unavailable(before + "Sold Out"@ + after),
        page_says_unavailable(before + "Access Denied"@ + after),
        !(exists|a: Seq<char>, b: Seq<char>| #[trigger] (a + "Sold Out"@ + b) == body)
            && !(exists|a: Seq<char>, b: Seq<char>| #[trigger] (a + "Access Denied"@ + b) == body)
            ==> !page_says_unavailable(body),
{
    crate::text::law_contains_finds_any_occurrence(before, "Sold Out"@, after);
    crate::text::law_contains_finds_any_occurrence(before, "Access Denied"@, after);
    if contains_seq(body, "Sold Out"@) {
        crate::text::law_contains_only_occurrences(body, "Sold Out"@);
    }
    if contains_seq(body, "Access Denied"@) {
        crate::text::law_contains_only_occurrences(body, "Access Denied"@);
    }
}

} // verus!
