//! Monitoring a page until it stops showing an error.
use vstd::prelude::*;
use crate::json::{JsonValue, as_str, at_key, json_at, json_str};
use crate::link_set::LinkSet;
use crate::weburl::url_serialization;
use crate::processing::{is_outcome, no_links, page_link, page_links};
use crate::text::{contains_seq, contains_str};

verus! {

/// A page that counts as available when it does not show the block error.
pub struct NotText {
    pub text: String,
    pub url: String,
}

/// What such a page reports: itself while its body does not show
/// "Error 1020", else nothing.
pub open spec fn not_text_links(url: Seq<char>, body: Seq<char>) -> Option<Set<Seq<char>>> {
    if contains_seq(body, "Error 1020"@) {
        no_links()
    } else {
        page_links(url)
    }
}

impl NotText {
    /// The page that `site_info` describes by its `text` and `url`.
    pub fn new(site_info: &JsonValue) -> (r: NotText)
        requires
            json_str(json_at(*site_info, "text"@)) is Some,
            json_str(json_at(*site_info, "url"@)) is Some,
        ensures
            json_str(json_at(*site_info, "text"@)) == Some(r.text@),
            json_str(json_at(*site_info, "url"@)) == Some(r.url@),
    {
        let text = as_str(at_key(Some(site_info), "text")).unwrap().clone();
        let url = as_str(at_key(Some(site_info), "url")).unwrap().clone();
        NotText { text, url }
    }

    /// Reads the page's body.
    pub fn process(&self, body: &str) -> (r: Result<LinkSet, url::ParseError>)
        ensures
            is_outcome(r, not_text_links(self.url@, body@)),
    {
        if contains_str(body, "Error 1020") {
            Ok(LinkSet::new())
        } else {
            page_link(&self.url)
        }
    }
}

/// A body that shows "Error 1020" anywhere reports nothing; a body that
/// shows it nowhere reports the page (as the URL it parses to).
pub proof fn law_block_error_decides(url: Seq<char>, body: Seq<char>)
    ensures
        (exists|i: int|
            0 <= i && i + "Error 1020"@.len() <= body.len() && #[trigger] body.subrange(
                i,
                i + "Error 1020"@.len(),
            ) == "Error 1020"@) ==> not_text_links(url, body) == Some(Set::<Seq<char>>::empty()),
        (forall|i: int|
            0 <= i && i + "Error 1020"@.len() <= body.len() ==> #[trigger] body.subrange(
                i,
                i + "Error 1020"@.len(),
            ) != "Error 1020"@) ==> not_text_links(url, body) == match url_serialization(url) {
            Some(u) => Some(set![u]),
            None => None,
        },
{
}

} // verus!
