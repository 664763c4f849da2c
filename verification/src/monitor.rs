//! A monitored page: the links it offered last time, what changed, and
//! how its requests go out.
use vstd::prelude::*;
use crate::link_set::{LinkSet, texts};
use crate::json::{JsonValue, as_str, at_key, json_at, json_str};
use crate::processing::{
    SiteProcessor, get_processing, processing_info_is_valid, processing_info_valid,
    processor_for, str_field,
};
use crate::weburl::{parse_url, url_serialization};

verus! {

/// How a monitor's HTTP client reaches the web.
pub enum ClientConfig {
    /// Straight from this machine.
    Direct,
    /// Through an HTTP proxy at `address`, with basic authentication.
    Proxied { address: String, username: String, password: String },
}

/// The links that are in `new` and were not in `old`.
pub open spec fn added_links(old: Set<Seq<char>>, new: Set<Seq<char>>) -> Set<Seq<char>> {
    new.difference(old)
}

/// The links that were in `old` and are not in `new`.
pub open spec fn removed_links(old: Set<Seq<char>>, new: Set<Seq<char>>) -> Set<Seq<char>> {
    old.difference(new)
}

/// The members of `s` that `known` does not hold, in order.
pub open spec fn not_in(s: Seq<Seq<char>>, known: Set<Seq<char>>) -> Seq<Seq<char>> {
    s.filter(|l: Seq<char>| !known.contains(l))
}

/// Appending a link extends the filtered sequence exactly when the link is
/// not known.
proof fn lemma_not_in_push(s: Seq<Seq<char>>, l: Seq<char>, known: Set<Seq<char>>)
    ensures
        not_in(s.push(l), known) == if known.contains(l) {
            not_in(s, known)
        } else {
            not_in(s, known).push(l)
        },
{
    s.lemma_filter_push(l, |x: Seq<char>| !known.contains(x));
}

/// A monitored page.
pub struct Monitor {
    /// The page, as the serialization of its URL.
    pub url: String,
    /// The links the page offered at its last successful reading.
    pub links: LinkSet,
    /// The links that appeared at the last reading.
    pub links_new: LinkSet,
    /// The links that disappeared at the last reading.
    pub links_rem: LinkSet,
    /// How requests for this page go out.
    pub client: ClientConfig,
    /// What reads the page.
    pub processor: SiteProcessor,
    /// How many readings in a row have failed.
    pub successive_err_count: i32,
}

/// Whether `site_info` describes a page that can be monitored: its `url`
/// is a string that parses as a URL, and it describes a supported processor.
pub open spec fn site_info_valid(site_info: JsonValue) -> bool {
    &&& str_field(site_info, "url"@) matches Some(u) && url_serialization(u) is Some
    &&& processing_info_valid(site_info)
}

impl Monitor {
    /// The monitor that `site_info` describes: no links known yet, no
    /// changes, no failure, a direct connection.
    pub fn new(site_info: &JsonValue) -> (r: Monitor)
        requires
            site_info_valid(*site_info),
        ensures
            Some(r.url@) == url_serialization(str_field(*site_info, "url"@)->0),
            r.links.set() == Set::<Seq<char>>::empty(),
            r.links_new.set() == Set::<Seq<char>>::empty(),
            r.links_rem.set() == Set::<Seq<char>>::empty(),
            r.client == ClientConfig::Direct,
            processor_for(r.processor, *site_info),
            r.successive_err_count == 0,
    {
        let text = as_str(at_key(Some(site_info), "url")).unwrap();
        let url = parse_url(text.as_str()).unwrap();
        Monitor {
            url,
            links: LinkSet::new(),
            links_new: LinkSet::new(),
            links_rem: LinkSet::new(),
            client: ClientConfig::Direct,
            processor: get_processing(site_info),
            successive_err_count: 0,
        }
    }

    /// `Monitor::new(site_info)` where `site_info` describes a page that can
    /// be monitored, else `None`.
    pub fn try_new(site_info: &JsonValue) -> (r: Option<Monitor>)
        ensures
            r is Some <==> site_info_valid(*site_info),
            r matches Some(m) ==> {
                &&& Some(m.url@) == url_serialization(str_field(*site_info, "url"@)->0)
                &&& m.links.set() == Set::<Seq<char>>::empty()
                &&& m.links_new.set() == Set::<Seq<char>>::empty()
                &&& m.links_rem.set() == Set::<Seq<char>>::empty()
                &&& m.client == ClientConfig::Direct
                &&& processor_for(m.processor, *site_info)
                &&& m.successive_err_count == 0
            },
    {
        let text = match as_str(at_key(Some(site_info), "url")) {
            Some(t) => t,
            None => {
                return None;
            },
        };
        if parse_url(text.as_str()).is_err() || !processing_info_is_valid(site_info) {
            return None;
        }
        Some(Monitor::new(site_info))
    }

    /// Records `new_links` as the page's links; adds what disappeared to
    /// `links_rem` and what appeared to `links_new`; returns whether a
    /// link appeared.
    fn update_links(&mut self, new_links: LinkSet) -> (added: bool)
        ensures
            final(self).links == new_links,
            final(self).links_rem.set() == old(self).links_rem.set().union(
                removed_links(old(self).links.set(), new_links.set()),
            ),
            final(self).links_new.set() == old(self).links_new.set().union(
                added_links(old(self).links.set(), new_links.set()),
            ),
            old(self).links_rem.seq().len() == 0 ==> final(self).links_rem.seq() == not_in(
                old(self).links.seq(),
                new_links.set(),
            ),
            old(self).links_new.seq().len() == 0 ==> final(self).links_new.seq() == not_in(
                new_links.seq(),
                old(self).links.set(),
            ),
            added == !added_links(old(self).links.set(), new_links.set()).is_empty(),
            final(self).url == old(self).url,
            final(self).client == old(self).client,
            final(self).processor == old(self).processor,
            final(self).successive_err_count == old(self).successive_err_count,
    {
        proof {
            use_type_invariant(&self.links);
            use_type_invariant(&new_links);
        }
        let ghost old_links = self.links;
        let ghost old_rem = self.links_rem;
        let ghost old_new = self.links_new;
                let old_items = self.links.links();
        let n = old_items.len();
        let mut i: usize = 0;
        while i < n
            invariant
                i <= n == old_items.len(),
                texts(old_items@) == old_links.seq(),
                old_links.seq().no_duplicates(),
                self.links == old_links,
                self.links_new == old_new,
                self.url == old(self).url,
                self.client == old(self).client,
                self.processor == old(self).processor,
                self.successive_err_count == old(self).successive_err_count,
                self.links_rem.set() == old_rem.set().union(
                    old_links.seq().subrange(0, i as int).to_set().difference(new_links.set()),
                ),
                old_rem.seq().len() == 0 ==> self.links_rem.seq() == not_in(
                    old_links.seq().subrange(0, i as int),
                    new_links.set(),
                ),
            decreases n - i,
        {
            let ghost before = old_links.seq().subrange(0, i as int);
            let ghost l = old_items@[i as int]@;
            assert(old_links.seq().subrange(0, i + 1) =~= before.push(l));
            proof {
                before.lemma_push_to_set_commute(l);
                lemma_not_in_push(before, l, new_links.set());
            }
            if !new_links.contains(&old_items[i]) {
                proof {
                    if old_rem.seq().len() == 0 {
                        assert(!before.contains(l)) by {
                            if before.contains(l) {
                                let k = choose|k: int| 0 <= k < before.len() && before[k] == l;
                                assert(old_links.seq()[k] == old_links.seq()[i as int]);
                            }
                        }
                        assert(old_rem.seq() =~= Seq::<Seq<char>>::empty());
                        assert(old_rem.set() =~= Set::<Seq<char>>::empty());
                        assert(!self.links_rem.set().contains(l));
                    }
                }
                self.links_rem.insert(old_items[i].clone());
            }
            i = i + 1;
            assert(self.links_rem.set() =~= old_rem.set().union(
                old_links.seq().subrange(0, i as int).to_set().difference(new_links.set()),
            ));
        }
        assert(old_links.seq().subrange(0, n as int) =~= old_links.seq());
        let mut added = false;
        let new_items = new_links.links();
        let m = new_items.len();
                let ghost rem_after = self.links_rem;
        let mut j: usize = 0;
        while j < m
            invariant
                j <= m == new_items.len(),
                texts(new_items@) == new_links.seq(),
                new_links.seq().no_duplicates(),
                self.links == old_links,
                self.links_rem == rem_after,
                self.url == old(self).url,
                self.client == old(self).client,
                self.processor == old(self).processor,
                self.successive_err_count == old(self).successive_err_count,
                self.links_new.set() == old_new.set().union(
                    new_links.seq().subrange(0, j as int).to_set().difference(old_links.set()),
                ),
                old_new.seq().len() == 0 ==> self.links_new.seq() == not_in(
                    new_links.seq().subrange(0, j as int),
                    old_links.set(),
                ),
                added == !new_links.seq().subrange(0, j as int).to_set().difference(
                    old_links.set(),
                ).is_empty(),
            decreases m - j,
        {
            let ghost before = new_links.seq().subrange(0, j as int);
            let ghost l = new_items@[j as int]@;
            assert(new_links.seq().subrange(0, j + 1) =~= before.push(l));
            proof {
                before.lemma_push_to_set_commute(l);
                lemma_not_in_push(before, l, old_links.set());
            }
            if !self.links.contains(&new_items[j]) {
                proof {
                    if old_new.seq().len() == 0 {
                        assert(!before.contains(l)) by {
                            if before.contains(l) {
                                let k = choose|k: int| 0 <= k < before.len() && before[k] == l;
                                assert(new_links.seq()[k] == new_links.seq()[j as int]);
                            }
                        }
                        assert(old_new.seq() =~= Seq::<Seq<char>>::empty());
                        assert(old_new.set() =~= Set::<Seq<char>>::empty());
                        assert(!self.links_new.set().contains(l));
                    }
                }
                added = true;
                self.links_new.insert(new_items[j].clone());
                assert(before.push(l).to_set().difference(old_links.set()).contains(l));
            } else {
                assert(before.push(l).to_set().difference(old_links.set()) =~= before.to_set().difference(old_links.set()));
            }
            j = j + 1;
            assert(self.links_new.set() =~= old_new.set().union(
                new_links.seq().subrange(0, j as int).to_set().difference(old_links.set()),
            ));
        }
        assert(new_links.seq().subrange(0, m as int) =~= new_links.seq());
        self.links = new_links;
        proof {
            assert(added_links(old_links.set(), new_links.set()) =~= new_links.seq().to_set().difference(old_links.set()));
            assert(removed_links(old_links.set(), new_links.set()) =~= old_links.seq().to_set().difference(new_links.set()));
        }
        added
    }

    /// Takes in a reading of the page: `fetched` is what the page's
    /// processor returned. Forgets the previous reading's changes; on
    /// success records the new links and the changes, and returns whether a
    /// link appeared; on failure returns the processor's error and keeps the
    /// known links.
    pub fn read_page<E>(&mut self, fetched: Result<LinkSet, E>) -> (r: Result<bool, E>)
        ensures
            match fetched {
                Ok(new_links) => {
                    let before = old(self).links;
                    &&& final(self).links == new_links
                    &&& final(self).links_new.set() == added_links(before.set(), new_links.set())
                    &&& final(self).links_rem.set() == removed_links(before.set(), new_links.set())
                    &&& final(self).links_new.seq() == not_in(new_links.seq(), before.set())
                    &&& final(self).links_rem.seq() == not_in(before.seq(), new_links.set())
                    &&& r == Ok::<bool, E>(
                        !added_links(before.set(), new_links.set()).is_empty(),
                    )
                },
                Err(e) => {
                    &&& final(self).links == old(self).links
                    &&& final(self).links_new.set() == Set::<Seq<char>>::empty()
                    &&& final(self).links_rem.set() == Set::<Seq<char>>::empty()
                    &&& r == Err::<bool, E>(e)
                },
            },
            final(self).url == old(self).url,
            final(self).client == old(self).client,
            final(self).processor == old(self).processor,
            final(self).successive_err_count == old(self).successive_err_count,
    {
        self.links_new.clear();
        self.links_rem.clear();
        match fetched {
            Ok(new_links) => {
                let added = self.update_links(new_links);
                Ok(added)
            },
            Err(e) => Err(e),
        }
    }
}

/// The previous set of links can be rebuilt from the new one and the
/// reported changes, and the new one from the previous one: the reports
/// miss no change and invent none.
pub proof fn law_reported_changes_are_exact(old_links: Set<Seq<char>>, new_links: Set<Seq<char>>)
    ensures
        old_links == new_links.difference(added_links(old_links, new_links)).union(
            removed_links(old_links, new_links),
        ),
        new_links == old_links.difference(removed_links(old_links, new_links)).union(
            added_links(old_links, new_links),
        ),
{
    assert(old_links =~= new_links.difference(added_links(old_links, new_links)).union(
        removed_links(old_links, new_links),
    ));
    assert(new_links =~= old_links.difference(removed_links(old_links, new_links)).union(
        added_links(old_links, new_links),
    ));
}

/// No link is reported both as appeared and as disappeared.
pub proof fn law_changes_are_disjoint(old_links: Set<Seq<char>>, new_links: Set<Seq<char>>)
    ensures
        added_links(old_links, new_links).disjoint(removed_links(old_links, new_links)),
{
}

/// A page that offers the same links as before reports no change.
pub proof fn law_unchanged_page_reports_nothing(links: Set<Seq<char>>)
    ensures
        added_links(links, links) == Set::<Seq<char>>::empty(),
        removed_links(links, links) == Set::<Seq<char>>::empty(),
{
    assert(added_links(links, links) =~= Set::<Seq<char>>::empty());
    assert(removed_links(links, links) =~= Set::<Seq<char>>::empty());
}

/// A description with a `url` string that parses as a URL and an accepted
/// reader description can be monitored, and one without either cannot.
pub proof fn law_monitorable_site_infos(site_info: JsonValue)
    ensures
        site_info_valid(site_info) <==> (json_str(json_at(site_info, "url"@)) matches Some(u)
            && url_serialization(u) is Some && processing_info_valid(site_info)),
{
}

/// The changes are listed in the order the links were read: a link is
/// listed exactly when it is in `s` and not known, and the listed links keep
/// their order in `s`.
pub proof fn law_listing_keeps_reading_order(s: Seq<Seq<char>>, known: Set<Seq<char>>)
    ensures
        forall|x: Seq<char>| #[trigger] not_in(s, known).contains(x) <==> s.contains(x) && !known.contains(x),
        not_in(s, known).len() <= s.len(),
        s.len() > 0 && !known.contains(s.last()) ==> not_in(s, known) == not_in(
            s.drop_last(),
            known,
        ).push(s.last()),
        s.len() > 0 && known.contains(s.last()) ==> not_in(s, known) == not_in(s.drop_last(), known),
    decreases s.len(),
{
    if s.len() > 0 {
        let init = s.drop_last();
        law_listing_keeps_reading_order(init, known);
        assert(init.push(s.last()) =~= s);
        lemma_not_in_push(init, s.last(), known);
        let prev = not_in(init, known);
        assert forall|x: Seq<char>| #[trigger] not_in(s, known).contains(x) <==> s.contains(x) && !known.contains(x) by {
            if s.contains(x) && !known.contains(x) {
                let k = choose|k: int| 0 <= k < s.len() && s[k] == x;
                if k < s.len() - 1 {
                    assert(init[k] == x);
                    assert(init.contains(x));
                    assert(prev.contains(x));
                    let j = choose|j: int| 0 <= j < prev.len() && prev[j] == x;
                    if !known.contains(s.last()) {
                        assert(prev.push(s.last())[j] == x);
                    }
                } else {
                    assert(prev.push(s.last())[prev.len() as int] == x);
                }
            }
            if not_in(s, known).contains(x) {
                if prev.contains(x) {
                    let j = choose|j: int| 0 <= j < init.len() && init[j] == x;
                    assert(s[j] == x);
                } else {
                    assert(x == s.last());
                    assert(s[s.len() - 1] == x);
                }
            }
        }
    } else {
        assert(not_in(s, known) =~= Seq::<Seq<char>>::empty()) by {
            s.lemma_filter_len(|l: Seq<char>| !known.contains(l));
        }
    }
}

} // verus!
