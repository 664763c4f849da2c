//! What the monitoring loop does after each reading of a page: whom to tell
//! what, and when to give up.
use vstd::prelude::*;
use crate::link_set::{LinkSet, texts};
use crate::monitor::Monitor;
use crate::proxy::{Proxy, goes_through, switch_proxy};

verus! {

/// After this many failed readings in a row the monitor gives up.
pub const MAX_SUCCESSIVE_ERRORS: i32 = 10;

/// What the loop does after a reading.
pub enum LoopAction {
    /// Nothing to tell; go on.
    Quiet,
    /// Send this message, then go on.
    Notify(String),
    /// Give up: too many readings failed in a row.
    Crash,
}

/// Each link followed by a (JSON-escaped) line break.
pub open spec fn link_lines(links: Seq<Seq<char>>) -> Seq<char>
    decreases links.len(),
{
    if links.len() == 0 {
        Seq::empty()
    } else {
        link_lines(links.drop_last()) + links.last() + "\\n"@
    }
}

/// The message that reports a change: a heading, then the new links and the
/// removed links, each list with its own heading and left out where empty.
pub open spec fn update_message(new_links: Seq<Seq<char>>, removed: Seq<Seq<char>>) -> Seq<char> {
    "Site has been updated!\\n"@ + (if new_links.len() > 0 {
        "New Links:\\n"@ + link_lines(new_links)
    } else {
        Seq::empty()
    }) + (if removed.len() > 0 {
        "Removed Links:\\n"@ + link_lines(removed)
    } else {
        Seq::empty()
    })
}

/// Appends each link of `links` to `s`, each followed by a line break.
fn append_lines(s: &mut String, links: &LinkSet)
    ensures
        final(s)@ == old(s)@ + link_lines(links.seq()),
{
    let items = links.links();
    let n = items.len();
    let mut i: usize = 0;
    while i < n
        invariant
            i <= n == items.len(),
            texts(items@) == links.seq(),
            s@ == old(s)@ + link_lines(links.seq().subrange(0, i as int)),
        decreases n - i,
    {
        let ghost before = s@;
        s.append(items[i].as_str());
        s.append("\\n");
        assert(links.seq().subrange(0, i + 1).drop_last() =~= links.seq().subrange(0, i as int));
        assert(s@ =~= old(s)@ + link_lines(links.seq().subrange(0, i + 1)));
        i = i + 1;
    }
    assert(links.seq().subrange(0, n as int) =~= links.seq());
}

/// The message that reports the changes `new_links` and `removed`.
pub fn format_update_message(new_links: &LinkSet, removed: &LinkSet) -> (r: String)
    ensures
        r@ == update_message(new_links.seq(), removed.seq()),
{
    let mut s = String::from_str("Site has been updated!\\n");
    let ghost head = s@;
    if new_links.len() > 0 {
        s.append("New Links:\\n");
        append_lines(&mut s, new_links);
    }
    let ghost middle = s@;
    if removed.len() > 0 {
        s.append("Removed Links:\\n");
        append_lines(&mut s, removed);
    }
    assert(s@ =~= update_message(new_links.seq(), removed.seq()));
    s
}

/// Decides what follows a reading of `monitor`'s page, whose outcome is
/// `outcome`. A success resets the failure count and, where a link
/// appeared, reports the changes. A failure switches to another proxy
/// (where there are any), counts, and gives up once more than
/// `MAX_SUCCESSIVE_ERRORS` readings in a row have failed.
pub fn handle_reading<E>(monitor: &mut Monitor, outcome: &Result<bool, E>, proxies: &Vec<Proxy>) -> (a: LoopAction)
    requires
        old(monitor).successive_err_count < i32::MAX,
    ensures
        final(monitor).url == old(monitor).url,
        final(monitor).links == old(monitor).links,
        final(monitor).links_new == old(monitor).links_new,
        final(monitor).links_rem == old(monitor).links_rem,
        final(monitor).processor == old(monitor).processor,
        match outcome {
            Ok(added) => {
                &&& final(monitor).successive_err_count == 0
                &&& final(monitor).client == old(monitor).client
                &&& if *added {
                    a matches LoopAction::Notify(m) && m@ == update_message(
                        old(monitor).links_new.seq(),
                        old(monitor).links_rem.seq(),
                    )
                } else {
                    a is Quiet
                }
            },
            Err(_) => {
                &&& final(monitor).successive_err_count == old(monitor).successive_err_count + 1
                &&& if proxies.len() > 0 {
                    exists|p: Proxy| proxies@.contains(p) && goes_through(final(monitor).client, p)
                } else {
                    final(monitor).client == old(monitor).client
                }
                &&& if final(monitor).successive_err_count > MAX_SUCCESSIVE_ERRORS {
                    a is Crash
                } else {
                    a is Quiet
                }
            },
        },
{
    match outcome {
        Ok(added) => {
            monitor.successive_err_count = 0;
            if *added {
                LoopAction::Notify(format_update_message(&monitor.links_new, &monitor.links_rem))
            } else {
                LoopAction::Quiet
            }
        },
        Err(_) => {
            if proxies.len() > 0 {
                switch_proxy(monitor, proxies);
            }
            monitor.successive_err_count = monitor.successive_err_count + 1;
            if monitor.successive_err_count > MAX_SUCCESSIVE_ERRORS {
                LoopAction::Crash
            } else {
                LoopAction::Quiet
            }
        },
    }
}

/// With nothing new and nothing removed the message is only its heading.
pub proof fn law_message_without_changes()
    ensures
        update_message(Seq::empty(), Seq::empty()) == "Site has been updated!\\n"@,
{
    assert(update_message(Seq::empty(), Seq::empty()) =~= "Site has been updated!\\n"@);
}

/// The new links come first and the removed links after them: the message
/// is the message of the new links alone followed by the removed-links
/// section of the message of the removed links alone.
pub proof fn law_message_sections(new_links: Seq<Seq<char>>, removed: Seq<Seq<char>>)
    ensures
        update_message(new_links, removed) == update_message(new_links, Seq::empty())
            + update_message(Seq::empty(), removed).skip(
            "Site has been updated!\\n"@.len() as int,
        ),
{
    let head = "Site has been updated!\\n"@;
    let rem = if removed.len() > 0 {
        "Removed Links:\\n"@ + link_lines(removed)
    } else {
        Seq::<char>::empty()
    };
    assert(update_message(Seq::empty(), removed) =~= head + rem);
    assert((head + rem).skip(head.len() as int) =~= rem);
    assert(update_message(new_links, removed) =~= update_message(new_links, Seq::empty()) + rem);
}

/// A single new link is listed under its heading, followed by a line
/// break.
pub proof fn law_message_first_new_link(l: Seq<char>)
    ensures
        update_message(seq![l], Seq::empty()) == "Site has been updated!\\n"@ + "New Links:\\n"@
            + l + "\\n"@,
{
    assert(seq![l].drop_last() =~= Seq::<Seq<char>>::empty());
    assert(link_lines(Seq::<Seq<char>>::empty()) == Seq::<char>::empty());
    assert(link_lines(seq![l]) =~= l + "\\n"@);
    assert(update_message(seq![l], Seq::empty()) =~= "Site has been updated!\\n"@
        + "New Links:\\n"@ + l + "\\n"@);
}

/// One more new link adds that link and a line break at the end of the
/// new-links list.
pub proof fn law_message_one_more_new_link(new_links: Seq<Seq<char>>, l: Seq<char>)
    requires
        new_links.len() > 0,
    ensures
        update_message(new_links.push(l), Seq::empty()) == update_message(new_links, Seq::empty())
            + l + "\\n"@,
{
    assert(new_links.push(l).drop_last() =~= new_links);
    assert(update_message(new_links.push(l), Seq::empty()) =~= update_message(
        new_links,
        Seq::empty(),
    ) + l + "\\n"@);
}

/// A single removed link is listed under its heading, followed by a line
/// break.
pub proof fn law_message_first_removed_link(l: Seq<char>)
    ensures
        update_message(Seq::empty(), seq![l]) == "Site has been updated!\\n"@
            + "Removed Links:\\n"@ + l + "\\n"@,
{
    assert(seq![l].drop_last() =~= Seq::<Seq<char>>::empty());
    assert(link_lines(Seq::<Seq<char>>::empty()) == Seq::<char>::empty());
    assert(link_lines(seq![l]) =~= l + "\\n"@);
    assert(update_message(Seq::empty(), seq![l]) =~= "Site has been updated!\\n"@
        + "Removed Links:\\n"@ + l + "\\n"@);
}

/// One more removed link adds that link and a line break at the end of
/// the message.
pub proof fn law_message_one_more_removed_link(
    new_links: Seq<Seq<char>>,
    removed: Seq<Seq<char>>,
    l: Seq<char>,
)
    requires
        removed.len() > 0,
    ensures
        update_message(new_links, removed.push(l)) == update_message(new_links, removed) + l
            + "\\n"@,
{
    assert(removed.push(l).drop_last() =~= removed);
    assert(update_message(new_links, removed.push(l)) =~= update_message(new_links, removed) + l
        + "\\n"@);
}

} // verus!
