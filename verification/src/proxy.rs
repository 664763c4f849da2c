//! Proxies: reading them from `proxies.txt` lines and switching a monitor
//! to a random one.
use vstd::prelude::*;
use rand::seq::SliceRandom;
use crate::link_set::texts;
use crate::monitor::{ClientConfig, Monitor};
use crate::text::{
    is_white_space, lemma_split_at_separator, lemma_split_without_separator, lemma_trim_untouched,
    split_spec, trim_spec, trimmed_fields,
};

verus! {

/// An HTTP proxy; `username` and `password` are empty where the proxy
/// needs no authentication.
#[derive(Clone, Debug)]
pub struct Proxy {
    pub host: String,
    pub port: String,
    pub username: String,
    pub password: String,
}

/// The colon-separated fields of a `proxies.txt` line, trimmed.
pub open spec fn proxy_fields(line: Seq<char>) -> Seq<Seq<char>> {
    split_spec(trim_spec(line), ':')
}

/// Whether `line` has the form `host:port` or `host:port:username:password`.
pub open spec fn is_proxy_line(line: Seq<char>) -> bool {
    proxy_fields(line).len() == 2 || proxy_fields(line).len() == 4
}

/// The address of a proxy as its client is given it: `http://host:port`.
pub open spec fn proxy_address(host: Seq<char>, port: Seq<char>) -> Seq<char> {
    "http://"@ + host + ":"@ + port
}

/// The colon-separated fields of `line`, trimmed.
pub fn proxy_line_fields(line: &str) -> (r: Vec<String>)
    ensures
        texts(r@) == proxy_fields(line@),
{
    trimmed_fields(line, ':')
}

/// The proxy that a `proxies.txt` line describes.
pub fn parse_proxy(line: String) -> (p: Proxy)
    requires
        is_proxy_line(line@),
    ensures
        p.host@ == proxy_fields(line@)[0],
        p.port@ == proxy_fields(line@)[1],
        proxy_fields(line@).len() == 2 ==> p.username@ == Seq::<char>::empty()
            && p.password@ == Seq::<char>::empty(),
        proxy_fields(line@).len() == 4 ==> p.username@ == proxy_fields(line@)[2]
            && p.password@ == proxy_fields(line@)[3],
{
    let parts = proxy_line_fields(line.as_str());
    assert(parts@.len() == texts(parts@).len());
    if parts.len() == 2 {
        return Proxy {
            host: parts[0].clone(),
            port: parts[1].clone(),
            username: String::new(),
            password: String::new(),
        };
    }
    Proxy {
        host: parts[0].clone(),
        port: parts[1].clone(),
        username: parts[2].clone(),
        password: parts[3].clone(),
    }
}

/// Calls `rand::seq::SliceRandom::choose` on `proxies` with
/// `rand::thread_rng()`. Claimed: the result is `None` exactly when
/// `proxies` is empty, and otherwise one of its elements. Which element
/// comes back is chance and is not stated.
#[verifier::external_body]
fn choose_proxy(proxies: &Vec<Proxy>) -> (r: Option<&Proxy>)
    ensures
        r is None <==> proxies@.len() == 0,
        r matches Some(p) ==> proxies@.contains(*p),
{
    proxies.choose(&mut rand::thread_rng())
}

/// A proxy picked at random from `proxies`.
pub fn get_random_proxy(proxies: &Vec<Proxy>) -> (r: &Proxy)
    requires
        proxies.len() > 0,
    ensures
        proxies@.contains(*r),
{
    choose_proxy(proxies).unwrap()
}

/// `proxy`'s address: `http://host:port`.
pub fn address_of(proxy: &Proxy) -> (r: String)
    ensures
        r@ == proxy_address(proxy.host@, proxy.port@),
{
    let mut address = String::from_str("http://");
    address.append(proxy.host.as_str());
    address.append(":");
    address.append(proxy.port.as_str());
    address
}

/// `client` goes through `proxy`.
pub open spec fn goes_through(client: ClientConfig, proxy: Proxy) -> bool {
    match client {
        ClientConfig::Proxied { address, username, password } => {
            &&& address@ == proxy_address(proxy.host@, proxy.port@)
            &&& username@ == proxy.username@
            &&& password@ == proxy.password@
        },
        ClientConfig::Direct => false,
    }
}

/// Switches `monitor`'s client to a proxy picked at random from `proxies`.
pub fn switch_proxy(monitor: &mut Monitor, proxies: &Vec<Proxy>)
    requires
        proxies.len() > 0,
    ensures
        exists|p: Proxy| proxies@.contains(p) && goes_through(final(monitor).client, p),
        final(monitor).url == old(monitor).url,
        final(monitor).links == old(monitor).links,
        final(monitor).links_new == old(monitor).links_new,
        final(monitor).links_rem == old(monitor).links_rem,
        final(monitor).processor == old(monitor).processor,
        final(monitor).successive_err_count == old(monitor).successive_err_count,
{
    let proxy = get_random_proxy(proxies);
    let address = address_of(proxy);
    monitor.client = ClientConfig::Proxied {
        address,
        username: proxy.username.clone(),
        password: proxy.password.clone(),
    };
    assert(goes_through(monitor.client, *proxy));
}

/// `a:b`.
pub open spec fn colon_joined(a: Seq<char>, b: Seq<char>) -> Seq<char> {
    a + seq![':'] + b
}

/// A line written as `host:port`, from fields without colons, that neither
/// starts nor ends with white space, reads back as exactly those fields.
pub proof fn law_short_proxy_line_round_trip(host: Seq<char>, port: Seq<char>)
    requires
        !host.contains(':'),
        !port.contains(':'),
        host.len() > 0 ==> !is_white_space(host[0]),
        port.len() > 0 ==> !is_white_space(port.last()),
    ensures
        is_proxy_line(colon_joined(host, port)),
        proxy_fields(colon_joined(host, port)) == seq![host, port],
{
    let line = colon_joined(host, port);
    assert(!is_white_space(':'));
    assert(line[0] == if host.len() > 0 { host[0] } else { ':' });
    assert(line.last() == if port.len() > 0 { port.last() } else { ':' });
    lemma_trim_untouched(line);
    lemma_split_at_separator(host, port, ':');
    lemma_split_without_separator(host, ':');
    lemma_split_without_separator(port, ':');
    assert(proxy_fields(line) =~= seq![host, port]);
}

/// A line written as `host:port:username:password`, from fields without
/// colons, that neither starts nor ends with white space, reads back as
/// exactly those fields.
pub proof fn law_proxy_line_round_trip(
    host: Seq<char>,
    port: Seq<char>,
    username: Seq<char>,
    password: Seq<char>,
)
    requires
        !host.contains(':'),
        !port.contains(':'),
        !username.contains(':'),
        !password.contains(':'),
        host.len() > 0 ==> !is_white_space(host[0]),
        password.len() > 0 ==> !is_white_space(password.last()),
    ensures
        is_proxy_line(colon_joined(colon_joined(colon_joined(host, port), username), password)),
        proxy_fields(colon_joined(colon_joined(colon_joined(host, port), username), password))
            == seq![host, port, username, password],
{
    let hp = colon_joined(host, port);
    let hpu = colon_joined(hp, username);
    let line = colon_joined(hpu, password);
    assert(!is_white_space(':'));
    assert(line[0] == if host.len() > 0 { host[0] } else { ':' });
    assert(line.last() == if password.len() > 0 { password.last() } else { ':' });
    lemma_trim_untouched(line);
    lemma_split_without_separator(host, ':');
    lemma_split_without_separator(port, ':');
    lemma_split_without_separator(username, ':');
    lemma_split_without_separator(password, ':');
    lemma_split_at_separator(host, port, ':');
    lemma_split_at_separator(hp, username, ':');
    lemma_split_at_separator(hpu, password, ':');
    assert(proxy_fields(line) =~= seq![host, port, username, password]);
}

/// A proxy's address names its host and port: after "http://" it splits at
/// the colon into exactly the host and the port, where neither holds a
/// colon.
pub proof fn law_address_holds_host_and_port(host: Seq<char>, port: Seq<char>)
    requires
        !host.contains(':'),
        !port.contains(':'),
    ensures
        proxy_address(host, port).take("http://"@.len() as int) == "http://"@,
        split_spec(proxy_address(host, port).skip("http://"@.len() as int), ':') == seq![host, port],
{
    let scheme = "http://"@;
    assert(scheme + host + ":"@ + port =~= scheme + colon_joined(host, port)) by {
        reveal_strlit(":");
    }
    assert((scheme + colon_joined(host, port)).take(scheme.len() as int) =~= scheme);
    assert((scheme + colon_joined(host, port)).skip(scheme.len() as int) =~= colon_joined(host, port));
    lemma_split_at_separator(host, port, ':');
    lemma_split_without_separator(host, ':');
    lemma_split_without_separator(port, ':');
    assert(split_spec(host, ':') + split_spec(port, ':') =~= seq![host, port]);
}

} // verus!
