//! The proxy that the system is set up with: the `HTTP_PROXY` and `HTTPS_PROXY`
//! environment variables kept in the registry, else the proxy of the Internet
//! settings. The registry is read by the caller; this module decides what the
//! values read mean and in which order the places are tried.

use vstd::prelude::*;
use crate::text::{
    contains_char, joined, lemma_split_char_nonempty, lemma_split_char_rejoins, replace, replace_char, split, split_char, views};

verus! {

/// An entry `scheme=host:port` of a proxy setting as a URL `scheme://host:port`.
pub open spec fn entry_url(entry: Seq<char>) -> Seq<char> {
    replace_char(entry, '=', "://"@)
}

/// The proxies that a `ProxyServer` value names: a list
/// `http=host:port;https=host:port;...` gives one URL per entry, a single
/// `scheme=host:port` one URL, and a bare `host:port` an `http` URL.
pub open spec fn proxy_list(server: Seq<char>) -> Seq<Seq<char>> {
    if server.contains(';') {
        split_char(server, ';').map_values(|e: Seq<char>| entry_url(e))
    } else if server.contains('=') {
        seq![entry_url(server)]
    } else {
        seq!["http://"@ + server]
    }
}

/// The proxies that a `ProxyServer` value names.
pub fn proxy_servers(server: &str) -> (r: Vec<String>)
    ensures
        views(r@) == proxy_list(server@),
{
    let mut servers: Vec<String> = Vec::new();
    if contains_char(server, ';') {
        let list = split(server, ';');
        let ghost pieces = split_char(server@, ';');
        let n = list.len();
        let mut i: usize = 0;
        while i < n
            invariant
                n == list@.len(),
                views(list@) == pieces,
                i <= n,
                views(servers@) =~= pieces.take(i as int).map_values(|e: Seq<char>| entry_url(e)),
            decreases n - i,
        {
            let ghost before = views(servers@);
            assert(views(list@)[i as int] == list@[i as int]@);
            servers.push(replace(list[i].as_str(), '=', "://"));
            assert(views(servers@) =~= before.push(entry_url(pieces[i as int])));
            assert(pieces.take(i + 1).map_values(|e: Seq<char>| entry_url(e)) =~= before.push(
                entry_url(pieces[i as int]),
            ));
            i = i + 1;
        }
        assert(pieces.take(n as int) =~= pieces);
    } else if contains_char(server, '=') {
        servers.push(replace(server, '=', "://"));
        assert(views(servers@) =~= seq![entry_url(server@)]);
    } else {
        servers.push(String::from_str("http://").concat(server));
        assert(views(servers@) =~= seq!["http://"@ + server@]);
    }
    servers
}

/// The proxies of the Internet settings of one registry hive: none where
/// `enabled` (the `ProxyEnable` value, 0 where it is missing) is 0, else those
/// that the `ProxyServer` value names. `read_server` reads that value, and is
/// called only where the proxy is enabled.
pub fn get_proxy_server<F: FnOnce() -> String>(enabled: u32, read_server: F) -> (r: Option<
    Vec<String>,
>)
    requires
        enabled != 0 ==> read_server.requires(()),
    ensures
        enabled == 0 ==> r is None,
        enabled != 0 ==> r is Some && exists|server: String|
            read_server.ensures((), server) && views(r->0@) == proxy_list(server@),
{
    if enabled == 0 {
        return None;
    }
    let server = read_server();
    Some(proxy_servers(server.as_str()))
}

/// The proxies that the environment of one registry hive names: the values of
/// `HTTP_PROXY` and `HTTPS_PROXY`, in that order, where they are set.
pub open spec fn env_proxy_list(http: Option<Seq<char>>, https: Option<Seq<char>>) -> Option<
    Seq<Seq<char>>,
> {
    let found = (match http {
        Some(p) => seq![p],
        None => Seq::empty(),
    }) + (match https {
        Some(p) => seq![p],
        None => Seq::empty(),
    });
    if found.len() == 0 {
        None
    } else {
        Some(found)
    }
}

/// The view of an optional string.
pub open spec fn opt_view(s: Option<String>) -> Option<Seq<char>> {
    match s {
        Some(v) => Some(v@),
        None => None,
    }
}

/// The proxies that the environment of one registry hive names, from the
/// values of `HTTP_PROXY` and `HTTPS_PROXY` where they could be read.
pub fn get_env_proxy_server(http: Option<String>, https: Option<String>) -> (r: Option<
    Vec<String>,
>)
    ensures
        match r {
            Some(v) => env_proxy_list(opt_view(http), opt_view(https)) == Some(views(v@)),
            None => env_proxy_list(opt_view(http), opt_view(https)) is None,
        },
{
    let mut proxies: Vec<String> = Vec::new();
    if let Some(p) = http {
        proxies.push(p);
    }
    let ghost after_http = views(proxies@);
    if let Some(p) = https {
        proxies.push(p);
    }
    assert(views(proxies@) =~= (match opt_view(http) {
        Some(p) => seq![p],
        None => Seq::empty(),
    }) + (match opt_view(https) {
        Some(p) => seq![p],
        None => Seq::empty(),
    }));
    if proxies.len() == 0 {
        None
    } else {
        Some(proxies)
    }
}

/// `r` is what trying `first`, then `second` where `first` found nothing,
/// gives: a proxy list that `first` can give, or what `second` gives after
/// `first` gave nothing.
pub open spec fn first_found<F: FnOnce() -> Option<Vec<String>>, G: FnOnce() -> Option<
    Vec<String>,
>>(first: F, second: G, r: Option<Vec<String>>) -> bool {
    ||| r is Some && first.ensures((), r)
    ||| first.ensures((), None) && second.ensures((), r)
}

/// The proxies of the environment: those of the machine's environment
/// (`machine`), else those of the user's (`user`), which is read only where the
/// machine's names none.
pub fn get_env_proxy<F: FnOnce() -> Option<Vec<String>>, G: FnOnce() -> Option<Vec<String>>>(
    machine: F,
    user: G,
) -> (r: Option<Vec<String>>)
    requires
        machine.requires(()),
        forall|x: Option<Vec<String>>| machine.ensures((), x) && x is None ==> user.requires(()),
    ensures
        first_found(machine, user, r),
{
    let proxy = machine();
    if proxy.is_some() {
        return proxy;
    }
    user()
}

/// The proxies of the Internet settings: those of the machine's policy
/// (`machine`), else those of the user's settings (`user`), which are read only
/// where the machine's name none.
pub fn get_registry_proxy<F: FnOnce() -> Option<Vec<String>>, G: FnOnce() -> Option<Vec<String>>>(
    machine: F,
    user: G,
) -> (r: Option<Vec<String>>)
    requires
        machine.requires(()),
        forall|x: Option<Vec<String>>| machine.ensures((), x) && x is None ==> user.requires(()),
    ensures
        first_found(machine, user, r),
{
    let proxy = machine();
    if proxy.is_some() {
        return proxy;
    }
    user()
}

/// The proxies of the system: those of the environment (`env`), else those of
/// the Internet settings (`registry`), which are read only where the
/// environment names none.
pub fn get<F: FnOnce() -> Option<Vec<String>>, G: FnOnce() -> Option<Vec<String>>>(
    env: F,
    registry: G,
) -> (r: Option<Vec<String>>)
    requires
        env.requires(()),
        forall|x: Option<Vec<String>>| env.ensures((), x) && x is None ==> registry.requires(()),
    ensures
        first_found(env, registry, r),
{
    let proxy = env();
    if proxy.is_some() {
        return proxy;
    }
    registry()
}


/// A list `scheme=host:port;...` names one proxy per entry, in order: entry
/// `k` (the text between the `k`-th and the next `;`) as a URL with `://` for
/// each `=`.
pub proof fn lemma_proxy_list_one_per_entry(server: Seq<char>)
    requires
        server.contains(';'),
    ensures
        proxy_list(server).len() == split_char(server, ';').len(),
        forall|k: int|
            0 <= k < proxy_list(server).len() ==> #[trigger] proxy_list(server)[k] == replace_char(
                split_char(server, ';')[k],
                '=',
                "://"@,
            ),
        joined(split_char(server, ';'), ';') == server,
        forall|k: int|
            0 <= k < split_char(server, ';').len() ==> !(#[trigger] split_char(server, ';')[k]).contains(';'),
{
    lemma_split_char_rejoins(server, ';');
}

/// A `ProxyServer` value always names at least one proxy.
pub proof fn lemma_proxy_list_nonempty(server: Seq<char>)
    ensures
        proxy_list(server).len() >= 1,
{
    lemma_split_char_nonempty(server, ';');
}

/// Where the environment names proxies, it names at least one.
pub proof fn lemma_env_proxy_list_nonempty(http: Option<Seq<char>>, https: Option<Seq<char>>)
    ensures
        env_proxy_list(http, https) matches Some(v) ==> v.len() >= 1,
{
}

/// Where each place that a lookup tries gives either nothing or a non-empty
/// list, a lookup that finds proxies finds at least one.
pub proof fn lemma_found_proxies_nonempty<F: FnOnce() -> Option<Vec<String>>, G: FnOnce() -> Option<
    Vec<String>,
>>(first: F, second: G, r: Option<Vec<String>>)
    requires
        first_found(first, second, r),
        forall|x: Option<Vec<String>>| #[trigger] first.ensures((), x) ==> (x matches Some(v) ==> v.len() > 0),
        forall|x: Option<Vec<String>>| #[trigger] second.ensures((), x) ==> (x matches Some(v) ==> v.len() > 0),
    ensures
        r matches Some(v) ==> v.len() > 0,
{
}

} // verus!
