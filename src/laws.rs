use vstd::prelude::*;

use crate::address::AddressView;
use crate::config::{client_ip, first_hit, IpWareView};
use crate::headers::{join, values_of};
use crate::parse::candidates;
use crate::trust::{
    all_trusted, is_prefix_of, is_trusted_entry, is_trusted_proxy, resolve, rightmost_untrusted,
};

verus! {

/// The result depends on nothing but the values of the consulted headers,
/// the configuration and `strict`: requests that agree on those get the
/// same answer, whatever other headers they carry.
pub proof fn law_result_depends_on_consulted_headers(
    h1: Seq<(Seq<char>, Seq<char>)>,
    h2: Seq<(Seq<char>, Seq<char>)>,
    cfg: IpWareView,
    strict: bool,
)
    requires
        forall|i: int|
            0 <= i < cfg.headers.len() ==> values_of(h1, #[trigger] cfg.headers[i]) == values_of(
                h2,
                cfg.headers[i],
            ),
    ensures
        client_ip(h1, cfg, strict) == client_ip(h2, cfg, strict),
{
    lemma_first_hit_agree(h1, h2, cfg.headers, cfg.proxies, cfg.proxy_count, strict);
}

proof fn lemma_first_hit_agree(
    h1: Seq<(Seq<char>, Seq<char>)>,
    h2: Seq<(Seq<char>, Seq<char>)>,
    names: Seq<Seq<char>>,
    prefixes: Seq<Seq<char>>,
    proxy_count: Option<u16>,
    strict: bool,
)
    requires
        forall|i: int|
            0 <= i < names.len() ==> values_of(h1, #[trigger] names[i]) == values_of(h2, names[i]),
    ensures
        first_hit(h1, names, prefixes, proxy_count, strict) == first_hit(
            h2,
            names,
            prefixes,
            proxy_count,
            strict,
        ),
    decreases names.len(),
{
    if names.len() > 0 {
        let rest = names.drop_first();
        assert(values_of(h1, names[0]) == values_of(h2, names[0]));
        assert forall|i: int| 0 <= i < rest.len() implies values_of(h1, #[trigger] rest[i])
            == values_of(h2, rest[i]) by {
            assert(rest[i] == names[i + 1]);
        }
        lemma_first_hit_agree(h1, h2, rest, prefixes, proxy_count, strict);
    }
}

/// A result is trusted only when it holds an address.
pub proof fn law_trusted_has_address(h: Seq<(Seq<char>, Seq<char>)>, cfg: IpWareView, strict: bool)
    ensures
        client_ip(h, cfg, strict).1 ==> client_ip(h, cfg, strict).0.is_some(),
{
    lemma_first_hit_trusted(h, cfg.headers, cfg.proxies, cfg.proxy_count, strict);
}

proof fn lemma_first_hit_trusted(
    h: Seq<(Seq<char>, Seq<char>)>,
    names: Seq<Seq<char>>,
    prefixes: Seq<Seq<char>>,
    proxy_count: Option<u16>,
    strict: bool,
)
    ensures
        first_hit(h, names, prefixes, proxy_count, strict).1 ==> first_hit(
            h,
            names,
            prefixes,
            proxy_count,
            strict,
        ).0.is_some(),
    decreases names.len(),
{
    if names.len() > 0 {
        lemma_first_hit_trusted(h, names.drop_first(), prefixes, proxy_count, strict);
    }
}

/// With no proxy count and no trusted prefix, where the leftmost element of
/// the first consulted header is an address, that address is returned,
/// untrusted, even when it is not routable.
pub proof fn law_loose_returns_leftmost(h: Seq<(Seq<char>, Seq<char>)>, cfg: IpWareView, strict: bool)
    requires
        cfg.proxy_count.is_none(),
        cfg.proxies.len() == 0,
        cfg.headers.len() > 0,
        candidates(join(values_of(h, cfg.headers[0])))[0].is_some(),
    ensures
        client_ip(h, cfg, strict) == (candidates(join(values_of(h, cfg.headers[0])))[0], false),
{
    crate::text::lemma_split_nonempty(join(values_of(h, cfg.headers[0])), ',');
}

proof fn lemma_trust_grows(prefixes: Seq<Seq<char>>, p: Seq<char>, host: Seq<char>)
    ensures
        is_trusted_proxy(prefixes, host) ==> is_trusted_proxy(prefixes.push(p), host),
        !is_prefix_of(p, host) ==> (is_trusted_proxy(prefixes.push(p), host) ==> is_trusted_proxy(
            prefixes,
            host,
        )),
{
    let q = prefixes.push(p);
    if is_trusted_proxy(prefixes, host) {
        let j = choose|j: int| 0 <= j < prefixes.len() && is_prefix_of(#[trigger] prefixes[j], host);
        assert(q[j] == prefixes[j]);
    }
    if !is_prefix_of(p, host) && is_trusted_proxy(q, host) {
        let j = choose|j: int| 0 <= j < q.len() && is_prefix_of(#[trigger] q[j], host);
        assert(j < prefixes.len());
        assert(q[j] == prefixes[j]);
    }
}

proof fn lemma_all_trusted_grows(
    c: Seq<Option<AddressView>>,
    prefixes: Seq<Seq<char>>,
    p: Seq<char>,
    lo: int,
    hi: int,
)
    requires
        all_trusted(c, prefixes, lo, hi),
    ensures
        all_trusted(c, prefixes.push(p), lo, hi),
{
    assert forall|i: int| lo <= i < hi implies is_trusted_entry(prefixes.push(p), #[trigger] c[i]) by {
        lemma_trust_grows(prefixes, p, c[i].unwrap().host);
    }
}

proof fn lemma_rightmost_kept(c: Seq<Option<AddressView>>, prefixes: Seq<Seq<char>>, p: Seq<char>)
    requires
        rightmost_untrusted(c, prefixes) >= 0,
        c[rightmost_untrusted(c, prefixes)].is_some(),
        !is_prefix_of(p, c[rightmost_untrusted(c, prefixes)].unwrap().host),
    ensures
        rightmost_untrusted(c, prefixes.push(p)) == rightmost_untrusted(c, prefixes),
    decreases c.len(),
{
    lemma_rightmost_bounds(c, prefixes);
    if c.last().is_some() {
        lemma_trust_grows(prefixes, p, c.last().unwrap().host);
    }
    if is_trusted_entry(prefixes, c.last()) {
        let d = c.drop_last();
        lemma_rightmost_bounds(d, prefixes);
        assert(d[rightmost_untrusted(d, prefixes)] == c[rightmost_untrusted(c, prefixes)]);
        lemma_rightmost_kept(d, prefixes, p);
    }
}

proof fn lemma_rightmost_bounds(c: Seq<Option<AddressView>>, prefixes: Seq<Seq<char>>)
    ensures
        -1 <= rightmost_untrusted(c, prefixes) < c.len(),
    decreases c.len(),
{
    if c.len() > 0 {
        lemma_rightmost_bounds(c.drop_last(), prefixes);
    }
}

/// Once any proxy prefix is trusted, every address returned for one
/// header's candidates is a trusted one: after a prefix is added, an
/// untrusted answer can only become a trusted one or none.
pub proof fn law_prefixes_give_only_trusted_answers(
    c: Seq<Option<AddressView>>,
    prefixes: Seq<Seq<char>>,
    proxy_count: Option<u16>,
    strict: bool,
)
    requires
        prefixes.len() > 0,
    ensures
        resolve(c, prefixes, proxy_count, strict).0.is_some() ==> resolve(
            c,
            prefixes,
            proxy_count,
            strict,
        ).1,
{
}

/// Trusting one more proxy prefix keeps a trusted answer of one header's
/// candidates. This holds where the configuration already had a prefix or
/// no proxy count (so the count is not checked against prefixes for the
/// first time), and, without a proxy count, where the new prefix does not
/// match the chosen client.
pub proof fn law_added_prefix_keeps_trust(
    c: Seq<Option<AddressView>>,
    prefixes: Seq<Seq<char>>,
    p: Seq<char>,
    proxy_count: Option<u16>,
    strict: bool,
)
    requires
        resolve(c, prefixes, proxy_count, strict).1,
        proxy_count.is_some() ==> prefixes.len() > 0,
        proxy_count.is_none() ==> !is_prefix_of(
            p,
            resolve(c, prefixes, proxy_count, strict).0.unwrap().host,
        ),
    ensures
        resolve(c, prefixes.push(p), proxy_count, strict) == resolve(
            c,
            prefixes,
            proxy_count,
            strict,
        ),
{
    let n = c.len() as int;
    let q = prefixes.push(p);
    match proxy_count {
        None => {
            let k = rightmost_untrusted(c, prefixes);
            lemma_rightmost_bounds(c, prefixes);
            lemma_rightmost_kept(c, prefixes, p);
            if strict {
                lemma_all_trusted_grows(c, prefixes, p, 0, k);
            }
        },
        Some(cnt) => {
            let m = cnt as int;
            lemma_all_trusted_grows(c, prefixes, p, n - m, n);
            if strict {
                lemma_all_trusted_grows(c, prefixes, p, 0, n - m - 1);
            }
        },
    }
}

} // verus!
