use vstd::prelude::*;

use crate::address::{Address, AddressView};
use crate::headers::{chars_of, join, values_of, HeaderView};
use crate::parse::{candidates, read_candidates};
use crate::trust::{entry_view, resolve, resolve_candidates, texts};

verus! {

/// Trust configuration of the client-IP resolver.
pub struct IpWare {
    proxy_count: Option<u16>,
    proxies: Vec<Vec<char>>,
    headers: Vec<Vec<char>>,
}

/// Mathematical model of an [`IpWare`] configuration.
pub struct IpWareView {
    /// The exact number of proxies between client and server, if known.
    pub proxy_count: Option<u16>,
    /// Textual prefixes of trusted proxy addresses.
    pub proxies: Seq<Seq<char>>,
    /// Header names to consult, in order.
    pub headers: Seq<Seq<char>>,
}

impl View for IpWare {
    type V = IpWareView;

    closed spec fn view(&self) -> IpWareView {
        IpWareView {
            proxy_count: self.proxy_count,
            proxies: texts(self.proxies@),
            headers: texts(self.headers@),
        }
    }
}

/// The result for the header names `names`: the first one whose candidates
/// yield an address, else `(None, false)`.
pub open spec fn first_hit(
    h: Seq<(Seq<char>, Seq<char>)>,
    names: Seq<Seq<char>>,
    prefixes: Seq<Seq<char>>,
    proxy_count: Option<u16>,
    strict: bool,
) -> (Option<AddressView>, bool)
    decreases names.len(),
{
    if names.len() == 0 {
        (None, false)
    } else {
        let r = resolve(candidates(join(values_of(h, names[0]))), prefixes, proxy_count, strict);
        if r.0.is_some() {
            r
        } else {
            first_hit(h, names.drop_first(), prefixes, proxy_count, strict)
        }
    }
}

/// What the resolver returns for the headers `h` under `cfg`.
pub open spec fn client_ip(h: Seq<(Seq<char>, Seq<char>)>, cfg: IpWareView, strict: bool) -> (
    Option<AddressView>,
    bool,
) {
    first_hit(h, cfg.headers, cfg.proxies, cfg.proxy_count, strict)
}

impl IpWare {
    /// A configuration that trusts nothing and consults no header.
    pub fn empty() -> (r: IpWare)
        ensures
            r@.proxy_count.is_none(),
            r@.proxies.len() == 0,
            r@.headers.len() == 0,
    {
        IpWare { proxy_count: None, proxies: Vec::new(), headers: Vec::new() }
    }

    /// A configuration that trusts nothing and consults the usual
    /// forwarding headers, in this order: `X-Forwarded-For`, `Client-IP`,
    /// `X-Real-IP`, `X-Forwarded`, `X-Cluster-Client-IP`, `Forwarded-For`,
    /// `Forwarded`, `Via`.
    pub fn new() -> (r: IpWare)
        ensures
            r@.proxy_count.is_none(),
            r@.proxies.len() == 0,
            r@.headers == seq![
                "x-forwarded-for"@,
                "client-ip"@,
                "x-real-ip"@,
                "x-forwarded"@,
                "x-cluster-client-ip"@,
                "forwarded-for"@,
                "forwarded"@,
                "via"@,
            ],
    {
        IpWare::empty().trust_header("x-forwarded-for").trust_header("client-ip").trust_header(
            "x-real-ip",
        ).trust_header("x-forwarded").trust_header("x-cluster-client-ip").trust_header(
            "forwarded-for",
        ).trust_header("forwarded").trust_header("via")
    }

    /// Sets or clears the exact number of proxies.
    pub fn proxy_count(self, count: Option<u16>) -> (r: IpWare)
        ensures
            r@ == (IpWareView { proxy_count: count, ..self@ }),
    {
        IpWare { proxy_count: count, ..self }
    }

    /// Adds a trusted proxy prefix.
    pub fn trust_proxy(self, prefix: &str) -> (r: IpWare)
        ensures
            r@ == (IpWareView { proxies: self@.proxies.push(prefix@), ..self@ }),
    {
        let mut proxies = self.proxies;
        let ghost before = proxies@;
        proxies.push(chars_of(prefix));
        assert(texts(proxies@) =~= texts(before).push(prefix@));
        IpWare { proxies, ..self }
    }

    /// Adds a header name to consult after those already listed.
    pub fn trust_header(self, name: &str) -> (r: IpWare)
        ensures
            r@ == (IpWareView { headers: self@.headers.push(name@), ..self@ }),
    {
        let mut headers = self.headers;
        let ghost before = headers@;
        headers.push(chars_of(name));
        assert(texts(headers@) =~= texts(before).push(name@));
        IpWare { headers, ..self }
    }

    /// The client address found in `headers`, and whether it is trusted.
    pub fn get_client_ip(&self, headers: &HeaderView, strict: bool) -> (r: (Option<Address>, bool))
        ensures
            (entry_view(r.0), r.1) == client_ip(headers@, self@, strict),
            r.1 ==> r.0.is_some(),
    {
        let ghost names = self@.headers;
        let ghost h = headers@;
        let mut j: usize = 0;
        assert(names.skip(0) =~= names);
        while j < self.headers.len()
            invariant
                names == self@.headers,
                h == headers@,
                j <= self.headers.len(),
                first_hit(h, names.skip(j as int), self@.proxies, self.proxy_count, strict)
                    == client_ip(h, self@, strict),
            decreases self.headers.len() - j,
        {
            assert(names.skip(j as int)[0] == self.headers[j as int]@);
            assert(names.skip(j as int).drop_first() =~= names.skip(j + 1));
            let text = headers.combined(&self.headers[j]);
            let c = read_candidates(&text);
            let r = resolve_candidates(&c, &self.proxies, self.proxy_count, strict);
            if r.0.is_some() {
                proof {
                    lemma_no_trusted_none(
                        candidates(text@),
                        self@.proxies,
                        self.proxy_count,
                        strict,
                    );
                }
                return r;
            }
            j += 1;
        }
        assert(names.skip(j as int).len() == 0);
        (None, false)
    }
}

impl Default for IpWare {
    /// The same as [`IpWare::new`].
    fn default() -> (r: IpWare)
        ensures
            r@.proxy_count.is_none(),
            r@.proxies.len() == 0,
            r@.headers == seq![
                "x-forwarded-for"@,
                "client-ip"@,
                "x-real-ip"@,
                "x-forwarded"@,
                "x-cluster-client-ip"@,
                "forwarded-for"@,
                "forwarded"@,
                "via"@,
            ],
    {
        IpWare::new()
    }
}

/// [`resolve`] marks a result trusted only when it holds an address.
proof fn lemma_no_trusted_none(
    c: Seq<Option<AddressView>>,
    prefixes: Seq<Seq<char>>,
    proxy_count: Option<u16>,
    strict: bool,
)
    ensures
        resolve(c, prefixes, proxy_count, strict).1 ==> resolve(
            c,
            prefixes,
            proxy_count,
            strict,
        ).0.is_some(),
{
}

} // verus!
