use vstd::prelude::*;

use crate::address::{Address, AddressView};

verus! {

/// The model of one entry: an address, or `None` for an element that
/// denotes no address.
pub open spec fn entry_view(e: Option<Address>) -> Option<AddressView> {
    match e {
        Some(a) => Some(a@),
        None => None,
    }
}

/// The models of a sequence of entries, in order.
pub open spec fn views(c: Seq<Option<Address>>) -> Seq<Option<AddressView>> {
    c.map_values(|e: Option<Address>| entry_view(e))
}

/// The models of a sequence of texts, in order.
pub open spec fn texts(v: Seq<Vec<char>>) -> Seq<Seq<char>> {
    v.map_values(|p: Vec<char>| p@)
}

/// `p` is a textual prefix of `s`.
pub open spec fn is_prefix_of(p: Seq<char>, s: Seq<char>) -> bool {
    p.len() <= s.len() && s.subrange(0, p.len() as int) == p
}

/// `host` starts with one of the trusted prefixes.
pub open spec fn is_trusted_proxy(prefixes: Seq<Seq<char>>, host: Seq<char>) -> bool {
    exists|j: int| 0 <= j < prefixes.len() && is_prefix_of(#[trigger] prefixes[j], host)
}

/// The entry is an address that starts with a trusted prefix; an element
/// that denotes no address is never a trusted proxy.
pub open spec fn is_trusted_entry(prefixes: Seq<Seq<char>>, e: Option<AddressView>) -> bool {
    e.is_some() && is_trusted_proxy(prefixes, e.unwrap().host)
}

/// Every entry at positions `lo .. hi` is a trusted proxy.
pub open spec fn all_trusted(
    c: Seq<Option<AddressView>>,
    prefixes: Seq<Seq<char>>,
    lo: int,
    hi: int,
) -> bool {
    forall|i: int| lo <= i < hi ==> is_trusted_entry(prefixes, #[trigger] c[i])
}

/// Position of the rightmost entry that is not a trusted proxy, or -1.
pub open spec fn rightmost_untrusted(c: Seq<Option<AddressView>>, prefixes: Seq<Seq<char>>) -> int
    decreases c.len(),
{
    if c.len() == 0 {
        -1
    } else if !is_trusted_entry(prefixes, c.last()) {
        c.len() - 1
    } else {
        rightmost_untrusted(c.drop_last(), prefixes)
    }
}

/// The leftmost address among the entries, if any.
pub open spec fn first_address(c: Seq<Option<AddressView>>) -> Option<AddressView>
    decreases c.len(),
{
    if c.len() == 0 {
        None
    } else if c[0].is_some() {
        c[0]
    } else {
        first_address(c.drop_first())
    }
}

/// A chosen entry as a result: trusted when it is an address, else
/// `(None, false)`.
pub open spec fn trusted_slot(e: Option<AddressView>) -> (Option<AddressView>, bool) {
    if e.is_some() {
        (e, true)
    } else {
        (None, false)
    }
}

/// The client chosen from one header's entries (left: furthest client,
/// right: nearest proxy), and whether that choice is trusted. Every
/// element counts as a position, whether it denotes an address or not.
pub open spec fn resolve(
    c: Seq<Option<AddressView>>,
    prefixes: Seq<Seq<char>>,
    proxy_count: Option<u16>,
    strict: bool,
) -> (Option<AddressView>, bool) {
    let n = c.len() as int;
    if n == 0 {
        (None, false)
    } else {
        match proxy_count {
            None => {
                if prefixes.len() == 0 {
                    (first_address(c), false)
                } else {
                    let k = rightmost_untrusted(c, prefixes);
                    if k < 0 || k == n - 1 || c[k].is_none() || !c[k].unwrap().routable {
                        (None, false)
                    } else if strict && !all_trusted(c, prefixes, 0, k) {
                        (None, false)
                    } else {
                        (c[k], true)
                    }
                }
            },
            Some(p) => {
                let p = p as int;
                if prefixes.len() == 0 {
                    if n == p + 1 {
                        trusted_slot(c[0])
                    } else if n > p + 1 && !strict {
                        trusted_slot(c[n - p - 1])
                    } else {
                        (None, false)
                    }
                } else if n >= p + 1 && all_trusted(c, prefixes, n - p, n) {
                    if strict && !all_trusted(c, prefixes, 0, n - p - 1) {
                        (None, false)
                    } else {
                        trusted_slot(c[n - p - 1])
                    }
                } else {
                    (None, false)
                }
            },
        }
    }
}

fn starts_with(s: &Vec<char>, p: &Vec<char>) -> (r: bool)
    ensures
        r == is_prefix_of(p@, s@),
{
    if p.len() > s.len() {
        return false;
    }
    let mut i: usize = 0;
    while i < p.len()
        invariant
            p.len() <= s.len(),
            0 <= i <= p.len(),
            forall|j: int| 0 <= j < i ==> s@[j] == p@[j],
        decreases p.len() - i,
    {
        if s[i] != p[i] {
            assert(s@.subrange(0, p.len() as int)[i as int] != p@[i as int]);
            return false;
        }
        i += 1;
    }
    assert(s@.subrange(0, p.len() as int) =~= p@);
    true
}

fn trusted_proxy(prefixes: &Vec<Vec<char>>, host: &Vec<char>) -> (r: bool)
    ensures
        r == is_trusted_proxy(texts(prefixes@), host@),
{
    let ghost pv = texts(prefixes@);
    let mut j: usize = 0;
    while j < prefixes.len()
        invariant
            0 <= j <= prefixes.len(),
            pv == texts(prefixes@),
            forall|m: int| 0 <= m < j ==> !is_prefix_of(#[trigger] pv[m], host@),
        decreases prefixes.len() - j,
    {
        assert(pv[j as int] == prefixes@[j as int]@);
        if starts_with(host, &prefixes[j]) {
            assert(is_prefix_of(pv[j as int], host@));
            return true;
        }
        j += 1;
    }
    false
}

fn trusted_entry(prefixes: &Vec<Vec<char>>, e: &Option<Address>) -> (r: bool)
    ensures
        r == is_trusted_entry(texts(prefixes@), entry_view(*e)),
{
    match e {
        Some(a) => trusted_proxy(prefixes, &a.host),
        None => false,
    }
}

fn copy_entry(e: &Option<Address>) -> (r: Option<Address>)
    ensures
        entry_view(r) == entry_view(*e),
{
    match e {
        Some(a) => Some(a.duplicate()),
        None => None,
    }
}

fn first_address_of(c: &Vec<Option<Address>>) -> (r: Option<Address>)
    ensures
        entry_view(r) == first_address(views(c@)),
{
    let ghost cv = views(c@);
    let mut i: usize = 0;
    assert(cv.skip(0) =~= cv);
    while i < c.len()
        invariant
            i <= c.len(),
            cv == views(c@),
            first_address(cv.skip(i as int)) == first_address(cv),
        decreases c.len() - i,
    {
        assert(cv.skip(i as int)[0] == entry_view(c@[i as int]));
        if c[i].is_some() {
            return copy_entry(&c[i]);
        }
        assert(cv.skip(i as int).drop_first() =~= cv.skip(i + 1));
        i += 1;
    }
    assert(cv.skip(i as int).len() == 0);
    None
}

fn all_trusted_range(c: &Vec<Option<Address>>, prefixes: &Vec<Vec<char>>, lo: usize, hi: usize) -> (r: bool)
    requires
        lo <= hi <= c.len(),
    ensures
        r == all_trusted(views(c@), texts(prefixes@), lo as int, hi as int),
{
    let ghost cv = views(c@);
    let mut i: usize = lo;
    while i < hi
        invariant
            lo <= i <= hi <= c.len(),
            cv == views(c@),
            all_trusted(cv, texts(prefixes@), lo as int, i as int),
        decreases hi - i,
    {
        assert(cv[i as int] == entry_view(c@[i as int]));
        if !trusted_entry(prefixes, &c[i]) {
            return false;
        }
        i += 1;
    }
    true
}

/// Returns `k + 1` where `k` is [`rightmost_untrusted`].
fn count_before_trusted_tail(c: &Vec<Option<Address>>, prefixes: &Vec<Vec<char>>) -> (r: usize)
    ensures
        r as int == rightmost_untrusted(views(c@), texts(prefixes@)) + 1,
        r <= c.len(),
        all_trusted(views(c@), texts(prefixes@), r as int, c.len() as int),
{
    let ghost cv = views(c@);
    let ghost pv = texts(prefixes@);
    let mut i: usize = c.len();
    assert(cv.take(i as int) =~= cv);
    while i > 0
        invariant
            i <= c.len(),
            cv == views(c@),
            pv == texts(prefixes@),
            rightmost_untrusted(cv.take(i as int), pv) == rightmost_untrusted(cv, pv),
            all_trusted(cv, pv, i as int, c.len() as int),
        decreases i,
    {
        assert(cv[i - 1] == entry_view(c@[i - 1]));
        if !trusted_entry(prefixes, &c[i - 1]) {
            assert(cv.take(i as int).last() == cv[i - 1]);
            return i;
        }
        assert(cv.take(i as int).drop_last() =~= cv.take(i - 1));
        i -= 1;
    }
    i
}

/// Chooses the client among one header's entries, as [`resolve`] states.
pub fn resolve_candidates(
    c: &Vec<Option<Address>>,
    prefixes: &Vec<Vec<char>>,
    proxy_count: Option<u16>,
    strict: bool,
) -> (r: (Option<Address>, bool))
    ensures
        (entry_view(r.0), r.1) == resolve(views(c@), texts(prefixes@), proxy_count, strict),
{
    let ghost cv = views(c@);
    let n = c.len();
    if n == 0 {
        return (None, false);
    }
    match proxy_count {
        None => {
            if prefixes.len() == 0 {
                (first_address_of(c), false)
            } else {
                let k1 = count_before_trusted_tail(c, prefixes);
                if k1 == 0 || k1 == n {
                    return (None, false);
                }
                assert(cv[k1 - 1] == entry_view(c@[k1 - 1]));
                let routable = match &c[k1 - 1] {
                    Some(a) => a.routable,
                    None => false,
                };
                if !routable {
                    (None, false)
                } else if strict && !all_trusted_range(c, prefixes, 0, k1 - 1) {
                    (None, false)
                } else {
                    (copy_entry(&c[k1 - 1]), true)
                }
            }
        },
        Some(p) => {
            let p = p as usize;
            let slot: usize;
            if prefixes.len() == 0 {
                if n == p + 1 {
                    slot = 0;
                } else if n > p + 1 && !strict {
                    slot = n - p - 1;
                } else {
                    return (None, false);
                }
            } else if n >= p + 1 && all_trusted_range(c, prefixes, n - p, n) {
                if strict && !all_trusted_range(c, prefixes, 0, n - p - 1) {
                    return (None, false);
                }
                slot = n - p - 1;
            } else {
                return (None, false);
            }
            assert(cv[slot as int] == entry_view(c@[slot as int]));
            let e = copy_entry(&c[slot]);
            let trusted = e.is_some();
            (e, trusted)
        },
    }
}

} // verus!
