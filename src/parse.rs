use vstd::prelude::*;

use crate::address::{Address, AddressView};
use crate::number::{
    all_digits, all_hex_digits, dec_value, hex_value, read_decimal, read_hex_group,
};
use crate::text::{lemma_split_nonempty, slice, split, split_on, trim, trimmed};
use crate::trust::{entry_view, texts, views};

verus! {

/// A decimal octet of a dotted IPv4 address: 1 to 3 digits, no leading
/// zero, at most 255.
pub open spec fn is_octet(s: Seq<char>) -> bool {
    &&& 1 <= s.len() <= 3
    &&& all_digits(s)
    &&& s.len() > 1 ==> s[0] != '0'
    &&& dec_value(s) <= 255
}

/// `s` is a dotted-quad IPv4 address.
pub open spec fn is_ipv4(s: Seq<char>) -> bool {
    let g = split(s, '.');
    g.len() == 4 && forall|i: int| 0 <= i < 4 ==> is_octet(#[trigger] g[i])
}

/// An IPv4 address whose first two octets are `a` and `b` is public:
/// not in 0/8, 10/8, 127/8, 100.64/10 (shared), 169.254/16 (link-local),
/// 172.16/12, 192.168/16, nor 224/4 and above (multicast, reserved).
pub open spec fn ipv4_routable(a: nat, b: nat) -> bool {
    !(a == 0 || a == 10 || a == 127 || (a == 100 && 64 <= b <= 127) || (a == 169 && b == 254) || (
    a == 172 && 16 <= b <= 31) || (a == 192 && b == 168) || a >= 224)
}

/// A port: 1 to 5 decimal digits, at most 65535.
pub open spec fn is_port(s: Seq<char>) -> bool {
    1 <= s.len() <= 5 && all_digits(s) && dec_value(s) <= 65535
}

/// A group of an IPv6 address: at most 4 hexadecimal digits.
pub open spec fn is_hex_group(s: Seq<char>) -> bool {
    s.len() <= 4 && all_hex_digits(s)
}

/// The number of empty pieces.
pub open spec fn count_empty(g: Seq<Seq<char>>) -> nat
    decreases g.len(),
{
    if g.len() == 0 {
        0
    } else {
        count_empty(g.drop_last()) + if g.last().len() == 0 {
            1nat
        } else {
            0nat
        }
    }
}

/// `s` is an IPv6 address in colon notation: eight groups, or fewer with
/// one `::` standing for the missing zero groups.
pub open spec fn is_ipv6(s: Seq<char>) -> bool {
    let g = split(s, ':');
    let n = g.len() as int;
    let e = count_empty(g);
    &&& forall|i: int| 0 <= i < n ==> is_hex_group(#[trigger] g[i])
    &&& {
        ||| n == 8 && e == 0
        ||| n == 3 && e == 3
        ||| e == 2 && 3 <= n <= 9 && g[0].len() == 0 && g[1].len() == 0
        ||| e == 2 && 3 <= n <= 9 && g[n - 1].len() == 0 && g[n - 2].len() == 0
        ||| e == 1 && n <= 8 && g[0].len() > 0 && g[n - 1].len() > 0
    }
}

/// An IPv6 address with groups `g` is public: not `::` or `::1`, not in
/// fc00::/7 (unique local), fe80::/10 (link-local) or ff00::/8 (multicast).
pub open spec fn ipv6_routable(g: Seq<Seq<char>>) -> bool {
    let first = hex_value(g[0]);
    let last = hex_value(g.last());
    let zero_head = forall|i: int| 0 <= i < g.len() - 1 ==> hex_value(#[trigger] g[i]) == 0;
    !((zero_head && last <= 1) || (0xfc00 <= first <= 0xfdff) || (0xfe80 <= first <= 0xfebf)
        || first >= 0xff00)
}

/// The address that one element of a forwarding header denotes, if any.
pub open spec fn parse_element(e: Seq<char>) -> Option<AddressView> {
    let t = trim(e);
    if t.len() > 0 && t[0] == '[' {
        let parts = split(t.drop_first(), ']');
        let host = parts[0];
        if parts.len() == 2 && is_ipv6(host) {
            let routable = ipv6_routable(split(host, ':'));
            if parts[1].len() == 0 {
                Some(AddressView { host, port: None, routable })
            } else if parts[1][0] == ':' && is_port(parts[1].drop_first()) {
                Some(
                    AddressView {
                        host,
                        port: Some(dec_value(parts[1].drop_first()) as u16),
                        routable,
                    },
                )
            } else {
                None
            }
        } else {
            None
        }
    } else {
        let parts = split(t, ':');
        if parts.len() == 1 {
            if is_ipv4(t) {
                let g = split(t, '.');
                Some(
                    AddressView {
                        host: t,
                        port: None,
                        routable: ipv4_routable(dec_value(g[0]), dec_value(g[1])),
                    },
                )
            } else {
                None
            }
        } else if parts.len() == 2 {
            if is_ipv4(parts[0]) && is_port(parts[1]) {
                let g = split(parts[0], '.');
                Some(
                    AddressView {
                        host: parts[0],
                        port: Some(dec_value(parts[1]) as u16),
                        routable: ipv4_routable(dec_value(g[0]), dec_value(g[1])),
                    },
                )
            } else {
                None
            }
        } else if is_ipv6(t) {
            Some(AddressView { host: t, port: None, routable: ipv6_routable(split(t, ':')) })
        } else {
            None
        }
    }
}

/// Checks an IPv4 address; on success, whether it is public.
fn read_ipv4(s: &Vec<char>) -> (r: Option<bool>)
    ensures
        r.is_some() == is_ipv4(s@),
        r.is_some() ==> r.unwrap() == ipv4_routable(
            dec_value(split(s@, '.')[0]),
            dec_value(split(s@, '.')[1]),
        ),
{
    let g = split_on(s, '.');
    let ghost gv = split(s@, '.');
    if g.len() != 4 {
        return None;
    }
    let mut first: Vec<u32> = Vec::new();
    let mut i: usize = 0;
    while i < 4
        invariant
            g.len() == 4,
            gv == texts(g@),
            gv == split(s@, '.'),
            i <= 4,
            forall|j: int| 0 <= j < i ==> is_octet(#[trigger] gv[j]),
            first.len() == if i < 2 {
                i as int
            } else {
                2
            },
            forall|j: int| 0 <= j < first.len() ==> first@[j] as nat == dec_value(gv[j]),
        decreases 4 - i,
    {
        let piece = &g[i];
        assert(piece@ == gv[i as int]);
        match read_decimal(piece, 3) {
            None => {
                assert(!is_octet(gv[i as int]));
                return None;
            },
            Some(v) => {
                if piece.len() > 1 && piece[0] == '0' {
                    assert(!is_octet(gv[i as int]));
                    return None;
                }
                if v > 255 {
                    assert(!is_octet(gv[i as int]));
                    return None;
                }
                if i < 2 {
                    first.push(v);
                }
            },
        }
        i += 1;
    }
    Some(
        !(first[0] == 0 || first[0] == 10 || first[0] == 127 || (first[0] == 100 && 64 <= first[1]
            && first[1] <= 127) || (first[0] == 169 && first[1] == 254) || (first[0] == 172 && 16
            <= first[1] && first[1] <= 31) || (first[0] == 192 && first[1] == 168) || first[0]
            >= 224),
    )
}

/// Checks an IPv6 address; on success, whether it is public.
fn read_ipv6(s: &Vec<char>) -> (r: Option<bool>)
    ensures
        r.is_some() == is_ipv6(s@),
        r.is_some() ==> r.unwrap() == ipv6_routable(split(s@, ':')),
{
    let g = split_on(s, ':');
    let ghost gv = split(s@, ':');
    proof {
        lemma_split_nonempty(s@, ':');
    }
    let n = g.len();
    if n > 9 {
        return None;
    }
    let mut first: u32 = 0;
    let mut last: u32 = 0;
    let mut empties: usize = 0;
    let mut zero_head = true;
    let mut i: usize = 0;
    assert(gv.take(0) =~= Seq::<Seq<char>>::empty());
    while i < n
        invariant
            n == g.len() <= 9,
            n >= 1,
            gv == texts(g@),
            gv == split(s@, ':'),
            i <= n,
            forall|j: int| 0 <= j < i ==> is_hex_group(#[trigger] gv[j]),
            empties as nat == count_empty(gv.take(i as int)),
            empties <= i,
            i > 0 ==> first as nat == hex_value(gv[0]),
            i > 0 ==> last as nat == hex_value(gv[i - 1]),
            zero_head == (forall|j: int| 0 <= j < i - 1 ==> hex_value(#[trigger] gv[j]) == 0),
        decreases n - i,
    {
        let piece = &g[i];
        assert(piece@ == gv[i as int]);
        match read_hex_group(piece) {
            None => {
                assert(!is_hex_group(gv[i as int]));
                return None;
            },
            Some(v) => {
                assert(gv.take(i + 1).drop_last() =~= gv.take(i as int));
                if piece.len() == 0 {
                    empties += 1;
                }
                if i == 0 {
                    first = v;
                }
                if i > 0 && last != 0 {
                    zero_head = false;
                }
                last = v;
            },
        }
        i += 1;
    }
    assert(gv.take(n as int) =~= gv);
    let shape = (n == 8 && empties == 0) || (n == 3 && empties == 3) || (empties == 2 && 3 <= n
        && g[0].len() == 0 && g[1].len() == 0) || (empties == 2 && 3 <= n && g[n - 1].len() == 0
        && g[n - 2].len() == 0) || (empties == 1 && n <= 8 && g[0].len() > 0 && g[n - 1].len()
        > 0);
    if n >= 2 {
        assert(g[1]@ == gv[1]);
        assert(g[n - 2]@ == gv[n - 2]);
    }
    assert(g[0]@ == gv[0]);
    assert(g[n - 1]@ == gv[n - 1]);
    if !shape {
        return None;
    }
    Some(
        !((zero_head && last <= 1) || (0xfc00 <= first && first <= 0xfdff) || (0xfe80 <= first
            && first <= 0xfebf) || first >= 0xff00),
    )
}

/// Reads a port number.
fn read_port(s: &Vec<char>) -> (r: Option<u16>)
    ensures
        r.is_some() == is_port(s@),
        r.is_some() ==> r.unwrap() as nat == dec_value(s@),
{
    match read_decimal(s, 5) {
        None => None,
        Some(v) => {
            if v > 65535 {
                None
            } else {
                Some(v as u16)
            }
        },
    }
}

/// The address that one element of a forwarding header denotes, if any:
/// `[v6]`, `[v6]:port`, `v4`, `v4:port` or bare `v6`, with surrounding
/// ASCII whitespace ignored.
pub fn read_element(e: &Vec<char>) -> (r: Option<Address>)
    ensures
        r.is_some() == parse_element(e@).is_some(),
        r.is_some() ==> r.unwrap()@ == parse_element(e@).unwrap(),
{
    let t = trimmed(e);
    if t.len() > 0 && t[0] == '[' {
        let inner = slice(&t, 1, t.len());
        assert(inner@ =~= t@.drop_first());
        let parts = split_on(&inner, ']');
        proof {
            lemma_split_nonempty(inner@, ']');
        }
        assert(parts[0]@ == split(inner@, ']')[0]);
        if parts.len() != 2 {
            return None;
        }
        assert(parts[1]@ == split(inner@, ']')[1]);
        let host = &parts[0];
        let routable = match read_ipv6(host) {
            None => {
                return None;
            },
            Some(b) => b,
        };
        let rest = &parts[1];
        if rest.len() == 0 {
            return Some(Address { host: host.clone(), port: None, routable });
        }
        if rest[0] != ':' {
            return None;
        }
        let digits = slice(rest, 1, rest.len());
        assert(digits@ =~= rest@.drop_first());
        match read_port(&digits) {
            None => None,
            Some(p) => Some(Address { host: host.clone(), port: Some(p), routable }),
        }
    } else {
        let parts = split_on(&t, ':');
        proof {
            lemma_split_nonempty(t@, ':');
        }
        if parts.len() == 1 {
            match read_ipv4(&t) {
                None => None,
                Some(b) => Some(Address { host: t, port: None, routable: b }),
            }
        } else if parts.len() == 2 {
            assert(parts[0]@ == split(t@, ':')[0]);
            assert(parts[1]@ == split(t@, ':')[1]);
            let routable = match read_ipv4(&parts[0]) {
                None => {
                    return None;
                },
                Some(b) => b,
            };
            match read_port(&parts[1]) {
                None => None,
                Some(p) => Some(Address { host: parts[0].clone(), port: Some(p), routable }),
            }
        } else {
            match read_ipv6(&t) {
                None => None,
                Some(b) => Some(Address { host: t, port: None, routable: b }),
            }
        }
    }
}


/// The entries of a comma-separated header value, left to right: one per
/// element, holding the address the element denotes, or `None` where it
/// denotes none.
pub open spec fn candidates(s: Seq<char>) -> Seq<Option<AddressView>> {
    split(s, ',').map_values(|e: Seq<char>| parse_element(e))
}

/// Two values of one header, joined with a comma, give the entries of the
/// first followed by those of the second.
pub proof fn law_concatenated_values(a: Seq<char>, b: Seq<char>)
    ensures
        candidates(a + seq![','] + b) == candidates(a) + candidates(b),
{
    crate::text::lemma_split_concat(a, b, ',');
    assert(candidates(a + seq![','] + b) =~= candidates(a) + candidates(b));
}

/// The entries follow the elements of the header value one for one, in
/// the order in which the elements appear.
pub proof fn law_candidates_in_order(s: Seq<char>)
    ensures
        candidates(s).len() == split(s, ',').len(),
        forall|i: int|
            0 <= i < candidates(s).len() ==> candidates(s)[i] == parse_element(
                #[trigger] split(s, ',')[i],
            ),
{
}

/// The entries of a comma-separated header value, left to right.
pub fn read_candidates(s: &Vec<char>) -> (r: Vec<Option<Address>>)
    ensures
        views(r@) == candidates(s@),
{
    let es = split_on(s, ',');
    let ghost ev = split(s@, ',');
    let mut r: Vec<Option<Address>> = Vec::new();
    let mut i: usize = 0;
    while i < es.len()
        invariant
            i <= es.len(),
            ev == texts(es@),
            ev == split(s@, ','),
            r.len() == i,
            forall|j: int| 0 <= j < i ==> entry_view(#[trigger] r@[j]) == parse_element(ev[j]),
        decreases es.len() - i,
    {
        assert(ev[i as int] == es[i as int]@);
        let a = read_element(&es[i]);
        r.push(a);
        i += 1;
    }
    assert(views(r@) =~= candidates(s@));
    r
}

} // verus!
