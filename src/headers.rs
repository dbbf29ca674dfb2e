use vstd::prelude::*;

verus! {

/// The characters of `s`, in order.
pub fn chars_of(s: &str) -> (r: Vec<char>)
    ensures
        r@ == s@,
{
    let n = s.unicode_len();
    let mut r: Vec<char> = Vec::new();
    let mut i: usize = 0;
    while i < n
        invariant
            n == s@.len(),
            i <= n,
            r@ == s@.take(i as int),
        decreases n - i,
    {
        r.push(s.get_char(i));
        i += 1;
        assert(r@ =~= s@.take(i as int));
    }
    assert(s@.take(n as int) =~= s@);
    r
}

pub open spec fn is_upper(c: char) -> bool {
    'A' <= c && c <= 'Z'
}

/// `a` and `b` are the same character up to ASCII case.
pub open spec fn same_letter(a: char, b: char) -> bool {
    a == b || (is_upper(a) && a as u32 + 32 == b as u32) || (is_upper(b) && b as u32 + 32
        == a as u32)
}

/// Header names are compared without regard to ASCII case.
pub open spec fn names_match(x: Seq<char>, y: Seq<char>) -> bool {
    x.len() == y.len() && forall|i: int| 0 <= i < x.len() ==> same_letter(#[trigger] x[i], y[i])
}

fn letters_match(a: char, b: char) -> (r: bool)
    ensures
        r == same_letter(a, b),
{
    a == b || ('A' <= a && a <= 'Z' && (a as u32) + 32 == (b as u32)) || ('A' <= b && b <= 'Z'
        && (b as u32) + 32 == (a as u32))
}

fn same_name(x: &Vec<char>, y: &Vec<char>) -> (r: bool)
    ensures
        r == names_match(x@, y@),
{
    if x.len() != y.len() {
        return false;
    }
    let mut i: usize = 0;
    while i < x.len()
        invariant
            x.len() == y.len(),
            i <= x.len(),
            forall|j: int| 0 <= j < i ==> same_letter(#[trigger] x@[j], y@[j]),
        decreases x.len() - i,
    {
        if !letters_match(x[i], y[i]) {
            return false;
        }
        i += 1;
    }
    true
}

/// One header line of a request.
pub struct Header {
    pub name: Vec<char>,
    pub value: Vec<char>,
}

/// The headers of a request: a multi-map from names (compared without
/// regard to ASCII case) to values, in the order they arrived.
pub struct HeaderView {
    pub entries: Vec<Header>,
}

impl View for HeaderView {
    type V = Seq<(Seq<char>, Seq<char>)>;

    open spec fn view(&self) -> Seq<(Seq<char>, Seq<char>)> {
        self.entries@.map_values(|h: Header| (h.name@, h.value@))
    }
}

/// The values of the header `name`, in order.
pub open spec fn values_of(h: Seq<(Seq<char>, Seq<char>)>, name: Seq<char>) -> Seq<Seq<char>>
    decreases h.len(),
{
    if h.len() == 0 {
        Seq::empty()
    } else {
        let r = values_of(h.drop_last(), name);
        if names_match(h.last().0, name) {
            r.push(h.last().1)
        } else {
            r
        }
    }
}

/// The values joined with a comma between each two.
pub open spec fn join(vs: Seq<Seq<char>>) -> Seq<char>
    decreases vs.len(),
{
    if vs.len() == 0 {
        Seq::empty()
    } else if vs.len() == 1 {
        vs[0]
    } else {
        join(vs.drop_last()) + seq![','] + vs.last()
    }
}

impl HeaderView {
    /// No headers.
    pub fn new() -> (r: HeaderView)
        ensures
            r@ == Seq::<(Seq<char>, Seq<char>)>::empty(),
    {
        let r = HeaderView { entries: Vec::new() };
        assert(r@ =~= Seq::<(Seq<char>, Seq<char>)>::empty());
        r
    }

    /// Adds one more value of the header `name`.
    pub fn append(&mut self, name: &str, value: &str)
        ensures
            final(self)@ == old(self)@.push((name@, value@)),
    {
        let h = Header { name: chars_of(name), value: chars_of(value) };
        self.entries.push(h);
        assert(self@ =~= old(self)@.push((name@, value@)));
    }

    /// All values of the header `name`, joined with commas.
    pub fn combined(&self, name: &Vec<char>) -> (r: Vec<char>)
        ensures
            r@ == join(values_of(self@, name@)),
    {
        let ghost hv = self@;
        let mut r: Vec<char> = Vec::new();
        let mut found = false;
        let mut i: usize = 0;
        assert(hv.take(0) =~= Seq::<(Seq<char>, Seq<char>)>::empty());
        while i < self.entries.len()
            invariant
                hv == self@,
                i <= self.entries.len(),
                r@ == join(values_of(hv.take(i as int), name@)),
                found == (values_of(hv.take(i as int), name@).len() > 0),
            decreases self.entries.len() - i,
        {
            let h = &self.entries[i];
            assert(hv.take(i + 1).drop_last() =~= hv.take(i as int));
            assert(hv.take(i + 1).last() == (h.name@, h.value@));
            if same_name(&h.name, name) {
                let ghost prev = values_of(hv.take(i as int), name@);
                let ghost now = values_of(hv.take(i + 1), name@);
                assert(now.drop_last() =~= prev);
                if found {
                    r.push(',');
                    let mut j: usize = 0;
                    let ghost base = r@;
                    while j < h.value.len()
                        invariant
                            j <= h.value.len(),
                            r@ == base + h.value@.take(j as int),
                        decreases h.value.len() - j,
                    {
                        r.push(h.value[j]);
                        j += 1;
                        assert(r@ =~= base + h.value@.take(j as int));
                    }
                    assert(h.value@.take(h.value.len() as int) =~= h.value@);
                } else {
                    r = h.value.clone();
                }
                found = true;
            }
            i += 1;
        }
        assert(hv.take(self.entries.len() as int) =~= hv);
        r
    }
}

} // verus!
