use vstd::prelude::*;

verus! {

pub open spec fn is_digit(c: char) -> bool {
    '0' <= c && c <= '9'
}

pub open spec fn is_hex_digit(c: char) -> bool {
    is_digit(c) || ('a' <= c && c <= 'f') || ('A' <= c && c <= 'F')
}

pub open spec fn hex_digit_value(c: char) -> nat {
    if is_digit(c) {
        (c as u32 - '0' as u32) as nat
    } else if 'a' <= c && c <= 'f' {
        (c as u32 - 'a' as u32 + 10) as nat
    } else {
        (c as u32 - 'A' as u32 + 10) as nat
    }
}

/// Value of a decimal numeral (0 when empty).
pub open spec fn dec_value(s: Seq<char>) -> nat
    decreases s.len(),
{
    if s.len() == 0 {
        0
    } else {
        dec_value(s.drop_last()) * 10 + hex_digit_value(s.last())
    }
}

/// Value of a hexadecimal numeral (0 when empty).
pub open spec fn hex_value(s: Seq<char>) -> nat
    decreases s.len(),
{
    if s.len() == 0 {
        0
    } else {
        hex_value(s.drop_last()) * 16 + hex_digit_value(s.last())
    }
}

pub open spec fn all_digits(s: Seq<char>) -> bool {
    forall|i: int| 0 <= i < s.len() ==> is_digit(#[trigger] s[i])
}

pub open spec fn all_hex_digits(s: Seq<char>) -> bool {
    forall|i: int| 0 <= i < s.len() ==> is_hex_digit(#[trigger] s[i])
}

pub open spec fn pow(b: nat, e: nat) -> nat
    decreases e,
{
    if e == 0 {
        1
    } else {
        b * pow(b, (e - 1) as nat)
    }
}

/// Reads a run of 1 to `max_len` decimal digits; `None` on anything else.
pub fn read_decimal(s: &Vec<char>, max_len: usize) -> (r: Option<u32>)
    requires
        max_len <= 5,
    ensures
        r.is_some() == (1 <= s.len() <= max_len && all_digits(s@)),
        r.is_some() ==> r.unwrap() as nat == dec_value(s@),
{
    if s.len() == 0 || s.len() > max_len {
        return None;
    }
    let mut v: u32 = 0;
    let mut i: usize = 0;
    assert(s@.take(0) =~= Seq::<char>::empty());
    while i < s.len()
        invariant
            i <= s.len() <= max_len <= 5,
            v as nat == dec_value(s@.take(i as int)),
            v < pow(10, i as nat),
            all_digits(s@.take(i as int)),
        decreases s.len() - i,
    {
        let c = s[i];
        if !('0' <= c && c <= '9') {
            assert(!all_digits(s@));
            return None;
        }
        assert(s@.take(i + 1).drop_last() =~= s@.take(i as int));
        assert(pow(10, (i + 1) as nat) == 10 * pow(10, i as nat));
        proof {
            lemma_pow10_5();
            lemma_pow_mono((i + 1) as nat, 5);
        }
        let d = (c as u32) - ('0' as u32);
        assert(v * 10 + d < 10 * pow(10, i as nat)) by (nonlinear_arith)
            requires
                v < pow(10, i as nat),
                d < 10,
        ;
        v = v * 10 + d;
        i += 1;
        assert(all_digits(s@.take(i as int)));
    }
    assert(s@.take(s.len() as int) =~= s@);
    Some(v)
}

proof fn lemma_pow10_5()
    ensures
        pow(10, 5) == 100000,
{
    assert(pow(10, 0) == 1);
    assert(pow(10, 1) == 10);
    assert(pow(10, 2) == 100);
    assert(pow(10, 3) == 1000);
    assert(pow(10, 4) == 10000);
}

proof fn lemma_pow16_4()
    ensures
        pow(16, 4) == 65536,
{
    assert(pow(16, 0) == 1);
    assert(pow(16, 1) == 16);
    assert(pow(16, 2) == 256);
    assert(pow(16, 3) == 4096);
}

proof fn lemma_pow_mono(a: nat, b: nat)
    requires
        a <= b,
    ensures
        pow(10, a) <= pow(10, b),
    decreases b,
{
    if a < b {
        lemma_pow_mono(a, (b - 1) as nat);
        assert(pow(10, b) == 10 * pow(10, (b - 1) as nat));
    }
}

fn hex_digit(c: char) -> (r: Option<u32>)
    ensures
        r.is_some() == is_hex_digit(c),
        r.is_some() ==> r.unwrap() as nat == hex_digit_value(c) && r.unwrap() < 16,
{
    if '0' <= c && c <= '9' {
        Some((c as u32) - ('0' as u32))
    } else if 'a' <= c && c <= 'f' {
        Some((c as u32) - ('a' as u32) + 10)
    } else if 'A' <= c && c <= 'F' {
        Some((c as u32) - ('A' as u32) + 10)
    } else {
        None
    }
}

/// Reads a run of at most 4 hexadecimal digits (possibly empty); `None` on
/// anything else.
pub fn read_hex_group(s: &Vec<char>) -> (r: Option<u32>)
    ensures
        r.is_some() == (s.len() <= 4 && all_hex_digits(s@)),
        r.is_some() ==> r.unwrap() as nat == hex_value(s@),
{
    if s.len() > 4 {
        return None;
    }
    let mut v: u32 = 0;
    let mut i: usize = 0;
    assert(s@.take(0) =~= Seq::<char>::empty());
    while i < s.len()
        invariant
            i <= s.len() <= 4,
            v as nat == hex_value(s@.take(i as int)),
            v < pow(16, i as nat),
            all_hex_digits(s@.take(i as int)),
        decreases s.len() - i,
    {
        let c = s[i];
        match hex_digit(c) {
            None => {
                assert(!all_hex_digits(s@));
                return None;
            },
            Some(d) => {
                assert(s@.take(i + 1).drop_last() =~= s@.take(i as int));
                assert(pow(16, (i + 1) as nat) == 16 * pow(16, i as nat));
                proof {
                    lemma_pow16_4();
                    lemma_pow16_mono((i + 1) as nat, 4);
                }
                assert(v * 16 + d < 16 * pow(16, i as nat)) by (nonlinear_arith)
                    requires
                        v < pow(16, i as nat),
                        d < 16,
                ;
                v = v * 16 + d;
                i += 1;
                assert(all_hex_digits(s@.take(i as int)));
            },
        }
    }
    assert(s@.take(s.len() as int) =~= s@);
    Some(v)
}

proof fn lemma_pow16_mono(a: nat, b: nat)
    requires
        a <= b,
    ensures
        pow(16, a) <= pow(16, b),
    decreases b,
{
    if a < b {
        lemma_pow16_mono(a, (b - 1) as nat);
        assert(pow(16, b) == 16 * pow(16, (b - 1) as nat));
    }
}

} // verus!
