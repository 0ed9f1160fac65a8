//! Byte-string utilities shared by the identifier and snapshot codecs:
//! concatenation, slicing, first-occurrence search and a decimal codec
//! for 64-bit counters.
use vstd::prelude::*;

verus! {

/// Appends all of `src` to `dst`.
pub fn push_all(dst: &mut Vec<u8>, src: &Vec<u8>)
    ensures
        final(dst)@ == old(dst)@ + src@,
{
    let n = src.len();
    let mut i: usize = 0;
    while i < n
        invariant
            n == src@.len(),
            i <= n,
            dst@ == old(dst)@ + src@.subrange(0, i as int),
        decreases n - i,
    {
        dst.push(src[i]);
        i += 1;
        assert(old(dst)@ + src@.subrange(0, i - 1 as int) + seq![src@[i - 1]] =~= old(
            dst,
        )@ + src@.subrange(0, i as int));
    }
    assert(src@.subrange(0, n as int) =~= src@);
}

/// Copies the half-open byte range `[a, b)` out of `v`.
pub fn subvec(v: &Vec<u8>, a: usize, b: usize) -> (r: Vec<u8>)
    requires
        a <= b <= v@.len(),
    ensures
        r@ == v@.subrange(a as int, b as int),
{
    let mut r: Vec<u8> = Vec::new();
    let mut i: usize = a;
    while i < b
        invariant
            a <= i <= b <= v@.len(),
            r@ == v@.subrange(a as int, i as int),
        decreases b - i,
    {
        r.push(v[i]);
        i += 1;
        assert(v@.subrange(a as int, i - 1 as int) + seq![v@[i - 1]] =~= v@.subrange(
            a as int,
            i as int,
        ));
    }
    r
}

/// Index of the first occurrence of `b` in `s`, if any.
pub open spec fn spec_find(s: Seq<u8>, b: u8) -> Option<int>
    decreases s.len(),
{
    if s.len() == 0 {
        None
    } else if s[0] == b {
        Some(0)
    } else {
        match spec_find(s.subrange(1, s.len() as int), b) {
            None => None,
            Some(i) => Some(i + 1),
        }
    }
}

/// `spec_find` returns exactly the first occurrence.
pub proof fn lemma_find_first(s: Seq<u8>, b: u8)
    ensures
        match spec_find(s, b) {
            None => forall|j: int| 0 <= j < s.len() ==> s[j] != b,
            Some(i) => 0 <= i < s.len() && s[i] == b && forall|j: int| 0 <= j < i ==> s[j] != b,
        },
    decreases s.len(),
{
    if s.len() == 0 {
    } else if s[0] == b {
    } else {
        let t = s.subrange(1, s.len() as int);
        lemma_find_first(t, b);
        match spec_find(t, b) {
            None => {
                assert forall|j: int| 0 <= j < s.len() implies s[j] != b by {
                    if j > 0 {
                        assert(t[j - 1] != b);
                    }
                }
            },
            Some(i) => {
                assert(s[i + 1] == t[i]);
                assert forall|j: int| 0 <= j < i + 1 implies s[j] != b by {
                    if j > 0 {
                        assert(t[j - 1] != b);
                    }
                }
            },
        }
    }
}

/// In `a + [b] + c` with `b` absent from `a`, the first occurrence of
/// `b` is exactly at `a.len()`.
pub proof fn lemma_find_mid(a: Seq<u8>, b: u8, c: Seq<u8>)
    requires
        forall|j: int| 0 <= j < a.len() ==> a[j] != b,
    ensures
        spec_find(a + seq![b] + c, b) == Some(a.len() as int),
{
    let s = a + seq![b] + c;
    lemma_find_first(s, b);
    assert(s[a.len() as int] == b);
    assert(forall|j: int| 0 <= j < a.len() ==> s[j] == a[j] && s[j] != b);
    match spec_find(s, b) {
        None => {
            assert(false);
        },
        Some(i) => {
            if i < a.len() {
                assert(s[i] != b);
                assert(false);
            }
            if i > a.len() {
                assert(s[a.len() as int] != b);
                assert(false);
            }
        },
    }
}

/// First occurrence of `b` in `v` at or after `from`.
pub fn find_byte(v: &Vec<u8>, from: usize, b: u8) -> (r: Option<usize>)
    requires
        from <= v@.len(),
    ensures
        r matches Some(fi) ==> from <= fi < v@.len() && spec_find(
            v@.subrange(from as int, v@.len() as int),
            b,
        ) == Some(fi - from),
        r is None ==> spec_find(v@.subrange(from as int, v@.len() as int), b) is None,
{
    let ghost tail = v@.subrange(from as int, v@.len() as int);
    proof {
        lemma_find_first(tail, b);
    }
    let n = v.len();
    let mut i: usize = from;
    while i < n
        invariant
            from <= i <= n == v@.len(),
            tail == v@.subrange(from as int, v@.len() as int),
            forall|j: int| 0 <= j < i - from ==> tail[j] != b,
            match spec_find(tail, b) {
                None => forall|j: int| 0 <= j < tail.len() ==> tail[j] != b,
                Some(fi) => 0 <= fi < tail.len() && tail[fi] == b && forall|j: int|
                    0 <= j < fi ==> tail[j] != b,
            },
        decreases n - i,
    {
        if v[i] == b {
            proof {
                assert(tail[i - from] == b);
                match spec_find(tail, b) {
                    None => {
                        assert(false);
                    },
                    Some(fi) => {
                        if fi < i - from {
                            assert(tail[fi] != b);
                            assert(false);
                        }
                        if fi > i - from {
                            assert(tail[i - from] != b);
                            assert(false);
                        }
                    },
                }
            }
            return Some(i);
        }
        i += 1;
    }
    proof {
        match spec_find(tail, b) {
            None => {},
            Some(fi) => {
                assert(tail[fi] != b);
                assert(false);
            },
        }
    }
    None
}

/// Whether `c` is an ASCII decimal digit.
pub open spec fn is_digit(c: u8) -> bool {
    0x30 <= c <= 0x39
}

pub open spec fn all_digits(s: Seq<u8>) -> bool {
    forall|j: int| 0 <= j < s.len() ==> is_digit(s[j])
}

/// Numeric value of a digit string, most significant digit first.
pub open spec fn dec_val(s: Seq<u8>) -> nat
    decreases s.len(),
{
    if s.len() == 0 {
        0
    } else {
        dec_val(s.drop_last()) * 10 + (if is_digit(s.last()) {
            (s.last() - 0x30) as nat
        } else {
            0
        })
    }
}

/// Canonical decimal rendering of `n`, without leading zeros.
pub open spec fn spec_dec(n: nat) -> Seq<u8>
    decreases n,
{
    if n < 10 {
        seq![(0x30 + n) as u8]
    } else {
        spec_dec(n / 10).push((0x30 + n % 10) as u8)
    }
}

pub proof fn lemma_dec_round_trip(n: nat)
    ensures
        spec_dec(n).len() >= 1,
        all_digits(spec_dec(n)),
        dec_val(spec_dec(n)) == n,
    decreases n,
{
    if n < 10 {
        let s = spec_dec(n);
        assert(s.drop_last() =~= Seq::<u8>::empty());
        assert(s.last() == (0x30 + n) as u8);
        assert(is_digit(s.last()));
        assert((s.last() - 0x30) as nat == n);
        assert(dec_val(s.drop_last()) == 0);
        assert(dec_val(s) == dec_val(s.drop_last()) * 10 + (s.last() - 0x30) as nat);
    } else {
        lemma_dec_round_trip(n / 10);
        let p = spec_dec(n / 10);
        let s = spec_dec(n);
        assert(s == p.push((0x30 + n % 10) as u8));
        assert(s.drop_last() =~= p);
        assert(s.last() == (0x30 + n % 10) as u8);
        assert(is_digit(s.last()));
        assert((s.last() - 0x30) as nat == n % 10);
        assert(dec_val(s) == dec_val(p) * 10 + n % 10);
        assert(n / 10 * 10 + n % 10 == n) by {
            vstd::arithmetic::div_mod::lemma_fundamental_div_mod(n as int, 10);
        }
        assert forall|j: int| 0 <= j < s.len() implies is_digit(s[j]) by {
            if j < p.len() {
                assert(s[j] == p[j]);
            }
        }
    }
}

/// The numeric value of a digit-string prefix never exceeds that of the
/// whole string.
pub proof fn lemma_dec_val_prefix(s: Seq<u8>, i: int)
    requires
        0 <= i <= s.len(),
    ensures
        dec_val(s.subrange(0, i)) <= dec_val(s),
    decreases s.len() - i,
{
    if i == s.len() {
        assert(s.subrange(0, i) =~= s);
    } else {
        lemma_dec_val_prefix(s, i + 1);
        let t = s.subrange(0, i + 1);
        assert(t.drop_last() =~= s.subrange(0, i));
        assert(dec_val(s.subrange(0, i)) <= dec_val(t));
    }
}

/// Renders `n` in decimal, most significant digit first.
pub fn dec_of_u64(n: u64) -> (r: Vec<u8>)
    ensures
        r@ == spec_dec(n as nat),
    decreases n,
{
    if n < 10 {
        let mut r: Vec<u8> = Vec::new();
        r.push(0x30 + n as u8);
        assert(r@ =~= spec_dec(n as nat));
        r
    } else {
        assert(n / 10 < n) by {
            vstd::arithmetic::div_mod::lemma_div_is_ordered_by_denominator(n as int, 1, 10);
        }
        let mut r = dec_of_u64(n / 10);
        r.push(0x30 + (n % 10) as u8);
        r
    }
}

/// Parses a decimal digit string; rejects empty input, non-digits and
/// values over `u64::MAX`.
pub fn parse_dec(v: &Vec<u8>) -> (r: Option<u64>)
    ensures
        r == (if v@.len() >= 1 && all_digits(v@) && dec_val(v@) <= u64::MAX {
            Some(dec_val(v@) as u64)
        } else {
            Option::<u64>::None
        }),
{
    if v.len() == 0 {
        return None;
    }
    let n = v.len();
    let mut acc: u128 = 0;
    let mut i: usize = 0;
    while i < n
        invariant
            0 < n == v@.len(),
            i <= n,
            all_digits(v@.subrange(0, i as int)),
            acc == dec_val(v@.subrange(0, i as int)),
            acc <= u64::MAX,
        decreases n - i,
    {
        let c = v[i];
        if c < 0x30 || c > 0x39 {
            assert(!is_digit(v@[i as int]));
            return None;
        }
        let d = (c - 0x30) as u128;
        let next: u128 = acc * 10 + d;
        proof {
            let t = v@.subrange(0, i + 1);
            assert(t.drop_last() =~= v@.subrange(0, i as int));
            assert(t.last() == v@[i as int]);
            assert(next == dec_val(t));
            assert forall|j: int| 0 <= j < t.len() implies is_digit(t[j]) by {
                if j < i {
                    assert(t[j] == v@.subrange(0, i as int)[j]);
                }
            }
        }
        if next > u64::MAX as u128 {
            proof {
                lemma_dec_val_prefix(v@, i + 1);
                assert(v@.subrange(0, v@.len() as int) =~= v@);
                assert(dec_val(v@) > u64::MAX);
            }
            return None;
        }
        acc = next;
        i += 1;
    }
    assert(v@.subrange(0, n as int) =~= v@);
    Some(acc as u64)
}

/// The uppercase hex digit for a nibble.
pub open spec fn hex_digit(n: u8) -> u8 {
    if n < 10 {
        (0x30 + n) as u8
    } else {
        (0x41 + (n - 10)) as u8
    }
}

/// Uppercase-hex rendering: two digits for each byte, in order.
pub open spec fn spec_hex(s: Seq<u8>) -> Seq<u8>
    decreases s.len(),
{
    if s.len() == 0 {
        Seq::empty()
    } else {
        spec_hex(s.drop_last()) + seq![hex_digit(s.last() / 16), hex_digit(s.last() % 16)]
    }
}

pub proof fn lemma_hex_len(s: Seq<u8>)
    ensures
        spec_hex(s).len() == 2 * s.len(),
    decreases s.len(),
{
    if s.len() > 0 {
        lemma_hex_len(s.drop_last());
    }
}

/// Hex renderings of distinct byte strings are distinct.
pub proof fn lemma_hex_injective(x: Seq<u8>, y: Seq<u8>)
    requires
        spec_hex(x) == spec_hex(y),
    ensures
        x == y,
    decreases x.len(),
{
    lemma_hex_len(x);
    lemma_hex_len(y);
    if x.len() == 0 {
        assert(x =~= y);
    } else {
        let hx = spec_hex(x);
        let hy = spec_hex(y);
        assert(hx.last() == hex_digit(x.last() % 16));
        assert(hy.last() == hex_digit(y.last() % 16));
        assert(hx[hx.len() - 2] == hex_digit(x.last() / 16));
        assert(hy[hy.len() - 2] == hex_digit(y.last() / 16));
        assert(x.last() / 16 < 16 && x.last() % 16 < 16 && y.last() / 16 < 16 && y.last() % 16
            < 16);
        assert(x.last() == x.last() / 16 * 16 + x.last() % 16) by {
            vstd::arithmetic::div_mod::lemma_fundamental_div_mod(x.last() as int, 16);
        }
        assert(y.last() == y.last() / 16 * 16 + y.last() % 16) by {
            vstd::arithmetic::div_mod::lemma_fundamental_div_mod(y.last() as int, 16);
        }
        assert(x.last() == y.last());
        assert(spec_hex(x.drop_last()) =~= hx.subrange(0, hx.len() - 2));
        assert(spec_hex(y.drop_last()) =~= hy.subrange(0, hy.len() - 2));
        lemma_hex_injective(x.drop_last(), y.drop_last());
        assert(x =~= x.drop_last().push(x.last()));
        assert(y =~= y.drop_last().push(y.last()));
    }
}

/// Renders bytes as uppercase hex.
pub fn hex_of(v: &Vec<u8>) -> (r: Vec<u8>)
    ensures
        r@ == spec_hex(v@),
{
    let n = v.len();
    let mut r: Vec<u8> = Vec::new();
    let mut i: usize = 0;
    while i < n
        invariant
            n == v@.len(),
            i <= n,
            r@ == spec_hex(v@.subrange(0, i as int)),
        decreases n - i,
    {
        let b = v[i];
        let hi = b / 16;
        let lo = b % 16;
        r.push(if hi < 10 {
            0x30 + hi
        } else {
            0x41 + (hi - 10)
        });
        r.push(if lo < 10 {
            0x30 + lo
        } else {
            0x41 + (lo - 10)
        });
        proof {
            let t = v@.subrange(0, i + 1);
            assert(t.drop_last() =~= v@.subrange(0, i as int));
            assert(t.last() == v@[i as int]);
            assert(r@ =~= spec_hex(t.drop_last()) + seq![
                hex_digit(t.last() / 16),
                hex_digit(t.last() % 16),
            ]);
        }
        i += 1;
    }
    assert(v@.subrange(0, n as int) =~= v@);
    r
}

/// Parses uppercase hex; rejects odd lengths and anything outside
/// `0-9A-F`, so decoding is exactly the inverse of `hex_of`.
pub fn parse_hex(v: &Vec<u8>) -> (r: Option<Vec<u8>>)
    ensures
        r matches Some(b) ==> v@ == spec_hex(b@),
        r is None ==> forall|b: Seq<u8>| spec_hex(b) != v@,
{
    let n = v.len();
    if n % 2 != 0 {
        proof {
            assert forall|b: Seq<u8>| spec_hex(b) != v@ by {
                lemma_hex_len(b);
            }
        }
        return None;
    }
    let mut out: Vec<u8> = Vec::new();
    let mut i: usize = 0;
    while i < n
        invariant
            n == v@.len(),
            n % 2 == 0,
            i <= n,
            i % 2 == 0,
            v@.subrange(0, i as int) == spec_hex(out@),
            out@.len() * 2 == i,
        decreases n - i,
    {
        let c1 = v[i];
        let c2 = v[i + 1];
        let d1 = if 0x30 <= c1 && c1 <= 0x39 {
            c1 - 0x30
        } else if 0x41 <= c1 && c1 <= 0x46 {
            c1 - 0x41 + 10
        } else {
            proof {
                lemma_hex_bad_char(v@, i as int);
            }
            return None;
        };
        let d2 = if 0x30 <= c2 && c2 <= 0x39 {
            c2 - 0x30
        } else if 0x41 <= c2 && c2 <= 0x46 {
            c2 - 0x41 + 10
        } else {
            proof {
                lemma_hex_bad_char(v@, i + 1);
            }
            return None;
        };
        let b = d1 * 16 + d2;
        proof {
            assert(hex_digit(d1) == c1);
            assert(hex_digit(d2) == c2);
            assert(b / 16 == d1 && b % 16 == d2) by {
                vstd::arithmetic::div_mod::lemma_fundamental_div_mod_converse(
                    b as int,
                    16,
                    d1 as int,
                    d2 as int,
                );
            }
            let t = out@.push(b);
            assert(t.drop_last() =~= out@);
            assert(spec_hex(t) =~= v@.subrange(0, i + 2));
        }
        out.push(b);
        i += 2;
    }
    assert(v@.subrange(0, n as int) =~= v@);
    Some(out)
}

/// A byte outside `0-9A-F` at position `k` rules out every hex
/// rendering.
proof fn lemma_hex_bad_char(v: Seq<u8>, k: int)
    requires
        0 <= k < v.len(),
        !(0x30 <= v[k] <= 0x39 || 0x41 <= v[k] <= 0x46),
    ensures
        forall|b: Seq<u8>| spec_hex(b) != v,
{
    assert forall|b: Seq<u8>| spec_hex(b) != v by {
        if spec_hex(b) == v {
            lemma_hex_char_range(b, k);
        }
    }
}

/// Every byte of a hex rendering is an uppercase hex digit.
proof fn lemma_hex_char_range(b: Seq<u8>, k: int)
    requires
        0 <= k < spec_hex(b).len(),
    ensures
        0x30 <= spec_hex(b)[k] <= 0x39 || 0x41 <= spec_hex(b)[k] <= 0x46,
    decreases b.len(),
{
    lemma_hex_len(b);
    if b.len() > 0 {
        if k < 2 * b.len() - 2 {
            lemma_hex_len(b.drop_last());
            lemma_hex_char_range(b.drop_last(), k);
        } else {
            assert(b.last() / 16 < 16 && b.last() % 16 < 16);
        }
    }
}

} // verus!
