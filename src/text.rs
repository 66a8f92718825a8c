//! Character-level building blocks: literals, decimal integers and the two
//! conversions between strings and UTF-8 bytes.
use vstd::prelude::*;
use vstd::string::*;
use vstd::utf8::*;

verus! {

/// Relies on `String::push`: appends one character to the string.
#[verifier::external_body]
pub(crate) fn push_char(s: &mut String, c: char)
    ensures
        final(s)@ == old(s)@.push(c),
{
    s.push(c)
}

/// Relies on `String::from_utf8`: it accepts exactly the valid UTF-8 byte
/// vectors and the string then holds the characters those bytes encode.
#[verifier::external_body]
pub(crate) fn string_from_utf8(b: Vec<u8>) -> (r: Option<String>)
    ensures
        r is Some <==> valid_utf8(b@),
        r is Some ==> r->Some_0@ == decode_utf8(b@),
{
    String::from_utf8(b).ok()
}

/// The characters of a string, in order.
pub fn chars_of(s: &str) -> (r: Vec<char>)
    ensures
        r@ == s@,
{
    let n = s.unicode_len();
    let mut v: Vec<char> = Vec::new();
    let mut i: usize = 0;
    while i < n
        invariant
            n == s@.len(),
            i <= n,
            v@ == s@.subrange(0, i as int),
        decreases n - i,
    {
        let c = s.get_char(i);
        v.push(c);
        i += 1;
        assert(v@ =~= s@.subrange(0, i as int));
    }
    assert(v@ =~= s@);
    v
}

/// The characters of `s` from `from` up to `to`.
pub fn slice_chars(s: &Vec<char>, from: usize, to: usize) -> (r: Vec<char>)
    requires
        from <= to <= s@.len(),
    ensures
        r@ == s@.subrange(from as int, to as int),
{
    let mut v: Vec<char> = Vec::new();
    let mut i: usize = from;
    while i < to
        invariant
            from <= i <= to <= s@.len(),
            v@ == s@.subrange(from as int, i as int),
        decreases to - i,
    {
        v.push(s[i]);
        i += 1;
        assert(v@ =~= s@.subrange(from as int, i as int));
    }
    v
}

/// Whether two character vectors hold the same characters.
pub fn same_chars(a: &Vec<char>, b: &Vec<char>) -> (r: bool)
    ensures
        r == (a@ == b@),
{
    if a.len() != b.len() {
        return false;
    }
    let mut i: usize = 0;
    while i < a.len()
        invariant
            a@.len() == b@.len(),
            i <= a@.len(),
            a@.subrange(0, i as int) == b@.subrange(0, i as int),
        decreases a.len() - i,
    {
        if a[i] != b[i] {
            return false;
        }
        i += 1;
        assert(a@.subrange(0, i as int) =~= b@.subrange(0, i as int));
    }
    assert(a@ =~= a@.subrange(0, i as int));
    assert(b@ =~= b@.subrange(0, i as int));
    true
}

/// Appends the characters of `v` to `out`.
pub fn append_chars(out: &mut String, v: &Vec<char>)
    ensures
        final(out)@ == old(out)@ + v@,
{
    let mut i: usize = 0;
    while i < v.len()
        invariant
            i <= v.len(),
            out@ == old(out)@ + v@.subrange(0, i as int),
        decreases v.len() - i,
    {
        push_char(out, v[i]);
        i += 1;
        assert(out@ =~= old(out)@ + v@.subrange(0, i as int));
    }
    assert(v@.subrange(0, v.len() as int) =~= v@);
}

/// If the tail of `s` from `pos` is `a + b`, then `a` stands at `pos` and `b`
/// right after it.
pub proof fn lemma_split_at(s: Seq<char>, pos: int, a: Seq<char>, b: Seq<char>)
    requires
        0 <= pos <= s.len(),
        s.subrange(pos, s.len() as int) == a + b,
    ensures
        pos + a.len() <= s.len(),
        s.subrange(pos, pos + a.len()) == a,
        s.subrange(pos + a.len(), s.len() as int) == b,
{
    let t = s.subrange(pos, s.len() as int);
    assert(t.len() == a.len() + b.len());
    assert forall|k: int| 0 <= k < a.len() implies #[trigger] s.subrange(pos, pos + a.len())[k] == a[k] by {
        assert(t[k] == (a + b)[k]);
    }
    assert forall|k: int| 0 <= k < b.len() implies #[trigger] s.subrange(pos + a.len(), s.len() as int)[k] == b[k] by {
        assert(t[a.len() + k] == (a + b)[a.len() + k]);
    }
    assert(s.subrange(pos, pos + a.len()) =~= a);
    assert(s.subrange(pos + a.len(), s.len() as int) =~= b);
}

/// `Some` of the position after `lit` when `lit` stands in `s` at `pos`.
pub fn expect(s: &Vec<char>, pos: usize, lit: &str) -> (r: Option<usize>)
    ensures
        r is Some <==> (pos + lit@.len() <= s@.len() && s@.subrange(pos as int, pos + lit@.len()) == lit@),
        r is Some ==> r->Some_0 == pos + lit@.len(),
{
    let n = lit.unicode_len();
    let len = s.len();
    if pos > len || len - pos < n {
        return None;
    }
    let mut k: usize = 0;
    while k < n
        invariant
            n == lit@.len(),
            len == s@.len(),
            pos + n <= len,
            k <= n,
            s@.subrange(pos as int, pos + k) == lit@.subrange(0, k as int),
        decreases n - k,
    {
        assert(pos + k < s@.len());
        let c = lit.get_char(k);
        if s[pos + k] != c {
            assert(s@.subrange(pos as int, pos + n)[k as int] != lit@[k as int]);
            return None;
        }
        k += 1;
        assert(s@.subrange(pos as int, pos + k) =~= lit@.subrange(0, k as int));
    }
    assert(lit@.subrange(0, n as int) =~= lit@);
    Some(pos + n)
}

pub open spec fn is_digit(c: char) -> bool {
    '0' <= c && c <= '9'
}

pub open spec fn digit_char(d: nat) -> char {
    ((d + 48) as u8) as char
}

/// Decimal digits of a natural number, without leading zeros.
pub open spec fn dec_nat(n: nat) -> Seq<char>
    decreases n,
{
    if n < 10 {
        seq![digit_char(n)]
    } else {
        dec_nat(n / 10).push(digit_char(n % 10))
    }
}

/// Decimal text of an integer, with a leading `-` when negative.
pub open spec fn dec_int(i: int) -> Seq<char> {
    if i < 0 {
        seq!['-'] + dec_nat((-i) as nat)
    } else {
        dec_nat(i as nat)
    }
}

/// The number that a string of digits denotes.
pub open spec fn digits_value(d: Seq<char>) -> nat
    decreases d.len(),
{
    if d.len() == 0 {
        0
    } else {
        digits_value(d.drop_last()) * 10 + ((d.last() as u32) - 48) as nat
    }
}

pub proof fn lemma_dec_nat(n: nat)
    ensures
        dec_nat(n).len() >= 1,
        forall|k: int| 0 <= k < dec_nat(n).len() ==> is_digit(#[trigger] dec_nat(n)[k]),
        digits_value(dec_nat(n)) == n,
    decreases n,
{
    if n >= 10 {
        lemma_dec_nat(n / 10);
        assert(dec_nat(n).drop_last() =~= dec_nat(n / 10));
        assert((digit_char(n % 10) as u32) == n % 10 + 48);
        assert(dec_nat(n).last() == digit_char(n % 10));
        assert(digits_value(dec_nat(n)) == digits_value(dec_nat(n / 10)) * 10 + n % 10);
    } else {
        assert((digit_char(n) as u32) == n + 48);
        assert(dec_nat(n).drop_last() =~= Seq::<char>::empty());
        assert(digits_value(Seq::<char>::empty()) == 0);
    }
}

proof fn lemma_digits_prefix(d: Seq<char>, k: int)
    requires
        0 <= k <= d.len(),
    ensures
        digits_value(d.subrange(0, k)) <= digits_value(d),
    decreases d.len() - k,
{
    if k < d.len() {
        lemma_digits_prefix(d, k + 1);
        assert(d.subrange(0, k + 1).drop_last() =~= d.subrange(0, k));
    } else {
        assert(d.subrange(0, k) =~= d);
    }
}

fn digit(d: u64) -> (c: char)
    requires
        d < 10,
    ensures
        c == digit_char(d as nat),
{
    ((d + 48) as u8) as char
}

fn write_nat(out: &mut String, n: u64)
    ensures
        final(out)@ == old(out)@ + dec_nat(n as nat),
    decreases n,
{
    if n >= 10 {
        write_nat(out, n / 10);
    }
    let c = digit(n % 10);
    push_char(out, c);
    assert(out@ =~= old(out)@ + dec_nat(n as nat));
}

/// Appends the decimal text of `v`.
pub fn write_int(out: &mut String, v: i64)
    ensures
        final(out)@ == old(out)@ + dec_int(v as int),
{
    if v < 0 {
        push_char(out, '-');
        let m: u64 = (0i128 - v as i128) as u64;
        write_nat(out, m);
        assert(out@ =~= old(out)@ + dec_int(v as int));
    } else {
        write_nat(out, v as u64);
    }
}

/// Reads a decimal integer at `pos`; on the text that `write_int` gives for
/// `v`, followed by a character that is no digit, it returns `v`.
pub(crate) fn parse_int(s: &Vec<char>, pos: usize, Ghost(v): Ghost<i64>, Ghost(rest): Ghost<Seq<char>>) -> (r:
    Option<(i64, usize)>)
    ensures
        r is Some ==> pos < r->Some_0.1 <= s@.len(),
        (pos <= s@.len() && s@.subrange(pos as int, s@.len() as int) == dec_int(v as int) + rest
            && rest.len() > 0 && !is_digit(rest[0])) ==> (r is Some && r->Some_0.0 == v && r->Some_0.1 == pos
            + dec_int(v as int).len()),
{
    let ghost hyp = pos <= s@.len() && s@.subrange(pos as int, s@.len() as int) == dec_int(v as int) + rest
        && rest.len() > 0 && !is_digit(rest[0]);
    let ghost mag: nat = if v < 0 { (-v) as nat } else { v as nat };
    let ghost d = dec_nat(mag);
    proof {
        lemma_dec_nat(mag);
        if hyp {
            lemma_split_at(s@, pos as int, dec_int(v as int), rest);
        }
    }
    if pos >= s.len() {
        return None;
    }
    let mut i: usize = pos;
    let mut neg = false;
    if s[i] == '-' {
        neg = true;
        i += 1;
    }
    let start = i;
    proof {
        if hyp {
            if v < 0 {
                assert(s@[pos as int] == s@.subrange(pos as int, pos + dec_int(v as int).len())[0]);
                assert(neg);
                assert(s@.subrange(start as int, s@.len() as int) =~= d + rest) by {
                    assert(s@.subrange(pos as int, s@.len() as int) =~= seq!['-'] + (d + rest));
                    assert forall|k: int| 0 <= k < d.len() + rest.len() implies #[trigger] s@.subrange(start as int, s@.len() as int)[k] == (d + rest)[k] by {
                        assert(s@.subrange(pos as int, s@.len() as int)[k + 1] == (seq!['-'] + (d + rest))[k + 1]);
                    }
                }
            } else {
                assert(s@[pos as int] == s@.subrange(pos as int, pos + dec_int(v as int).len())[0]);
                assert(is_digit(d[0]));
                assert(!neg);
            }
            lemma_split_at(s@, start as int, d, rest);
            assert(s@.subrange(start + d.len(), s@.len() as int)[0] == s@[start + d.len()]);
        }
    }
    let mut m: u64 = 0;
    while i < s.len() && '0' <= s[i] && s[i] <= '9'
        invariant
            start <= i <= s@.len(),
            pos < start || !neg,
            start == pos || (neg && start == pos + 1),
            m == digits_value(s@.subrange(start as int, i as int)),
            hyp ==> (neg <==> v < 0),
            hyp ==> !is_digit(rest[0]),
            hyp == (pos <= s@.len() && s@.subrange(pos as int, s@.len() as int) == dec_int(v as int) + rest
                && rest.len() > 0 && !is_digit(rest[0])),
            d == dec_nat(mag),
            digits_value(d) == mag,
            mag == (if v < 0 { -v } else { v as int }),
            hyp ==> start + d.len() < s@.len(),
            hyp ==> s@.subrange(start as int, start + d.len()) == d,
            hyp ==> s@[start + d.len()] == rest[0],
            hyp ==> i <= start + d.len(),
        decreases s@.len() - i,
    {
        proof {
            if hyp {
                assert(is_digit(s@[i as int]));
                assert(s@[start + d.len()] == rest[0]);
                assert(i != start + d.len());
                assert(i < start + d.len());
                assert(s@.subrange(start as int, i + 1) =~= d.subrange(0, i + 1 - start));
                lemma_digits_prefix(d, i + 1 - start);
                assert(s@.subrange(start as int, i + 1).drop_last() =~= s@.subrange(start as int, i as int));
                assert(s@.subrange(start as int, i + 1).last() == s@[i as int]);
                assert(digits_value(s@.subrange(start as int, i + 1)) == m * 10 + ((s@[i as int] as u32) - 48) as nat);
                assert(m * 10 <= mag);
            }
        }
        let dv: u64 = (s[i] as u32 - 48) as u64;
        assert(dv < 10);
        if m > 1844674407370955160 {
            return None;
        }
        m = m * 10 + dv;
        i += 1;
        assert(s@.subrange(start as int, i as int).drop_last() =~= s@.subrange(start as int, i - 1));
    }
    if i == start {
        proof {
            if hyp {
                assert(s@[start as int] == d[0]);
            }
        }
        return None;
    }
    proof {
        if hyp {
            if i < start + d.len() {
                assert(s@[i as int] == s@.subrange(start as int, start + d.len())[i - start]);
            }
            assert(i == start + d.len());
            assert(s@.subrange(start as int, i as int) =~= d);
        }
    }
    if neg {
        if m > 9223372036854775808 {
            return None;
        }
        let r: i64 = (0i128 - m as i128) as i64;
        Some((r, i))
    } else {
        if m > 9223372036854775807 {
            return None;
        }
        Some((m as i64, i))
    }
}

/// Decimal texts followed by a non-digit determine the number.
pub proof fn lemma_dec_prefix(m: int, n: int, x: Seq<char>, y: Seq<char>)
    requires
        dec_int(m) + x == dec_int(n) + y,
        x.len() > 0,
        y.len() > 0,
        !is_digit(x[0]),
        !is_digit(y[0]),
    ensures
        m == n,
        x == y,
{
    let am: nat = if m < 0 { (-m) as nat } else { m as nat };
    let an: nat = if n < 0 { (-n) as nat } else { n as nat };
    lemma_dec_nat(am);
    lemma_dec_nat(an);
    let dm = dec_nat(am);
    let dn = dec_nat(an);
    let l = dec_int(m) + x;
    assert(l == dec_int(n) + y);
    if m < 0 {
        assert(l[0] == '-');
    } else {
        assert(l[0] == dm[0]);
    }
    if n < 0 {
        assert(l[0] == '-');
    } else {
        assert(l[0] == dn[0]);
    }
    assert((m < 0) == (n < 0));
    let off: int = if m < 0 { 1 } else { 0 };
    assert(forall|k: int| 0 <= k < dm.len() ==> #[trigger] l[off + k] == dm[k]);
    assert(forall|k: int| 0 <= k < dn.len() ==> #[trigger] l[off + k] == dn[k]);
    assert(forall|k: int| 0 <= k < x.len() ==> #[trigger] l[off + dm.len() + k] == x[k]);
    assert(forall|k: int| 0 <= k < y.len() ==> #[trigger] l[off + dn.len() + k] == y[k]);
    if dm.len() < dn.len() {
        assert(l[off + dm.len() + 0] == x[0]);
        assert(l[off + dm.len()] == dn[dm.len() as int]);
    }
    if dn.len() < dm.len() {
        assert(l[off + dn.len() + 0] == y[0]);
        assert(l[off + dn.len()] == dm[dn.len() as int]);
    }
    assert(dm.len() == dn.len());
    assert(x.len() == y.len());
    assert forall|k: int| 0 <= k < dm.len() implies dm[k] == dn[k] by {
        assert(l[off + k] == dm[k]);
        assert(l[off + k] == dn[k]);
    }
    assert forall|k: int| 0 <= k < x.len() implies x[k] == y[k] by {
        assert(l[off + dm.len() + k] == x[k]);
        assert(l[off + dn.len() + k] == y[k]);
    }
    assert(dm =~= dn);
    assert(x =~= y);
}

} // verus!
