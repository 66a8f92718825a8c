//! The URL-safe base64 alphabet without padding, as used by compact tokens.
use vstd::prelude::*;
use crate::text::{chars_of, lemma_split_at, push_char, same_chars};

verus! {

/// The character for a six-bit value.
pub open spec fn b64_sym(v: int) -> char {
    if v < 26 {
        ((v + 65) as u8) as char
    } else if v < 52 {
        ((v + 71) as u8) as char
    } else if v < 62 {
        ((v - 4) as u8) as char
    } else if v == 62 {
        '-'
    } else {
        '_'
    }
}

/// The six-bit value of a character, or -1 for one outside the alphabet.
pub open spec fn b64_val(c: char) -> int {
    let u = c as u32;
    if 65 <= u <= 90 {
        u - 65
    } else if 97 <= u <= 122 {
        u - 71
    } else if 48 <= u <= 57 {
        u + 4
    } else if c == '-' {
        62
    } else if c == '_' {
        63
    } else {
        -1
    }
}

/// Base64url text of a byte sequence, three bytes to four characters.
pub open spec fn b64(b: Seq<u8>) -> Seq<char>
    decreases b.len(),
{
    if b.len() == 0 {
        Seq::empty()
    } else if b.len() == 1 {
        let x = b[0] as int;
        seq![b64_sym(x / 4), b64_sym((x % 4) * 16)]
    } else if b.len() == 2 {
        let x = b[0] as int;
        let y = b[1] as int;
        seq![b64_sym(x / 4), b64_sym((x % 4) * 16 + y / 16), b64_sym((y % 16) * 4)]
    } else {
        let x = b[0] as int;
        let y = b[1] as int;
        let z = b[2] as int;
        seq![b64_sym(x / 4), b64_sym((x % 4) * 16 + y / 16), b64_sym((y % 16) * 4 + z / 64), b64_sym(z % 64)]
            + b64(b.subrange(3, b.len() as int))
    }
}

pub proof fn lemma_sym_val(v: int)
    requires
        0 <= v < 64,
    ensures
        b64_val(b64_sym(v)) == v,
        b64_sym(v) != '.',
{
    if v < 26 {
        assert((b64_sym(v) as u32) == v + 65);
    } else if v < 52 {
        assert((b64_sym(v) as u32) == v + 71);
    } else if v < 62 {
        assert((b64_sym(v) as u32) == v - 4);
    }
}

/// No character of base64url text is a dot.
pub proof fn lemma_b64_no_dot(b: Seq<u8>)
    ensures
        forall|k: int| 0 <= k < b64(b).len() ==> #[trigger] b64(b)[k] != '.',
    decreases b.len(),
{
    if b.len() > 0 {
        let x = b[0] as int;
        lemma_sym_val(x / 4);
        lemma_sym_val((x % 4) * 16);
        if b.len() >= 2 {
            let y = b[1] as int;
            lemma_sym_val((x % 4) * 16 + y / 16);
            lemma_sym_val((y % 16) * 4);
            if b.len() >= 3 {
                let z = b[2] as int;
                lemma_sym_val((y % 16) * 4 + z / 64);
                lemma_sym_val(z % 64);
                let r = b.subrange(3, b.len() as int);
                lemma_b64_no_dot(r);
                assert forall|k: int| 0 <= k < b64(b).len() implies #[trigger] b64(b)[k] != '.' by {
                    if k >= 4 {
                        assert(b64(b)[k] == b64(r)[k - 4]);
                    }
                }
            }
        }
    }
}

proof fn lemma_group(x: int, y: int, z: int)
    requires
        0 <= x < 256,
        0 <= y < 256,
        0 <= z < 256,
    ensures
        0 <= x / 4 < 64,
        0 <= (x % 4) * 16 + y / 16 < 64,
        0 <= (y % 16) * 4 + z / 64 < 64,
        0 <= z % 64 < 64,
        (x / 4) * 4 + ((x % 4) * 16 + y / 16) / 16 == x,
        (((x % 4) * 16 + y / 16) % 16) * 16 + ((y % 16) * 4 + z / 64) / 4 == y,
        (((y % 16) * 4 + z / 64) % 4) * 64 + z % 64 == z,
{
    assert(((x % 4) * 16 + y / 16) / 16 == x % 4);
    assert(((x % 4) * 16 + y / 16) % 16 == y / 16);
    assert(((y % 16) * 4 + z / 64) / 4 == y % 16);
    assert(((y % 16) * 4 + z / 64) % 4 == z / 64);
}

fn sym(v: u8) -> (c: char)
    requires
        v < 64,
    ensures
        c == b64_sym(v as int),
{
    if v < 26 {
        (v + 65) as char
    } else if v < 52 {
        (v + 71) as char
    } else if v < 62 {
        (v - 4) as char
    } else if v == 62 {
        '-'
    } else {
        '_'
    }
}

fn val(c: char) -> (r: Option<u8>)
    ensures
        b64_val(c) >= 0 ==> r == Some(b64_val(c) as u8),
        b64_val(c) < 0 ==> r is None,
        r is Some ==> r->Some_0 < 64,
{
    let u = c as u32;
    if 65 <= u && u <= 90 {
        Some((u - 65) as u8)
    } else if 97 <= u && u <= 122 {
        Some((u - 71) as u8)
    } else if 48 <= u && u <= 57 {
        Some((u + 4) as u8)
    } else if c == '-' {
        Some(62)
    } else if c == '_' {
        Some(63)
    } else {
        None
    }
}

/// Base64url text of `b`, without padding.
pub fn base64url_encode(b: &[u8]) -> (r: String)
    ensures
        r@ == b64(b@),
{
    let n = b.len();
    let mut out = String::new();
    let mut i: usize = 0;
    assert(b@.subrange(0, n as int) =~= b@);
    while n - i >= 3
        invariant
            n == b@.len(),
            i <= n,
            out@ + b64(b@.subrange(i as int, n as int)) == b64(b@),
        decreases n - i,
    {
        let x = b[i];
        let y = b[i + 1];
        let z = b[i + 2];
        proof {
            lemma_group(x as int, y as int, z as int);
            assert(b@.subrange(i as int, n as int).subrange(3, n - i) =~= b@.subrange(i + 3, n as int));
        }
        push_char(&mut out, sym(x / 4));
        push_char(&mut out, sym((x % 4) * 16 + y / 16));
        push_char(&mut out, sym((y % 16) * 4 + z / 64));
        push_char(&mut out, sym(z % 64));
        i += 3;
        assert(out@ + b64(b@.subrange(i as int, n as int)) =~= b64(b@));
    }
    let ghost tail = b@.subrange(i as int, n as int);
    if n - i == 2 {
        let x = b[i];
        let y = b[i + 1];
        proof {
            lemma_group(x as int, y as int, 0);
        }
        push_char(&mut out, sym(x / 4));
        push_char(&mut out, sym((x % 4) * 16 + y / 16));
        push_char(&mut out, sym((y % 16) * 4));
    } else if n - i == 1 {
        let x = b[i];
        proof {
            lemma_group(x as int, 0, 0);
        }
        push_char(&mut out, sym(x / 4));
        push_char(&mut out, sym((x % 4) * 16));
    }
    assert(out@ =~= b64(b@));
    out
}

/// Bytes whose base64url text is exactly `s`; on the text of `x` it gives `x`.
pub(crate) fn decode_toward(s: &Vec<char>, Ghost(x): Ghost<Seq<u8>>) -> (r: Option<Vec<u8>>)
    ensures
        r is Some ==> b64(r->Some_0@) == s@,
        s@ == b64(x) ==> r is Some && r->Some_0@ == x,
{
    let n = s.len();
    let ghost hyp = s@ == b64(x);
    let mut out: Vec<u8> = Vec::new();
    let mut i: usize = 0;
    let ghost mut j: int = 0;
    assert(s@.subrange(0, n as int) =~= s@);
    assert(x.subrange(0, x.len() as int) =~= x);
    assert(out@ =~= x.subrange(0, 0));
    while i < n
        invariant
            n == s@.len(),
            i <= n,
            hyp == (s@ == b64(x)),
            hyp ==> 0 <= j <= x.len(),
            hyp ==> out@ == x.subrange(0, j),
            hyp ==> s@.subrange(i as int, n as int) == b64(x.subrange(j, x.len() as int)),
        decreases n - i,
    {
        let ghost y = x.subrange(j, x.len() as int);
        let rem = n - i;
        if rem == 1 {
            return None;
        }
        proof {
            if hyp {
                assert(s@.subrange(i as int, n as int).len() == rem);
                if y.len() >= 3 {
                    lemma_group(y[0] as int, y[1] as int, y[2] as int);
                } else if y.len() == 2 {
                    lemma_group(y[0] as int, y[1] as int, 0);
                } else if y.len() == 1 {
                    lemma_group(y[0] as int, 0, 0);
                }
                assert(forall|k: int| 0 <= k < rem ==> #[trigger] s@[i + k] == s@.subrange(i as int, n as int)[k]);
            }
        }
        let a = match val(s[i]) {
            Some(v) => v,
            None => {
                proof {
                    if hyp {
                        lemma_sym_val(y[0] as int / 4);
                        assert(s@[i + 0] == b64(y)[0]);
                    }
                }
                return None;
            },
        };
        let b = match val(s[i + 1]) {
            Some(v) => v,
            None => {
                proof {
                    if hyp {
                        let yy = if y.len() >= 2 { y[1] as int } else { 0 };
                        lemma_sym_val((y[0] as int % 4) * 16 + yy / 16);
                        assert(s@[i + 1] == b64(y)[1]);
                    }
                }
                return None;
            },
        };
        if rem == 2 {
            out.push(a * 4 + b / 16);
            i += 2;
            proof {
                if hyp {
                    lemma_sym_val(y[0] as int / 4);
                    lemma_sym_val((y[0] as int % 4) * 16);
                    assert(s@[i - 2 + 0] == b64(y)[0]);
                    assert(s@[i - 2 + 1] == b64(y)[1]);
                    j = j + 1;
                    assert(out@ =~= x.subrange(0, j));
                    assert(s@.subrange(i as int, n as int) =~= b64(x.subrange(j, x.len() as int)));
                }
            }
        } else {
            let c = match val(s[i + 2]) {
                Some(v) => v,
                None => {
                    proof {
                        if hyp {
                            let zz = if y.len() >= 3 { y[2] as int } else { 0 };
                            lemma_sym_val((y[1] as int % 16) * 4 + zz / 64);
                            assert(s@[i + 2] == b64(y)[2]);
                        }
                    }
                    return None;
                },
            };
            if rem == 3 {
                out.push(a * 4 + b / 16);
                out.push((b % 16) * 16 + c / 4);
                i += 3;
                proof {
                    if hyp {
                        lemma_sym_val(y[0] as int / 4);
                        lemma_sym_val((y[0] as int % 4) * 16 + y[1] as int / 16);
                        lemma_sym_val((y[1] as int % 16) * 4);
                        assert(s@[i - 3 + 0] == b64(y)[0]);
                        assert(s@[i - 3 + 1] == b64(y)[1]);
                        assert(s@[i - 3 + 2] == b64(y)[2]);
                        j = j + 2;
                        assert(out@ =~= x.subrange(0, j));
                        assert(s@.subrange(i as int, n as int) =~= b64(x.subrange(j, x.len() as int)));
                    }
                }
            } else {
                let d = match val(s[i + 3]) {
                    Some(v) => v,
                    None => {
                        proof {
                            if hyp {
                                lemma_sym_val(y[2] as int % 64);
                                assert(s@[i + 3] == b64(y)[3]);
                            }
                        }
                        return None;
                    },
                };
                out.push(a * 4 + b / 16);
                out.push((b % 16) * 16 + c / 4);
                out.push((c % 4) * 64 + d);
                i += 4;
                proof {
                    if hyp {
                        lemma_sym_val(y[0] as int / 4);
                        lemma_sym_val((y[0] as int % 4) * 16 + y[1] as int / 16);
                        lemma_sym_val((y[1] as int % 16) * 4 + y[2] as int / 64);
                        lemma_sym_val(y[2] as int % 64);
                        assert(s@[i - 4 + 0] == b64(y)[0]);
                        assert(s@[i - 4 + 1] == b64(y)[1]);
                        assert(s@[i - 4 + 2] == b64(y)[2]);
                        assert(s@[i - 4 + 3] == b64(y)[3]);
                        let g = b64(y).subrange(0, 4);
                        assert(b64(y) =~= g + b64(y.subrange(3, y.len() as int)));
                        assert(y.subrange(3, y.len() as int) =~= x.subrange(j + 3, x.len() as int));
                        lemma_split_at(s@, (i - 4) as int, g, b64(y.subrange(3, y.len() as int)));
                        j = j + 3;
                        assert(out@ =~= x.subrange(0, j));
                    }
                }
            }
        }
    }
    proof {
        if hyp {
            assert(b64(x.subrange(j, x.len() as int)).len() == 0);
            if j < x.len() {
                assert(b64(x.subrange(j, x.len() as int)).len() > 0);
            }
            assert(out@ =~= x);
        }
    }
    let enc = base64url_encode(out.as_slice());
    let back = chars_of(enc.as_str());
    if same_chars(&back, s) {
        Some(out)
    } else {
        None
    }
}

/// Different byte sequences have different base64url texts.
pub proof fn lemma_b64_injective(x: Seq<u8>, y: Seq<u8>)
    requires
        b64(x) == b64(y),
    ensures
        x == y,
    decreases x.len(),
{
    let t = b64(x);
    assert(b64(y) == t);
    if x.len() >= 3 {
        assert(t.len() >= 4);
    }
    if y.len() >= 3 {
        assert(b64(y).len() >= 4);
    }
    if x.len() < 3 {
        assert(t.len() == if x.len() == 0 { 0 } else { x.len() + 1 });
    }
    if y.len() < 3 {
        assert(b64(y).len() == if y.len() == 0 { 0 } else { y.len() + 1 });
    }
    assert((x.len() >= 3) == (y.len() >= 3));
    assert(x.len() < 3 ==> x.len() == y.len());
    let x0 = if x.len() >= 1 { x[0] as int } else { 0 };
    let x1 = if x.len() >= 2 { x[1] as int } else { 0 };
    let x2 = if x.len() >= 3 { x[2] as int } else { 0 };
    let y0 = if y.len() >= 1 { y[0] as int } else { 0 };
    let y1 = if y.len() >= 2 { y[1] as int } else { 0 };
    let y2 = if y.len() >= 3 { y[2] as int } else { 0 };
    lemma_group(x0, x1, x2);
    lemma_group(y0, y1, y2);
    if x.len() >= 1 {
        lemma_sym_val(x0 / 4);
        lemma_sym_val(y0 / 4);
        lemma_sym_val((x0 % 4) * 16 + x1 / 16);
        lemma_sym_val((y0 % 4) * 16 + y1 / 16);
        assert(t[0] == b64_sym(x0 / 4));
        assert(b64(y)[0] == b64_sym(y0 / 4));
        assert(t[1] == b64_sym((x0 % 4) * 16 + x1 / 16));
        assert(b64(y)[1] == b64_sym((y0 % 4) * 16 + y1 / 16));
        assert(x0 / 4 == y0 / 4);
        assert((x0 % 4) * 16 + x1 / 16 == (y0 % 4) * 16 + y1 / 16);
        assert(x0 == y0);
        if x.len() >= 2 {
            lemma_sym_val((x1 % 16) * 4 + x2 / 64);
            lemma_sym_val((y1 % 16) * 4 + y2 / 64);
            assert(t[2] == b64_sym((x1 % 16) * 4 + x2 / 64));
            assert(b64(y)[2] == b64_sym((y1 % 16) * 4 + y2 / 64));
            assert((x1 % 16) * 4 + x2 / 64 == (y1 % 16) * 4 + y2 / 64);
            assert(x1 == y1);
            if x.len() >= 3 {
                lemma_sym_val(x2 % 64);
                lemma_sym_val(y2 % 64);
                assert(t[3] == b64_sym(x2 % 64));
                assert(b64(y)[3] == b64_sym(y2 % 64));
                assert(x2 % 64 == y2 % 64);
                assert(x2 == y2);
                let xr = x.subrange(3, x.len() as int);
                let yr = y.subrange(3, y.len() as int);
                assert(b64(xr) =~= t.subrange(4, t.len() as int));
                assert(b64(yr) =~= t.subrange(4, t.len() as int));
                lemma_b64_injective(xr, yr);
                assert(x =~= seq![x[0], x[1], x[2]] + xr);
                assert(y =~= seq![y[0], y[1], y[2]] + yr);
            } else {
                assert(x =~= y);
            }
        } else {
            assert(x =~= y);
        }
    } else {
        assert(x =~= y);
    }
}

/// The bytes whose base64url text is exactly `s`, if there are any.
pub fn base64url_decode(s: &Vec<char>) -> (r: Option<Vec<u8>>)
    ensures
        r is Some ==> b64(r->Some_0@) == s@,
        forall|x: Seq<u8>| b64(x) == s@ ==> r is Some && r->Some_0@ == x,
{
    let ghost x0 = choose|x: Seq<u8>| b64(x) == s@;
    let r = decode_toward(s, Ghost(x0));
    proof {
        assert forall|x: Seq<u8>| b64(x) == s@ implies r is Some && r->Some_0@ == x by {
            lemma_b64_injective(r->Some_0@, x);
        }
    }
    r
}

} // verus!
