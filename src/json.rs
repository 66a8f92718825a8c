//! The claims payload as JSON text, in one fixed layout: field order, no
//! whitespace, strings escaped the one way `esc` gives.
use vstd::prelude::*;
use crate::model::{
    audience_text, issuer_text, role_text, ClaimsView, JwtAudience, JwtIssuer, JwtUser,
    TokenClaims, UserView,
};
use crate::text::{chars_of, dec_int, push_char, write_int};

verus! {

pub open spec fn hex_char(v: int) -> char {
    if v < 10 {
        ((v + 48) as u8) as char
    } else {
        ((v + 87) as u8) as char
    }
}

/// JSON escape of one character: quote, backslash and control characters.
pub open spec fn esc_char(c: char) -> Seq<char> {
    if c == '"' {
        seq!['\\', '"']
    } else if c == '\\' {
        seq!['\\', '\\']
    } else if (c as u32) < 32 {
        seq!['\\', 'u', '0', '0', hex_char((c as u32) as int / 16), hex_char((c as u32) as int % 16)]
    } else {
        seq![c]
    }
}

pub open spec fn esc(s: Seq<char>) -> Seq<char>
    decreases s.len(),
{
    if s.len() == 0 {
        Seq::empty()
    } else {
        esc(s.drop_last()) + esc_char(s.last())
    }
}

/// A JSON string literal holding `s`.
pub open spec fn quoted(s: Seq<char>) -> Seq<char> {
    seq!['"'] + esc(s) + seq!['"']
}

/// JSON array elements, comma separated, each a string literal.
pub open spec fn item_list(texts: Seq<Seq<char>>) -> Seq<char> {
    if texts.len() == 0 {
        Seq::empty()
    } else {
        quoted(texts[0]) + item_tail(texts.skip(1))
    }
}

pub open spec fn item_tail(texts: Seq<Seq<char>>) -> Seq<char>
    decreases texts.len(),
{
    if texts.len() == 0 {
        Seq::empty()
    } else {
        seq![','] + quoted(texts[0]) + item_tail(texts.skip(1))
    }
}

pub open spec fn issuer_texts(v: Seq<JwtIssuer>) -> Seq<Seq<char>> {
    v.map_values(|i: JwtIssuer| issuer_text(i))
}

pub open spec fn audience_texts(v: Seq<JwtAudience>) -> Seq<Seq<char>> {
    v.map_values(|a: JwtAudience| audience_text(a))
}

/// The timing fields, each after its key.
pub open spec fn times_json(c: ClaimsView) -> Seq<char> {
    ",\"exp\":"@ + (dec_int(c.exp as int) + (",\"nbf\":"@ + (dec_int(c.nbf as int) + (",\"iat\":"@ + dec_int(
        c.iat as int,
    )))))
}

/// The issuers as an array of their URIs, left out when there are none.
pub open spec fn issuer_part(v: Seq<JwtIssuer>) -> Seq<char> {
    if v.len() == 0 {
        Seq::empty()
    } else {
        ",\"iss\":["@ + (item_list(issuer_texts(v)) + "]"@)
    }
}

/// The audiences as an array of their URIs, left out when there are none.
pub open spec fn audience_part(v: Seq<JwtAudience>) -> Seq<char> {
    if v.len() == 0 {
        Seq::empty()
    } else {
        ",\"aud\":["@ + (item_list(audience_texts(v)) + "]"@)
    }
}

/// The trust scope: each non-empty side as an array of its URIs.
pub open spec fn scope_json(c: ClaimsView) -> Seq<char> {
    issuer_part(c.iss) + audience_part(c.aud)
}

/// The identity snapshot as a nested object.
pub open spec fn user_json(u: UserView) -> Seq<char> {
    ",\"user\":{\"id\":"@ + (quoted(u.id) + (",\"username\":"@ + (quoted(u.username) + (",\"email\":"@ + (
    quoted(u.email) + (",\"role\":"@ + (quoted(role_text(u.role)) + "}"@)))))))
}

/// The JSON text of a claims value.
pub open spec fn claims_json(c: ClaimsView) -> Seq<char> {
    "{\"sub\":"@ + (quoted(c.sub) + (times_json(c) + (scope_json(c) + (user_json(c.user) + "}"@))))
}

proof fn lemma_esc_concat(a: Seq<char>, b: Seq<char>)
    ensures
        esc(a + b) == esc(a) + esc(b),
    decreases b.len(),
{
    if b.len() == 0 {
        assert(a + b =~= a);
        assert(esc(a) + esc(b) =~= esc(a));
    } else {
        lemma_esc_concat(a, b.drop_last());
        assert((a + b).drop_last() =~= a + b.drop_last());
        assert((a + b).last() == b.last());
        assert(esc(a + b) =~= esc(a) + esc(b));
    }
}

pub proof fn lemma_esc_front(t: Seq<char>, k: int)
    requires
        0 <= k < t.len(),
    ensures
        esc(t.subrange(k, t.len() as int)) == esc_char(t[k]) + esc(t.subrange(k + 1, t.len() as int)),
{
    let one = seq![t[k]];
    assert(t.subrange(k, t.len() as int) =~= one + t.subrange(k + 1, t.len() as int));
    lemma_esc_concat(one, t.subrange(k + 1, t.len() as int));
    assert(one.drop_last() =~= Seq::<char>::empty());
    assert(one.last() == t[k]);
    assert(esc(Seq::<char>::empty()) == Seq::<char>::empty());
    assert(esc(one) =~= esc_char(t[k]));
}

fn hex(v: u32) -> (c: char)
    requires
        v < 16,
    ensures
        c == hex_char(v as int),
{
    if v < 10 {
        ((v + 48) as u8) as char
    } else {
        ((v + 87) as u8) as char
    }
}

/// Appends the escaped form of `s`.
fn write_escaped(out: &mut String, s: &Vec<char>)
    ensures
        final(out)@ == old(out)@ + esc(s@),
{
    let mut i: usize = 0;
    while i < s.len()
        invariant
            i <= s@.len(),
            out@ == old(out)@ + esc(s@.subrange(0, i as int)),
        decreases s.len() - i,
    {
        let c = s[i];
        let u = c as u32;
        if c == '"' {
            push_char(out, '\\');
            push_char(out, '"');
        } else if c == '\\' {
            push_char(out, '\\');
            push_char(out, '\\');
        } else if u < 32 {
            push_char(out, '\\');
            push_char(out, 'u');
            push_char(out, '0');
            push_char(out, '0');
            push_char(out, hex(u / 16));
            push_char(out, hex(u % 16));
        } else {
            push_char(out, c);
        }
        assert(s@.subrange(0, i + 1).drop_last() =~= s@.subrange(0, i as int));
        i += 1;
        assert(out@ =~= old(out)@ + esc(s@.subrange(0, i as int)));
    }
    assert(s@.subrange(0, i as int) =~= s@);
}

/// Appends `s` as a JSON string literal.
pub fn write_quoted(out: &mut String, s: &str)
    ensures
        final(out)@ == old(out)@ + quoted(s@),
{
    let v = chars_of(s);
    push_char(out, '"');
    write_escaped(out, &v);
    push_char(out, '"');
    assert(out@ =~= old(out)@ + quoted(s@));
}

fn write_tail(out: &mut String, t: &Vec<&str>, k: usize)
    requires
        k <= t@.len(),
    ensures
        final(out)@ == old(out)@ + item_tail(t@.map_values(|x: &str| x@).skip(k as int)),
    decreases t@.len() - k,
{
    let ghost texts = t@.map_values(|x: &str| x@);
    if k == t.len() {
        assert(texts.skip(k as int).len() == 0);
        assert(out@ =~= old(out)@ + item_tail(texts.skip(k as int)));
    } else {
        push_char(out, ',');
        write_quoted(out, t[k]);
        write_tail(out, t, k + 1);
        assert(texts.skip(k as int).skip(1) =~= texts.skip(k + 1));
        assert(texts.skip(k as int)[0] == t@[k as int]@);
        assert(out@ =~= old(out)@ + item_tail(texts.skip(k as int)));
    }
}

/// Appends the array elements for `t`.
pub fn write_list(out: &mut String, t: &Vec<&str>)
    ensures
        final(out)@ == old(out)@ + item_list(t@.map_values(|x: &str| x@)),
{
    let ghost texts = t@.map_values(|x: &str| x@);
    if t.len() > 0 {
        write_quoted(out, t[0]);
        write_tail(out, t, 1);
        assert(texts[0] == t@[0]@);
        assert(out@ =~= old(out)@ + item_list(texts));
    } else {
        assert(out@ =~= old(out)@ + item_list(texts));
    }
}

fn issuer_strs(v: &Vec<JwtIssuer>) -> (r: Vec<&'static str>)
    ensures
        r@.map_values(|x: &str| x@) == issuer_texts(v@),
{
    let mut r: Vec<&'static str> = Vec::new();
    let mut i: usize = 0;
    while i < v.len()
        invariant
            i <= v@.len(),
            r@.len() == i,
            forall|k: int| 0 <= k < i ==> (#[trigger] r@[k])@ == issuer_text(v@[k]),
        decreases v.len() - i,
    {
        r.push(v[i].as_str());
        i += 1;
    }
    assert(r@.map_values(|x: &str| x@) =~= issuer_texts(v@));
    r
}

fn audience_strs(v: &Vec<JwtAudience>) -> (r: Vec<&'static str>)
    ensures
        r@.map_values(|x: &str| x@) == audience_texts(v@),
{
    let mut r: Vec<&'static str> = Vec::new();
    let mut i: usize = 0;
    while i < v.len()
        invariant
            i <= v@.len(),
            r@.len() == i,
            forall|k: int| 0 <= k < i ==> (#[trigger] r@[k])@ == audience_text(v@[k]),
        decreases v.len() - i,
    {
        r.push(v[i].as_str());
        i += 1;
    }
    assert(r@.map_values(|x: &str| x@) =~= audience_texts(v@));
    r
}

fn write_times(out: &mut String, c: &TokenClaims)
    ensures
        final(out)@ == old(out)@ + times_json(c@),
{
    out.append(",\"exp\":");
    write_int(out, c.exp);
    out.append(",\"nbf\":");
    write_int(out, c.nbf);
    out.append(",\"iat\":");
    write_int(out, c.iat);
    assert(out@ =~= old(out)@ + times_json(c@));
}

fn write_scope(out: &mut String, c: &TokenClaims)
    ensures
        final(out)@ == old(out)@ + scope_json(c@),
{
    if c.iss.len() > 0 {
        out.append(",\"iss\":[");
        write_list(out, &issuer_strs(&c.iss));
        out.append("]");
    }
    let ghost mid = out@;
    assert(mid =~= old(out)@ + issuer_part(c@.iss));
    if c.aud.len() > 0 {
        out.append(",\"aud\":[");
        write_list(out, &audience_strs(&c.aud));
        out.append("]");
    }
    assert(out@ =~= mid + audience_part(c@.aud));
    assert(out@ =~= old(out)@ + scope_json(c@));
}

#[verifier::rlimit(60)]
fn write_user(out: &mut String, u: &JwtUser)
    ensures
        final(out)@ == old(out)@ + user_json(u@),
{
    out.append(",\"user\":{\"id\":");
    write_quoted(out, u.id.as_str());
    out.append(",\"username\":");
    write_quoted(out, u.username.as_str());
    out.append(",\"email\":");
    write_quoted(out, u.email.as_str());
    out.append(",\"role\":");
    write_quoted(out, u.role.as_str());
    out.append("}");
    assert(out@ =~= old(out)@ + user_json(u@));
}

/// The JSON text of `c`.
#[verifier::rlimit(40)]
pub fn claims_to_json(c: &TokenClaims) -> (r: String)
    ensures
        r@ == claims_json(c@),
{
    let mut out = String::new();
    out.append("{\"sub\":");
    write_quoted(&mut out, c.sub.as_str());
    write_times(&mut out, c);
    write_scope(&mut out, c);
    write_user(&mut out, &c.user);
    out.append("}");
    assert(out@ =~= claims_json(c@));
    out
}

/// What follows the timing fields starts with a comma, and the user object
/// with `,"u`.
pub proof fn lemma_after_times(c: ClaimsView, x: Seq<char>)
    ensures
        (user_json(c.user) + x).len() >= 3,
        (user_json(c.user) + x)[2] == 'u',
        (scope_json(c) + (user_json(c.user) + x)).len() > 0,
        (scope_json(c) + (user_json(c.user) + x))[0] == ',',
{
    reveal_strlit(",\"iss\":[");
    reveal_strlit(",\"aud\":[");
    reveal_strlit(",\"user\":{\"id\":");
    let u = user_json(c.user) + x;
    assert(u[2] == ",\"user\":{\"id\":"@[2]);
    assert(u[0] == ',');
    if c.iss.len() > 0 {
        assert((scope_json(c) + u)[0] == ",\"iss\":["@[0]);
    } else if c.aud.len() > 0 {
        assert(scope_json(c) =~= audience_part(c.aud));
        assert((scope_json(c) + u)[0] == ",\"aud\":["@[0]);
    } else {
        assert(scope_json(c) + u =~= u);
    }
}

} // verus!
