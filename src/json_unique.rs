//! The JSON text of claims determines the claims.
use vstd::prelude::*;
use vstd::seq_lib::lemma_concat_associative;
use vstd::utf8::char_u32_cast;
use crate::model::{audience_text, role_text, ClaimsView, JwtAudience, JwtIssuer, UserRole, UserView};
use crate::text::{dec_int, lemma_dec_prefix};
use crate::json::{
    audience_texts, claims_json, esc, esc_char, hex_char, issuer_texts, item_list, item_tail,
    lemma_esc_front, quoted, scope_json, times_json, user_json, issuer_part, audience_part, lemma_after_times,
};

verus! {

proof fn lemma_hex_inj(v: int, w: int)
    requires
        0 <= v < 16,
        0 <= w < 16,
        hex_char(v) == hex_char(w),
    ensures
        v == w,
{
    let hv = hex_char(v) as u32;
    let hw = hex_char(w) as u32;
    if v < 10 {
        assert(hv == v + 48);
    } else {
        assert(hv == v + 87);
    }
    if w < 10 {
        assert(hw == w + 48);
    } else {
        assert(hw == w + 87);
    }
}

proof fn lemma_esc_char_first(c: char)
    ensures
        esc_char(c).len() >= 1,
        esc_char(c)[0] != '"',
        esc_char(c)[0] == '\\' <==> (c == '"' || c == '\\' || (c as u32) < 32),
        esc_char(c)[0] != '\\' ==> esc_char(c) == seq![c],
{
    if (c as u32) < 32 {
        assert(c != '\\');
    }
}

proof fn lemma_esc_char_prefix(a: char, b: char, x: Seq<char>, y: Seq<char>)
    requires
        esc_char(a) + x == esc_char(b) + y,
    ensures
        a == b,
        x == y,
{
    let l = esc_char(a) + x;
    lemma_esc_char_first(a);
    lemma_esc_char_first(b);
    assert(l[0] == esc_char(a)[0]);
    assert(l[0] == (esc_char(b) + y)[0]);
    if esc_char(a)[0] == '\\' {
        assert(l[1] == esc_char(a)[1]);
        assert(l[1] == (esc_char(b) + y)[1]);
        if (a as u32) < 32 && a != '"' && a != '\\' {
            assert((b as u32) < 32 && b != '"' && b != '\\');
            let ua = (a as u32) as int;
            let ub = (b as u32) as int;
            assert(l[4] == esc_char(a)[4] && l[4] == (esc_char(b) + y)[4]);
            assert(l[5] == esc_char(a)[5] && l[5] == (esc_char(b) + y)[5]);
            lemma_hex_inj(ua / 16, ub / 16);
            lemma_hex_inj(ua % 16, ub % 16);
            assert(ua == ub);
            char_u32_cast(a, ua as u32);
            char_u32_cast(b, ub as u32);
        }
    }
    assert(a == b);
    assert(x =~= l.subrange(esc_char(a).len() as int, l.len() as int));
    assert(y =~= l.subrange(esc_char(a).len() as int, l.len() as int));
}

proof fn lemma_esc_prefix(a: Seq<char>, b: Seq<char>, x: Seq<char>, y: Seq<char>)
    requires
        esc(a) + (seq!['"'] + x) == esc(b) + (seq!['"'] + y),
    ensures
        a == b,
        x == y,
    decreases a.len(),
{
    let l = esc(a) + (seq!['"'] + x);
    if a.len() > 0 {
        lemma_esc_front(a, 0);
        assert(a.subrange(0, a.len() as int) =~= a);
        lemma_esc_char_first(a[0]);
        assert(l[0] == esc_char(a[0])[0]);
    }
    if b.len() > 0 {
        lemma_esc_front(b, 0);
        assert(b.subrange(0, b.len() as int) =~= b);
        lemma_esc_char_first(b[0]);
        assert(l[0] == (esc(b) + (seq!['"'] + y))[0]);
        assert((esc(b) + (seq!['"'] + y))[0] == esc_char(b[0])[0]);
    }
    if a.len() == 0 {
        assert(esc(a) =~= Seq::<char>::empty());
        assert(l[0] == '"');
        assert(b.len() == 0);
        assert(esc(b) =~= Seq::<char>::empty());
        assert(x =~= l.subrange(1, l.len() as int));
        assert(y =~= l.subrange(1, l.len() as int));
        assert(a =~= b);
    } else {
        assert(b.len() > 0);
        let a1 = a.subrange(1, a.len() as int);
        let b1 = b.subrange(1, b.len() as int);
        assert(l =~= esc_char(a[0]) + (esc(a1) + (seq!['"'] + x)));
        assert(l =~= esc_char(b[0]) + (esc(b1) + (seq!['"'] + y)));
        lemma_esc_char_prefix(a[0], b[0], esc(a1) + (seq!['"'] + x), esc(b1) + (seq!['"'] + y));
        lemma_esc_prefix(a1, b1, x, y);
        assert(a =~= seq![a[0]] + a1);
        assert(b =~= seq![b[0]] + b1);
    }
}

/// A JSON string literal determines the string it holds and where it ends.
pub proof fn lemma_quoted_prefix(a: Seq<char>, b: Seq<char>, x: Seq<char>, y: Seq<char>)
    requires
        quoted(a) + x == quoted(b) + y,
    ensures
        a == b,
        x == y,
{
    let l = quoted(a) + x;
    assert(l =~= seq!['"'] + (esc(a) + (seq!['"'] + x)));
    assert(l =~= seq!['"'] + (esc(b) + (seq!['"'] + y)));
    assert(esc(a) + (seq!['"'] + x) =~= l.subrange(1, l.len() as int));
    assert(esc(b) + (seq!['"'] + y) =~= l.subrange(1, l.len() as int));
    lemma_esc_prefix(a, b, x, y);
}

proof fn lemma_lit_prefix(p: Seq<char>, x: Seq<char>, y: Seq<char>)
    requires
        p + x == p + y,
    ensures
        x == y,
{
    assert(x =~= (p + x).subrange(p.len() as int, (p + x).len() as int));
    assert(y =~= (p + y).subrange(p.len() as int, (p + y).len() as int));
}

proof fn lemma_tail_prefix(u: Seq<Seq<char>>, w: Seq<Seq<char>>, x: Seq<char>, y: Seq<char>)
    requires
        item_tail(u) + x == item_tail(w) + y,
        x.len() > 0,
        y.len() > 0,
        x[0] == ']',
        y[0] == ']',
    ensures
        u == w,
        x == y,
    decreases u.len(),
{
    let l = item_tail(u) + x;
    if u.len() > 0 {
        assert(l[0] == ',');
    }
    if w.len() > 0 {
        assert((item_tail(w) + y)[0] == ',');
    }
    if u.len() == 0 {
        assert(w.len() == 0);
        assert(item_tail(u) =~= Seq::<char>::empty());
        assert(item_tail(w) =~= Seq::<char>::empty());
        assert(x =~= l);
        assert(u =~= w);
    } else {
        assert(l =~= seq![','] + (quoted(u[0]) + (item_tail(u.skip(1)) + x)));
        assert(l =~= seq![','] + (quoted(w[0]) + (item_tail(w.skip(1)) + y)));
        lemma_lit_prefix(seq![','], quoted(u[0]) + (item_tail(u.skip(1)) + x), quoted(w[0]) + (item_tail(w.skip(1)) + y));
        lemma_quoted_prefix(u[0], w[0], item_tail(u.skip(1)) + x, item_tail(w.skip(1)) + y);
        lemma_tail_prefix(u.skip(1), w.skip(1), x, y);
        assert(u =~= seq![u[0]] + u.skip(1));
        assert(w =~= seq![w[0]] + w.skip(1));
    }
}

/// Array elements followed by the closing bracket determine the elements.
pub proof fn lemma_list_prefix(u: Seq<Seq<char>>, w: Seq<Seq<char>>, x: Seq<char>, y: Seq<char>)
    requires
        item_list(u) + x == item_list(w) + y,
        x.len() > 0,
        y.len() > 0,
        x[0] == ']',
        y[0] == ']',
    ensures
        u == w,
        x == y,
{
    let l = item_list(u) + x;
    if u.len() > 0 {
        assert(l[0] == '"');
    }
    if w.len() > 0 {
        assert((item_list(w) + y)[0] == '"');
    }
    if u.len() == 0 {
        assert(w.len() == 0);
        assert(x =~= l);
        assert(u =~= w);
    } else {
        assert(l =~= quoted(u[0]) + (item_tail(u.skip(1)) + x));
        assert(l =~= quoted(w[0]) + (item_tail(w.skip(1)) + y));
        lemma_quoted_prefix(u[0], w[0], item_tail(u.skip(1)) + x, item_tail(w.skip(1)) + y);
        lemma_tail_prefix(u.skip(1), w.skip(1), x, y);
        assert(u =~= seq![u[0]] + u.skip(1));
        assert(w =~= seq![w[0]] + w.skip(1));
    }
}

proof fn lemma_issuer_texts_inj(v: Seq<JwtIssuer>, w: Seq<JwtIssuer>)
    requires
        issuer_texts(v) == issuer_texts(w),
    ensures
        v == w,
{
    assert(issuer_texts(v).len() == v.len());
    assert(issuer_texts(w).len() == w.len());
    assert forall|k: int| 0 <= k < v.len() implies v[k] == w[k] by {
        assert(issuer_texts(v)[k] == issuer_texts(w)[k]);
    }
    assert(v =~= w);
}

proof fn lemma_audience_texts_inj(v: Seq<JwtAudience>, w: Seq<JwtAudience>)
    requires
        audience_texts(v) == audience_texts(w),
    ensures
        v == w,
{
    reveal_strlit("https://lerpz.com");
    reveal_strlit("https://account.lerpz.com");
    reveal_strlit("https://dashboard.lerpz.com");
    assert("https://lerpz.com"@.len() == 17);
    assert("https://account.lerpz.com"@.len() == 25);
    assert("https://dashboard.lerpz.com"@.len() == 27);
    assert(audience_texts(v).len() == v.len());
    assert(audience_texts(w).len() == w.len());
    assert forall|k: int| 0 <= k < v.len() implies v[k] == w[k] by {
        assert(audience_texts(v)[k] == audience_text(v[k]));
        assert(audience_texts(w)[k] == audience_text(w[k]));
        assert(audience_texts(v)[k] == audience_texts(w)[k]);
    }
    assert(v =~= w);
}

proof fn lemma_role_text_inj(a: UserRole, b: UserRole)
    requires
        role_text(a) == role_text(b),
    ensures
        a == b,
{
    reveal_strlit("MANAGER");
    reveal_strlit("ADMIN");
    reveal_strlit("MODERATOR");
    reveal_strlit("USER");
    assert("MANAGER"@.len() == 7);
    assert("ADMIN"@.len() == 5);
    assert("MODERATOR"@.len() == 9);
    assert("USER"@.len() == 4);
}

proof fn lemma_times_prefix(c1: ClaimsView, c2: ClaimsView, s1: Seq<char>, s2: Seq<char>)
    requires
        times_json(c1) + s1 == times_json(c2) + s2,
        s1.len() > 0 && s1[0] == ',',
        s2.len() > 0 && s2[0] == ',',
    ensures
        c1.exp == c2.exp && c1.nbf == c2.nbf && c1.iat == c2.iat,
        s1 == s2,
{
    reveal_strlit(",\"nbf\":");
    reveal_strlit(",\"iat\":");
    let b1 = dec_int(c1.iat as int) + s1;
    let b2 = dec_int(c2.iat as int) + s2;
    let a1 = dec_int(c1.nbf as int) + (",\"iat\":"@ + b1);
    let a2 = dec_int(c2.nbf as int) + (",\"iat\":"@ + b2);
    assert(times_json(c1) + s1 =~= ",\"exp\":"@ + (dec_int(c1.exp as int) + (",\"nbf\":"@ + a1)));
    assert(times_json(c2) + s2 =~= ",\"exp\":"@ + (dec_int(c2.exp as int) + (",\"nbf\":"@ + a2)));
    lemma_lit_prefix(",\"exp\":"@, dec_int(c1.exp as int) + (",\"nbf\":"@ + a1), dec_int(c2.exp as int) + (
    ",\"nbf\":"@ + a2));
    assert((",\"nbf\":"@ + a1)[0] == ',');
    assert((",\"nbf\":"@ + a2)[0] == ',');
    lemma_dec_prefix(c1.exp as int, c2.exp as int, ",\"nbf\":"@ + a1, ",\"nbf\":"@ + a2);
    lemma_lit_prefix(",\"nbf\":"@, a1, a2);
    assert((",\"iat\":"@ + b1)[0] == ',');
    assert((",\"iat\":"@ + b2)[0] == ',');
    lemma_dec_prefix(c1.nbf as int, c2.nbf as int, ",\"iat\":"@ + b1, ",\"iat\":"@ + b2);
    lemma_lit_prefix(",\"iat\":"@, b1, b2);
    lemma_dec_prefix(c1.iat as int, c2.iat as int, s1, s2);
}

proof fn lemma_issuer_part_prefix(v1: Seq<JwtIssuer>, v2: Seq<JwtIssuer>, x1: Seq<char>, x2: Seq<char>)
    requires
        issuer_part(v1) + x1 == issuer_part(v2) + x2,
        x1.len() >= 3 && x1[2] != 'i',
        x2.len() >= 3 && x2[2] != 'i',
    ensures
        v1 == v2,
        x1 == x2,
{
    reveal_strlit(",\"iss\":[");
    reveal_strlit("]");
    let l = issuer_part(v1) + x1;
    if v1.len() > 0 {
        assert(l[2] == 'i');
    }
    if v2.len() > 0 {
        assert((issuer_part(v2) + x2)[2] == 'i');
    }
    if v1.len() > 0 && v2.len() > 0 {
        let e1 = item_list(issuer_texts(v1)) + ("]"@ + x1);
        let e2 = item_list(issuer_texts(v2)) + ("]"@ + x2);
        assert(l =~= ",\"iss\":["@ + e1);
        assert(issuer_part(v2) + x2 =~= ",\"iss\":["@ + e2);
        lemma_lit_prefix(",\"iss\":["@, e1, e2);
        assert(("]"@ + x1)[0] == ']');
        assert(("]"@ + x2)[0] == ']');
        lemma_list_prefix(issuer_texts(v1), issuer_texts(v2), "]"@ + x1, "]"@ + x2);
        lemma_lit_prefix("]"@, x1, x2);
        lemma_issuer_texts_inj(v1, v2);
    } else {
        if v1.len() == 0 {
            assert(x1 =~= l);
        }
        if v2.len() == 0 {
            assert(x2 =~= issuer_part(v2) + x2);
        }
        assert(v1 =~= v2);
    }
}

proof fn lemma_audience_part_prefix(v1: Seq<JwtAudience>, v2: Seq<JwtAudience>, x1: Seq<char>, x2: Seq<char>)
    requires
        audience_part(v1) + x1 == audience_part(v2) + x2,
        x1.len() >= 3 && x1[2] != 'a',
        x2.len() >= 3 && x2[2] != 'a',
    ensures
        v1 == v2,
        x1 == x2,
{
    reveal_strlit(",\"aud\":[");
    reveal_strlit("]");
    let l = audience_part(v1) + x1;
    if v1.len() > 0 {
        assert(l[2] == 'a');
    }
    if v2.len() > 0 {
        assert((audience_part(v2) + x2)[2] == 'a');
    }
    if v1.len() > 0 && v2.len() > 0 {
        let e1 = item_list(audience_texts(v1)) + ("]"@ + x1);
        let e2 = item_list(audience_texts(v2)) + ("]"@ + x2);
        assert(l =~= ",\"aud\":["@ + e1);
        assert(audience_part(v2) + x2 =~= ",\"aud\":["@ + e2);
        lemma_lit_prefix(",\"aud\":["@, e1, e2);
        assert(("]"@ + x1)[0] == ']');
        assert(("]"@ + x2)[0] == ']');
        lemma_list_prefix(audience_texts(v1), audience_texts(v2), "]"@ + x1, "]"@ + x2);
        lemma_lit_prefix("]"@, x1, x2);
        lemma_audience_texts_inj(v1, v2);
    } else {
        if v1.len() == 0 {
            assert(x1 =~= l);
        }
        if v2.len() == 0 {
            assert(x2 =~= audience_part(v2) + x2);
        }
        assert(v1 =~= v2);
    }
}

proof fn lemma_scope_prefix(c1: ClaimsView, c2: ClaimsView, u1: Seq<char>, u2: Seq<char>)
    requires
        scope_json(c1) + u1 == scope_json(c2) + u2,
        u1.len() >= 3 && u1[2] == 'u',
        u2.len() >= 3 && u2[2] == 'u',
    ensures
        c1.iss == c2.iss && c1.aud == c2.aud,
        u1 == u2,
{
    reveal_strlit(",\"aud\":[");
    let a1 = audience_part(c1.aud) + u1;
    let a2 = audience_part(c2.aud) + u2;
    if c1.aud.len() > 0 {
        assert(a1[2] == ",\"aud\":["@[2]);
    } else {
        assert(a1 =~= u1);
    }
    if c2.aud.len() > 0 {
        assert(a2[2] == ",\"aud\":["@[2]);
    } else {
        assert(a2 =~= u2);
    }
    assert(scope_json(c1) + u1 =~= issuer_part(c1.iss) + a1);
    assert(scope_json(c2) + u2 =~= issuer_part(c2.iss) + a2);
    lemma_issuer_part_prefix(c1.iss, c2.iss, a1, a2);
    lemma_audience_part_prefix(c1.aud, c2.aud, u1, u2);
}

proof fn lemma_user_json_split(v: UserView, x: Seq<char>)
    ensures
        user_json(v) + x == ",\"user\":{\"id\":"@ + (quoted(v.id) + (",\"username\":"@ + (quoted(v.username) + (
        ",\"email\":"@ + (quoted(v.email) + (",\"role\":"@ + (quoted(role_text(v.role)) + ("}"@ + x)))))))),
{
    let e = "}"@;
    let b4 = quoted(role_text(v.role));
    let a4 = ",\"role\":"@;
    let b3 = quoted(v.email);
    let a3 = ",\"email\":"@;
    let b2 = quoted(v.username);
    let a2 = ",\"username\":"@;
    let b1 = quoted(v.id);
    let a1 = ",\"user\":{\"id\":"@;
    let r8 = b4 + e;
    let r7 = a4 + r8;
    let r6 = b3 + r7;
    let r5 = a3 + r6;
    let r4 = b2 + r5;
    let r3 = a2 + r4;
    let r2 = b1 + r3;
    lemma_concat_associative(a1, r2, x);
    lemma_concat_associative(b1, r3, x);
    lemma_concat_associative(a2, r4, x);
    lemma_concat_associative(b2, r5, x);
    lemma_concat_associative(a3, r6, x);
    lemma_concat_associative(b3, r7, x);
    lemma_concat_associative(a4, r8, x);
    lemma_concat_associative(b4, e, x);
}

proof fn lemma_user_prefix(v1: UserView, v2: UserView, x1: Seq<char>, x2: Seq<char>)
    requires
        user_json(v1) + x1 == user_json(v2) + x2,
    ensures
        v1 == v2,
        x1 == x2,
{
    let r1 = quoted(role_text(v1.role)) + ("}"@ + x1);
    let r2 = quoted(role_text(v2.role)) + ("}"@ + x2);
    let m1 = quoted(v1.email) + (",\"role\":"@ + r1);
    let m2 = quoted(v2.email) + (",\"role\":"@ + r2);
    let n1 = quoted(v1.username) + (",\"email\":"@ + m1);
    let n2 = quoted(v2.username) + (",\"email\":"@ + m2);
    let i1 = quoted(v1.id) + (",\"username\":"@ + n1);
    let i2 = quoted(v2.id) + (",\"username\":"@ + n2);
    lemma_user_json_split(v1, x1);
    lemma_user_json_split(v2, x2);
    lemma_lit_prefix(",\"user\":{\"id\":"@, i1, i2);
    lemma_quoted_prefix(v1.id, v2.id, ",\"username\":"@ + n1, ",\"username\":"@ + n2);
    lemma_lit_prefix(",\"username\":"@, n1, n2);
    lemma_quoted_prefix(v1.username, v2.username, ",\"email\":"@ + m1, ",\"email\":"@ + m2);
    lemma_lit_prefix(",\"email\":"@, m1, m2);
    lemma_quoted_prefix(v1.email, v2.email, ",\"role\":"@ + r1, ",\"role\":"@ + r2);
    lemma_lit_prefix(",\"role\":"@, r1, r2);
    lemma_quoted_prefix(role_text(v1.role), role_text(v2.role), "}"@ + x1, "}"@ + x2);
    lemma_lit_prefix("}"@, x1, x2);
    lemma_role_text_inj(v1.role, v2.role);
}

/// Different claims never share a JSON text.
pub proof fn lemma_claims_json_injective(c1: ClaimsView, c2: ClaimsView)
    requires
        claims_json(c1) == claims_json(c2),
    ensures
        c1 == c2,
{
    reveal_strlit(",\"iss\":[");
    let u1 = user_json(c1.user) + "}"@;
    let u2 = user_json(c2.user) + "}"@;
    let s1 = scope_json(c1) + u1;
    let s2 = scope_json(c2) + u2;
    let t1 = times_json(c1) + s1;
    let t2 = times_json(c2) + s2;
    lemma_lit_prefix("{\"sub\":"@, quoted(c1.sub) + t1, quoted(c2.sub) + t2);
    lemma_quoted_prefix(c1.sub, c2.sub, t1, t2);
    lemma_after_times(c1, "}"@);
    lemma_after_times(c2, "}"@);
    lemma_times_prefix(c1, c2, s1, s2);
    lemma_scope_prefix(c1, c2, u1, u2);
    lemma_user_prefix(c1.user, c2.user, "}"@, "}"@);
}

} // verus!
