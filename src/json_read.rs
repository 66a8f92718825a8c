//! Reading claims back from their JSON text: each reader, given the text
//! that the writer produces for a value, returns that value.
use vstd::prelude::*;
use vstd::utf8::char_u32_cast;
use crate::model::{
    audience_text, issuer_text, role_text, ClaimsView, JwtAudience, JwtIssuer, JwtUser,
    TokenClaims, UserRole, UserView,
};
use crate::text::{chars_of, dec_int, expect, is_digit, lemma_split_at, parse_int, push_char, same_chars};
use crate::json::{
    audience_texts, claims_json, claims_to_json, esc, esc_char, hex_char, issuer_texts, item_list,
    item_tail, lemma_esc_front, quoted, scope_json, times_json, user_json, issuer_part, audience_part, lemma_after_times,
};
use crate::json_unique::lemma_claims_json_injective;

verus! {

fn hex_value(c: char) -> (r: Option<u32>)
    ensures
        forall|v: int| 0 <= v < 16 && c == hex_char(v) ==> r == Some(v as u32),
        r is Some ==> r->Some_0 < 16,
{
    let u = c as u32;
    proof {
        assert forall|v: int| 0 <= v < 16 && c == hex_char(v) implies (if v < 10 { u == v + 48 } else { u == v + 87 }) by {
            if v < 10 {
                assert((hex_char(v) as u32) == v + 48);
            } else {
                assert((hex_char(v) as u32) == v + 87);
            }
        }
    }
    if 48 <= u && u <= 57 {
        Some(u - 48)
    } else if 97 <= u && u <= 102 {
        Some(u - 87)
    } else {
        None
    }
}

/// Reads a JSON string literal at `pos`; on `quoted(t)` it gives `t`.
fn parse_string(s: &Vec<char>, pos: usize, Ghost(t): Ghost<Seq<char>>, Ghost(rest): Ghost<Seq<char>>) -> (r:
    Option<(String, usize)>)
    ensures
        r is Some ==> pos < r->Some_0.1 <= s@.len(),
        (pos <= s@.len() && s@.subrange(pos as int, s@.len() as int) == quoted(t) + rest) ==> (r is Some
            && r->Some_0.0@ == t && r->Some_0.1 == pos + quoted(t).len()),
{
    let n = s.len();
    let ghost hyp = pos <= s@.len() && s@.subrange(pos as int, s@.len() as int) == quoted(t) + rest;
    if pos >= n {
        proof {
            if hyp {
                assert(s@.subrange(pos as int, s@.len() as int).len() >= 2);
            }
        }
        return None;
    }
    if s[pos] != '"' {
        proof {
            if hyp {
                assert(s@[pos as int] == s@.subrange(pos as int, s@.len() as int)[0]);
            }
        }
        return None;
    }
    proof {
        if hyp {
            assert(quoted(t) + rest =~= seq!['"'] + (esc(t) + (seq!['"'] + rest)));
            lemma_split_at(s@, pos as int, seq!['"'], esc(t) + (seq!['"'] + rest));
            assert(t.subrange(0, t.len() as int) =~= t);
        }
    }
    let mut out = String::new();
    let mut i: usize = pos + 1;
    let ghost mut k: int = 0;
    loop
        invariant
            n == s@.len(),
            pos < i <= n,
            hyp == (pos <= s@.len() && s@.subrange(pos as int, s@.len() as int) == quoted(t) + rest),
            hyp ==> 0 <= k <= t.len(),
            hyp ==> out@ == t.subrange(0, k),
            hyp ==> s@.subrange(i as int, n as int) == esc(t.subrange(k, t.len() as int)) + (seq!['"'] + rest),
        decreases n - i,
    {
        if i >= n {
            proof {
                if hyp {
                    assert(s@.subrange(i as int, n as int).len() > 0);
                }
            }
            return None;
        }
        let ghost tail = esc(t.subrange(k, t.len() as int)) + (seq!['"'] + rest);
        let ghost cur = if k < t.len() { esc_char(t[k]) } else { seq!['"'] };
        let ghost after = if k < t.len() { esc(t.subrange(k + 1, t.len() as int)) + (seq!['"'] + rest) } else { rest };
        proof {
            if hyp {
                if k < t.len() {
                    lemma_esc_front(t, k);
                    assert(tail =~= cur + after);
                } else {
                    assert(t.subrange(k, t.len() as int) =~= Seq::<char>::empty());
                    assert(tail =~= cur + after);
                }
                lemma_split_at(s@, i as int, cur, after);
                assert(forall|j: int| 0 <= j < cur.len() ==> #[trigger] s@[i + j] == s@.subrange(i as int, i + cur.len())[j]);
            }
        }
        let c = s[i];
        if c == '"' {
            proof {
                if hyp {
                    assert(s@[i + 0] == cur[0]);
                    assert(k == t.len());
                    assert(out@ =~= t);
                    assert(s@.subrange(i as int, n as int).len() == 1 + rest.len());
                    assert(s@.subrange(pos as int, n as int).len() == quoted(t).len() + rest.len());
                }
            }
            return Some((out, i + 1));
        } else if c == '\\' {
            if i + 1 >= n {
                proof {
                    if hyp {
                        assert(s@[i + 0] == cur[0]);
                    }
                }
                return None;
            }
            let e = s[i + 1];
            proof {
                if hyp {
                    assert(s@[i + 0] == cur[0]);
                    assert(k < t.len());
                    assert(cur.len() >= 2);
                    assert(s@[i + 1] == cur[1]);
                }
            }
            if e == '"' || e == '\\' {
                push_char(&mut out, e);
                i += 2;
                proof {
                    if hyp {
                        assert(t[k] == e);
                        k = k + 1;
                        assert(out@ =~= t.subrange(0, k));
                    }
                }
            } else if e == 'u' {
                if n - i <= 5 || s[i + 2] != '0' || s[i + 3] != '0' {
                    proof {
                        if hyp {
                            assert(s@[i + 2] == cur[2]);
                            assert(s@[i + 3] == cur[3]);
                        }
                    }
                    return None;
                }
                let h1 = hex_value(s[i + 4]);
                let h2 = hex_value(s[i + 5]);
                let ghost u: int = if k < t.len() { (t[k] as u32) as int } else { 0 };
                proof {
                    if hyp {
                        assert(s@[i + 4] == cur[4]);
                        assert(s@[i + 5] == cur[5]);
                        assert(cur[4] == hex_char(u / 16));
                        assert(cur[5] == hex_char(u % 16));
                    }
                }
                match (h1, h2) {
                    (Some(a), Some(b)) => {
                        let v = a * 16 + b;
                        if v >= 32 {
                            return None;
                        }
                        let ch = (v as u8) as char;
                        push_char(&mut out, ch);
                        i += 6;
                        proof {
                            if hyp {
                                assert(v == u);
                                char_u32_cast(ch, v);
                                char_u32_cast(t[k], u as u32);
                                assert(ch == t[k]);
                                k = k + 1;
                                assert(out@ =~= t.subrange(0, k));
                            }
                        }
                    },
                    _ => {
                        return None;
                    },
                }
            } else {
                return None;
            }
        } else {
            push_char(&mut out, c);
            i += 1;
            proof {
                if hyp {
                    assert(s@[i - 1 + 0] == cur[0]);
                    assert(k < t.len());
                    assert(t[k] == c);
                    k = k + 1;
                    assert(out@ =~= t.subrange(0, k));
                }
            }
        }
    }
}

pub open spec fn string_views(v: Seq<String>) -> Seq<Seq<char>> {
    v.map_values(|x: String| x@)
}

/// Reads array elements up to the closing bracket, which it leaves in place.
fn parse_list(s: &Vec<char>, pos: usize, Ghost(texts): Ghost<Seq<Seq<char>>>, Ghost(rest): Ghost<Seq<char>>) -> (r:
    Option<(Vec<String>, usize)>)
    ensures
        r is Some ==> pos <= r->Some_0.1 <= s@.len(),
        (pos <= s@.len() && s@.subrange(pos as int, s@.len() as int) == item_list(texts) + rest && rest.len() > 0
            && rest[0] == ']') ==> (r is Some && string_views(r->Some_0.0@) == texts && r->Some_0.1 == pos
            + item_list(texts).len()),
{
    let n = s.len();
    let ghost hyp = pos <= s@.len() && s@.subrange(pos as int, s@.len() as int) == item_list(texts) + rest
        && rest.len() > 0 && rest[0] == ']';
    if pos >= n {
        proof {
            if hyp {
                assert(s@.subrange(pos as int, s@.len() as int).len() > 0);
            }
        }
        return None;
    }
    let mut out: Vec<String> = Vec::new();
    if s[pos] == ']' {
        proof {
            if hyp {
                assert(s@[pos as int] == s@.subrange(pos as int, s@.len() as int)[0]);
                if texts.len() > 0 {
                    assert(item_list(texts)[0] == '"');
                }
                assert(texts.len() == 0);
                assert(string_views(out@) =~= texts);
            }
        }
        return Some((out, pos));
    }
    proof {
        if hyp {
            if texts.len() == 0 {
                assert(s@[pos as int] == s@.subrange(pos as int, s@.len() as int)[0]);
            }
            assert(texts.len() > 0);
            assert(item_list(texts) + rest =~= quoted(texts[0]) + (item_tail(texts.skip(1)) + rest));
        }
    }
    let mut i: usize = pos;
    let ghost mut k: int = 0;
    loop
        invariant
            n == s@.len(),
            pos <= i <= n,
            hyp == (pos <= s@.len() && s@.subrange(pos as int, s@.len() as int) == item_list(texts) + rest
                && rest.len() > 0 && rest[0] == ']'),
            hyp ==> 0 <= k < texts.len(),
            hyp ==> out@.len() == k,
            hyp ==> string_views(out@) == texts.subrange(0, k),
            hyp ==> s@.subrange(i as int, n as int) == quoted(texts[k]) + (item_tail(texts.skip(k + 1)) + rest),
        decreases n - i,
    {
        let ghost after = item_tail(texts.skip(k + 1)) + rest;
        let (item, j) = match parse_string(s, i, Ghost(texts[k]), Ghost(after)) {
            Some(x) => x,
            None => {
                return None;
            },
        };
        out.push(item);
        proof {
            if hyp {
                lemma_split_at(s@, i as int, quoted(texts[k]), after);
                assert(string_views(out@) =~= texts.subrange(0, k + 1));
            }
        }
        if j < n && s[j] == ',' {
            proof {
                if hyp {
                    assert(s@[j as int] == s@.subrange(j as int, n as int)[0]);
                    let w = texts.skip(k + 1);
                    if w.len() == 0 {
                        assert(item_tail(w) =~= Seq::<char>::empty());
                        assert(after[0] == ']');
                    }
                    assert(w.len() > 0);
                    assert(after =~= seq![','] + (quoted(w[0]) + (item_tail(w.skip(1)) + rest)));
                    lemma_split_at(s@, j as int, seq![','], quoted(w[0]) + (item_tail(w.skip(1)) + rest));
                    assert(w.skip(1) =~= texts.skip(k + 2));
                    assert(w[0] == texts[k + 1]);
                    k = k + 1;
                }
            }
            i = j + 1;
        } else {
            proof {
                if hyp {
                    let w = texts.skip(k + 1);
                    if w.len() > 0 {
                        assert(after =~= seq![','] + (quoted(w[0]) + (item_tail(w.skip(1)) + rest)));
                        assert(s@.subrange(j as int, n as int).len() > 0);
                        assert(s@[j as int] == s@.subrange(j as int, n as int)[0]);
                    }
                    assert(k + 1 == texts.len());
                    assert(texts.subrange(0, k + 1) =~= texts);
                    assert(item_tail(w) =~= Seq::<char>::empty());
                    assert(s@.subrange(j as int, n as int).len() == rest.len());
                    assert(s@.subrange(pos as int, n as int).len() == item_list(texts).len() + rest.len());
                }
            }
            return Some((out, j));
        }
    }
}

/// Whether `v` holds exactly the characters of `lit`.
fn text_is(v: &Vec<char>, lit: &str) -> (r: bool)
    ensures
        r == (v@ == lit@),
{
    match expect(v, 0, lit) {
        Some(e) => {
            if e == v.len() {
                assert(v@.subrange(0, e as int) =~= v@);
                true
            } else {
                false
            }
        },
        None => {
            proof {
                if v@ == lit@ {
                    assert(v@.subrange(0, lit@.len() as int) =~= v@);
                }
            }
            false
        },
    }
}

fn issuer_from(s: &String) -> (r: Option<JwtIssuer>)
    ensures
        forall|i: JwtIssuer| s@ == issuer_text(i) ==> r == Some(i),
{
    let v = chars_of(s.as_str());
    if text_is(&v, "https://api.lerpz.com") {
        Some(JwtIssuer::API)
    } else {
        None
    }
}

fn audience_from(s: &String) -> (r: Option<JwtAudience>)
    ensures
        forall|a: JwtAudience| s@ == audience_text(a) ==> r == Some(a),
{
    proof {
        reveal_strlit("https://lerpz.com");
        reveal_strlit("https://account.lerpz.com");
        reveal_strlit("https://dashboard.lerpz.com");
        assert("https://lerpz.com"@.len() == 17);
        assert("https://account.lerpz.com"@.len() == 25);
        assert("https://dashboard.lerpz.com"@.len() == 27);
    }
    let v = chars_of(s.as_str());
    if text_is(&v, "https://lerpz.com") {
        Some(JwtAudience::MainWebsite)
    } else if text_is(&v, "https://account.lerpz.com") {
        Some(JwtAudience::Account)
    } else if text_is(&v, "https://dashboard.lerpz.com") {
        Some(JwtAudience::Dashboard)
    } else {
        None
    }
}

fn role_from(s: &String) -> (r: Option<UserRole>)
    ensures
        forall|x: UserRole| s@ == role_text(x) ==> r == Some(x),
{
    proof {
        reveal_strlit("MANAGER");
        reveal_strlit("ADMIN");
        reveal_strlit("MODERATOR");
        reveal_strlit("USER");
        assert("MANAGER"@.len() == 7);
        assert("ADMIN"@.len() == 5);
        assert("MODERATOR"@.len() == 9);
        assert("USER"@.len() == 4);
    }
    let v = chars_of(s.as_str());
    if text_is(&v, "MANAGER") {
        Some(UserRole::MANAGER)
    } else if text_is(&v, "ADMIN") {
        Some(UserRole::ADMIN)
    } else if text_is(&v, "MODERATOR") {
        Some(UserRole::MODERATOR)
    } else if text_is(&v, "USER") {
        Some(UserRole::USER)
    } else {
        None
    }
}

fn issuers_from(v: &Vec<String>, Ghost(target): Ghost<Seq<JwtIssuer>>) -> (r: Option<Vec<JwtIssuer>>)
    ensures
        string_views(v@) == issuer_texts(target) ==> r is Some && r->Some_0@ == target,
{
    let ghost hyp = string_views(v@) == issuer_texts(target);
    proof {
        if hyp {
            assert(string_views(v@).len() == issuer_texts(target).len());
        }
    }
    let mut out: Vec<JwtIssuer> = Vec::new();
    let mut i: usize = 0;
    while i < v.len()
        invariant
            i <= v@.len(),
            hyp == (string_views(v@) == issuer_texts(target)),
            hyp ==> v@.len() == target.len(),
            hyp ==> out@ == target.subrange(0, i as int),
        decreases v.len() - i,
    {
        proof {
            if hyp {
                assert(string_views(v@)[i as int] == issuer_texts(target)[i as int]);
                assert(string_views(v@)[i as int] == v@[i as int]@);
                assert(issuer_texts(target)[i as int] == issuer_text(target[i as int]));
            }
        }
        match issuer_from(&v[i]) {
            Some(x) => out.push(x),
            None => {
                return None;
            },
        }
        i += 1;
        assert(hyp ==> out@ =~= target.subrange(0, i as int));
    }
    proof {
        if hyp {
            assert(string_views(v@).len() == issuer_texts(target).len());
            assert(out@ =~= target);
        }
    }
    Some(out)
}

fn audiences_from(v: &Vec<String>, Ghost(target): Ghost<Seq<JwtAudience>>) -> (r: Option<Vec<JwtAudience>>)
    ensures
        string_views(v@) == audience_texts(target) ==> r is Some && r->Some_0@ == target,
{
    let ghost hyp = string_views(v@) == audience_texts(target);
    proof {
        if hyp {
            assert(string_views(v@).len() == audience_texts(target).len());
        }
    }
    let mut out: Vec<JwtAudience> = Vec::new();
    let mut i: usize = 0;
    while i < v.len()
        invariant
            i <= v@.len(),
            hyp == (string_views(v@) == audience_texts(target)),
            hyp ==> v@.len() == target.len(),
            hyp ==> out@ == target.subrange(0, i as int),
        decreases v.len() - i,
    {
        proof {
            if hyp {
                assert(string_views(v@)[i as int] == audience_texts(target)[i as int]);
                assert(string_views(v@)[i as int] == v@[i as int]@);
                assert(audience_texts(target)[i as int] == audience_text(target[i as int]));
            }
        }
        match audience_from(&v[i]) {
            Some(x) => out.push(x),
            None => {
                return None;
            },
        }
        i += 1;
        assert(hyp ==> out@ =~= target.subrange(0, i as int));
    }
    proof {
        if hyp {
            assert(string_views(v@).len() == audience_texts(target).len());
            assert(out@ =~= target);
        }
    }
    Some(out)
}

fn parse_times(s: &Vec<char>, pos: usize, Ghost(c): Ghost<ClaimsView>, Ghost(rest): Ghost<Seq<char>>) -> (r:
    Option<(i64, i64, i64, usize)>)
    ensures
        r is Some ==> pos < r->Some_0.3 <= s@.len(),
        (pos <= s@.len() && s@.subrange(pos as int, s@.len() as int) == times_json(c) + rest && rest.len() > 0
            && rest[0] == ',') ==> (r is Some && r->Some_0.0 == c.exp && r->Some_0.1 == c.nbf && r->Some_0.2
            == c.iat && r->Some_0.3 == pos + times_json(c).len()),
{
    let ghost hyp = pos <= s@.len() && s@.subrange(pos as int, s@.len() as int) == times_json(c) + rest
        && rest.len() > 0 && rest[0] == ',';
    let ghost r3 = dec_int(c.iat as int) + rest;
    let ghost r2 = ",\"iat\":"@ + r3;
    let ghost r1 = dec_int(c.nbf as int) + r2;
    let ghost q1 = ",\"nbf\":"@ + r1;
    let ghost q0 = dec_int(c.exp as int) + q1;
    proof {
        reveal_strlit(",\"exp\":");
        reveal_strlit(",\"nbf\":");
        reveal_strlit(",\"iat\":");
        assert(",\"nbf\":"@[0] == ',');
        assert(",\"iat\":"@[0] == ',');
        assert(q1[0] == ',' && !is_digit(q1[0]));
        assert(r2[0] == ',' && !is_digit(r2[0]));
        if hyp {
            assert(!is_digit(rest[0]));
            assert(times_json(c) + rest =~= ",\"exp\":"@ + q0);
            lemma_split_at(s@, pos as int, ",\"exp\":"@, q0);
        }
    }
    let at1 = match expect(s, pos, ",\"exp\":") {
        Some(p) => p,
        None => {
            return None;
        },
    };
    let (exp, at2) = match parse_int(s, at1, Ghost(c.exp), Ghost(q1)) {
        Some(x) => x,
        None => {
            return None;
        },
    };
    proof {
        if hyp {
            lemma_split_at(s@, at1 as int, dec_int(c.exp as int), q1);
            lemma_split_at(s@, at2 as int, ",\"nbf\":"@, r1);
        }
    }
    let at3 = match expect(s, at2, ",\"nbf\":") {
        Some(p) => p,
        None => {
            return None;
        },
    };
    let (nbf, at4) = match parse_int(s, at3, Ghost(c.nbf), Ghost(r2)) {
        Some(x) => x,
        None => {
            return None;
        },
    };
    proof {
        if hyp {
            lemma_split_at(s@, at3 as int, dec_int(c.nbf as int), r2);
            lemma_split_at(s@, at4 as int, ",\"iat\":"@, r3);
        }
    }
    let at5 = match expect(s, at4, ",\"iat\":") {
        Some(p) => p,
        None => {
            return None;
        },
    };
    let (iat, at6) = match parse_int(s, at5, Ghost(c.iat), Ghost(rest)) {
        Some(x) => x,
        None => {
            return None;
        },
    };
    proof {
        if hyp {
            lemma_split_at(s@, at5 as int, dec_int(c.iat as int), rest);
            assert(s@.subrange(pos as int, s@.len() as int).len() == times_json(c).len() + rest.len());
        }
    }
    Some((exp, nbf, iat, at6))
}

fn parse_issuer_part(s: &Vec<char>, pos: usize, Ghost(v): Ghost<Seq<JwtIssuer>>, Ghost(rest): Ghost<Seq<char>>) -> (r:
    Option<(Vec<JwtIssuer>, usize)>)
    ensures
        r is Some ==> pos <= r->Some_0.1 <= s@.len(),
        (pos <= s@.len() && s@.subrange(pos as int, s@.len() as int) == issuer_part(v) + rest && rest.len() >= 3
            && rest[2] != 'i') ==> (r is Some && r->Some_0.0@ == v && r->Some_0.1 == pos + issuer_part(v).len()),
{
    let ghost hyp = pos <= s@.len() && s@.subrange(pos as int, s@.len() as int) == issuer_part(v) + rest
        && rest.len() >= 3 && rest[2] != 'i';
    let ghost texts = issuer_texts(v);
    let ghost tail = "]"@ + rest;
    proof {
        reveal_strlit(",\"iss\":[");
        reveal_strlit("]");
        assert(",\"iss\":["@[2] == 'i');
        assert(tail[0] == ']');
        if hyp && v.len() > 0 {
            assert(issuer_part(v) + rest =~= ",\"iss\":["@ + (item_list(texts) + tail));
            lemma_split_at(s@, pos as int, ",\"iss\":["@, item_list(texts) + tail);
        }
    }
    if pos > s.len() {
        return None;
    }
    let at1 = match expect(s, pos, ",\"iss\":[") {
        Some(q) => q,
        None => {
            proof {
                if hyp && v.len() == 0 {
                    assert(v =~= Seq::<JwtIssuer>::empty());
                }
            }
            let none: Vec<JwtIssuer> = Vec::new();
            assert(hyp ==> none@ =~= v);
            return Some((none, pos));
        },
    };
    proof {
        if hyp && v.len() == 0 {
            assert(s@[pos + 2] == s@.subrange(pos as int, pos + 8)[2]);
            assert(s@[pos + 2] == s@.subrange(pos as int, s@.len() as int)[2]);
            assert(rest[2] == 'i');
        }
    }
    let (strs, at2) = match parse_list(s, at1, Ghost(texts), Ghost(tail)) {
        Some(x) => x,
        None => {
            return None;
        },
    };
    proof {
        if hyp {
            lemma_split_at(s@, at1 as int, item_list(texts), tail);
            lemma_split_at(s@, at2 as int, "]"@, rest);
        }
    }
    let items = match issuers_from(&strs, Ghost(v)) {
        Some(x) => x,
        None => {
            return None;
        },
    };
    let at3 = match expect(s, at2, "]") {
        Some(q) => q,
        None => {
            return None;
        },
    };
    proof {
        if hyp {
            assert(s@.subrange(pos as int, s@.len() as int).len() == issuer_part(v).len() + rest.len());
        }
    }
    Some((items, at3))
}

fn parse_audience_part(s: &Vec<char>, pos: usize, Ghost(v): Ghost<Seq<JwtAudience>>, Ghost(rest): Ghost<Seq<char>>) -> (r:
    Option<(Vec<JwtAudience>, usize)>)
    ensures
        r is Some ==> pos <= r->Some_0.1 <= s@.len(),
        (pos <= s@.len() && s@.subrange(pos as int, s@.len() as int) == audience_part(v) + rest && rest.len() >= 3
            && rest[2] != 'a') ==> (r is Some && r->Some_0.0@ == v && r->Some_0.1 == pos + audience_part(v).len()),
{
    let ghost hyp = pos <= s@.len() && s@.subrange(pos as int, s@.len() as int) == audience_part(v) + rest
        && rest.len() >= 3 && rest[2] != 'a';
    let ghost texts = audience_texts(v);
    let ghost tail = "]"@ + rest;
    proof {
        reveal_strlit(",\"aud\":[");
        reveal_strlit("]");
        assert(",\"aud\":["@[2] == 'a');
        assert(tail[0] == ']');
        if hyp && v.len() > 0 {
            assert(audience_part(v) + rest =~= ",\"aud\":["@ + (item_list(texts) + tail));
            lemma_split_at(s@, pos as int, ",\"aud\":["@, item_list(texts) + tail);
        }
    }
    if pos > s.len() {
        return None;
    }
    let at1 = match expect(s, pos, ",\"aud\":[") {
        Some(q) => q,
        None => {
            proof {
                if hyp && v.len() == 0 {
                    assert(v =~= Seq::<JwtAudience>::empty());
                }
            }
            let none: Vec<JwtAudience> = Vec::new();
            assert(hyp ==> none@ =~= v);
            return Some((none, pos));
        },
    };
    proof {
        if hyp && v.len() == 0 {
            assert(s@[pos + 2] == s@.subrange(pos as int, pos + 8)[2]);
            assert(s@[pos + 2] == s@.subrange(pos as int, s@.len() as int)[2]);
            assert(rest[2] == 'a');
        }
    }
    let (strs, at2) = match parse_list(s, at1, Ghost(texts), Ghost(tail)) {
        Some(x) => x,
        None => {
            return None;
        },
    };
    proof {
        if hyp {
            lemma_split_at(s@, at1 as int, item_list(texts), tail);
            lemma_split_at(s@, at2 as int, "]"@, rest);
        }
    }
    let items = match audiences_from(&strs, Ghost(v)) {
        Some(x) => x,
        None => {
            return None;
        },
    };
    let at3 = match expect(s, at2, "]") {
        Some(q) => q,
        None => {
            return None;
        },
    };
    proof {
        if hyp {
            assert(s@.subrange(pos as int, s@.len() as int).len() == audience_part(v).len() + rest.len());
        }
    }
    Some((items, at3))
}

fn parse_scope(s: &Vec<char>, pos: usize, Ghost(c): Ghost<ClaimsView>, Ghost(rest): Ghost<Seq<char>>) -> (r:
    Option<(Vec<JwtIssuer>, Vec<JwtAudience>, usize)>)
    ensures
        r is Some ==> pos <= r->Some_0.2 <= s@.len(),
        (pos <= s@.len() && s@.subrange(pos as int, s@.len() as int) == scope_json(c) + rest && rest.len() >= 3
            && rest[2] == 'u') ==> (r is Some && r->Some_0.0@ == c.iss && r->Some_0.1@ == c.aud && r->Some_0.2
            == pos + scope_json(c).len()),
{
    let ghost hyp = pos <= s@.len() && s@.subrange(pos as int, s@.len() as int) == scope_json(c) + rest
        && rest.len() >= 3 && rest[2] == 'u';
    let ghost after = audience_part(c.aud) + rest;
    proof {
        reveal_strlit(",\"aud\":[");
        if hyp {
            assert(scope_json(c) + rest =~= issuer_part(c.iss) + after);
            if c.aud.len() > 0 {
                assert(after[2] == ",\"aud\":["@[2]);
            } else {
                assert(after =~= rest);
            }
        }
    }
    let (iss, at1) = match parse_issuer_part(s, pos, Ghost(c.iss), Ghost(after)) {
        Some(x) => x,
        None => {
            return None;
        },
    };
    proof {
        if hyp {
            lemma_split_at(s@, pos as int, issuer_part(c.iss), after);
        }
    }
    let (aud, at2) = match parse_audience_part(s, at1, Ghost(c.aud), Ghost(rest)) {
        Some(x) => x,
        None => {
            return None;
        },
    };
    proof {
        if hyp {
            assert(s@.subrange(pos as int, s@.len() as int).len() == scope_json(c).len() + rest.len());
        }
    }
    Some((iss, aud, at2))
}

fn parse_user(s: &Vec<char>, pos: usize, Ghost(u): Ghost<UserView>, Ghost(rest): Ghost<Seq<char>>) -> (r:
    Option<(JwtUser, usize)>)
    ensures
        r is Some ==> pos < r->Some_0.1 <= s@.len(),
        (pos <= s@.len() && s@.subrange(pos as int, s@.len() as int) == user_json(u) + rest) ==> (r is Some
            && r->Some_0.0@ == u && r->Some_0.1 == pos + user_json(u).len()),
{
    let ghost hyp = pos <= s@.len() && s@.subrange(pos as int, s@.len() as int) == user_json(u) + rest;
    let ghost r7 = "}"@ + rest;
    let ghost r6 = quoted(role_text(u.role)) + r7;
    let ghost r5 = ",\"role\":"@ + r6;
    let ghost r4 = quoted(u.email) + r5;
    let ghost r3 = ",\"email\":"@ + r4;
    let ghost r2 = quoted(u.username) + r3;
    let ghost r1 = ",\"username\":"@ + r2;
    let ghost r0 = quoted(u.id) + r1;
    proof {
        reveal_strlit(",\"user\":{\"id\":");
        reveal_strlit(",\"username\":");
        reveal_strlit(",\"email\":");
        reveal_strlit(",\"role\":");
        reveal_strlit("}");
        if hyp {
            assert(user_json(u) + rest =~= ",\"user\":{\"id\":"@ + r0);
            lemma_split_at(s@, pos as int, ",\"user\":{\"id\":"@, r0);
        }
    }
    let at1 = match expect(s, pos, ",\"user\":{\"id\":") {
        Some(p) => p,
        None => {
            return None;
        },
    };
    let (id, at2) = match parse_string(s, at1, Ghost(u.id), Ghost(r1)) {
        Some(x) => x,
        None => {
            return None;
        },
    };
    proof {
        if hyp {
            lemma_split_at(s@, at1 as int, quoted(u.id), r1);
            lemma_split_at(s@, at2 as int, ",\"username\":"@, r2);
        }
    }
    let at3 = match expect(s, at2, ",\"username\":") {
        Some(p) => p,
        None => {
            return None;
        },
    };
    let (username, at4) = match parse_string(s, at3, Ghost(u.username), Ghost(r3)) {
        Some(x) => x,
        None => {
            return None;
        },
    };
    proof {
        if hyp {
            lemma_split_at(s@, at3 as int, quoted(u.username), r3);
            lemma_split_at(s@, at4 as int, ",\"email\":"@, r4);
        }
    }
    let at5 = match expect(s, at4, ",\"email\":") {
        Some(p) => p,
        None => {
            return None;
        },
    };
    let (email, at6) = match parse_string(s, at5, Ghost(u.email), Ghost(r5)) {
        Some(x) => x,
        None => {
            return None;
        },
    };
    proof {
        if hyp {
            lemma_split_at(s@, at5 as int, quoted(u.email), r5);
            lemma_split_at(s@, at6 as int, ",\"role\":"@, r6);
        }
    }
    let at7 = match expect(s, at6, ",\"role\":") {
        Some(p) => p,
        None => {
            return None;
        },
    };
    let (role_name, at8) = match parse_string(s, at7, Ghost(role_text(u.role)), Ghost(r7)) {
        Some(x) => x,
        None => {
            return None;
        },
    };
    proof {
        if hyp {
            lemma_split_at(s@, at7 as int, quoted(role_text(u.role)), r7);
            lemma_split_at(s@, at8 as int, "}"@, rest);
        }
    }
    let role = match role_from(&role_name) {
        Some(x) => x,
        None => {
            return None;
        },
    };
    let at9 = match expect(s, at8, "}") {
        Some(p) => p,
        None => {
            return None;
        },
    };
    proof {
        if hyp {
            assert(s@.subrange(pos as int, s@.len() as int).len() == user_json(u).len() + rest.len());
        }
    }
    Some((JwtUser { id, username, email, role }, at9))
}

fn parse_claims(s: &Vec<char>, Ghost(c): Ghost<ClaimsView>) -> (r: Option<TokenClaims>)
    ensures
        s@ == claims_json(c) ==> r is Some && r->Some_0@ == c,
{
    let ghost hyp = s@ == claims_json(c);
    let ghost r3 = user_json(c.user) + "}"@;
    let ghost r2 = scope_json(c) + r3;
    let ghost r1 = times_json(c) + r2;
    let ghost r0 = quoted(c.sub) + r1;
    proof {
        reveal_strlit(",\"iss\":[");
        reveal_strlit("{\"sub\":");
        reveal_strlit("}");
        assert(",\"iss\":["@[0] == ',');
        if hyp {
            assert(s@.subrange(0, s@.len() as int) =~= s@);
            lemma_split_at(s@, 0, "{\"sub\":"@, r0);
        }
    }
    let at1 = match expect(s, 0, "{\"sub\":") {
        Some(p) => p,
        None => {
            return None;
        },
    };
    let (sub, at2) = match parse_string(s, at1, Ghost(c.sub), Ghost(r1)) {
        Some(x) => x,
        None => {
            return None;
        },
    };
    proof {
        if hyp {
            lemma_split_at(s@, at1 as int, quoted(c.sub), r1);
            lemma_after_times(c, "}"@);
        }
    }
    let (exp, nbf, iat, at3) = match parse_times(s, at2, Ghost(c), Ghost(r2)) {
        Some(x) => x,
        None => {
            return None;
        },
    };
    proof {
        if hyp {
            lemma_split_at(s@, at2 as int, times_json(c), r2);
        }
    }
    let (iss, aud, at4) = match parse_scope(s, at3, Ghost(c), Ghost(r3)) {
        Some(x) => x,
        None => {
            return None;
        },
    };
    proof {
        if hyp {
            lemma_split_at(s@, at3 as int, scope_json(c), r3);
        }
    }
    let (user, at5) = match parse_user(s, at4, Ghost(c.user), Ghost("}"@)) {
        Some(x) => x,
        None => {
            return None;
        },
    };
    proof {
        if hyp {
            lemma_split_at(s@, at4 as int, user_json(c.user), "}"@);
            assert(s@.subrange(at5 as int, s@.len() as int) =~= "}"@ + Seq::<char>::empty());
        }
    }
    let at6 = match expect(s, at5, "}") {
        Some(p) => p,
        None => {
            return None;
        },
    };
    if at6 != s.len() {
        return None;
    }
    Some(TokenClaims { sub, exp, nbf, iat, iss, aud, user })
}

/// The claims whose JSON text is `text`, if there are any.
pub fn decode_claims(text: &str) -> (r: Option<TokenClaims>)
    ensures
        r is Some ==> claims_json(r->Some_0@) == text@,
        forall|c: ClaimsView| claims_json(c) == text@ ==> r is Some && r->Some_0@ == c,
{
    let ghost c0 = choose|c: ClaimsView| claims_json(c) == text@;
    let v = chars_of(text);
    match parse_claims(&v, Ghost(c0)) {
        Some(c) => {
            let back = claims_to_json(&c);
            if same_chars(&chars_of(back.as_str()), &v) {
                proof {
                    assert forall|c1: ClaimsView| claims_json(c1) == text@ implies c@ == c1 by {
                        lemma_claims_json_injective(c@, c1);
                    }
                }
                Some(c)
            } else {
                None
            }
        },
        None => None,
    }
}

} // verus!
