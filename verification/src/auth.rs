//! Authentication-side parsing: the auth-token grammar
//! `user-[user-id].[expiration].[signature]`, the claims carried by a
//! bearer token, and the PEM framing of a fetched certificate.

use vstd::prelude::*;
use crate::error::Error;
use crate::text::{
    all_digits, dec_rep, digits_val, find_char, is_digit, chars_to_string,
    lemma_digits_val_bound, lemma_find_char_is, lemma_find_char_none, parse_u64, str_to_chars,
    subvec, u64_to_string,
};

verus! {

/// The claims a bearer token carries.
#[derive(Debug)]
pub struct Claims {
    pub sub: String,
    pub exp: usize,
    pub aud: String,
}

/// The token starts with the literal `user-`.
pub open spec fn token_prefix_ok(t: Seq<char>) -> bool {
    t.len() >= 5 && t[0] == 'u' && t[1] == 's' && t[2] == 'e' && t[3] == 'r' && t[4] == '-'
}

/// The first position at or after `i` holding no digit (or the end).
pub open spec fn digit_run_end(t: Seq<char>, i: int) -> int
    decreases t.len() - i,
{
    if 0 <= i < t.len() && is_digit(t[i]) {
        digit_run_end(t, i + 1)
    } else {
        i
    }
}

/// The largest index below `hi` holding a dot, or -1 if there is none.
pub open spec fn last_dot_before(s: Seq<char>, hi: int) -> int
    decreases hi,
{
    if hi <= 0 {
        -1
    } else if s[hi - 1] == '.' {
        hi - 1
    } else {
        last_dot_before(s, hi - 1)
    }
}

/// The span of `s` before its first line feed (all of `s` when it has
/// none). The token grammar is line-bound: nothing past a line feed can
/// belong to the expiration or signature, and anything past it is ignored.
pub open spec fn line_span(s: Seq<char>) -> Seq<char> {
    let n = find_char(s, '\n');
    if n >= 0 {
        s.take(n)
    } else {
        s
    }
}

/// The three raw fields of a well-formed token `user-D.E.S`: `D` a
/// non-empty digit run ending right before a dot; then, within the
/// newline-free span that follows that dot, `S` the non-empty part after
/// the last dot that still leaves `E` non-empty, and `E` what lies
/// between. Anything from the first line feed on is discarded. `None`
/// when the token fits no such shape.
pub open spec fn token_fields(t: Seq<char>) -> Option<(Seq<char>, Seq<char>, Seq<char>)> {
    if !token_prefix_ok(t) {
        None
    } else {
        let d_end = digit_run_end(t, 5);
        if d_end == 5 || d_end >= t.len() || t[d_end] != '.' {
            None
        } else {
            let span = line_span(t.skip(d_end + 1));
            let j = last_dot_before(span, span.len() - 1);
            if j < 1 {
                None
            } else {
                Some((t.subrange(5, d_end), span.take(j), span.skip(j + 1)))
            }
        }
    }
}

/// Parses a token of format `user-[user-id].[expiration].[signature]` into
/// `(user_id, expiration, signature)`, the user id re-rendered in decimal
/// (leading zeroes dropped). Fails with a wrong-format error on any token
/// of another shape and on a user id too large for a `u64`.
pub fn parse_token(token: String) -> (r: Result<(String, String, String), Error>)
    ensures
        r is Ok <==> (token_fields(token@) matches Some(f) && digits_val(f.0) <= u64::MAX),
        r matches Ok(parts) ==> (token_fields(token@) matches Some(f) && parts.0@ == dec_rep(
            digits_val(f.0),
        ) && parts.1@ == f.1 && parts.2@ == f.2),
        r matches Err(e) ==> e == Error::AuthFailTokenWrongFormat,
{
    let t = str_to_chars(token.as_str());
    if !(t.len() >= 5 && t[0] == 'u' && t[1] == 's' && t[2] == 'e' && t[3] == 'r' && t[4] == '-') {
        return Err(Error::AuthFailTokenWrongFormat);
    }
    let mut i: usize = 5;
    while i < t.len() && '0' <= t[i] && t[i] <= '9'
        invariant
            5 <= i <= t@.len(),
            digit_run_end(t@, 5) == digit_run_end(t@, i as int),
            forall|k: int| 5 <= k < i ==> is_digit(#[trigger] t@[k]),
        decreases t@.len() - i,
    {
        i = i + 1;
    }
    let d_end = i;
    assert(digit_run_end(t@, 5) == d_end);
    if d_end == 5 || d_end >= t.len() {
        return Err(Error::AuthFailTokenWrongFormat);
    }
    if t[d_end] != '.' {
        return Err(Error::AuthFailTokenWrongFormat);
    }
    let rest = subvec(&t, d_end + 1, t.len());
    proof {
        assert(rest@ =~= t@.skip(d_end + 1));
    }
    let mut s_end: usize = 0;
    while s_end < rest.len() && rest[s_end] != '\n'
        invariant
            s_end <= rest@.len(),
            forall|k: int| 0 <= k < s_end ==> rest@[k] != '\n',
        decreases rest@.len() - s_end,
    {
        s_end = s_end + 1;
    }
    let ghost span = line_span(rest@);
    proof {
        if s_end < rest@.len() {
            lemma_find_char_is(rest@, '\n', s_end as int);
        } else {
            lemma_find_char_none(rest@, '\n');
            assert(rest@.take(s_end as int) =~= rest@);
        }
        assert(span == rest@.take(s_end as int));
    }
    if s_end == 0 {
        assert(last_dot_before(span, span.len() - 1) == -1);
        return Err(Error::AuthFailTokenWrongFormat);
    }
    let mut h: usize = s_end - 1;
    while h > 0 && rest[h - 1] != '.'
        invariant
            h <= s_end - 1,
            s_end <= rest@.len(),
            span == rest@.take(s_end as int),
            last_dot_before(span, span.len() - 1) == last_dot_before(span, h as int),
        decreases h,
    {
        proof {
            assert(span[h - 1] == rest@[h - 1]);
        }
        h = h - 1;
    }
    if h == 0 {
        assert(last_dot_before(span, span.len() - 1) == -1);
        return Err(Error::AuthFailTokenWrongFormat);
    }
    let j = h - 1;
    proof {
        assert(span[j as int] == rest@[j as int]);
        assert(last_dot_before(span, span.len() - 1) == j);
    }
    if j < 1 {
        return Err(Error::AuthFailTokenWrongFormat);
    }
    let digits = subvec(&t, 5, d_end);
    proof {
        assert(digits@ == t@.subrange(5, d_end as int));
        assert(all_digits(digits@));
    }
    let id = match parse_u64(&digits) {
        Some(n) => n,
        None => {
            return Err(Error::AuthFailTokenWrongFormat);
        }
    };
    proof {
        lemma_digits_val_bound(digits@);
        assert(id == digits_val(digits@));
    }
    let exp = subvec(&rest, 0, j);
    let sign = subvec(&rest, j + 1, s_end);
    proof {
        assert(exp@ =~= span.take(j as int));
        assert(sign@ =~= span.skip(j + 1));
    }
    Ok((u64_to_string(id), chars_to_string(&exp), chars_to_string(&sign)))
}

/// What follows the first space of an authorization header: the bearer
/// token after its scheme word. Nothing when the header has no space.
pub open spec fn spec_bearer_token(h: Seq<char>) -> Option<Seq<char>> {
    let j = find_char(h, ' ');
    if j >= 0 {
        Some(h.skip(j + 1))
    } else {
        None
    }
}

/// Splits an authorization header at its first space and hands back what
/// follows (the token of a `Bearer <token>` header).
pub fn bearer_token(header: &str) -> (r: Option<String>)
    ensures
        r is Some <==> spec_bearer_token(header@) is Some,
        r matches Some(t) ==> Some(t@) == spec_bearer_token(header@),
{
    let chars = str_to_chars(header);
    let mut i: usize = 0;
    while i < chars.len()
        invariant
            i <= chars@.len(),
            chars@ == header@,
            forall|k: int| 0 <= k < i ==> chars@[k] != ' ',
        decreases chars@.len() - i,
    {
        if chars[i] == ' ' {
            proof {
                lemma_find_char_is(chars@, ' ', i as int);
            }
            let rest = subvec(&chars, i + 1, chars.len());
            proof {
                assert(rest@ =~= chars@.skip(i + 1));
            }
            return Some(chars_to_string(&rest));
        }
        i = i + 1;
    }
    proof {
        lemma_find_char_none(chars@, ' ');
    }
    None
}

/// One public key of a key set, as fetched from a JWKS endpoint.
#[derive(Debug)]
pub struct Jwk {
    pub kty: String,
    pub use_field: String,
    pub kid: String,
    pub x5t: String,
    pub n: String,
    pub e: String,
    pub x5c: Vec<String>,
}

/// Some key in the slice of keys `ks[from..]` carries this key id.
pub open spec fn contains_kid(ks: Seq<Jwk>, from: int, kid: Seq<char>) -> bool {
    exists|i: int| from <= i < ks.len() && ks[i].kid@ == kid
}

/// Picks the first key of the set whose key id matches, as token
/// validation selects its public key; nothing when no key id matches.
pub fn find_jwk_by_kid<'a>(keys: &'a Vec<Jwk>, kid: &str) -> (r: Option<&'a Jwk>)
    ensures
        r is Some <==> contains_kid(keys@, 0, kid@),
        r matches Some(k) ==> k.kid@ == kid@ && keys@.contains(*k),
{
    let wanted = String::from_str(kid);
    let mut i: usize = 0;
    while i < keys.len()
        invariant
            wanted@ == kid@,
            i <= keys@.len(),
            forall|k: int| 0 <= k < i ==> keys@[k].kid@ != kid@,
        decreases keys@.len() - i,
    {
        if keys[i].kid.eq(&wanted) {
            return Some(&keys[i]);
        }
        i = i + 1;
    }
    None
}

/// Frames a base64 certificate body in the PEM armor that an RSA key
/// parser expects.
pub fn wrap_certificate(cert: &str) -> (r: String)
    ensures
        r@ == "-----BEGIN CERTIFICATE-----\n"@ + cert@ + "\n-----END CERTIFICATE-----\n"@,
{
    let mut key = String::new();
    key.append("-----BEGIN CERTIFICATE-----\n");
    key.append(cert);
    key.append("\n-----END CERTIFICATE-----\n");
    proof {
        assert(key@ =~= "-----BEGIN CERTIFICATE-----\n"@ + cert@
            + "\n-----END CERTIFICATE-----\n"@);
    }
    key
}

} // verus!
