//! Byte decoder: resolves an encoding label, decodes the raw export bytes to
//! text, and repairs the text by dropping carriage returns and line feeds
//! that sit inside a quoted field (legacy exports carry accidental embedded
//! line breaks there).

use vstd::prelude::*;

verus! {

/// Whether `encoding_rs` resolves this label to an encoding.
pub uninterp spec fn encoding_known(label: Seq<char>) -> bool;

/// The text that `encoding_rs` produces when decoding these bytes under the
/// encoding this label resolves to (lossy: malformed sequences come out as
/// replacement characters). The result depends on the label and the bytes
/// alone.
pub uninterp spec fn decoded_of(label: Seq<char>, bytes: Seq<u8>) -> Seq<char>;

/// Relies on `encoding_rs::Encoding::for_label` to resolve the label (it is
/// deterministic in the label bytes) and on `encoding_rs::Encoding::decode`
/// to decode the bytes, replacing malformed sequences rather than failing.
/// `decode` panics only if the size calculation for its backing buffer
/// overflows `usize`, which the length bound rules out.
#[verifier::external_body]
fn decode_with_label(label: &str, bytes: &Vec<u8>) -> (r: Option<Vec<char>>)
    requires
        bytes@.len() <= usize::MAX / 4,
    ensures
        r is Some <==> encoding_known(label@),
        r is Some ==> r->Some_0@ == decoded_of(label@, bytes@),
{
    match encoding_rs::Encoding::for_label(label.as_bytes()) {
        Some(enc) => {
            let (text, _actual, _had_errors) = enc.decode(bytes.as_slice());
            Some(text.chars().collect())
        }
        None => None,
    }
}

/// The decoder failed before producing any text.
#[derive(Clone, Copy, PartialEq, Eq, Structural, Debug)]
pub enum DecodeError {
    /// The configured encoding label does not resolve to an encoding.
    UnknownEncoding,
}

/// The number of double-quote characters in `s`.
pub open spec fn count_quotes(s: Seq<char>) -> int
    decreases s.len(),
{
    if s.len() == 0 {
        0
    } else if s.last() == '"' {
        count_quotes(s.drop_last()) + 1
    } else {
        count_quotes(s.drop_last())
    }
}

/// After reading `s`, the scanner stands inside a quoted region: an odd
/// number of quote characters has passed. Each quote flips the state,
/// independent of any escaping.
pub open spec fn quote_open(s: Seq<char>) -> bool {
    count_quotes(s) % 2 == 1
}

/// Whether the normalizer keeps character `c` when the quote state before it
/// is `in_q`: quotes always pass through; carriage returns and line feeds
/// are dropped inside a quoted region; everything else passes through.
pub open spec fn norm_keep(c: char, in_q: bool) -> bool {
    if c == '"' {
        true
    } else {
        !(in_q && (c == '\r' || c == '\n'))
    }
}

/// The normalized form of `s`: `s` with every carriage return and line feed
/// that lies inside a quoted region removed.
pub open spec fn normalize(s: Seq<char>) -> Seq<char>
    decreases s.len(),
{
    if s.len() == 0 {
        Seq::empty()
    } else if norm_keep(s.last(), quote_open(s.drop_last())) {
        normalize(s.drop_last()).push(s.last())
    } else {
        normalize(s.drop_last())
    }
}

/// A carriage return or line feed standing inside a quoted region
/// contributes nothing to the normalized text.
pub proof fn lemma_embedded_break_dropped(s: Seq<char>, i: int)
    requires
        0 <= i < s.len(),
        s[i] == '\r' || s[i] == '\n',
        quote_open(s.take(i)),
    ensures
        normalize(s.take(i + 1)) == normalize(s.take(i)),
{
    assert(s.take(i + 1).drop_last() =~= s.take(i));
    assert(s.take(i + 1).last() == s[i]);
}

/// A carriage return or line feed standing outside any quoted region is
/// preserved by the normalizer.
pub proof fn lemma_outside_break_kept(s: Seq<char>, i: int)
    requires
        0 <= i < s.len(),
        s[i] == '\r' || s[i] == '\n',
        !quote_open(s.take(i)),
    ensures
        normalize(s.take(i + 1)) == normalize(s.take(i)).push(s[i]),
{
    assert(s.take(i + 1).drop_last() =~= s.take(i));
    assert(s.take(i + 1).last() == s[i]);
}

/// Any character other than a carriage return or line feed passes through
/// the normalizer unchanged, wherever it stands — the quote character
/// included.
pub proof fn lemma_other_chars_kept(s: Seq<char>, i: int)
    requires
        0 <= i < s.len(),
        s[i] != '\r',
        s[i] != '\n',
    ensures
        normalize(s.take(i + 1)) == normalize(s.take(i)).push(s[i]),
{
    assert(s.take(i + 1).drop_last() =~= s.take(i));
    assert(s.take(i + 1).last() == s[i]);
}

/// Scans `v` character by character, toggling an "inside quoted field" state
/// on each quote, and drops carriage returns and line feeds while inside.
pub fn normalize_text(v: &Vec<char>) -> (r: Vec<char>)
    ensures
        r@ == normalize(v@),
{
    let mut r: Vec<char> = Vec::new();
    let mut in_quotes = false;
    let mut i: usize = 0;
    while i < v.len()
        invariant
            i <= v@.len(),
            r@ == normalize(v@.take(i as int)),
            in_quotes == quote_open(v@.take(i as int)),
        decreases v@.len() - i,
    {
        proof {
            assert(v@.take(i + 1).drop_last() =~= v@.take(i as int));
            assert(v@.take(i + 1).last() == v@[i as int]);
        }
        let c = v[i];
        if c == '"' {
            in_quotes = !in_quotes;
            r.push(c);
        } else if (c == '\r' || c == '\n') && in_quotes {
            // dropped: an embedded line break inside a quoted field
        } else {
            r.push(c);
        }
        i = i + 1;
    }
    assert(v@.take(v@.len() as int) =~= v@);
    r
}

/// What `decode` yields on success: the decoded text, normalized.
pub open spec fn clean_text_of(label: Seq<char>, bytes: Seq<u8>) -> Seq<char> {
    normalize(decoded_of(label, bytes))
}

/// Resolves `encoding_label`, decodes `raw` under it (lossy), and normalizes
/// the text. Fails exactly when the label resolves to no encoding; the input
/// bytes themselves never make it fail.
pub fn decode(raw: &Vec<u8>, encoding_label: &str) -> (r: Result<Vec<char>, DecodeError>)
    requires
        raw@.len() <= usize::MAX / 4,
    ensures
        r is Ok <==> encoding_known(encoding_label@),
        r matches Ok(text) ==> text@ == clean_text_of(encoding_label@, raw@),
        r matches Err(e) ==> e == DecodeError::UnknownEncoding,
{
    match decode_with_label(encoding_label, raw) {
        Some(decoded) => Ok(normalize_text(&decoded)),
        None => Err(DecodeError::UnknownEncoding),
    }
}

} // verus!
