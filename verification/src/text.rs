//! Character-level text utilities: conversions between `String` and
//! `Vec<char>`, splitting on separators, and decimal digit handling. The
//! record format is parsed character by character, so everything here works
//! over `Vec<char>` with `Seq<char>` as its model.

use vstd::prelude::*;

verus! {

/// The view of a sequence of character vectors: each piece as its `Seq<char>`.
pub open spec fn lines_view(v: Seq<Vec<char>>) -> Seq<Seq<char>> {
    v.map_values(|x: Vec<char>| x@)
}

/// Relies on `String::push`: appends the given character to the end of the
/// string (vstd does not specify it).
#[verifier::external_body]
fn push_char(s: &mut String, c: char)
    ensures
        final(s)@ == old(s)@.push(c),
{
    s.push(c);
}

/// Builds the string holding exactly the given characters.
pub fn chars_to_string(v: &Vec<char>) -> (r: String)
    ensures
        r@ == v@,
{
    let mut r = String::new();
    let mut i: usize = 0;
    while i < v.len()
        invariant
            i <= v.len(),
            r@ == v@.take(i as int),
        decreases v.len() - i,
    {
        push_char(&mut r, v[i]);
        assert(v@.take(i + 1) =~= v@.take(i as int).push(v@[i as int]));
        i = i + 1;
    }
    assert(v@.take(v.len() as int) =~= v@);
    r
}

/// Collects the characters of a string into a vector.
pub fn str_to_chars(s: &str) -> (r: Vec<char>)
    ensures
        r@ == s@,
{
    let n = s.unicode_len();
    let mut r: Vec<char> = Vec::new();
    let mut i: usize = 0;
    while i < n
        invariant
            n == s@.len(),
            i <= n,
            r@ == s@.take(i as int),
        decreases n - i,
    {
        r.push(s.get_char(i));
        assert(s@.take(i + 1) =~= s@.take(i as int).push(s@[i as int]));
        i = i + 1;
    }
    assert(s@.take(n as int) =~= s@);
    r
}

pub open spec fn is_digit(c: char) -> bool {
    '0' <= c && c <= '9'
}

/// The numeric value of a decimal digit character.
pub open spec fn spec_digit(c: char) -> int {
    c as int - '0' as int
}

pub open spec fn all_digits(s: Seq<char>) -> bool {
    forall|i: int| 0 <= i < s.len() ==> is_digit(#[trigger] s[i])
}

/// The number a string of decimal digits denotes, most significant first.
pub open spec fn digits_val(s: Seq<char>) -> int
    decreases s.len(),
{
    if s.len() == 0 {
        0
    } else {
        digits_val(s.drop_last()) * 10 + spec_digit(s.last())
    }
}

pub open spec fn pow10(n: nat) -> int
    decreases n,
{
    if n == 0 {
        1
    } else {
        10 * pow10((n - 1) as nat)
    }
}

pub proof fn lemma_digits_val_bound(s: Seq<char>)
    requires
        all_digits(s),
    ensures
        0 <= digits_val(s) < pow10(s.len()),
    decreases s.len(),
{
    if s.len() > 0 {
        lemma_digits_val_bound(s.drop_last());
    }
}

/// Extending a digit string on the right never decreases its value.
pub proof fn lemma_digits_val_prefix_le(s: Seq<char>, i: int)
    requires
        all_digits(s),
        0 <= i <= s.len(),
    ensures
        digits_val(s.take(i)) <= digits_val(s),
    decreases s.len() - i,
{
    if i < s.len() {
        lemma_digits_val_prefix_le(s, i + 1);
        assert(s.take(i + 1).drop_last() =~= s.take(i));
        lemma_digits_val_bound(s.take(i));
    } else {
        assert(s.take(i) =~= s);
    }
}

fn digit_value(c: char) -> (r: u32)
    requires
        is_digit(c),
    ensures
        r == spec_digit(c),
        r <= 9,
{
    (c as u32) - 48
}

/// Reads a short digit string as a number. Short enough (at most four
/// digits) that the value always fits.
pub fn digits_to_u32(v: &Vec<char>, lo: usize, hi: usize) -> (r: u32)
    requires
        lo <= hi <= v@.len(),
        hi - lo <= 4,
        all_digits(v@.subrange(lo as int, hi as int)),
    ensures
        r == digits_val(v@.subrange(lo as int, hi as int)),
        r <= 9999,
{
    let ghost whole = v@.subrange(lo as int, hi as int);
    let mut acc: u32 = 0;
    let mut i: usize = lo;
    while i < hi
        invariant
            lo <= i <= hi <= v@.len(),
            hi - lo <= 4,
            whole == v@.subrange(lo as int, hi as int),
            all_digits(whole),
            acc == digits_val(whole.take(i - lo)),
            acc < pow10((i - lo) as nat),
        decreases hi - i,
    {
        proof {
            assert(whole.take(i - lo + 1).drop_last() =~= whole.take(i - lo));
            assert(whole[i - lo] == v@[i as int]);
            lemma_pow10_small();
            assert(pow10((i - lo) as nat) <= 1000);
            assert(pow10((i - lo + 1) as nat) == 10 * pow10((i - lo) as nat));
        }
        let d = digit_value(v[i]);
        assert(acc * 10 + d < pow10((i - lo + 1) as nat));
        acc = acc * 10 + d;
        i = i + 1;
    }
    assert(whole.take(hi - lo) =~= whole);
    proof {
        lemma_digits_val_bound(whole);
        lemma_pow10_small();
        assert(pow10(whole.len()) <= 10000);
    }
    acc
}

/// The first few powers of ten, spelled out for the solver.
proof fn lemma_pow10_small()
    ensures
        pow10(0) == 1,
        pow10(1) == 10,
        pow10(2) == 100,
        pow10(3) == 1000,
        pow10(4) == 10000,
{
    assert(pow10(0) == 1);
    assert(pow10(1) == 10);
    assert(pow10(2) == 100);
    assert(pow10(3) == 1000);
    assert(pow10(4) == 10000);
}

/// The number a digit string denotes, if it is a well-formed `u64`:
/// non-empty, all digits, and within range. Deliberately strict: no sign
/// and no surrounding whitespace.
pub open spec fn u64_of_digits(s: Seq<char>) -> Option<u64> {
    if s.len() >= 1 && all_digits(s) && digits_val(s) <= u64::MAX {
        Some(digits_val(s) as u64)
    } else {
        None
    }
}

/// Reads a digit string as a `u64`, rejecting anything non-numeric and any
/// value too large for the type.
pub fn parse_u64(v: &Vec<char>) -> (r: Option<u64>)
    ensures
        r == u64_of_digits(v@),
{
    if v.len() == 0 {
        return None;
    }
    let mut acc: u64 = 0;
    let mut i: usize = 0;
    while i < v.len()
        invariant
            i <= v@.len(),
            v@.len() >= 1,
            all_digits(v@.take(i as int)),
            acc == digits_val(v@.take(i as int)),
        decreases v@.len() - i,
    {
        let c = v[i];
        if !('0' <= c && c <= '9') {
            assert(!is_digit(v@[i as int]));
            assert(!all_digits(v@));
            return None;
        }
        let d = digit_value(c);
        proof {
            assert(v@.take(i + 1).drop_last() =~= v@.take(i as int));
            assert(v@.take(i + 1).last() == v@[i as int]);
        }
        let step = match acc.checked_mul(10) {
            Some(m) => m.checked_add(d as u64),
            None => None,
        };
        match step {
            Some(next) => {
                acc = next;
            }
            None => {
                // The digits seen so far already exceed u64::MAX, and more
                // digits only increase the value.
                assert(digits_val(v@.take(i + 1)) > u64::MAX);
                if all_digits_exec(v, i + 1) {
                    proof {
                        lemma_digits_val_prefix_le(v@, i + 1);
                    }
                    assert(digits_val(v@) > u64::MAX);
                    return None;
                } else {
                    assert(!all_digits(v@));
                    return None;
                }
            }
        }
        i = i + 1;
    }
    assert(v@.take(v@.len() as int) =~= v@);
    Some(acc)
}

/// Checks that every character from `from` on is a decimal digit.
pub fn all_digits_exec(v: &Vec<char>, from: usize) -> (r: bool)
    requires
        from <= v@.len(),
        all_digits(v@.take(from as int)),
    ensures
        r == all_digits(v@),
{
    let mut i: usize = from;
    while i < v.len()
        invariant
            from <= i <= v@.len(),
            all_digits(v@.take(i as int)),
        decreases v@.len() - i,
    {
        let c = v[i];
        if !('0' <= c && c <= '9') {
            assert(!is_digit(v@[i as int]));
            return false;
        }
        assert(forall|k: int|
            0 <= k < i + 1 ==> is_digit(#[trigger] v@.take(i + 1)[k]) == is_digit(
                if k < i {
                    v@.take(i as int)[k]
                } else {
                    v@[i as int]
                },
            ));
        i = i + 1;
    }
    assert(v@.take(v@.len() as int) =~= v@);
    true
}

/// The decimal digit character for a value below ten.
pub open spec fn digit_char(d: int) -> char {
    ((48 + d) as u8) as char
}

/// The decimal rendering of a non-negative number, most significant digit
/// first and without leading zeroes.
pub open spec fn dec_rep(n: int) -> Seq<char>
    recommends
        n >= 0,
    decreases n,
{
    if n < 10 {
        seq![digit_char(n)]
    } else {
        dec_rep(n / 10).push(digit_char(n % 10))
    }
}

/// Renders a number in decimal, as `u64::to_string` does.
pub fn u64_to_string(n: u64) -> (r: String)
    ensures
        r@ == dec_rep(n as int),
{
    let mut digits: Vec<char> = Vec::new();
    let mut m: u64 = n;
    while m >= 10
        invariant
            dec_rep(n as int) == dec_rep(m as int) + digits@.reverse(),
        decreases m,
    {
        let d = (48 + (m % 10) as u8) as char;
        proof {
            assert(dec_rep(m as int) == dec_rep(m as int / 10).push(digit_char(m as int % 10)));
            assert(digits@.push(d).reverse() =~= seq![d] + digits@.reverse());
            assert(dec_rep(m as int / 10) + digits@.push(d).reverse() =~= dec_rep(m as int)
                + digits@.reverse());
        }
        digits.push(d);
        m = m / 10;
    }
    let d = (48 + m as u8) as char;
    proof {
        assert(dec_rep(m as int) == seq![digit_char(m as int)]);
        assert(digits@.push(d).reverse() =~= seq![d] + digits@.reverse());
        assert(dec_rep(n as int) =~= digits@.push(d).reverse());
    }
    digits.push(d);
    let mut r = String::new();
    let mut k: usize = 0;
    proof {
        assert(digits@.reverse().take(0) =~= Seq::<char>::empty());
    }
    while k < digits.len()
        invariant
            k <= digits@.len(),
            dec_rep(n as int) == digits@.reverse(),
            r@ == digits@.reverse().take(k as int),
        decreases digits@.len() - k,
    {
        let c = digits[digits.len() - 1 - k];
        proof {
            assert(digits@.reverse()[k as int] == digits@[digits@.len() - 1 - k]);
            assert(digits@.reverse().take(k + 1) =~= digits@.reverse().take(k as int).push(
                digits@.reverse()[k as int],
            ));
        }
        push_char(&mut r, c);
        k = k + 1;
    }
    assert(digits@.reverse().take(digits@.len() as int) =~= digits@.reverse());
    r
}

/// The index of the first occurrence of `sep` in `s`, or -1 if there is none.
pub open spec fn find_char(s: Seq<char>, sep: char) -> int
    decreases s.len(),
{
    if s.len() == 0 {
        -1
    } else if s[0] == sep {
        0
    } else {
        let r = find_char(s.skip(1), sep);
        if r < 0 {
            -1
        } else {
            r + 1
        }
    }
}

pub proof fn lemma_find_char_none(s: Seq<char>, sep: char)
    requires
        forall|i: int| 0 <= i < s.len() ==> s[i] != sep,
    ensures
        find_char(s, sep) == -1,
    decreases s.len(),
{
    if s.len() > 0 {
        assert(forall|i: int| 0 <= i < s.skip(1).len() ==> #[trigger] s.skip(1)[i] == s[i + 1]);
        lemma_find_char_none(s.skip(1), sep);
    }
}

pub proof fn lemma_find_char_is(s: Seq<char>, sep: char, j: int)
    requires
        0 <= j < s.len(),
        s[j] == sep,
        forall|i: int| 0 <= i < j ==> s[i] != sep,
    ensures
        find_char(s, sep) == j,
    decreases j,
{
    if j > 0 {
        assert(forall|i: int| 0 <= i < s.skip(1).len() ==> #[trigger] s.skip(1)[i] == s[i + 1]);
        lemma_find_char_is(s.skip(1), sep, j - 1);
    }
}

/// The pieces of `s` between occurrences of `sep`, in order. Splitting the
/// empty string gives one empty piece, as `str::split` does.
pub open spec fn split_char(s: Seq<char>, sep: char) -> Seq<Seq<char>>
    decreases s.len(),
{
    let f = find_char(s, sep);
    if 0 <= f < s.len() {
        seq![s.take(f)] + split_char(s.skip(f + 1), sep)
    } else {
        seq![s]
    }
}

/// The index of the first CRLF pair in `s`, or -1 if there is none.
pub open spec fn find_crlf(s: Seq<char>) -> int
    decreases s.len(),
{
    if s.len() < 2 {
        -1
    } else if s[0] == '\r' && s[1] == '\n' {
        0
    } else {
        let r = find_crlf(s.skip(1));
        if r < 0 {
            -1
        } else {
            r + 1
        }
    }
}

pub open spec fn crlf_at(s: Seq<char>, i: int) -> bool {
    0 <= i && i + 1 < s.len() && s[i] == '\r' && s[i + 1] == '\n'
}

pub proof fn lemma_find_crlf_none(s: Seq<char>)
    requires
        forall|i: int| !crlf_at(s, i),
    ensures
        find_crlf(s) == -1,
    decreases s.len(),
{
    if s.len() >= 2 {
        assert(!crlf_at(s, 0));
        assert(forall|i: int| 0 <= i < s.skip(1).len() ==> #[trigger] s.skip(1)[i] == s[i + 1]);
        assert(forall|i: int| crlf_at(s.skip(1), i) ==> crlf_at(s, i + 1));
        lemma_find_crlf_none(s.skip(1));
    }
}

pub proof fn lemma_find_crlf_is(s: Seq<char>, j: int)
    requires
        crlf_at(s, j),
        forall|i: int| 0 <= i < j ==> !crlf_at(s, i),
    ensures
        find_crlf(s) == j,
    decreases j,
{
    if j > 0 {
        assert(forall|i: int| 0 <= i < s.skip(1).len() ==> #[trigger] s.skip(1)[i] == s[i + 1]);
        assert(!crlf_at(s, 0));
        assert(crlf_at(s.skip(1), j - 1));
        assert forall|i: int| 0 <= i < j - 1 implies !crlf_at(s.skip(1), i) by {
            assert(!crlf_at(s, i + 1));
        }
        lemma_find_crlf_is(s.skip(1), j - 1);
    } else {
        assert(s[0] == '\r' && s[1] == '\n');
    }
}

/// The rows of `s`, split on the CRLF row separator.
pub open spec fn split_crlf(s: Seq<char>) -> Seq<Seq<char>>
    decreases s.len(),
{
    let f = find_crlf(s);
    if 0 <= f && f + 2 <= s.len() {
        seq![s.take(f)] + split_crlf(s.skip(f + 2))
    } else {
        seq![s]
    }
}

/// Copies the characters of `v` from `lo` (inclusive) to `hi` (exclusive).
pub fn subvec(v: &Vec<char>, lo: usize, hi: usize) -> (r: Vec<char>)
    requires
        lo <= hi <= v@.len(),
    ensures
        r@ == v@.subrange(lo as int, hi as int),
{
    let mut r: Vec<char> = Vec::new();
    let mut i: usize = lo;
    while i < hi
        invariant
            lo <= i <= hi <= v@.len(),
            r@ == v@.subrange(lo as int, i as int),
        decreases hi - i,
    {
        r.push(v[i]);
        assert(v@.subrange(lo as int, i + 1) =~= v@.subrange(lo as int, i as int).push(
            v@[i as int],
        ));
        i = i + 1;
    }
    r
}

/// Splits on a one-character separator, as `str::split` does.
pub fn split_char_exec(v: &Vec<char>, sep: char) -> (r: Vec<Vec<char>>)
    ensures
        lines_view(r@) == split_char(v@, sep),
{
    let mut r: Vec<Vec<char>> = Vec::new();
    let mut start: usize = 0;
    let mut i: usize = 0;
    proof {
        assert(v@.skip(0) =~= v@);
        assert(lines_view(r@) + split_char(v@, sep) =~= split_char(v@, sep));
    }
    while i < v.len()
        invariant
            start <= i <= v@.len(),
            split_char(v@, sep) == lines_view(r@) + split_char(v@.skip(start as int), sep),
            forall|k: int| start <= k < i ==> v@[k] != sep,
        decreases v@.len() - i,
    {
        if v[i] == sep {
            let piece = subvec(v, start, i);
            proof {
                let suf = v@.skip(start as int);
                assert(forall|k: int| 0 <= k < suf.len() ==> #[trigger] suf[k] == v@[k + start]);
                lemma_find_char_is(suf, sep, i - start);
                assert(suf.take(i - start) =~= v@.subrange(start as int, i as int));
                assert(suf.skip(i - start + 1) =~= v@.skip(i + 1));
                assert(lines_view(r@.push(piece)) =~= lines_view(r@) + seq![piece@]);
                assert(lines_view(r@) + split_char(suf, sep) =~= (lines_view(r@) + seq![
                    suf.take(i - start),
                ]) + split_char(suf.skip(i - start + 1), sep));
            }
            r.push(piece);
            start = i + 1;
        }
        i = i + 1;
    }
    let piece = subvec(v, start, v.len());
    proof {
        let suf = v@.skip(start as int);
        assert(forall|k: int| 0 <= k < suf.len() ==> #[trigger] suf[k] == v@[k + start]);
        lemma_find_char_none(suf, sep);
        assert(suf =~= v@.subrange(start as int, v@.len() as int));
        assert(lines_view(r@.push(piece)) =~= lines_view(r@) + seq![piece@]);
        assert(lines_view(r@) + split_char(suf, sep) =~= lines_view(r@.push(piece)));
    }
    r.push(piece);
    r
}

/// Splits on the two-character CRLF separator.
pub fn split_crlf_exec(v: &Vec<char>) -> (r: Vec<Vec<char>>)
    ensures
        lines_view(r@) == split_crlf(v@),
{
    let mut r: Vec<Vec<char>> = Vec::new();
    let mut start: usize = 0;
    let mut i: usize = 0;
    proof {
        assert(v@.skip(0) =~= v@);
        assert(lines_view(r@) + split_crlf(v@) =~= split_crlf(v@));
    }
    while i < v.len()
        invariant
            start <= i <= v@.len(),
            split_crlf(v@) == lines_view(r@) + split_crlf(v@.skip(start as int)),
            forall|k: int| start <= k < i ==> !crlf_at(v@, k),
        decreases v@.len() - i,
    {
        if v[i] == '\r' && i + 1 < v.len() && v[i + 1] == '\n' {
            let piece = subvec(v, start, i);
            proof {
                let suf = v@.skip(start as int);
                assert(forall|k: int| 0 <= k < suf.len() ==> #[trigger] suf[k] == v@[k + start]);
                assert(crlf_at(suf, i - start));
                assert(forall|k: int| 0 <= k < i - start ==> !crlf_at(v@, #[trigger] (k + start)));
                assert(forall|k: int| 0 <= k < i - start ==> !crlf_at(suf, k));
                lemma_find_crlf_is(suf, i - start);
                assert(suf.take(i - start) =~= v@.subrange(start as int, i as int));
                assert(suf.skip(i - start + 2) =~= v@.skip(i + 2));
                assert(lines_view(r@.push(piece)) =~= lines_view(r@) + seq![piece@]);
                assert(lines_view(r@) + split_crlf(suf) =~= (lines_view(r@) + seq![
                    suf.take(i - start),
                ]) + split_crlf(suf.skip(i - start + 2)));
            }
            r.push(piece);
            start = i + 2;
            i = i + 2;
        } else {
            proof {
                if i + 1 < v@.len() {
                    assert(!crlf_at(v@, i as int));
                } else {
                    assert(!crlf_at(v@, i as int));
                }
            }
            i = i + 1;
        }
    }
    let piece = subvec(v, start, v.len());
    proof {
        let suf = v@.skip(start as int);
        assert(forall|k: int| 0 <= k < suf.len() ==> #[trigger] suf[k] == v@[k + start]);
        assert(forall|k: int| crlf_at(suf, k) ==> crlf_at(v@, k + start));
        lemma_find_crlf_none(suf);
        assert(suf =~= v@.subrange(start as int, v@.len() as int));
        assert(lines_view(r@.push(piece)) =~= lines_view(r@) + seq![piece@]);
        assert(lines_view(r@) + split_crlf(suf) =~= lines_view(r@.push(piece)));
    }
    r.push(piece);
    r
}

/// `s` with every double-quote character removed.
pub open spec fn remove_quotes(s: Seq<char>) -> Seq<char>
    decreases s.len(),
{
    if s.len() == 0 {
        Seq::empty()
    } else if s.last() == '"' {
        remove_quotes(s.drop_last())
    } else {
        remove_quotes(s.drop_last()).push(s.last())
    }
}

pub fn remove_quotes_exec(v: &Vec<char>) -> (r: Vec<char>)
    ensures
        r@ == remove_quotes(v@),
{
    let mut r: Vec<char> = Vec::new();
    let mut i: usize = 0;
    while i < v.len()
        invariant
            i <= v@.len(),
            r@ == remove_quotes(v@.take(i as int)),
        decreases v@.len() - i,
    {
        proof {
            assert(v@.take(i + 1).drop_last() =~= v@.take(i as int));
            assert(v@.take(i + 1).last() == v@[i as int]);
        }
        if v[i] != '"' {
            r.push(v[i]);
        }
        i = i + 1;
    }
    assert(v@.take(v@.len() as int) =~= v@);
    r
}

} // verus!
