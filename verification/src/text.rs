//! Verified string primitives: equality, prefix tests, searching,
//! replacement, splitting, trimming, lexicographic comparison and
//! decimal formatting of integers.

use vstd::prelude::*;

verus! {

/// Relies on String::push: appends the character to the end of the string.
#[verifier::external_body]
pub(crate) fn push_char(s: &mut String, c: char)
    ensures
        final(s)@ == old(s)@.push(c),
{
    s.push(c);
}

pub fn str_eq(a: &str, b: &str) -> (r: bool)
    ensures
        r == (a@ == b@),
{
    let alen = a.unicode_len();
    let blen = b.unicode_len();
    if alen != blen {
        return false;
    }
    let mut i: usize = 0;
    while i < alen
        invariant
            alen == a@.len(),
            blen == b@.len(),
            alen == blen,
            i <= alen,
            forall|j: int| 0 <= j < i ==> a@[j] == b@[j],
        decreases alen - i,
    {
        if a.get_char(i) != b.get_char(i) {
            return false;
        }
        i += 1;
    }
    proof {
        assert(a@ =~= b@);
    }
    true
}

pub open spec fn spec_starts_with(s: Seq<char>, p: Seq<char>) -> bool {
    p.is_prefix_of(s)
}

pub fn starts_with(s: &str, p: &str) -> (r: bool)
    ensures
        r == spec_starts_with(s@, p@),
{
    let plen = p.unicode_len();
    let slen = s.unicode_len();
    if plen > slen {
        return false;
    }
    let mut i: usize = 0;
    while i < plen
        invariant
            plen == p@.len(),
            slen == s@.len(),
            plen <= slen,
            i <= plen,
            forall|j: int| 0 <= j < i ==> s@[j] == p@[j],
        decreases plen - i,
    {
        if s.get_char(i) != p.get_char(i) {
            proof {
                assert(!p@.is_prefix_of(s@)) by {
                    if s@.subrange(0, p@.len() as int) == p@ {
                        assert(s@.subrange(0, p@.len() as int)[i as int] == s@[i as int]);
                    }
                }
            }
            return false;
        }
        i += 1;
    }
    proof {
        assert(s@.subrange(0, p@.len() as int) =~= p@);
    }
    true
}

pub open spec fn spec_digit_char(d: int) -> char
    recommends
        0 <= d < 10,
{
    ((d + 48) as u8) as char
}

fn digit_char(d: u64) -> (c: char)
    requires
        d < 10,
    ensures
        c == spec_digit_char(d as int),
{
    (48 + d as u8) as char
}

/// The decimal digits of a nonnegative integer, most significant first.
pub open spec fn spec_u64_str(n: int) -> Seq<char>
    decreases n,
{
    if n < 10 {
        seq![spec_digit_char(n)]
    } else {
        spec_u64_str(n / 10).push(spec_digit_char(n % 10))
    }
}

pub fn u64_to_string(n: u64) -> (r: String)
    ensures
        r@ == spec_u64_str(n as int),
    decreases n,
{
    if n < 10 {
        let mut s = String::new();
        let c = digit_char(n);
        push_char(&mut s, c);
        s
    } else {
        let mut s = u64_to_string(n / 10);
        let c = digit_char(n % 10);
        push_char(&mut s, c);
        s
    }
}

/// `s` left-padded with zeroes up to width `w`.
pub open spec fn spec_zero_pad(s: Seq<char>, w: int) -> Seq<char> {
    if s.len() >= w {
        s
    } else {
        Seq::new((w - s.len()) as nat, |i: int| '0') + s
    }
}

pub fn u64_to_string_pad(n: u64, width: usize) -> (r: String)
    ensures
        r@ == spec_zero_pad(spec_u64_str(n as int), width as int),
{
    let digits = u64_to_string(n);
    let dlen = digits.as_str().unicode_len();
    if dlen >= width {
        return digits;
    }
    let mut s = String::new();
    let mut i: usize = 0;
    while i < width - dlen
        invariant
            dlen == spec_u64_str(n as int).len(),
            dlen < width,
            i <= width - dlen,
            s@ =~= Seq::new(i as nat, |j: int| '0'),
        decreases width - dlen - i,
    {
        push_char(&mut s, '0');
        proof {
            assert(s@ =~= Seq::new((i + 1) as nat, |j: int| '0'));
        }
        i += 1;
    }
    s.append(digits.as_str());
    proof {
        assert(s@ =~= spec_zero_pad(spec_u64_str(n as int), width as int));
    }
    s
}

/// A hexadecimal digit, lower case.
pub open spec fn spec_hex_char(d: int) -> char
    recommends
        0 <= d < 16,
{
    if d < 10 {
        spec_digit_char(d)
    } else {
        ((d - 10 + 97) as u8) as char
    }
}

fn hex_char(d: u64) -> (c: char)
    requires
        d < 16,
    ensures
        c == spec_hex_char(d as int),
{
    if d < 10 {
        digit_char(d)
    } else {
        (97 + (d - 10) as u8) as char
    }
}

/// The hexadecimal digits of a nonnegative integer, most significant
/// first, lower case.
pub open spec fn spec_hex_str(n: int) -> Seq<char>
    decreases n,
{
    if n < 16 {
        seq![spec_hex_char(n)]
    } else {
        spec_hex_str(n / 16).push(spec_hex_char(n % 16))
    }
}

fn u64_to_hex(n: u64) -> (r: String)
    ensures
        r@ == spec_hex_str(n as int),
    decreases n,
{
    if n < 16 {
        let mut s = String::new();
        let c = hex_char(n);
        push_char(&mut s, c);
        s
    } else {
        let mut s = u64_to_hex(n / 16);
        let c = hex_char(n % 16);
        push_char(&mut s, c);
        s
    }
}

/// A value in hexadecimal, zero-padded on the left to `width` digits.
pub fn u64_to_hex_pad(n: u64, width: usize) -> (r: String)
    ensures
        r@ == spec_zero_pad(spec_hex_str(n as int), width as int),
{
    let digits = u64_to_hex(n);
    let dlen = digits.as_str().unicode_len();
    if dlen >= width {
        return digits;
    }
    let mut s = String::new();
    let mut i: usize = 0;
    while i < width - dlen
        invariant
            dlen == spec_hex_str(n as int).len(),
            dlen < width,
            i <= width - dlen,
            s@ =~= Seq::new(i as nat, |j: int| '0'),
        decreases width - dlen - i,
    {
        push_char(&mut s, '0');
        proof {
            assert(s@ =~= Seq::new((i + 1) as nat, |j: int| '0'));
        }
        i += 1;
    }
    s.append(digits.as_str());
    proof {
        assert(s@ =~= spec_zero_pad(spec_hex_str(n as int), width as int));
    }
    s
}

/// A signed value rendered with minimum total width `w`, zero-filled,
/// the sign counting toward the width.
pub open spec fn spec_i64_str_pad(v: int, w: int) -> Seq<char> {
    if v >= 0 {
        spec_zero_pad(spec_u64_str(v), w)
    } else {
        seq!['-'] + spec_zero_pad(spec_u64_str(-v), w - 1)
    }
}

pub fn i64_to_string_pad(v: i64, width: usize) -> (r: String)
    requires
        -1_000_000_000_000_000 <= v <= 1_000_000_000_000_000,
    ensures
        r@ == spec_i64_str_pad(v as int, width as int),
{
    if v >= 0 {
        u64_to_string_pad(v as u64, width)
    } else {
        let mut s = String::new();
        push_char(&mut s, '-');
        let w1: usize = if width > 0 {
            width - 1
        } else {
            0
        };
        let digits = u64_to_string_pad((-v) as u64, w1);
        s.append(digits.as_str());
        proof {
            if width == 0 {
                assert(spec_zero_pad(spec_u64_str(-v as int), -1) == spec_u64_str(-v as int));
            }
            assert(s@ =~= spec_i64_str_pad(v as int, width as int));
        }
        s
    }
}

/// The pattern `p` occurs in `s` at position `i`.
pub open spec fn spec_matches_at(s: Seq<char>, p: Seq<char>, i: int) -> bool {
    0 <= i && i + p.len() <= s.len() && s.subrange(i, i + p.len() as int) == p
}

/// The first occurrence of `p` in `s` at or after position `i`.
pub open spec fn spec_find_from(s: Seq<char>, p: Seq<char>, i: int) -> Option<int>
    decreases s.len() + 1 - i,
{
    if i < 0 || i + p.len() > s.len() {
        None
    } else if spec_matches_at(s, p, i) {
        Some(i)
    } else {
        spec_find_from(s, p, i + 1)
    }
}

pub open spec fn spec_find(s: Seq<char>, p: Seq<char>) -> Option<int> {
    spec_find_from(s, p, 0)
}

fn matches_at(s: &str, p: &str, i: usize) -> (r: bool)
    requires
        i + p@.len() <= s@.len(),
    ensures
        r == spec_matches_at(s@, p@, i as int),
{
    let plen = p.unicode_len();
    let slen = s.unicode_len();
    let mut j: usize = 0;
    while j < plen
        invariant
            plen == p@.len(),
            slen == s@.len(),
            i + plen <= slen,
            j <= plen,
            forall|k: int| 0 <= k < j ==> s@[i + k] == p@[k],
        decreases plen - j,
    {
        if s.get_char(i + j) != p.get_char(j) {
            proof {
                assert(!spec_matches_at(s@, p@, i as int)) by {
                    if s@.subrange(i as int, i + p@.len() as int) == p@ {
                        assert(s@.subrange(i as int, i + p@.len() as int)[j as int] == s@[i + j]);
                    }
                }
            }
            return false;
        }
        j += 1;
    }
    proof {
        assert(s@.subrange(i as int, i + p@.len() as int) =~= p@);
    }
    true
}

pub fn find(s: &str, p: &str) -> (r: Option<usize>)
    ensures
        match r {
            Some(i) => spec_find(s@, p@) == Some(i as int),
            None => spec_find(s@, p@) is None,
        },
{
    let slen = s.unicode_len();
    let plen = p.unicode_len();
    if plen > slen {
        return None;
    }
    if plen == 0 {
        proof {
            assert(s@.subrange(0, 0) =~= p@);
        }
        return Some(0);
    }
    let mut i: usize = 0;
    while i <= slen - plen
        invariant
            slen == s@.len(),
            plen == p@.len(),
            0 < plen <= slen,
            i <= slen - plen + 1,
            spec_find(s@, p@) == spec_find_from(s@, p@, i as int),
        decreases slen + 1 - i,
    {
        if matches_at(s, p, i) {
            return Some(i);
        }
        proof {
            assert(spec_find_from(s@, p@, i as int) == spec_find_from(s@, p@, i + 1));
        }
        i += 1;
    }
    None
}

/// Every occurrence of the non-empty pattern `p` in `s` replaced by `r`,
/// scanning left to right without overlap.
pub open spec fn spec_replace_all(s: Seq<char>, p: Seq<char>, r: Seq<char>) -> Seq<char>
    decreases s.len(),
{
    if p.len() == 0 {
        s
    } else {
        match spec_find(s, p) {
            None => s,
            Some(i) => {
                if 0 <= i && i + p.len() <= s.len() {
                    s.subrange(0, i) + r + spec_replace_all(
                        s.subrange(i + p.len() as int, s.len() as int),
                        p,
                        r,
                    )
                } else {
                    s
                }
            },
        }
    }
}

proof fn lemma_find_in_range(s: Seq<char>, p: Seq<char>, i: int)
    requires
        spec_find_from(s, p, i) is Some,
        0 <= i,
    ensures
        i <= spec_find_from(s, p, i)->Some_0,
        spec_find_from(s, p, i)->Some_0 + p.len() <= s.len(),
        spec_matches_at(s, p, spec_find_from(s, p, i)->Some_0),
    decreases s.len() + 1 - i,
{
    if i + p.len() > s.len() {
    } else if spec_matches_at(s, p, i) {
    } else {
        lemma_find_in_range(s, p, i + 1);
    }
}

pub fn replace_all(s: &str, p: &str, r: &str) -> (out: String)
    requires
        p@.len() > 0,
    ensures
        out@ == spec_replace_all(s@, p@, r@),
{
    let mut out = String::new();
    let mut rest: String = s.to_owned();
    loop
        invariant
            p@.len() > 0,
            spec_replace_all(s@, p@, r@) == out@ + spec_replace_all(rest@, p@, r@),
        decreases rest@.len(),
    {
        let rest_len = rest.as_str().unicode_len();
        match find(rest.as_str(), p) {
            None => {
                out.append(rest.as_str());
                proof {
                    assert(spec_replace_all(rest@, p@, r@) == rest@);
                }
                return out;
            },
            Some(i) => {
                proof {
                    lemma_find_in_range(rest@, p@, 0);
                }
                let plen = p.unicode_len();
                out.append(rest.as_str().substring_char(0, i));
                out.append(r);
                let tail = rest.as_str().substring_char(i + plen, rest_len).to_owned();
                proof {
                    assert(spec_replace_all(rest@, p@, r@) == rest@.subrange(0, i as int) + r@
                        + spec_replace_all(
                        rest@.subrange(i + p@.len() as int, rest@.len() as int),
                        p@,
                        r@,
                    ));
                }
                rest = tail;
            },
        }
    }
}

/// The pieces of `s` between occurrences of the separator `c`.
pub open spec fn spec_split(s: Seq<char>, c: char) -> Seq<Seq<char>>
    decreases s.len(),
{
    match spec_find(s, seq![c]) {
        None => seq![s],
        Some(i) => {
            if 0 <= i && i + 1 <= s.len() {
                seq![s.subrange(0, i)] + spec_split(s.subrange(i + 1, s.len() as int), c)
            } else {
                seq![s]
            }
        },
    }
}

pub fn split(s: &str, sep: &str) -> (r: Vec<String>)
    requires
        sep@.len() == 1,
    ensures
        r@.map_values(|t: String| t@) == spec_split(s@, sep@[0]),
{
    let c = sep.get_char(0);
    let mut pieces: Vec<String> = Vec::new();
    let mut rest: String = s.to_owned();
    proof {
        assert(seq![sep@[0]] =~= sep@);
    }
    loop
        invariant
            sep@.len() == 1,
            c == sep@[0],
            spec_split(s@, c) == pieces@.map_values(|t: String| t@) + spec_split(rest@, c),
        decreases rest@.len(),
    {
        proof {
            assert(seq![c] =~= sep@);
        }
        let rest_len = rest.as_str().unicode_len();
        match find(rest.as_str(), sep) {
            None => {
                let ghost old_pieces = pieces@;
                proof {
                    assert(spec_split(rest@, c) == seq![rest@]);
                }
                pieces.push(rest);
                proof {
                    assert(pieces@.map_values(|t: String| t@) =~= old_pieces.map_values(
                        |t: String| t@,
                    ) + seq![rest@]);
                }
                return pieces;
            },
            Some(i) => {
                proof {
                    lemma_find_in_range(rest@, sep@, 0);
                }
                let piece = rest.as_str().substring_char(0, i).to_owned();
                let tail = rest.as_str().substring_char(i + 1, rest_len).to_owned();
                pieces.push(piece);
                proof {
                    assert(pieces@.map_values(|t: String| t@) =~= pieces@.drop_last().map_values(
                        |t: String| t@,
                    ).push(rest@.subrange(0, i as int)));
                    assert(seq![rest@.subrange(0, i as int)] + spec_split(
                        rest@.subrange(i + 1, rest@.len() as int),
                        c,
                    ) == spec_split(rest@, c));
                    assert(pieces@.drop_last().map_values(|t: String| t@).push(
                        rest@.subrange(0, i as int),
                    ) + spec_split(rest@.subrange(i + 1, rest@.len() as int), c)
                        =~= pieces@.drop_last().map_values(|t: String| t@) + spec_split(
                        rest@,
                        c,
                    ));
                }
                rest = tail;
            },
        }
    }
}

/// Strict lexicographic order on character sequences, by code point.
pub open spec fn spec_lex_lt(a: Seq<char>, b: Seq<char>) -> bool
    decreases a.len() + b.len(),
{
    if b.len() == 0 {
        false
    } else if a.len() == 0 {
        true
    } else if a[0] != b[0] {
        (a[0] as u32) < (b[0] as u32)
    } else {
        spec_lex_lt(a.drop_first(), b.drop_first())
    }
}

pub fn str_lt(a: &str, b: &str) -> (r: bool)
    ensures
        r == spec_lex_lt(a@, b@),
{
    let alen = a.unicode_len();
    let blen = b.unicode_len();
    proof {
        assert(a@.skip(0) =~= a@);
        assert(b@.skip(0) =~= b@);
    }
    let mut i: usize = 0;
    while i < alen && i < blen
        invariant
            alen == a@.len(),
            blen == b@.len(),
            i <= alen,
            i <= blen,
            spec_lex_lt(a@, b@) == spec_lex_lt(a@.skip(i as int), b@.skip(i as int)),
        decreases alen - i,
    {
        let ca = a.get_char(i);
        let cb = b.get_char(i);
        if ca != cb {
            return (ca as u32) < (cb as u32);
        }
        proof {
            assert(a@.skip(i as int).drop_first() =~= a@.skip(i + 1));
            assert(b@.skip(i as int).drop_first() =~= b@.skip(i + 1));
        }
        i += 1;
    }
    i == alen && i < blen
}

pub proof fn lemma_lex_lt_connected(a: Seq<char>, b: Seq<char>)
    requires
        !spec_lex_lt(a, b),
        !spec_lex_lt(b, a),
    ensures
        a == b,
    decreases a.len() + b.len(),
{
    if b.len() == 0 {
        assert(a.len() == 0);
        assert(a =~= b);
    } else if a.len() == 0 {
        assert(false);
    } else if a[0] != b[0] {
        vstd::utf8::char_u32_cast(a[0], a[0] as u32);
        vstd::utf8::char_u32_cast(b[0], b[0] as u32);
        assert(false);
    } else {
        lemma_lex_lt_connected(a.drop_first(), b.drop_first());
        assert(a.drop_first().len() == a.len() - 1);
        assert(b.drop_first().len() == b.len() - 1);
        assert(a.len() == b.len());
        assert forall|i: int| 0 <= i < a.len() implies a[i] == b[i] by {
            if i >= 1 {
                assert(a[i] == a.drop_first()[i - 1]);
                assert(b[i] == b.drop_first()[i - 1]);
            }
        }
        assert(a =~= b);
    }
}

pub proof fn lemma_lex_lt_irreflexive(a: Seq<char>)
    ensures
        !spec_lex_lt(a, a),
    decreases a.len(),
{
    if a.len() > 0 {
        lemma_lex_lt_irreflexive(a.drop_first());
    }
}

pub proof fn lemma_lex_lt_transitive(a: Seq<char>, b: Seq<char>, c: Seq<char>)
    requires
        spec_lex_lt(a, b),
        spec_lex_lt(b, c),
    ensures
        spec_lex_lt(a, c),
    decreases a.len() + b.len() + c.len(),
{
    if c.len() == 0 {
        assert(false);
    } else if b.len() == 0 {
        assert(false);
    } else if a.len() == 0 {
    } else if a[0] == b[0] && b[0] == c[0] {
        lemma_lex_lt_transitive(a.drop_first(), b.drop_first(), c.drop_first());
    }
}

pub open spec fn spec_is_digit(c: char) -> bool {
    48 <= c as u32 && c as u32 <= 57
}

pub open spec fn spec_digit_val(c: char) -> int {
    c as u32 - 48
}

pub open spec fn spec_all_digits(s: Seq<char>) -> bool {
    s.len() > 0 && forall|i: int| 0 <= i < s.len() ==> spec_is_digit(s[i])
}

/// The value of a digit string, most significant digit first.
pub open spec fn spec_digits_val(s: Seq<char>) -> int
    decreases s.len(),
{
    if s.len() == 0 {
        0
    } else {
        spec_digits_val(s.drop_last()) * 10 + spec_digit_val(s[s.len() - 1])
    }
}

proof fn lemma_digits_val_grows(s: Seq<char>, i: int)
    requires
        0 <= i <= s.len(),
        forall|j: int| 0 <= j < s.len() ==> spec_is_digit(s[j]),
    ensures
        spec_digits_val(s) >= spec_digits_val(s.take(i)),
        spec_digits_val(s) >= 0,
    decreases s.len() - i,
{
    if i == s.len() {
        assert(s.take(i) =~= s);
        lemma_digits_val_nonneg(s);
    } else {
        lemma_digits_val_grows(s, i + 1);
        assert(s.take(i + 1).drop_last() =~= s.take(i));
        assert(spec_digits_val(s.take(i + 1)) == spec_digits_val(s.take(i)) * 10 + spec_digit_val(
            s[i],
        ));
        lemma_digits_val_nonneg(s.take(i));
    }
}

proof fn lemma_digits_val_nonneg(s: Seq<char>)
    requires
        forall|j: int| 0 <= j < s.len() ==> spec_is_digit(s[j]),
    ensures
        spec_digits_val(s) >= 0,
    decreases s.len(),
{
    if s.len() > 0 {
        lemma_digits_val_nonneg(s.drop_last());
    }
}

/// The largest digit-string value the parser accepts.
pub open spec fn spec_parse_max() -> int {
    999_999_999_999
}

/// A digit string parsed to its value; `None` on any other input, and on
/// values above `spec_parse_max()`.
pub open spec fn spec_parse_u64(s: Seq<char>) -> Option<int> {
    if spec_all_digits(s) && spec_digits_val(s) <= spec_parse_max() {
        Some(spec_digits_val(s))
    } else {
        None
    }
}

pub fn parse_u64(s: &str) -> (r: Option<u64>)
    ensures
        match r {
            Some(v) => spec_parse_u64(s@) == Some(v as int),
            None => spec_parse_u64(s@) is None,
        },
{
    let slen = s.unicode_len();
    if slen == 0 {
        return None;
    }
    let mut v: u64 = 0;
    let mut i: usize = 0;
    while i < slen
        invariant
            slen == s@.len(),
            0 < slen,
            i <= slen,
            forall|j: int| 0 <= j < i ==> spec_is_digit(s@[j]),
            v == spec_digits_val(s@.take(i as int)),
            v <= spec_parse_max(),
        decreases slen - i,
    {
        let c = s.get_char(i);
        let cv = c as u32;
        if cv < 48 || cv > 57 {
            return None;
        }
        let d: u64 = (cv - 48) as u64;
        proof {
            assert(s@.take(i + 1).drop_last() =~= s@.take(i as int));
        }
        let next: u64 = v * 10 + d;
        if next > 999_999_999_999 {
            proof {
                if spec_all_digits(s@) {
                    lemma_digits_val_grows(s@, i + 1);
                }
            }
            return None;
        }
        v = next;
        i += 1;
    }
    proof {
        assert(s@.take(slen as int) =~= s@);
    }
    Some(v)
}

/// A decimal string with at most two fraction digits, scaled by 100:
/// `"2.5"` is 250, `"100"` is 10000.
pub open spec fn spec_parse_fixed2(s: Seq<char>) -> Option<int> {
    match spec_find(s, seq!['.']) {
        None => match spec_parse_u64(s) {
            None => None,
            Some(v) => Some(v * 100),
        },
        Some(i) => {
            if 0 <= i <= s.len() {
                let ip = s.subrange(0, i);
                let fp = s.subrange(i + 1, s.len() as int);
                match spec_parse_u64(ip) {
                    None => None,
                    Some(v) => {
                        if fp.len() == 1 && spec_all_digits(fp) {
                            Some(v * 100 + spec_digits_val(fp) * 10)
                        } else if fp.len() == 2 && spec_all_digits(fp) {
                            Some(v * 100 + spec_digits_val(fp))
                        } else {
                            None
                        }
                    },
                }
            } else {
                None
            }
        },
    }
}

pub fn parse_fixed2(s: &str) -> (r: Option<u64>)
    ensures
        match r {
            Some(v) => spec_parse_fixed2(s@) == Some(v as int),
            None => spec_parse_fixed2(s@) is None,
        },
{
    let slen = s.unicode_len();
    let dot = find(s, ".");
    proof {
        reveal_strlit(".");
        assert("."@ =~= seq!['.']);
    }
    match dot {
        None => {
            match parse_u64(s) {
                None => None,
                Some(v) => Some(v * 100),
            }
        },
        Some(i) => {
            proof {
                lemma_find_in_range(s@, "."@, 0);
            }
            let ip = s.substring_char(0, i);
            let fp = s.substring_char(i + 1, slen);
            let iv = match parse_u64(ip) {
                None => {
                    return None;
                },
                Some(v) => v,
            };
            let fplen = fp.unicode_len();
            if fplen == 1 {
                match parse_u64(fp) {
                    None => {
                        proof {
                            if spec_all_digits(fp@) {
                                assert(fp@.drop_last() =~= Seq::<char>::empty());
                                assert(spec_digits_val(Seq::<char>::empty()) == 0);
                                assert(spec_digits_val(fp@) == spec_digit_val(fp@[0]));
                            }
                        }
                        None
                    },
                    Some(fv) => {
                        proof {
                            assert(fp@.drop_last() =~= Seq::<char>::empty());
                            assert(spec_digits_val(Seq::<char>::empty()) == 0);
                            assert(spec_digits_val(fp@) == spec_digits_val(fp@.drop_last()) * 10
                                + spec_digit_val(fp@[0]));
                        }
                        Some(iv * 100 + fv * 10)
                    },
                }
            } else if fplen == 2 {
                match parse_u64(fp) {
                    None => {
                        proof {
                            if spec_all_digits(fp@) {
                                assert(fp@.drop_last().drop_last() =~= Seq::<char>::empty());
                                assert(spec_digits_val(Seq::<char>::empty()) == 0);
                                assert(spec_digits_val(fp@.drop_last()) == spec_digit_val(
                                    fp@.drop_last()[0],
                                ));
                                assert(spec_digits_val(fp@) <= 99);
                            }
                        }
                        None
                    },
                    Some(fv) => Some(iv * 100 + fv),
                }
            } else {
                if fplen > 0 {
                    proof {
                        if spec_all_digits(fp@) {
                            lemma_digits_val_nonneg(fp@);
                        }
                    }
                }
                None
            }
        },
    }
}

/// A fixed-point value in hundredths shown the short way: no fraction
/// digits when whole, one when the last digit is zero, else two. The
/// decimal separator is always a dot.
pub open spec fn spec_trimmed2(c: int) -> Seq<char> {
    if c % 100 == 0 {
        spec_u64_str(c / 100)
    } else if c % 10 == 0 {
        spec_u64_str(c / 100) + "."@ + spec_u64_str(c / 10 % 10)
    } else {
        spec_u64_str(c / 100) + "."@ + spec_zero_pad(spec_u64_str(c % 100), 2)
    }
}

pub fn format_trimmed2(c: u64) -> (r: String)
    ensures
        r@ == spec_trimmed2(c as int),
{
    proof {
        reveal_strlit(".");
    }
    if c % 100 == 0 {
        u64_to_string(c / 100)
    } else if c % 10 == 0 {
        let mut s = u64_to_string(c / 100);
        s.append(".");
        let d = u64_to_string(c / 10 % 10);
        s.append(d.as_str());
        s
    } else {
        let mut s = u64_to_string(c / 100);
        s.append(".");
        let d = u64_to_string_pad(c % 100, 2);
        s.append(d.as_str());
        s
    }
}

pub open spec fn spec_is_space(c: char) -> bool {
    c == ' ' || c == '\t' || c == '\r' || c == '\n'
}

fn is_space(c: char) -> (r: bool)
    ensures
        r == spec_is_space(c),
{
    c == ' ' || c == '\t' || c == '\r' || c == '\n'
}

/// `s` without leading whitespace.
pub open spec fn spec_trim_start(s: Seq<char>) -> Seq<char>
    decreases s.len(),
{
    if s.len() > 0 && spec_is_space(s[0]) {
        spec_trim_start(s.drop_first())
    } else {
        s
    }
}

/// `s` without trailing whitespace.
pub open spec fn spec_trim_end(s: Seq<char>) -> Seq<char>
    decreases s.len(),
{
    if s.len() > 0 && spec_is_space(s[s.len() - 1]) {
        spec_trim_end(s.drop_last())
    } else {
        s
    }
}

/// `s` without leading or trailing whitespace.
pub open spec fn spec_trim(s: Seq<char>) -> Seq<char> {
    spec_trim_end(spec_trim_start(s))
}

proof fn lemma_trim_start_skip(s: Seq<char>, i: int)
    requires
        0 <= i <= s.len(),
        forall|j: int| 0 <= j < i ==> spec_is_space(s[j]),
        i < s.len() ==> !spec_is_space(s[i]),
    ensures
        spec_trim_start(s) == s.subrange(i, s.len() as int),
    decreases i,
{
    if i == 0 {
        if s.len() > 0 && spec_is_space(s[0]) {
            assert(false);
        }
        assert(s.subrange(0, s.len() as int) =~= s);
    } else {
        assert(spec_is_space(s[0]));
        lemma_trim_start_skip(s.drop_first(), i - 1);
        assert(s.drop_first().subrange(i - 1, s.drop_first().len() as int) =~= s.subrange(
            i,
            s.len() as int,
        ));
    }
}

proof fn lemma_trim_end_take(s: Seq<char>, i: int)
    requires
        0 <= i <= s.len(),
        forall|j: int| i <= j < s.len() ==> spec_is_space(s[j]),
        i > 0 ==> !spec_is_space(s[i - 1]),
    ensures
        spec_trim_end(s) == s.subrange(0, i),
    decreases s.len() - i,
{
    if i == s.len() {
        if s.len() > 0 && spec_is_space(s[s.len() - 1]) {
            assert(false);
        }
        assert(s.subrange(0, s.len() as int) =~= s);
    } else {
        assert(spec_is_space(s[s.len() - 1]));
        lemma_trim_end_take(s.drop_last(), i);
        assert(s.drop_last().subrange(0, i) =~= s.subrange(0, i));
    }
}

pub fn trim(s: &str) -> (r: String)
    ensures
        r@ == spec_trim(s@),
{
    let slen = s.unicode_len();
    let mut a: usize = 0;
    while a < slen && is_space(s.get_char(a))
        invariant
            slen == s@.len(),
            a <= slen,
            forall|j: int| 0 <= j < a ==> spec_is_space(s@[j]),
        decreases slen - a,
    {
        a += 1;
    }
    proof {
        lemma_trim_start_skip(s@, a as int);
    }
    let mut b: usize = slen;
    while b > a && is_space(s.get_char(b - 1))
        invariant
            slen == s@.len(),
            a <= b <= slen,
            forall|j: int| 0 <= j < a ==> spec_is_space(s@[j]),
            a < slen ==> !spec_is_space(s@[a as int]),
            forall|j: int| b <= j < slen ==> spec_is_space(s@[j]),
        decreases b,
    {
        b -= 1;
    }
    let r = s.substring_char(a, b).to_owned();
    proof {
        let t = spec_trim_start(s@);
        assert(t == s@.subrange(a as int, slen as int));
        lemma_trim_end_take(t, b - a);
        assert(t.subrange(0, b - a) =~= s@.subrange(a as int, b as int));
    }
    r
}

} // verus!
