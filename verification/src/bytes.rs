//! Byte-string primitives shared by the protocol front-ends: ASCII case
//! folding, searching, whitespace-separated words, trimming, and decimal
//! numbers.

use vstd::prelude::*;
use vstd::string::StringSliceAdditionalSpecFns;

verus! {

/// The bytes of a piece of text.
pub open spec fn text(s: &str) -> Seq<u8> {
    s.spec_bytes()
}

/// The bytes of `s`.
pub fn text_bytes<'a>(s: &'a str) -> (b: &'a [u8])
    ensures
        b@ == text(s),
{
    s.as_bytes()
}

/// The text as far as the first `b`, or all of it where there is none.
pub open spec fn before(s: Seq<u8>, b: u8) -> Seq<u8> {
    match find(s, seq![b]) {
        Some(i) => s.subrange(0, i),
        None => s,
    }
}

/// The text behind the first `b`, where there is one.
pub open spec fn after(s: Seq<u8>, b: u8) -> Option<Seq<u8>> {
    match find(s, seq![b]) {
        Some(i) => Some(s.skip(i + 1)),
        None => None,
    }
}

/// The offset of the first `b` in `s`.
pub fn find_byte(s: &[u8], b: u8) -> (r: Option<usize>)
    ensures
        match r {
            Some(i) => find(s@, seq![b]) == Some(i as int) && i < s@.len(),
            None => find(s@, seq![b]) is None,
        },
{
    let pat: [u8; 1] = [b];
    assert(pat@ =~= seq![b]);
    proof {
        lemma_find_from(s@, seq![b], 0);
    }
    find_bytes(s, pat.as_slice(), 0)
}

/// Splits `s` at its first `b`, which belongs to neither part.
pub fn split_once<'a>(s: &'a [u8], b: u8) -> (r: Option<(&'a [u8], &'a [u8])>)
    ensures
        match r {
            Some((head, tail)) => head@ == before(s@, b) && after(s@, b) == Some(tail@),
            None => after(s@, b) is None && before(s@, b) == s@,
        },
{
    match find_byte(s, b) {
        Some(i) => {
            let n = s.len();
            let head = vstd::slice::slice_subrange(s, 0, i);
            let tail = vstd::slice::slice_subrange(s, i + 1, n);
            Some((head, tail))
        },
        None => None,
    }
}

/// The ASCII lower-case form of a byte; bytes outside `A`..=`Z` are unchanged.
pub open spec fn lower(b: u8) -> u8 {
    if 65 <= b <= 90 {
        (b + 32) as u8
    } else {
        b
    }
}

/// The ASCII lower-case form of `b`.
pub fn to_lower(b: u8) -> (r: u8)
    ensures
        r == lower(b),
{
    if 65 <= b && b <= 90 {
        b + 32
    } else {
        b
    }
}

/// `p` is a prefix of `s` when ASCII letters are compared without case.
pub open spec fn has_prefix_ignore_case(s: Seq<u8>, p: Seq<u8>) -> bool {
    &&& p.len() <= s.len()
    &&& forall|i: int| 0 <= i < p.len() ==> lower(#[trigger] s[i]) == lower(p[i])
}

/// `a` and `b` are the same text when ASCII letters are compared without case.
pub open spec fn eq_ignore_case(a: Seq<u8>, b: Seq<u8>) -> bool {
    a.len() == b.len() && has_prefix_ignore_case(a, b)
}

/// Whether `s` starts with `p`, ASCII letters compared without case.
pub fn starts_with_ignore_case(s: &[u8], p: &[u8]) -> (b: bool)
    ensures
        b == has_prefix_ignore_case(s@, p@),
{
    if p.len() > s.len() {
        return false;
    }
    let mut i: usize = 0;
    while i < p.len()
        invariant
            i <= p.len() <= s.len(),
            forall|j: int| 0 <= j < i ==> lower(#[trigger] s@[j]) == lower(p@[j]),
        decreases p.len() - i,
    {
        if to_lower(s[i]) != to_lower(p[i]) {
            return false;
        }
        i += 1;
    }
    true
}

/// Whether `a` and `b` are the same, ASCII letters compared without case.
pub fn equals_ignore_case(a: &[u8], b: &[u8]) -> (r: bool)
    ensures
        r == eq_ignore_case(a@, b@),
{
    a.len() == b.len() && starts_with_ignore_case(a, b)
}

/// `p` is a prefix of `s`, byte for byte.
pub open spec fn has_prefix(s: Seq<u8>, p: Seq<u8>) -> bool {
    p.len() <= s.len() && s.subrange(0, p.len() as int) == p
}

/// `pat` stands in `s` at offset `i`.
pub open spec fn occurs_at(s: Seq<u8>, pat: Seq<u8>, i: int) -> bool {
    0 <= i && i + pat.len() <= s.len() && s.subrange(i, i + pat.len()) == pat
}

/// Whether `pat` stands in `s` at offset `i`.
pub fn matches_at(s: &[u8], pat: &[u8], i: usize) -> (b: bool)
    ensures
        b == occurs_at(s@, pat@, i as int),
{
    if i > s.len() || pat.len() > s.len() - i {
        return false;
    }
    let mut k: usize = 0;
    while k < pat.len()
        invariant
            k <= pat.len(),
            i + pat.len() <= s.len(),
            forall|j: int| 0 <= j < k ==> s@[i + j] == pat@[j],
        decreases pat.len() - k,
    {
        if s[i + k] != pat[k] {
            assert(s@.subrange(i as int, i + pat@.len())[k as int] == s@[i + k]);
            return false;
        }
        k += 1;
    }
    assert(s@.subrange(i as int, i + pat@.len()) =~= pat@);
    true
}

/// Whether `s` starts with `p`.
pub fn starts_with(s: &[u8], p: &[u8]) -> (b: bool)
    ensures
        b == has_prefix(s@, p@),
{
    matches_at(s, p, 0)
}

/// The least offset at or after `start` at which `pat` stands in `s`.
pub open spec fn find_from(s: Seq<u8>, pat: Seq<u8>, start: int) -> Option<int>
    decreases s.len() + 1 - start,
{
    if start < 0 || start + pat.len() > s.len() {
        None
    } else if occurs_at(s, pat, start) {
        Some(start)
    } else {
        find_from(s, pat, start + 1)
    }
}

/// The least offset at which `pat` stands in `s`.
pub open spec fn find(s: Seq<u8>, pat: Seq<u8>) -> Option<int> {
    find_from(s, pat, 0)
}

/// `pat` stands somewhere in `s`.
pub open spec fn contains(s: Seq<u8>, pat: Seq<u8>) -> bool {
    exists|i: int| occurs_at(s, pat, i)
}

/// What `find_from` returns is the first occurrence, and `None` means there
/// is none at or after `start`.
pub proof fn lemma_find_from(s: Seq<u8>, pat: Seq<u8>, start: int)
    requires
        0 <= start,
    ensures
        match find_from(s, pat, start) {
            Some(i) => {
                &&& start <= i
                &&& occurs_at(s, pat, i)
                &&& forall|j: int| start <= j < i ==> !occurs_at(s, pat, j)
            },
            None => forall|j: int| start <= j ==> !occurs_at(s, pat, j),
        },
    decreases s.len() + 1 - start,
{
    if start + pat.len() > s.len() {
    } else if occurs_at(s, pat, start) {
    } else {
        lemma_find_from(s, pat, start + 1);
    }
}

/// An offset that is the first occurrence at or after `start` is what
/// `find_from` returns.
pub proof fn lemma_find_from_is(s: Seq<u8>, pat: Seq<u8>, start: int, i: int)
    requires
        0 <= start <= i,
        occurs_at(s, pat, i),
        forall|j: int| start <= j < i ==> !occurs_at(s, pat, j),
    ensures
        find_from(s, pat, start) == Some(i),
{
    lemma_find_from(s, pat, start);
}

/// A pattern is found exactly where it stands somewhere.
pub proof fn lemma_find_contains(s: Seq<u8>, pat: Seq<u8>)
    ensures
        contains(s, pat) <==> find(s, pat) is Some,
{
    lemma_find_from(s, pat, 0);
    if contains(s, pat) {
        let i = choose|i: int| occurs_at(s, pat, i);
        assert(0 <= i);
    }
}

/// The first offset at or after `start` at which `pat` stands in `s`.
pub fn find_bytes(s: &[u8], pat: &[u8], start: usize) -> (r: Option<usize>)
    ensures
        match r {
            Some(i) => find_from(s@, pat@, start as int) == Some(i as int),
            None => find_from(s@, pat@, start as int) is None,
        },
{
    if start > s.len() || pat.len() > s.len() - start {
        return None;
    }
    let last: usize = s.len() - pat.len();
    let mut i: usize = start;
    while i <= last
        invariant
            start <= i <= last + 1,
            last == s.len() - pat.len(),
            find_from(s@, pat@, start as int) == find_from(s@, pat@, i as int),
        decreases last + 1 - i,
    {
        if matches_at(s, pat, i) {
            return Some(i);
        }
        if i == last {
            assert(find_from(s@, pat@, i + 1) is None);
            return None;
        }
        i += 1;
    }
    None
}

/// Whether `pat` stands somewhere in `s`.
pub fn contains_bytes(s: &[u8], pat: &[u8]) -> (b: bool)
    ensures
        b == contains(s@, pat@),
{
    proof {
        lemma_find_contains(s@, pat@);
    }
    find_bytes(s, pat, 0).is_some()
}

/// White space: the ASCII members of Unicode's `White_Space`, that is the
/// space and the controls tab, line feed, vertical tab, form feed and
/// carriage return.
pub open spec fn is_space(b: u8) -> bool {
    b == 32 || (9 <= b <= 13)
}

/// Whether `b` is white space.
pub fn is_space_byte(b: u8) -> (r: bool)
    ensures
        r == is_space(b),
{
    b == 32 || (9 <= b && b <= 13)
}

/// The first offset at or after `i` that holds no white space.
pub open spec fn skip_spaces(s: Seq<u8>, i: int) -> int
    decreases s.len() - i,
{
    if 0 <= i < s.len() && is_space(s[i]) {
        skip_spaces(s, i + 1)
    } else {
        i
    }
}

/// The first offset at or after `i` that holds white space, or the length.
pub open spec fn skip_word(s: Seq<u8>, i: int) -> int
    decreases s.len() - i,
{
    if 0 <= i < s.len() && !is_space(s[i]) {
        skip_word(s, i + 1)
    } else {
        i
    }
}

/// What `skip_spaces` skips is white space, and it stops at the first byte
/// that is none.
pub proof fn lemma_skip_spaces(s: Seq<u8>, i: int)
    requires
        0 <= i <= s.len(),
    ensures
        i <= skip_spaces(s, i) <= s.len(),
        forall|j: int| i <= j < skip_spaces(s, i) ==> is_space(#[trigger] s[j]),
        skip_spaces(s, i) < s.len() ==> !is_space(s[skip_spaces(s, i)]),
    decreases s.len() - i,
{
    if i < s.len() && is_space(s[i]) {
        lemma_skip_spaces(s, i + 1);
    }
}

/// What `skip_word` skips is no white space, and it stops at the first byte
/// that is.
pub proof fn lemma_skip_word(s: Seq<u8>, i: int)
    requires
        0 <= i <= s.len(),
    ensures
        i <= skip_word(s, i) <= s.len(),
        forall|j: int| i <= j < skip_word(s, i) ==> !is_space(#[trigger] s[j]),
        skip_word(s, i) < s.len() ==> is_space(s[skip_word(s, i)]),
        i < s.len() && !is_space(s[i]) ==> i < skip_word(s, i),
    decreases s.len() - i,
{
    if i < s.len() && !is_space(s[i]) {
        lemma_skip_word(s, i + 1);
    }
}

/// The maximal runs of bytes that are not white space, from offset `i` on,
/// in the order in which they stand.
pub open spec fn words_from(s: Seq<u8>, i: int) -> Seq<Seq<u8>>
    decreases s.len() - i,
    via words_from_decreases
{
    let a = skip_spaces(s, i);
    if 0 <= i && a < s.len() {
        let b = skip_word(s, a);
        seq![s.subrange(a, b)] + words_from(s, b)
    } else {
        Seq::empty()
    }
}

#[via_fn]
proof fn words_from_decreases(s: Seq<u8>, i: int) {
    let a = skip_spaces(s, i);
    if 0 <= i && a < s.len() {
        lemma_skip_spaces(s, i);
        lemma_skip_word(s, a);
    }
}

/// The white-space-separated words of `s`.
pub open spec fn words(s: Seq<u8>) -> Seq<Seq<u8>> {
    words_from(s, 0)
}

/// The first offset at or after `start` that holds no white space.
pub fn skip_spaces_in(s: &[u8], start: usize) -> (r: usize)
    ensures
        r == skip_spaces(s@, start as int),
        start <= r,
        start <= s@.len() ==> r <= s@.len(),
{
    let mut i: usize = start;
    while i < s.len() && is_space_byte(s[i])
        invariant
            start <= i,
            start <= s@.len() ==> i <= s@.len(),
            skip_spaces(s@, start as int) == skip_spaces(s@, i as int),
        decreases s.len() - i,
    {
        i += 1;
    }
    i
}

/// The first offset at or after `start` that holds white space, or the
/// length.
pub fn skip_word_in(s: &[u8], start: usize) -> (r: usize)
    ensures
        r == skip_word(s@, start as int),
        start <= r,
        start <= s@.len() ==> r <= s@.len(),
{
    let mut i: usize = start;
    while i < s.len() && !is_space_byte(s[i])
        invariant
            start <= i,
            start <= s@.len() ==> i <= s@.len(),
            skip_word(s@, start as int) == skip_word(s@, i as int),
        decreases s.len() - i,
    {
        i += 1;
    }
    i
}

/// The offset just after the last byte that is not white space, or 0.
pub open spec fn trim_end_at(s: Seq<u8>, n: int) -> int
    decreases n,
{
    if 0 < n <= s.len() && is_space(s[n - 1]) {
        trim_end_at(s, n - 1)
    } else {
        n
    }
}

/// `s` without the white space at its two ends.
pub open spec fn trim(s: Seq<u8>) -> Seq<u8> {
    let a = skip_spaces(s, 0);
    if a >= s.len() {
        Seq::empty()
    } else {
        s.subrange(a, trim_end_at(s, s.len() as int))
    }
}

/// Trimming the end stops behind the last byte that is no white space.
pub proof fn lemma_trim_end(s: Seq<u8>, n: int, a: int)
    requires
        0 <= a < n <= s.len(),
        !is_space(s[a]),
    ensures
        a < trim_end_at(s, n) <= n,
        !is_space(s[trim_end_at(s, n) - 1]),
        forall|j: int| trim_end_at(s, n) <= j < n ==> is_space(#[trigger] s[j]),
    decreases n,
{
    if is_space(s[n - 1]) {
        lemma_trim_end(s, n - 1, a);
    }
}

/// `s` without the white space at its two ends.
pub fn trim_bytes(s: &[u8]) -> (r: &[u8])
    ensures
        r@ == trim(s@),
{
    let a = skip_spaces_in(s, 0);
    if a >= s.len() {
        let r = vstd::slice::slice_subrange(s, 0, 0);
        assert(r@ =~= Seq::<u8>::empty());
        return r;
    }
    proof {
        lemma_skip_spaces(s@, 0);
        lemma_trim_end(s@, s@.len() as int, a as int);
    }
    let mut n: usize = s.len();
    while is_space_byte(s[n - 1])
        invariant
            a < n <= s.len(),
            !is_space(s@[a as int]),
            trim_end_at(s@, s@.len() as int) == trim_end_at(s@, n as int),
        decreases n,
    {
        n -= 1;
    }
    vstd::slice::slice_subrange(s, a, n)
}

/// The decimal digits of `n`, most significant first, without leading zeros.
pub open spec fn decimal(n: nat) -> Seq<u8>
    decreases n,
{
    if n < 10 {
        seq![(48 + n) as u8]
    } else {
        decimal(n / 10).push((48 + n % 10) as u8)
    }
}

/// Appends the decimal digits of `n` to `out`.
pub fn push_decimal(out: &mut Vec<u8>, n: u64)
    ensures
        final(out)@ == old(out)@ + decimal(n as nat),
    decreases n,
{
    if n >= 10 {
        push_decimal(out, n / 10);
    }
    let d: u8 = (n % 10) as u8;
    out.push(48 + d);
    assert(final(out)@ =~= old(out)@ + decimal(n as nat));
}

/// `n` in decimal, with zeros in front up to `width` digits; longer numbers
/// are not cut.
pub open spec fn padded(n: nat, width: nat) -> Seq<u8> {
    let d = decimal(n);
    if d.len() >= width {
        d
    } else {
        Seq::new((width - d.len()) as nat, |i: int| 48u8) + d
    }
}

/// The number of decimal digits of `n`.
pub fn decimal_len(n: u64) -> (r: usize)
    ensures
        r == decimal(n as nat).len(),
        1 <= r <= 20,
    decreases n,
{
    if n >= 10 {
        let r = decimal_len(n / 10);
        proof {
            lemma_decimal_bound(n as nat);
        }
        r + 1
    } else {
        1
    }
}

/// A number that fits 64 bits has at most twenty digits.
pub proof fn lemma_decimal_bound(n: nat)
    requires
        n <= u64::MAX,
    ensures
        decimal(n).len() <= 20,
{
    reveal_with_fuel(decimal, 21);
}

/// Appends `n` in decimal to `out`, with zeros in front up to `width` digits.
pub fn push_padded(out: &mut Vec<u8>, n: u64, width: usize)
    ensures
        final(out)@ == old(out)@ + padded(n as nat, width as nat),
{
    let len = decimal_len(n);
    let ghost start = out@;
    let mut k: usize = len;
    while k < width
        invariant
            len <= k,
            k == len || k <= width,
            out@ == start + Seq::new((k - len) as nat, |i: int| 48u8),
        decreases width - k,
    {
        out.push(48);
        k += 1;
        assert(out@ =~= start + Seq::new((k - len) as nat, |i: int| 48u8));
    }
    proof {
        if len >= width {
            assert(Seq::new((k - len) as nat, |i: int| 48u8) =~= Seq::<u8>::empty());
            assert(out@ =~= start);
        }
    }
    push_decimal(out, n);
    assert(out@ =~= start + padded(n as nat, width as nat));
}

/// `b` is a decimal digit.
pub open spec fn is_digit(b: u8) -> bool {
    48 <= b <= 57
}

/// `s` is made of decimal digits.
pub open spec fn all_digits(s: Seq<u8>) -> bool {
    forall|i: int| 0 <= i < s.len() ==> is_digit(#[trigger] s[i])
}

/// The number that the decimal digits `s` write.
pub open spec fn digits_value(s: Seq<u8>) -> nat
    decreases s.len(),
{
    if s.len() == 0 {
        0
    } else {
        digits_value(s.drop_last()) * 10 + (s.last() - 48) as nat
    }
}

/// `s` without a plus sign in front.
pub open spec fn unsigned_part(s: Seq<u8>) -> Seq<u8> {
    if s.len() > 0 && s[0] == 43 {
        s.skip(1)
    } else {
        s
    }
}

/// The port that `s` writes: an optional `+`, then one or more decimal
/// digits whose value is at most 65535. Anything else writes no port.
pub open spec fn parse_port(s: Seq<u8>) -> Option<u16> {
    let d = unsigned_part(s);
    if d.len() > 0 && all_digits(d) && digits_value(d) <= 65535 {
        Some(digits_value(d) as u16)
    } else {
        None
    }
}

/// The digits read so far never write more than all the digits.
pub proof fn lemma_digits_value_grows(s: Seq<u8>, k: int)
    requires
        0 <= k <= s.len(),
        all_digits(s),
    ensures
        digits_value(s.subrange(0, k)) <= digits_value(s),
    decreases s.len() - k,
{
    if k < s.len() {
        let t = s.subrange(0, k + 1);
        assert(t.drop_last() =~= s.subrange(0, k));
        assert(is_digit(s[k]));
        assert(t.last() == s[k]);
        lemma_digits_value_grows(s, k + 1);
    } else {
        assert(s.subrange(0, k) =~= s);
    }
}

/// Reads a port: as `u16` reads itself from text.
pub fn parse_port_bytes(s: &[u8]) -> (r: Option<u16>)
    ensures
        r == parse_port(s@),
{
    let start: usize = if s.len() > 0 && s[0] == 43 {
        1
    } else {
        0
    };
    let ghost d = unsigned_part(s@);
    assert(d =~= s@.subrange(start as int, s@.len() as int));
    if start >= s.len() {
        return None;
    }
    let mut acc: u32 = 0;
    let mut i: usize = start;
    while i < s.len()
        invariant
            start <= i <= s.len(),
            d == s@.subrange(start as int, s@.len() as int),
            d == unsigned_part(s@),
            all_digits(d.subrange(0, i - start)),
            acc == digits_value(d.subrange(0, i - start)),
            acc <= 65535,
        decreases s.len() - i,
    {
        let b = s[i];
        if b < 48 || b > 57 {
            assert(d[i - start] == b);
            return None;
        }
        let ghost t = d.subrange(0, i - start + 1);
        assert(t.drop_last() =~= d.subrange(0, i - start));
        assert(t.last() == b);
        assert(all_digits(t)) by {
            assert forall|j: int| 0 <= j < t.len() implies is_digit(#[trigger] t[j]) by {
                if j < i - start {
                    assert(d.subrange(0, i - start)[j] == t[j]);
                }
            }
        }
        let next: u32 = acc * 10 + (b - 48) as u32;
        if next > 65535 {
            proof {
                if all_digits(d) {
                    lemma_digits_value_grows(d, i - start + 1);
                }
            }
            return None;
        }
        acc = next;
        i += 1;
    }
    assert(d.subrange(0, i - start) =~= d);
    Some(acc as u16)
}

/// Appends a copy of `part` to `out`.
pub fn push_all(out: &mut Vec<u8>, part: &[u8])
    ensures
        final(out)@ == old(out)@ + part@,
{
    out.extend_from_slice(part);
    assert(final(out)@ =~= old(out)@ + part@);
}

/// An owned copy of `s`.
pub fn copy_of(s: &[u8]) -> (v: Vec<u8>)
    ensures
        v@ == s@,
{
    vstd::slice::slice_to_vec(s)
}

/// `a` and `b` hold the same bytes.
pub fn same_bytes(a: &[u8], b: &[u8]) -> (r: bool)
    ensures
        r == (a@ == b@),
{
    if a.len() != b.len() {
        return false;
    }
    let r = matches_at(a, b, 0);
    proof {
        assert(a@.subrange(0, b@.len() as int) =~= a@);
    }
    r
}

/// A pattern of one byte stands where that byte stands.
pub proof fn lemma_occurs_byte(s: Seq<u8>, b: u8, i: int)
    ensures
        occurs_at(s, seq![b], i) <==> (0 <= i < s.len() && s[i] == b),
{
    if 0 <= i < s.len() {
        if s[i] == b {
            assert(s.subrange(i, i + 1) =~= seq![b]);
        } else {
            assert(s.subrange(i, i + 1)[0] == s[i]);
        }
    }
}

/// Writing a number in decimal and reading the digits gives the number.
pub proof fn lemma_decimal_value(n: nat)
    ensures
        all_digits(decimal(n)),
        decimal(n).len() >= 1,
        digits_value(decimal(n)) == n,
    decreases n,
{
    if n < 10 {
        let d = decimal(n);
        assert(d.drop_last() =~= Seq::<u8>::empty());
        assert(digits_value(d.drop_last()) == 0);
    } else {
        lemma_decimal_value(n / 10);
        let d = decimal(n);
        assert(d.drop_last() =~= decimal(n / 10));
    }
}

/// A port written in decimal is read back as that port.
pub proof fn lemma_parse_decimal_port(p: u16)
    ensures
        parse_port(decimal(p as nat)) == Some(p),
{
    lemma_decimal_value(p as nat);
    assert(is_digit(decimal(p as nat)[0]));
}

} // verus!
