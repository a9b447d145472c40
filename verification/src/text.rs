//! Text as a sequence of characters: searching for a literal marker, cutting
//! before and after it, reading an unsigned number, and building strings.

use vstd::prelude::*;
use vstd::slice::slice_subrange;
use vstd::string::StringExecFns;

verus! {

/// `pat` stands in `s` at position `i`.
pub open spec fn matches_at(s: Seq<char>, pat: Seq<char>, i: int) -> bool {
    &&& 0 <= i
    &&& i + pat.len() <= s.len()
    &&& s.subrange(i, i + pat.len()) == pat
}

/// The first position at or after `i` where `pat` stands in `s`.
pub open spec fn find_from(s: Seq<char>, pat: Seq<char>, i: int) -> Option<int>
    decreases s.len() + 1 - i,
{
    if i < 0 || i + pat.len() > s.len() {
        None
    } else if matches_at(s, pat, i) {
        Some(i)
    } else {
        find_from(s, pat, i + 1)
    }
}

/// The first position where `pat` stands in `s`.
pub open spec fn find(s: Seq<char>, pat: Seq<char>) -> Option<int> {
    find_from(s, pat, 0)
}

/// The last position at or before `i` where `pat` stands in `s`.
pub open spec fn rfind_from(s: Seq<char>, pat: Seq<char>, i: int) -> Option<int>
    decreases i + 1,
{
    if i < 0 {
        None
    } else if matches_at(s, pat, i) {
        Some(i)
    } else {
        rfind_from(s, pat, i - 1)
    }
}

/// The last position where `pat` stands in `s`.
pub open spec fn rfind(s: Seq<char>, pat: Seq<char>) -> Option<int> {
    rfind_from(s, pat, s.len() - pat.len())
}

/// `pat` occurs somewhere in `s`.
pub open spec fn contains(s: Seq<char>, pat: Seq<char>) -> bool {
    find(s, pat) is Some
}

/// What stands before the first `pat` in `s`; all of `s` where there is none.
pub open spec fn before_first(s: Seq<char>, pat: Seq<char>) -> Seq<char> {
    match find(s, pat) {
        Some(i) => s.take(i),
        None => s,
    }
}

/// What stands after the last `pat` in `s`; all of `s` where there is none.
pub open spec fn after_last(s: Seq<char>, pat: Seq<char>) -> Seq<char> {
    match rfind(s, pat) {
        Some(i) => s.skip(i + pat.len()),
        None => s,
    }
}

/// `s` cut in two at the first `pat`, which belongs to neither part.
pub open spec fn split_once(s: Seq<char>, pat: Seq<char>) -> Option<(Seq<char>, Seq<char>)> {
    match find(s, pat) {
        Some(i) => Some((s.take(i), s.skip(i + pat.len()))),
        None => None,
    }
}

/// What `find_from` returns is a match, in range, with none between `i` and it;
/// `None` means that there is no match at or after `i`.
pub proof fn lemma_find_from(s: Seq<char>, pat: Seq<char>, i: int)
    requires
        0 <= i,
    ensures
        match find_from(s, pat, i) {
            Some(k) => i <= k && matches_at(s, pat, k) && forall|j: int|
                i <= j < k ==> !matches_at(s, pat, j),
            None => forall|j: int| i <= j ==> !matches_at(s, pat, j),
        },
    decreases s.len() + 1 - i,
{
    if i + pat.len() <= s.len() && !matches_at(s, pat, i) {
        lemma_find_from(s, pat, i + 1);
    }
}

/// What `rfind_from` returns is a match with none between it and `i`; `None`
/// means that there is no match at or before `i`.
pub proof fn lemma_rfind_from(s: Seq<char>, pat: Seq<char>, i: int)
    ensures
        match rfind_from(s, pat, i) {
            Some(k) => k <= i && matches_at(s, pat, k) && forall|j: int|
                k < j <= i ==> !matches_at(s, pat, j),
            None => forall|j: int| j <= i ==> !matches_at(s, pat, j),
        },
    decreases i + 1,
{
    if i >= 0 && !matches_at(s, pat, i) {
        lemma_rfind_from(s, pat, i - 1);
    }
}

/// Whether `pat` stands in `s` at position `i`.
pub fn is_match_at(s: &[char], pat: &[char], i: usize) -> (b: bool)
    ensures
        b == matches_at(s@, pat@, i as int),
{
    let n: usize = pat.len();
    let len: usize = s.len();
    if n > len || i > len - n {
        return false;
    }
    let mut k: usize = 0;
    while k < n
        invariant
            n == pat@.len(),
            len == s@.len(),
            i + n <= len,
            k <= n,
            forall|j: int| 0 <= j < k ==> s@[i + j] == pat@[j],
        decreases n - k,
    {
        if s[i + k] != pat[k] {
            proof {
                assert(s@.subrange(i as int, i + n)[k as int] == s@[i + k]);
            }
            return false;
        }
        k += 1;
    }
    proof {
        assert(s@.subrange(i as int, i + n) =~= pat@);
    }
    true
}

/// The first position where `pat` stands in `s`.
pub fn find_first(s: &[char], pat: &[char]) -> (r: Option<usize>)
    ensures
        match r {
            Some(i) => find(s@, pat@) == Some(i as int) && i + pat@.len() <= s@.len(),
            None => find(s@, pat@) is None,
        },
{
    if pat.len() > s.len() {
        return None;
    }
    let last: usize = s.len() - pat.len();
    let mut i: usize = 0;
    loop
        invariant
            last == s@.len() - pat@.len(),
            i <= last,
            find(s@, pat@) == find_from(s@, pat@, i as int),
        decreases last - i,
    {
        if is_match_at(s, pat, i) {
            return Some(i);
        }
        if i == last {
            proof {
                assert(find_from(s@, pat@, i + 1) is None);
            }
            return None;
        }
        i += 1;
    }
}

/// The last position where `pat` stands in `s`.
pub fn find_last(s: &[char], pat: &[char]) -> (r: Option<usize>)
    ensures
        match r {
            Some(i) => rfind(s@, pat@) == Some(i as int) && i + pat@.len() <= s@.len(),
            None => rfind(s@, pat@) is None,
        },
{
    if pat.len() > s.len() {
        return None;
    }
    let mut i: usize = s.len() - pat.len();
    loop
        invariant
            i <= s@.len() - pat@.len(),
            rfind(s@, pat@) == rfind_from(s@, pat@, i as int),
        decreases i,
    {
        if is_match_at(s, pat, i) {
            return Some(i);
        }
        if i == 0 {
            proof {
                assert(rfind_from(s@, pat@, -1) is None);
            }
            return None;
        }
        i -= 1;
    }
}

/// Whether `pat` occurs in `s`.
pub fn has(s: &[char], pat: &[char]) -> (b: bool)
    ensures
        b == contains(s@, pat@),
{
    find_first(s, pat).is_some()
}

/// What stands before the first `pat` in `s`.
pub fn cut_before_first<'a>(s: &'a [char], pat: &[char]) -> (r: &'a [char])
    ensures
        r@ == before_first(s@, pat@),
{
    match find_first(s, pat) {
        Some(i) => {
            let r = slice_subrange(s, 0, i);
            r
        },
        None => s,
    }
}

/// What stands after the last `pat` in `s`.
pub fn cut_after_last<'a>(s: &'a [char], pat: &[char]) -> (r: &'a [char])
    ensures
        r@ == after_last(s@, pat@),
{
    match find_last(s, pat) {
        Some(i) => {
            let len: usize = s.len();
            let r = slice_subrange(s, i + pat.len(), len);
            r
        },
        None => s,
    }
}

/// Cuts `s` in two at the first `pat`.
pub fn cut_once<'a>(s: &'a [char], pat: &[char]) -> (r: Option<(&'a [char], &'a [char])>)
    ensures
        match r {
            Some((a, b)) => split_once(s@, pat@) == Some((a@, b@)),
            None => split_once(s@, pat@) is None,
        },
{
    match find_first(s, pat) {
        Some(i) => {
            let len: usize = s.len();
            let a = slice_subrange(s, 0, i);
            let b = slice_subrange(s, i + pat.len(), len);
            Some((a, b))
        },
        None => None,
    }
}

/// Whether `s` is exactly the text `lit`.
pub fn is_text(s: &[char], lit: &str) -> (b: bool)
    ensures
        b == (s@ == lit@),
{
    let pat = chars_of(lit);
    if s.len() != pat.len() {
        return false;
    }
    let b = is_match_at(s, pat.as_slice(), 0);
    proof {
        assert(s@.subrange(0, s@.len() as int) =~= s@);
    }
    b
}

/// The characters of `s`, in order.
pub fn chars_of(s: &str) -> (v: Vec<char>)
    ensures
        v@ == s@,
{
    let mut v: Vec<char> = Vec::new();
    for c in it: s.chars()
        invariant
            it.seq() == s@,
            v@ == it.seq().take(it.index()),
    {
        v.push(c);
        proof {
            assert(v@ =~= it.seq().take(it.index() + 1));
        }
    }
    proof {
        assert(v@ =~= s@);
    }
    v
}

/// Taken on trust: `String::push` of the standard library keeps what the
/// string held and puts the one character `c` behind it.
pub assume_specification[ String::push ](s: &mut String, c: char)
    ensures
        final(s)@ == old(s)@.push(c),
;

/// The string made of the characters of `v`, in order.
pub fn string_of(v: &[char]) -> (s: String)
    ensures
        s@ == v@,
{
    let mut s = String::new();
    let n: usize = v.len();
    let mut i: usize = 0;
    while i < n
        invariant
            n == v@.len(),
            i <= n,
            s@ == v@.take(i as int),
        decreases n - i,
    {
        s.push(v[i]);
        i += 1;
        proof {
            assert(s@ =~= v@.take(i as int));
        }
    }
    proof {
        assert(s@ =~= v@);
    }
    s
}

/// `c` is one of the ten decimal digits.
pub open spec fn is_digit(c: char) -> bool {
    '0' <= c <= '9'
}

/// Every character of `s` is a decimal digit.
pub open spec fn all_digits(s: Seq<char>) -> bool {
    forall|i: int| 0 <= i < s.len() ==> is_digit(#[trigger] s[i])
}

/// The number that the decimal digits `s` write; 0 for no digits.
pub open spec fn digits_value(s: Seq<char>) -> int
    decreases s.len(),
{
    if s.len() == 0 {
        0
    } else {
        digits_value(s.drop_last()) * 10 + (s.last() as int - '0' as int)
    }
}

/// `s` without one leading plus sign.
pub open spec fn unsigned_part(s: Seq<char>) -> Seq<char> {
    if s.len() > 0 && s[0] == '+' {
        s.skip(1)
    } else {
        s
    }
}

/// The number that `s` writes: an optional plus sign, then one or more decimal
/// digits and nothing else, with a value that fits in 32 bits.
pub open spec fn parse_u32(s: Seq<char>) -> Option<u32> {
    let d = unsigned_part(s);
    if d.len() > 0 && all_digits(d) && digits_value(d) <= u32::MAX {
        Some(digits_value(d) as u32)
    } else {
        None
    }
}

/// The digits read so far never write more than all the digits do.
pub proof fn lemma_digits_value_prefix(d: Seq<char>, k: int)
    requires
        all_digits(d),
        0 <= k <= d.len(),
    ensures
        0 <= digits_value(d.take(k)) <= digits_value(d),
    decreases d.len(),
{
    if k == d.len() {
        assert(d.take(k) =~= d);
        if k > 0 {
            lemma_digits_value_prefix(d.drop_last(), k - 1);
            assert(d.drop_last().take(k - 1) =~= d.drop_last());
            assert(is_digit(d[k - 1]));
        }
    } else {
        lemma_digits_value_prefix(d.drop_last(), k);
        assert(d.drop_last().take(k) =~= d.take(k));
        assert(is_digit(d[d.len() - 1]));
    }
}

/// Reads an unsigned number of at most 32 bits.
pub fn read_u32(s: &[char]) -> (r: Option<u32>)
    ensures
        r == parse_u32(s@),
{
    let n: usize = s.len();
    let start: usize = if n > 0 && s[0] == '+' { 1 } else { 0 };
    let d = slice_subrange(s, start, n);
    let m: usize = d.len();
    if m == 0 {
        return None;
    }
    let mut acc: u64 = 0;
    let mut k: usize = 0;
    while k < m
        invariant
            d@ == unsigned_part(s@),
            m == d@.len(),
            k <= m,
            all_digits(d@.take(k as int)),
            acc == digits_value(d@.take(k as int)),
            acc <= u32::MAX,
        decreases m - k,
    {
        let c: char = d[k];
        if c < '0' || c > '9' {
            proof {
                assert(!is_digit(d@[k as int]));
            }
            return None;
        }
        let v: u64 = (c as u32 - '0' as u32) as u64;
        let next: u64 = acc * 10 + v;
        proof {
            let p = d@.take(k + 1);
            assert(p.drop_last() =~= d@.take(k as int));
            assert(p.last() == c);
            assert(next == digits_value(p));
            assert forall|i: int| 0 <= i < p.len() implies is_digit(#[trigger] p[i]) by {
                if i < k {
                    assert(is_digit(d@.take(k as int)[i]));
                }
            }
        }
        if next > 4294967295 {
            proof {
                if all_digits(d@) {
                    lemma_digits_value_prefix(d@, k + 1);
                }
            }
            return None;
        }
        acc = next;
        k += 1;
    }
    proof {
        assert(d@.take(k as int) =~= d@);
    }
    Some(acc as u32)
}

/// `s` cut to at most `n` characters, with three dots behind it where something
/// was cut off.
pub open spec fn preview(s: Seq<char>, n: nat) -> Seq<char> {
    if s.len() > n {
        s.take(n as int) + "..."@
    } else {
        s
    }
}

/// A short form of `s` for a message: its first `n` characters, and three dots
/// if there were more.
pub fn preview_of(s: &[char], n: usize) -> (r: String)
    ensures
        r@ == preview(s@, n as nat),
{
    if s.len() > n {
        let mut r = string_of(slice_subrange(s, 0, n));
        r.append("...");
        r
    } else {
        string_of(s)
    }
}

/// The character that writes the digit `d`.
pub open spec fn digit_char(d: int) -> char {
    ('0' as int + d) as char
}

/// `n` in decimal, without leading zeros.
pub open spec fn decimal(n: nat) -> Seq<char>
    decreases n,
{
    if n < 10 {
        seq![digit_char(n as int)]
    } else {
        decimal(n / 10).push(digit_char((n % 10) as int))
    }
}

/// Appends `n` in decimal to `s`.
pub fn push_decimal(s: &mut String, n: u32)
    ensures
        final(s)@ == old(s)@ + decimal(n as nat),
    decreases n,
{
    if n >= 10 {
        push_decimal(s, n / 10);
    }
    let d: u8 = (n % 10) as u8;
    let c: char = (48u8 + d) as char;
    s.push(c);
    proof {
        assert(c == digit_char((n % 10) as int));
        assert(s@ =~= old(s)@ + decimal(n as nat));
    }
}

} // verus!
