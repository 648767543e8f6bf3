//! Verified text utilities.
//!
//! Everything this crate reads arrives as text (D-Bus strings, `/proc` and
//! `/sys` file contents, command output), so the probes share a small set of
//! string operations: equality, prefix/suffix tests, prefix stripping,
//! whitespace trimming, substring search and unsigned-number parsing.  Each
//! operation has a direct specification over the string views (`Seq<char>`).

use vstd::prelude::*;
use vstd::string::StrSliceExecFns;
use vstd::string::StringExecFns;

verus! {

/// Character-for-character string equality.
pub fn str_eq(a: &str, b: &str) -> (r: bool)
    ensures
        r == (a@ == b@),
{
    let an = a.unicode_len();
    let bn = b.unicode_len();
    if an != bn {
        return false;
    }
    let mut i: usize = 0;
    while i < an
        invariant
            an == a@.len(),
            an == b@.len(),
            i <= an,
            forall|k: int| 0 <= k < i ==> a@[k] == b@[k],
        decreases an - i,
    {
        if a.get_char(i) != b.get_char(i) {
            return false;
        }
        i = i + 1;
    }
    proof {
        assert(a@ =~= b@);
    }
    true
}

/// Whether `p@` is a prefix of `s@`.
pub fn str_starts_with(s: &str, p: &str) -> (r: bool)
    ensures
        r == p@.is_prefix_of(s@),
{
    let sn = s.unicode_len();
    let pn = p.unicode_len();
    if pn > sn {
        return false;
    }
    let mut i: usize = 0;
    while i < pn
        invariant
            sn == s@.len(),
            pn == p@.len(),
            pn <= sn,
            i <= pn,
            forall|k: int| 0 <= k < i ==> s@[k] == p@[k],
        decreases pn - i,
    {
        if s.get_char(i) != p.get_char(i) {
            proof {
                assert(s@.subrange(0, p@.len() as int)[i as int] == s@[i as int]);
            }
            return false;
        }
        i = i + 1;
    }
    proof {
        assert(p@ =~= s@.subrange(0, p@.len() as int));
    }
    true
}

/// Whether `p@` is a suffix of `s@`.
pub fn str_ends_with(s: &str, p: &str) -> (r: bool)
    ensures
        r == p@.is_suffix_of(s@),
{
    let sn = s.unicode_len();
    let pn = p.unicode_len();
    if pn > sn {
        return false;
    }
    let off = sn - pn;
    let mut i: usize = 0;
    while i < pn
        invariant
            sn == s@.len(),
            pn == p@.len(),
            pn <= sn,
            off == sn - pn,
            i <= pn,
            forall|k: int| 0 <= k < i ==> s@[off + k] == p@[k],
        decreases pn - i,
    {
        if s.get_char(off + i) != p.get_char(i) {
            proof {
                assert(s@.subrange(off as int, s@.len() as int)[i as int] == s@[off + i]);
            }
            return false;
        }
        i = i + 1;
    }
    proof {
        assert(p@ =~= s@.subrange(off as int, s@.len() as int));
    }
    true
}

/// What remains of `s` once a single leading occurrence of `p` is removed;
/// a string that does not begin with `p` is left unchanged.
pub open spec fn strip_prefix_spec(s: Seq<char>, p: Seq<char>) -> Seq<char> {
    if p.is_prefix_of(s) {
        s.skip(p.len() as int)
    } else {
        s
    }
}

/// Remove one leading occurrence of `p` from `s`, if there is one.
pub fn strip_prefix(s: &str, p: &str) -> (r: String)
    ensures
        r@ == strip_prefix_spec(s@, p@),
{
    if str_starts_with(s, p) {
        let sub = s.substring_char(p.unicode_len(), s.unicode_len());
        proof {
            assert(sub@ =~= s@.skip(p@.len() as int));
        }
        String::from_str(sub)
    } else {
        String::from_str(s)
    }
}

/// Prefix stripping removes exactly one occurrence of the prefix, and only
/// at the start: with the prefix present the remainder alone is kept, and a
/// string that does not begin with the prefix is left untouched.
pub proof fn lemma_strip_prefix_exact(s: Seq<char>, p: Seq<char>)
    ensures
        p.is_prefix_of(s) ==> strip_prefix_spec(s, p) == s.skip(p.len() as int),
        !p.is_prefix_of(s) ==> strip_prefix_spec(s, p) == s,
{
}

/// Stripping twice is the same as stripping once, for every string whose
/// remainder after one strip does not itself begin with the prefix again.
pub proof fn lemma_strip_prefix_idempotent(s: Seq<char>, p: Seq<char>)
    requires
        !p.is_prefix_of(strip_prefix_spec(s, p)),
    ensures
        strip_prefix_spec(strip_prefix_spec(s, p), p) == strip_prefix_spec(s, p),
{
}

/// The whitespace characters that occur in the text this crate reads.
pub open spec fn is_space(c: char) -> bool {
    c == ' ' || c == '\t' || c == '\n' || c == '\r'
}

/// Executable counterpart of [`is_space`].
pub fn is_space_char(c: char) -> (r: bool)
    ensures
        r == is_space(c),
{
    c == ' ' || c == '\t' || c == '\n' || c == '\r'
}

/// `s` with its leading whitespace removed.
pub open spec fn trim_start_spec(s: Seq<char>) -> Seq<char>
    decreases s.len(),
{
    if s.len() > 0 && is_space(s[0]) {
        trim_start_spec(s.drop_first())
    } else {
        s
    }
}

/// `s` with its trailing whitespace removed.
pub open spec fn trim_end_spec(s: Seq<char>) -> Seq<char>
    decreases s.len(),
{
    if s.len() > 0 && is_space(s.last()) {
        trim_end_spec(s.drop_last())
    } else {
        s
    }
}

/// `s` with leading and trailing whitespace removed.
pub open spec fn trim_spec(s: Seq<char>) -> Seq<char> {
    trim_end_spec(trim_start_spec(s))
}

proof fn lemma_trim_start_at(s: Seq<char>, i: int)
    requires
        0 <= i <= s.len(),
        forall|k: int| 0 <= k < i ==> is_space(s[k]),
        i < s.len() ==> !is_space(s[i]),
    ensures
        trim_start_spec(s) == s.skip(i),
    decreases i,
{
    if i == 0 {
        assert(s.skip(0) =~= s);
    } else {
        lemma_trim_start_at(s.drop_first(), i - 1);
        assert(s.drop_first().skip(i - 1) =~= s.skip(i));
    }
}

proof fn lemma_trim_end_at(s: Seq<char>, j: int)
    requires
        0 <= j <= s.len(),
        forall|k: int| j <= k < s.len() ==> is_space(s[k]),
        j > 0 ==> !is_space(s[j - 1]),
    ensures
        trim_end_spec(s) == s.take(j),
    decreases s.len() - j,
{
    if j == s.len() {
        assert(s.take(j) =~= s);
    } else {
        lemma_trim_end_at(s.drop_last(), j);
        assert(s.drop_last().take(j) =~= s.take(j));
    }
}

/// Remove leading and trailing whitespace from `s`.
pub fn trim<'a>(s: &'a str) -> (r: &'a str)
    ensures
        r@ == trim_spec(s@),
{
    let n = s.unicode_len();
    let mut start: usize = 0;
    while start < n && is_space_char(s.get_char(start))
        invariant
            n == s@.len(),
            start <= n,
            forall|k: int| 0 <= k < start ==> is_space(s@[k]),
        decreases n - start,
    {
        start = start + 1;
    }
    let mut end: usize = n;
    while end > start && is_space_char(s.get_char(end - 1))
        invariant
            n == s@.len(),
            start <= end <= n,
            forall|k: int| end <= k < n ==> is_space(s@[k]),
            start < n ==> !is_space(s@[start as int]),
        decreases end,
    {
        end = end - 1;
    }
    let r = s.substring_char(start, end);
    proof {
        lemma_trim_start_at(s@, start as int);
        let t = s@.skip(start as int);
        lemma_trim_end_at(t, end - start);
        assert(t.take(end - start) =~= s@.subrange(start as int, end as int));
    }
    r
}

/// Length of the leading run of non-whitespace characters in `s`.
pub open spec fn first_space_spec(s: Seq<char>) -> int
    decreases s.len(),
{
    if s.len() == 0 {
        0
    } else if is_space(s[0]) {
        0
    } else {
        1 + first_space_spec(s.drop_first())
    }
}

pub proof fn lemma_first_space_bounds(s: Seq<char>)
    ensures
        0 <= first_space_spec(s) <= s.len(),
    decreases s.len(),
{
    if s.len() > 0 && !is_space(s[0]) {
        lemma_first_space_bounds(s.drop_first());
    }
}

proof fn lemma_first_space_at(s: Seq<char>, k: int)
    requires
        0 <= k <= s.len(),
        forall|j: int| 0 <= j < k ==> !is_space(s[j]),
        k < s.len() ==> is_space(s[k]),
    ensures
        first_space_spec(s) == k,
    decreases k,
{
    if k > 0 {
        lemma_first_space_at(s.drop_first(), k - 1);
    }
}

/// The whitespace-separated tokens of `s`, in order.
pub open spec fn tokens_spec(s: Seq<char>) -> Seq<Seq<char>>
    decreases s.len(),
    via tokens_spec_dec
{
    if s.len() == 0 {
        Seq::empty()
    } else if is_space(s[0]) {
        tokens_spec(s.drop_first())
    } else {
        seq![s.subrange(0, first_space_spec(s))] + tokens_spec(s.skip(first_space_spec(s)))
    }
}

#[via_fn]
proof fn tokens_spec_dec(s: Seq<char>) {
    if s.len() > 0 && !is_space(s[0]) {
        lemma_first_space_bounds(s.drop_first());
    }
}

/// Split `s` at whitespace into its tokens.
pub fn split_whitespace(s: &str) -> (r: Vec<String>)
    ensures
        r.deep_view() == tokens_spec(s@),
    decreases s@.len(),
{
    let n = s.unicode_len();
    if n == 0 {
        let r: Vec<String> = Vec::new();
        proof {
            assert(r.deep_view() =~= tokens_spec(s@));
        }
        return r;
    }
    if is_space_char(s.get_char(0)) {
        let rest = s.substring_char(1, n);
        proof {
            assert(rest@ =~= s@.drop_first());
        }
        return split_whitespace(rest);
    }
    let mut k: usize = 1;
    while k < n && !is_space_char(s.get_char(k))
        invariant
            n == s@.len(),
            1 <= k <= n,
            forall|j: int| 0 <= j < k ==> !is_space(s@[j]),
            !is_space(s@[0]),
        decreases n - k,
    {
        k = k + 1;
    }
    proof {
        lemma_first_space_at(s@, k as int);
    }
    let token = s.substring_char(0, k);
    let rest = s.substring_char(k, n);
    let mut r = split_whitespace(rest);
    let ghost r0 = r.deep_view();
    r.insert(0, String::from_str(token));
    proof {
        assert(rest@ =~= s@.skip(k as int));
        assert(r.deep_view() =~= seq![s@.subrange(0, k as int)] + r0);
    }
    r
}

/// A decimal digit.
pub open spec fn is_digit(c: char) -> bool {
    '0' <= c && c <= '9'
}

/// Numeric value of a decimal digit.
pub open spec fn digit_val(c: char) -> nat {
    (c as int - '0' as int) as nat
}

/// Whether every character of `s` is a decimal digit.
pub open spec fn all_digits(s: Seq<char>) -> bool {
    forall|i: int| 0 <= i < s.len() ==> is_digit(s[i])
}

/// The number a sequence of decimal digits denotes, most significant first.
pub open spec fn digits_val(s: Seq<char>) -> nat
    decreases s.len(),
{
    if s.len() == 0 {
        0
    } else {
        digits_val(s.drop_last()) * 10 + digit_val(s.last())
    }
}

proof fn lemma_digits_val_grows(s: Seq<char>, i: int)
    requires
        0 <= i <= s.len(),
        all_digits(s),
    ensures
        digits_val(s.subrange(0, i)) <= digits_val(s),
    decreases s.len() - i,
{
    if i < s.len() {
        assert(s.subrange(0, i + 1).drop_last() =~= s.subrange(0, i));
        assert(s.subrange(0, i + 1).last() == s[i]);
        lemma_digits_val_grows(s, i + 1);
    } else {
        assert(s.subrange(0, i) =~= s);
    }
}

/// The number a non-empty, all-digit string denotes, when it fits.
pub open spec fn parse_u64_spec(s: Seq<char>) -> Option<u64> {
    if s.len() > 0 && all_digits(s) && digits_val(s) <= u64::MAX {
        Some(digits_val(s) as u64)
    } else {
        None
    }
}

/// Parse a non-empty, all-digit string as an unsigned number.
///
/// Returns `None` exactly when the string is empty, holds a non-digit, or
/// denotes a number too large for `u64`.
pub fn parse_u64(s: &str) -> (r: Option<u64>)
    ensures
        r == parse_u64_spec(s@),
{
    let n = s.unicode_len();
    if n == 0 {
        return None;
    }
    let mut acc: u64 = 0;
    let mut i: usize = 0;
    while i < n
        invariant
            n == s@.len(),
            i <= n,
            all_digits(s@.subrange(0, i as int)),
            acc == digits_val(s@.subrange(0, i as int)),
        decreases n - i,
    {
        let c = s.get_char(i);
        let cv = c as u32;
        if cv < 48 || cv > 57 {
            proof {
                assert(!is_digit(s@[i as int]));
            }
            return None;
        }
        let d: u64 = (cv - 48) as u64;
        proof {
            assert(s@.subrange(0, i + 1).drop_last() =~= s@.subrange(0, i as int));
            assert(s@.subrange(0, i + 1).last() == s@[i as int]);
            assert(digits_val(s@.subrange(0, i + 1)) == acc * 10 + d);
        }
        let q = (u64::MAX - d) / 10;
        if acc > q {
            proof {
                assert(acc * 10 + d > u64::MAX) by (nonlinear_arith)
                    requires
                        acc > q,
                        q == (u64::MAX - d) / 10,
                        d <= 9u64,
                ;
                if all_digits(s@) {
                    lemma_digits_val_grows(s@, i + 1);
                }
            }
            return None;
        }
        proof {
            assert(acc * 10 + d <= u64::MAX) by (nonlinear_arith)
                requires
                    acc <= q,
                    q == (u64::MAX - d) / 10,
                    d <= 9u64,
            ;
        }
        acc = acc * 10 + d;
        i = i + 1;
    }
    proof {
        assert(s@.subrange(0, n as int) =~= s@);
    }
    Some(acc)
}

/// The digit character for a value below ten.
pub open spec fn digit_char(d: nat) -> char {
    if d == 0 {
        '0'
    } else if d == 1 {
        '1'
    } else if d == 2 {
        '2'
    } else if d == 3 {
        '3'
    } else if d == 4 {
        '4'
    } else if d == 5 {
        '5'
    } else if d == 6 {
        '6'
    } else if d == 7 {
        '7'
    } else if d == 8 {
        '8'
    } else {
        '9'
    }
}

/// The decimal rendering of a number, most significant digit first, no
/// leading zero.
pub open spec fn dec_spec(v: nat) -> Seq<char>
    decreases v,
{
    if v < 10 {
        seq![digit_char(v)]
    } else {
        dec_spec(v / 10).push(digit_char(v % 10))
    }
}

fn digit_str(d: u64) -> (r: &'static str)
    requires
        d < 10,
    ensures
        r@.len() == 1,
        r@[0] == digit_char(d as nat),
{
    proof {
        reveal_strlit("0");
        reveal_strlit("1");
        reveal_strlit("2");
        reveal_strlit("3");
        reveal_strlit("4");
        reveal_strlit("5");
        reveal_strlit("6");
        reveal_strlit("7");
        reveal_strlit("8");
        reveal_strlit("9");
    }
    if d == 0 {
        "0"
    } else if d == 1 {
        "1"
    } else if d == 2 {
        "2"
    } else if d == 3 {
        "3"
    } else if d == 4 {
        "4"
    } else if d == 5 {
        "5"
    } else if d == 6 {
        "6"
    } else if d == 7 {
        "7"
    } else if d == 8 {
        "8"
    } else {
        "9"
    }
}

/// Render a number in decimal.
pub fn u64_to_string(v: u64) -> (r: String)
    ensures
        r@ == dec_spec(v as nat),
    decreases v,
{
    if v < 10 {
        let r = String::from_str(digit_str(v));
        proof {
            assert(r@ =~= seq![digit_char(v as nat)]);
        }
        r
    } else {
        let mut r = u64_to_string(v / 10);
        let ghost r0 = r@;
        r.append(digit_str(v % 10));
        proof {
            assert(r@ =~= dec_spec((v / 10) as nat).push(digit_char((v % 10) as nat)));
        }
        r
    }
}

/// The number a string denotes once surrounding whitespace is ignored.
pub open spec fn parse_trimmed_u64_spec(s: Seq<char>) -> Option<u64> {
    parse_u64_spec(trim_spec(s))
}

/// Parse a number, ignoring surrounding whitespace.
pub fn parse_trimmed_u64(s: &str) -> (r: Option<u64>)
    ensures
        r == parse_trimmed_u64_spec(s@),
{
    parse_u64(trim(s))
}

/// Whether `p` occurs in `s` starting at position `i`.
pub open spec fn match_at(s: Seq<char>, p: Seq<char>, i: int) -> bool {
    0 <= i && i + p.len() <= s.len() && s.subrange(i, i + p.len()) =~= p
}

/// Whether `p` occurs in `s` starting at position `i` (executable form).
pub fn matches_at(s: &str, p: &str, i: usize) -> (r: bool)
    requires
        i <= s@.len(),
    ensures
        r == match_at(s@, p@, i as int),
{
    let sn = s.unicode_len();
    let pn = p.unicode_len();
    if pn > sn - i {
        return false;
    }
    let mut k: usize = 0;
    while k < pn
        invariant
            sn == s@.len(),
            pn == p@.len(),
            i + pn <= sn,
            k <= pn,
            forall|j: int| 0 <= j < k ==> s@[i + j] == p@[j],
        decreases pn - k,
    {
        if s.get_char(i + k) != p.get_char(k) {
            proof {
                assert(s@.subrange(i as int, i + p@.len())[k as int] == s@[i + k]);
            }
            return false;
        }
        k = k + 1;
    }
    proof {
        assert(s@.subrange(i as int, i + p@.len()) =~= p@);
    }
    true
}

/// Position of the first occurrence of `p` in `s`, if any.
pub fn find_str(s: &str, p: &str) -> (r: Option<usize>)
    ensures
        match r {
            Some(i) => match_at(s@, p@, i as int) && forall|j: int|
                0 <= j < i ==> !match_at(s@, p@, j),
            None => forall|j: int| !match_at(s@, p@, j),
        },
{
    let sn = s.unicode_len();
    let mut i: usize = 0;
    while i < sn
        invariant
            sn == s@.len(),
            i <= sn,
            forall|j: int| 0 <= j < i ==> !match_at(s@, p@, j),
        decreases sn - i,
    {
        if matches_at(s, p, i) {
            return Some(i);
        }
        i = i + 1;
    }
    if matches_at(s, p, sn) {
        return Some(sn);
    }
    None
}

/// Position of the last occurrence of `p` in `s`, if any.
pub fn rfind_str(s: &str, p: &str) -> (r: Option<usize>)
    ensures
        match r {
            Some(i) => match_at(s@, p@, i as int) && forall|j: int|
                i < j ==> !match_at(s@, p@, j),
            None => forall|j: int| !match_at(s@, p@, j),
        },
{
    let sn = s.unicode_len();
    let mut i: usize = sn;
    if matches_at(s, p, i) {
        return Some(i);
    }
    while i > 0
        invariant
            sn == s@.len(),
            i <= sn,
            forall|j: int| i <= j ==> !match_at(s@, p@, j),
        decreases i,
    {
        i = i - 1;
        if matches_at(s, p, i) {
            return Some(i);
        }
    }
    None
}

/// Position of the first occurrence of the character `c` in `s`, if any.
pub fn find_char(s: &str, c: char) -> (r: Option<usize>)
    ensures
        match r {
            Some(i) => 0 <= i < s@.len() && s@[i as int] == c && forall|j: int|
                0 <= j < i ==> s@[j] != c,
            None => forall|j: int| 0 <= j < s@.len() ==> s@[j] != c,
        },
{
    let n = s.unicode_len();
    let mut i: usize = 0;
    while i < n
        invariant
            n == s@.len(),
            i <= n,
            forall|j: int| 0 <= j < i ==> s@[j] != c,
        decreases n - i,
    {
        if s.get_char(i) == c {
            return Some(i);
        }
        i = i + 1;
    }
    None
}

/// `i` is the position of the first occurrence of `p` in `s`.
pub open spec fn found_first_match(s: Seq<char>, p: Seq<char>, i: int) -> bool {
    match_at(s, p, i) && forall|j: int| 0 <= j < i ==> !match_at(s, p, j)
}

/// Whether `p` occurs in `s` at all.
pub open spec fn has_first_match(s: Seq<char>, p: Seq<char>) -> bool {
    exists|i: int| found_first_match(s, p, i)
}

/// Position of the first occurrence of `p` in `s`.
pub open spec fn first_match_at(s: Seq<char>, p: Seq<char>) -> int {
    choose|i: int| found_first_match(s, p, i)
}

/// `i` is the position of the last occurrence of `p` in `s`.
pub open spec fn found_last_match(s: Seq<char>, p: Seq<char>, i: int) -> bool {
    match_at(s, p, i) && forall|j: int| j > i ==> !match_at(s, p, j)
}

/// Whether `p` occurs in `s` at all, seen from the end.
pub open spec fn has_last_match(s: Seq<char>, p: Seq<char>) -> bool {
    exists|i: int| found_last_match(s, p, i)
}

/// Position of the last occurrence of `p` in `s`.
pub open spec fn last_match_at(s: Seq<char>, p: Seq<char>) -> int {
    choose|i: int| found_last_match(s, p, i)
}

/// `i` is the position of the first occurrence of the character `c` in `s`.
pub open spec fn found_first_char(s: Seq<char>, c: char, i: int) -> bool {
    0 <= i < s.len() && s[i] == c && forall|j: int| 0 <= j < i ==> s[j] != c
}

/// Whether `c` occurs in `s` at all.
pub open spec fn has_first_char(s: Seq<char>, c: char) -> bool {
    exists|i: int| found_first_char(s, c, i)
}

/// Position of the first occurrence of the character `c` in `s`.
pub open spec fn first_char_at(s: Seq<char>, c: char) -> int {
    choose|i: int| found_first_char(s, c, i)
}

/// Whether some element of `list` equals `x`, character for character.
pub fn contains_str(list: &Vec<String>, x: &str) -> (r: bool)
    ensures
        r == list.deep_view().contains(x@),
{
    let n = list.len();
    let mut i: usize = 0;
    while i < n
        invariant
            n == list.len(),
            i <= n,
            forall|j: int| 0 <= j < i ==> list.deep_view()[j] != x@,
        decreases n - i,
    {
        if str_eq(list[i].as_str(), x) {
            proof {
                assert(list.deep_view()[i as int] == x@);
            }
            return true;
        }
        i = i + 1;
    }
    proof {
        assert(forall|j: int|
            0 <= j < list.deep_view().len() ==> list.deep_view()[j] != x@);
    }
    false
}

} // verus!
