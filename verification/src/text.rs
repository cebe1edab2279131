//! Character-level text operations with their mathematical meaning.
use vstd::prelude::*;

verus! {

// ------------------------------------------------------------------
// Specifications
// ------------------------------------------------------------------

/// `c` is one of the separators `seps`.
pub open spec fn is_sep(c: char, seps: Seq<char>) -> bool {
    seps.contains(c)
}

/// Splitting `s` at every separator, `cur` being the piece gathered so far.
pub open spec fn split_acc(s: Seq<char>, seps: Seq<char>, cur: Seq<char>) -> Seq<Seq<char>>
    decreases s.len(),
{
    if s.len() == 0 {
        seq![cur]
    } else if is_sep(s[0], seps) {
        seq![cur] + split_acc(s.drop_first(), seps, Seq::empty())
    } else {
        split_acc(s.drop_first(), seps, cur.push(s[0]))
    }
}

pub proof fn lemma_split_acc_nonempty(s: Seq<char>, seps: Seq<char>, cur: Seq<char>)
    ensures
        split_acc(s, seps, cur).len() >= 1,
    decreases s.len(),
{
    if s.len() > 0 {
        if is_sep(s[0], seps) {
            lemma_split_acc_nonempty(s.drop_first(), seps, Seq::empty());
        } else {
            lemma_split_acc_nonempty(s.drop_first(), seps, cur.push(s[0]));
        }
    }
}

/// Splitting a concatenation: the pieces of `s` but the last, then the
/// pieces of `t` with the last piece of `s` carried on.
pub proof fn lemma_split_acc_concat(s: Seq<char>, t: Seq<char>, seps: Seq<char>, cur: Seq<char>)
    ensures
        split_acc(s + t, seps, cur) == split_acc(s, seps, cur).drop_last() + split_acc(
            t,
            seps,
            split_acc(s, seps, cur).last(),
        ),
    decreases s.len(),
{
    if s.len() == 0 {
        assert(s + t =~= t);
        assert(seq![cur].drop_last() + split_acc(t, seps, cur) =~= split_acc(t, seps, cur));
    } else {
        assert((s + t).drop_first() =~= s.drop_first() + t);
        assert((s + t)[0] == s[0]);
        if is_sep(s[0], seps) {
            let a = split_acc(s.drop_first(), seps, Seq::empty());
            lemma_split_acc_concat(s.drop_first(), t, seps, Seq::empty());
            lemma_split_acc_nonempty(s.drop_first(), seps, Seq::empty());
            assert((seq![cur] + a).drop_last() =~= seq![cur] + a.drop_last());
            assert((seq![cur] + a).last() == a.last());
            assert(seq![cur] + (a.drop_last() + split_acc(t, seps, a.last())) =~= (seq![cur] + a.drop_last()) + split_acc(t, seps, a.last()));
        } else {
            lemma_split_acc_concat(s.drop_first(), t, seps, cur.push(s[0]));
        }
    }
}

/// Text without separators is carried into one piece.
pub proof fn lemma_split_acc_plain(t: Seq<char>, seps: Seq<char>, cur: Seq<char>)
    requires
        forall|i: int| 0 <= i < t.len() ==> !is_sep(#[trigger] t[i], seps),
    ensures
        split_acc(t, seps, cur) == seq![cur + t],
    decreases t.len(),
{
    if t.len() == 0 {
        assert(cur + t =~= cur);
    } else {
        assert(!is_sep(t[0], seps));
        lemma_split_acc_plain(t.drop_first(), seps, cur.push(t[0]));
        assert(cur.push(t[0]) + t.drop_first() =~= cur + t);
    }
}

/// The pieces of `s` between separators, as `str::split` yields them:
/// always at least one piece, empty pieces kept.
pub open spec fn split_by(s: Seq<char>, seps: Seq<char>) -> Seq<Seq<char>> {
    split_acc(s, seps, Seq::empty())
}

/// `t` occurs in `s` as a contiguous run.
pub open spec fn has_substring(s: Seq<char>, t: Seq<char>) -> bool {
    exists|i: int| 0 <= i <= s.len() - t.len() && #[trigger] s.subrange(i, i + t.len()) == t
}

pub open spec fn starts_with(s: Seq<char>, p: Seq<char>) -> bool {
    p.len() <= s.len() && s.subrange(0, p.len() as int) == p
}

pub open spec fn ends_with(s: Seq<char>, p: Seq<char>) -> bool {
    p.len() <= s.len() && s.subrange(s.len() - p.len(), s.len() as int) == p
}

/// Every occurrence of `from` replaced by the sequence `to`.
pub open spec fn replace_char(s: Seq<char>, from: char, to: Seq<char>) -> Seq<char>
    decreases s.len(),
{
    if s.len() == 0 {
        Seq::empty()
    } else {
        (if s[0] == from { to } else { seq![s[0]] }) + replace_char(s.drop_first(), from, to)
    }
}

/// The decimal digit character for `d < 10`.
pub open spec fn digit_char(d: nat) -> char {
    if d == 0 { '0' }
    else if d == 1 { '1' }
    else if d == 2 { '2' }
    else if d == 3 { '3' }
    else if d == 4 { '4' }
    else if d == 5 { '5' }
    else if d == 6 { '6' }
    else if d == 7 { '7' }
    else if d == 8 { '8' }
    else { '9' }
}

/// The decimal rendering of `n`, without leading zeros.
pub open spec fn decimal(n: nat) -> Seq<char>
    decreases n,
{
    if n < 10 {
        seq![digit_char(n)]
    } else {
        decimal(n / 10).push(digit_char(n % 10))
    }
}

/// The decimal rendering of a signed number, as `Display` writes it.
pub open spec fn signed_decimal(n: int) -> Seq<char> {
    if n < 0 {
        seq!['-'] + decimal((-n) as nat)
    } else {
        decimal(n as nat)
    }
}

pub open spec fn bool_text(b: bool) -> Seq<char> {
    if b { "true"@ } else { "false"@ }
}

pub open spec fn is_digit(c: char) -> bool {
    '0' <= c && c <= '9'
}

pub open spec fn all_digits(d: Seq<char>) -> bool {
    forall|i: int| 0 <= i < d.len() ==> is_digit(#[trigger] d[i])
}

/// The number written by the decimal digits `d`.
pub open spec fn digits_value(d: Seq<char>) -> nat
    decreases d.len(),
{
    if d.len() == 0 {
        0
    } else {
        digits_value(d.drop_last()) * 10 + ((d.last() as nat) - ('0' as nat)) as nat
    }
}

/// What `str::parse::<u32>` accepts: an optional `+` followed by at least one
/// decimal digit, the value fitting in a `u32`.
pub open spec fn parse_u32_spec(s: Seq<char>) -> Option<u32> {
    let d = if s.len() > 0 && s[0] == '+' { s.drop_first() } else { s };
    if d.len() > 0 && all_digits(d) && digits_value(d) <= u32::MAX {
        Some(digits_value(d) as u32)
    } else {
        None
    }
}

/// The items joined with `sep` between consecutive items.
pub open spec fn join_with(items: Seq<Seq<char>>, sep: Seq<char>) -> Seq<char>
    decreases items.len(),
{
    if items.len() == 0 {
        Seq::empty()
    } else if items.len() == 1 {
        items[0]
    } else {
        join_with(items.drop_last(), sep) + sep + items.last()
    }
}

/// `s` between double quotes.
pub open spec fn quoted(s: Seq<char>) -> Seq<char> {
    seq!['"'] + s + seq!['"']
}

/// The items as a JSON array of strings, each quoted as it is (no
/// escaping), separated by commas.
pub open spec fn json_array_spec(items: Seq<Seq<char>>) -> Seq<char> {
    seq!['['] + join_with(items.map_values(|s: Seq<char>| quoted(s)), seq![',']) + seq![']']
}

/// The result of `str::to_lowercase` on `s`.
pub uninterp spec fn lowercase_of(s: Seq<char>) -> Seq<char>;

pub open spec fn is_ascii_seq(s: Seq<char>) -> bool {
    forall|i: int| 0 <= i < s.len() ==> (#[trigger] s[i] as u32) < 128
}

pub open spec fn ascii_lower_char(c: char) -> char {
    if 'A' <= c && c <= 'Z' { ((c as u32) + 32) as char } else { c }
}

/// The number of bytes of `s` in UTF-8.
pub open spec fn utf8_len(s: Seq<char>) -> nat
    decreases s.len(),
{
    if s.len() == 0 {
        0
    } else {
        utf8_len(s.drop_last()) + char_utf8_len(s.last())
    }
}

pub open spec fn char_utf8_len(c: char) -> nat {
    if (c as u32) < 0x80 { 1 }
    else if (c as u32) < 0x800 { 2 }
    else if (c as u32) < 0x10000 { 3 }
    else { 4 }
}

// ------------------------------------------------------------------
// Trusted std items without a vstd specification
// ------------------------------------------------------------------

/// `String::push`: appends one character.
#[verifier::external_body]
pub(crate) fn push_char(s: &mut String, c: char)
    ensures
        final(s)@ == old(s)@.push(c),
{
    s.push(c);
}

/// `str::to_lowercase`. The result is named `lowercase_of`; for ASCII text
/// the contract states the mapping of `A`..`Z` to `a`..`z`, as the
/// documentation's ASCII examples show; beyond ASCII nothing is stated.
#[verifier::external_body]
pub(crate) fn to_lowercase(s: &str) -> (r: String)
    ensures
        r@ == lowercase_of(s@),
        is_ascii_seq(s@) ==> r@ == s@.map_values(|c: char| ascii_lower_char(c)),
{
    s.to_lowercase()
}

// ------------------------------------------------------------------
// Executable operations
// ------------------------------------------------------------------

/// The characters of a string slice, in order.
pub fn chars_of(s: &str) -> (v: Vec<char>)
    ensures
        v@ == s@,
{
    let mut v: Vec<char> = Vec::new();
    for c in it: s.chars()
        invariant
            v@ == it.seq().take(it.index() as int),
    {
        v.push(c);
    }
    v
}

/// A string holding exactly the given characters.
pub fn string_from_chars(v: &[char]) -> (s: String)
    ensures
        s@ == v@,
{
    let mut s = String::new();
    let mut i: usize = 0;
    while i < v.len()
        invariant
            i <= v.len(),
            s@ == v@.take(i as int),
        decreases v.len() - i,
    {
        push_char(&mut s, v[i]);
        i += 1;
        assert(v@.take(i as int) == v@.take((i - 1) as int).push(v@[i - 1]));
    }
    assert(v@.take(v.len() as int) == v@);
    s
}

/// Appends all characters of `t` to `v`.
pub fn extend_chars(v: &mut Vec<char>, t: &[char])
    ensures
        final(v)@ == old(v)@ + t@,
{
    let mut i: usize = 0;
    while i < t.len()
        invariant
            i <= t.len(),
            v@ == old(v)@ + t@.take(i as int),
        decreases t.len() - i,
    {
        v.push(t[i]);
        i += 1;
        assert(t@.take(i as int) == t@.take((i - 1) as int).push(t@[i - 1]));
    }
    assert(t@.take(t.len() as int) == t@);
}

/// Appends all characters of a string slice to `v`.
pub fn extend_str(v: &mut Vec<char>, t: &str)
    ensures
        final(v)@ == old(v)@ + t@,
{
    let tc = chars_of(t);
    extend_chars(v, tc.as_slice());
}

pub fn seq_eq(a: &[char], b: &[char]) -> (r: bool)
    ensures
        r == (a@ == b@),
{
    if a.len() != b.len() {
        return false;
    }
    let mut i: usize = 0;
    while i < a.len()
        invariant
            a.len() == b.len(),
            i <= a.len(),
            forall|j: int| 0 <= j < i ==> a@[j] == b@[j],
        decreases a.len() - i,
    {
        if a[i] != b[i] {
            return false;
        }
        i += 1;
    }
    assert(a@ =~= b@);
    true
}

pub fn str_eq(a: &str, b: &str) -> (r: bool)
    ensures
        r == (a@ == b@),
{
    let ac = chars_of(a);
    let bc = chars_of(b);
    seq_eq(ac.as_slice(), bc.as_slice())
}

pub fn contains_char(s: &[char], c: char) -> (r: bool)
    ensures
        r == s@.contains(c),
{
    let mut i: usize = 0;
    while i < s.len()
        invariant
            i <= s.len(),
            forall|j: int| 0 <= j < i ==> s@[j] != c,
        decreases s.len() - i,
    {
        if s[i] == c {
            assert(s@[i as int] == c);
            return true;
        }
        i += 1;
    }
    false
}

/// `p` is a prefix of `s[from..]`.
pub fn matches_at(s: &[char], from: usize, p: &[char]) -> (r: bool)
    requires
        from <= s.len(),
    ensures
        r == (p.len() <= s.len() - from && s@.subrange(from as int, from + p.len()) == p@),
{
    if p.len() > s.len() - from {
        return false;
    }
    let mut i: usize = 0;
    while i < p.len()
        invariant
            from + p.len() <= s.len(),
            i <= p.len(),
            forall|j: int| 0 <= j < i ==> s@[from + j] == p@[j],
        decreases p.len() - i,
    {
        if s[from + i] != p[i] {
            assert(s@.subrange(from as int, from + p.len())[i as int] != p@[i as int]);
            return false;
        }
        i += 1;
    }
    assert(s@.subrange(from as int, from + p.len()) =~= p@);
    true
}

pub fn starts_with_chars(s: &[char], p: &[char]) -> (r: bool)
    ensures
        r == starts_with(s@, p@),
{
    matches_at(s, 0, p)
}

pub fn ends_with_chars(s: &[char], p: &[char]) -> (r: bool)
    ensures
        r == ends_with(s@, p@),
{
    if p.len() > s.len() {
        return false;
    }
    matches_at(s, s.len() - p.len(), p)
}

pub fn contains_substring(s: &[char], t: &[char]) -> (r: bool)
    ensures
        r == has_substring(s@, t@),
{
    if t.len() > s.len() {
        return false;
    }
    if t.len() == 0 {
        assert(s@.subrange(0, 0 + t@.len() as int) =~= t@);
        return true;
    }
    let last = s.len() - t.len();
    let mut i: usize = 0;
    while i <= last
        invariant
            last == s.len() - t.len(),
            t.len() >= 1,
            i <= last + 1,
            forall|j: int| 0 <= j < i ==> #[trigger] s@.subrange(j, j + t.len()) != t@,
        decreases last + 1 - i,
    {
        if matches_at(s, i, t) {
            return true;
        }
        i += 1;
    }
    false
}

pub fn str_contains(s: &str, t: &str) -> (r: bool)
    ensures
        r == has_substring(s@, t@),
{
    let sc = chars_of(s);
    let tc = chars_of(t);
    contains_substring(sc.as_slice(), tc.as_slice())
}

pub fn str_starts_with(s: &str, p: &str) -> (r: bool)
    ensures
        r == starts_with(s@, p@),
{
    let sc = chars_of(s);
    let pc = chars_of(p);
    starts_with_chars(sc.as_slice(), pc.as_slice())
}

pub fn str_ends_with(s: &str, p: &str) -> (r: bool)
    ensures
        r == ends_with(s@, p@),
{
    let sc = chars_of(s);
    let pc = chars_of(p);
    ends_with_chars(sc.as_slice(), pc.as_slice())
}

proof fn lemma_split_step(s: Seq<char>, i: int, seps: Seq<char>, cur: Seq<char>)
    requires
        0 <= i < s.len(),
    ensures
        split_acc(s.skip(i), seps, cur) == (if is_sep(s[i], seps) {
            seq![cur] + split_acc(s.skip(i + 1), seps, Seq::empty())
        } else {
            split_acc(s.skip(i + 1), seps, cur.push(s[i]))
        }),
{
    assert(s.skip(i).drop_first() =~= s.skip(i + 1));
}

/// Splits `s` at every character that occurs in `seps`.
pub fn split_on(s: &[char], seps: &[char]) -> (parts: Vec<Vec<char>>)
    ensures
        parts@.map_values(|p: Vec<char>| p@) == split_by(s@, seps@),
{
    let mut parts: Vec<Vec<char>> = Vec::new();
    let mut cur: Vec<char> = Vec::new();
    let mut i: usize = 0;
    assert(s@.skip(0) =~= s@);
    while i < s.len()
        invariant
            i <= s.len(),
            parts@.map_values(|p: Vec<char>| p@) + split_acc(s@.skip(i as int), seps@, cur@)
                == split_by(s@, seps@),
        decreases s.len() - i,
    {
        let c = s[i];
        proof {
            lemma_split_step(s@, i as int, seps@, cur@);
        }
        if contains_char(seps, c) {
            let ghost old_parts = parts@.map_values(|p: Vec<char>| p@);
            let ghost old_cur = cur@;
            let piece = cur;
            parts.push(piece);
            cur = Vec::new();
            assert(parts@.map_values(|p: Vec<char>| p@) =~= old_parts.push(old_cur));
            assert(old_parts + (seq![old_cur] + split_acc(s@.skip(i + 1), seps@, Seq::empty()))
                =~= old_parts.push(old_cur) + split_acc(s@.skip(i + 1), seps@, Seq::empty()));
        } else {
            cur.push(c);
        }
        i += 1;
    }
    let ghost before = parts@.map_values(|p: Vec<char>| p@);
    assert(s@.skip(s.len() as int) =~= Seq::<char>::empty());
    parts.push(cur);
    assert(parts@.map_values(|p: Vec<char>| p@) =~= before + split_acc(
        s@.skip(s.len() as int),
        seps@,
        cur@,
    ));
    parts
}

/// Every `from` in `s` replaced by the characters of `to`.
pub fn replace_char_with(s: &[char], from: char, to: &[char]) -> (r: Vec<char>)
    ensures
        r@ == replace_char(s@, from, to@),
{
    let mut r: Vec<char> = Vec::new();
    let mut i: usize = 0;
    assert(s@.skip(0) =~= s@);
    while i < s.len()
        invariant
            i <= s.len(),
            r@ + replace_char(s@.skip(i as int), from, to@) == replace_char(s@, from, to@),
        decreases s.len() - i,
    {
        let ghost before = r@;
        assert(s@.skip(i as int).drop_first() =~= s@.skip(i + 1));
        if s[i] == from {
            extend_chars(&mut r, to);
        } else {
            r.push(s[i]);
        }
        assert(before + replace_char(s@.skip(i as int), from, to@) =~= r@ + replace_char(
            s@.skip(i + 1),
            from,
            to@,
        ));
        i += 1;
    }
    assert(s@.skip(s.len() as int) =~= Seq::<char>::empty());
    assert(r@ + Seq::<char>::empty() =~= r@);
    r
}

pub fn digit_to_char(d: u64) -> (c: char)
    requires
        d < 10,
    ensures
        c == digit_char(d as nat),
{
    if d == 0 { '0' }
    else if d == 1 { '1' }
    else if d == 2 { '2' }
    else if d == 3 { '3' }
    else if d == 4 { '4' }
    else if d == 5 { '5' }
    else if d == 6 { '6' }
    else if d == 7 { '7' }
    else if d == 8 { '8' }
    else { '9' }
}

/// The decimal digits of `n`.
pub fn u64_decimal(n: u64) -> (r: Vec<char>)
    ensures
        r@ == decimal(n as nat),
    decreases n,
{
    if n < 10 {
        let mut r: Vec<char> = Vec::new();
        r.push(digit_to_char(n));
        assert(r@ =~= seq![digit_char(n as nat)]);
        r
    } else {
        let mut r = u64_decimal(n / 10);
        r.push(digit_to_char(n % 10));
        r
    }
}

/// The decimal rendering of a signed 32-bit number, as `Display` writes it.
pub fn i32_decimal(n: i32) -> (r: Vec<char>)
    ensures
        r@ == signed_decimal(n as int),
{
    if n < 0 {
        let m: i64 = -(n as i64);
        let mut r: Vec<char> = Vec::new();
        r.push('-');
        let d = u64_decimal(m as u64);
        extend_chars(&mut r, d.as_slice());
        assert(r@ =~= seq!['-'] + decimal((-(n as int)) as nat));
        r
    } else {
        u64_decimal(n as u64)
    }
}

pub fn bool_chars(b: bool) -> (r: Vec<char>)
    ensures
        r@ == bool_text(b),
{
    if b {
        chars_of("true")
    } else {
        chars_of("false")
    }
}

/// `str::parse::<u32>` on a character sequence.
pub fn parse_u32(s: &[char]) -> (r: Option<u32>)
    ensures
        r == parse_u32_spec(s@),
{
    let start: usize = if s.len() > 0 && s[0] == '+' { 1 } else { 0 };
    let ghost d = if s@.len() > 0 && s@[0] == '+' { s@.drop_first() } else { s@ };
    assert(d =~= s@.skip(start as int));
    if start >= s.len() {
        return None;
    }
    let mut acc: u64 = 0;
    let mut over = false;
    let mut i: usize = start;
    assert(s@.subrange(start as int, start as int) =~= Seq::<char>::empty());
    while i < s.len()
        invariant
            start <= i <= s.len(),
            d == s@.skip(start as int),
            d == (if s@.len() > 0 && s@[0] == '+' { s@.drop_first() } else { s@ }),
            all_digits(s@.subrange(start as int, i as int)),
            !over ==> acc == digits_value(s@.subrange(start as int, i as int)),
            !over ==> acc <= u32::MAX,
            over ==> digits_value(s@.subrange(start as int, i as int)) > u32::MAX,
        decreases s.len() - i,
    {
        let c = s[i];
        let ghost prev = s@.subrange(start as int, i as int);
        let ghost next = s@.subrange(start as int, i + 1);
        assert(next.drop_last() =~= prev);
        assert(next.last() == c);
        if !('0' <= c && c <= '9') {
            assert(!all_digits(d)) by {
                assert(d[i - start] == c);
                assert(!is_digit(d[i - start]));
            }
            return None;
        }
        assert(all_digits(next)) by {
            assert forall|j: int| 0 <= j < next.len() implies is_digit(#[trigger] next[j]) by {
                if j < prev.len() {
                    assert(next[j] == prev[j]);
                }
            }
        }
        let dv: u64 = (c as u32 - '0' as u32) as u64;
        if !over {
            acc = acc * 10 + dv;
            if acc > 0xFFFF_FFFF {
                over = true;
            }
        }
        i += 1;
    }
    assert(s@.subrange(start as int, s.len() as int) =~= d);
    if over {
        None
    } else {
        Some(acc as u32)
    }
}

proof fn lemma_join_push(items: Seq<Seq<char>>, x: Seq<char>, sep: Seq<char>)
    ensures
        join_with(items.push(x), sep) == if items.len() == 0 { x } else { join_with(items, sep)
            + sep + x },
{
    assert(items.push(x).drop_last() =~= items);
}

/// Joins string pieces with a separator.
pub fn join_chars(items: &Vec<Vec<char>>, sep: &[char]) -> (r: Vec<char>)
    ensures
        r@ == join_with(items@.map_values(|p: Vec<char>| p@), sep@),
{
    let mut r: Vec<char> = Vec::new();
    let mut i: usize = 0;
    let ghost all = items@.map_values(|p: Vec<char>| p@);
    while i < items.len()
        invariant
            i <= items.len(),
            all == items@.map_values(|p: Vec<char>| p@),
            r@ == join_with(all.take(i as int), sep@),
        decreases items.len() - i,
    {
        proof {
            lemma_join_push(all.take(i as int), all[i as int], sep@);
            assert(all.take(i + 1) =~= all.take(i as int).push(all[i as int]));
        }
        if i > 0 {
            extend_chars(&mut r, sep);
        }
        extend_chars(&mut r, items[i].as_slice());
        i += 1;
    }
    assert(all.take(items.len() as int) =~= all);
    r
}

} // verus!
