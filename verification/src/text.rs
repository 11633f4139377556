//! Character-sequence helpers shared by the editor: decimal rendering of
//! integers, substring search and string building.
use vstd::prelude::*;

verus! {

/// The ASCII digit for `d` (which is below ten).
pub open spec fn digit_char(d: nat) -> char {
    if d == 0 { '0' }
    else if d == 1 { '1' }
    else if d == 2 { '2' }
    else if d == 3 { '3' }
    else if d == 4 { '4' }
    else if d == 5 { '5' }
    else if d == 6 { '6' }
    else if d == 7 { '7' }
    else if d == 8 { '8' }
    else { '9' }
}

/// The decimal rendering of a natural number, without leading zeros.
pub open spec fn decimal(n: nat) -> Seq<char>
    decreases n,
{
    if n < 10 {
        seq![digit_char(n)]
    } else {
        decimal(n / 10).push(digit_char(n % 10))
    }
}

/// The decimal rendering of an integer, with a leading '-' when negative.
pub open spec fn signed_decimal(n: int) -> Seq<char> {
    if n < 0 {
        seq!['-'] + decimal((-n) as nat)
    } else {
        decimal(n as nat)
    }
}

/// `needle` occurs in `hay` starting at `start`.
pub open spec fn occurs_at(hay: Seq<char>, needle: Seq<char>, start: int) -> bool {
    0 <= start && start + needle.len() <= hay.len() && hay.subrange(start, start + needle.len())
        == needle
}

/// `needle` occurs somewhere in `hay`.
pub open spec fn contains_seq(hay: Seq<char>, needle: Seq<char>) -> bool {
    exists|i: int| occurs_at(hay, needle, i)
}

/// `hay` begins with `prefix`.
pub open spec fn starts_with_seq(hay: Seq<char>, prefix: Seq<char>) -> bool {
    occurs_at(hay, prefix, 0)
}

/// The first position at which `needle` occurs in `hay`, if any.
pub open spec fn first_occurrence(hay: Seq<char>, needle: Seq<char>) -> Option<int> {
    if contains_seq(hay, needle) {
        Some(choose|i: int| occurs_at(hay, needle, i) && forall|j: int| 0 <= j < i ==> !occurs_at(hay, needle, j))
    } else {
        None
    }
}

/// Appends one character to a string.
#[verifier::external_body]
pub fn push_char(s: &mut String, c: char)
    ensures
        final(s)@ == old(s)@.push(c),
{
    s.push(c);
}

/// Appends a string slice to a string.
pub fn push_str(s: &mut String, t: &str)
    ensures
        final(s)@ == old(s)@ + t@,
{
    s.append(t);
}

/// The ASCII digit for a value below ten.
pub fn digit(d: u128) -> (c: char)
    requires
        d < 10,
    ensures
        c == digit_char(d as nat),
{
    match d {
        0 => '0',
        1 => '1',
        2 => '2',
        3 => '3',
        4 => '4',
        5 => '5',
        6 => '6',
        7 => '7',
        8 => '8',
        _ => '9',
    }
}

/// Appends the decimal rendering of `n`.
pub fn push_decimal_wide(s: &mut String, n: u128)
    ensures
        final(s)@ == old(s)@ + decimal(n as nat),
    decreases n,
{
    if n >= 10 {
        push_decimal_wide(s, n / 10);
    }
    let c = digit(n % 10);
    push_char(s, c);
    assert(decimal(n as nat) == if n < 10 { seq![digit_char(n as nat)] } else { decimal((n / 10) as nat).push(digit_char((n % 10) as nat)) });
}

/// Appends the decimal rendering of `n`.
pub fn push_decimal(s: &mut String, n: u64)
    ensures
        final(s)@ == old(s)@ + decimal(n as nat),
{
    push_decimal_wide(s, n as u128);
}

/// Appends the decimal rendering of a signed value.
pub fn push_signed(s: &mut String, n: i64)
    ensures
        final(s)@ == old(s)@ + signed_decimal(n as int),
{
    if n < 0 {
        push_char(s, '-');
        let m: u64 = if n == i64::MIN { 9223372036854775808u64 } else { (-n) as u64 };
        push_decimal(s, m);
        assert(final(s)@ =~= old(s)@ + (seq!['-'] + decimal((-n) as nat)));
    } else {
        push_decimal(s, n as u64);
    }
}

/// The decimal rendering of `n` as a new string.
pub fn decimal_string(n: u64) -> (r: String)
    ensures
        r@ == decimal(n as nat),
{
    let mut s = String::new();
    push_decimal(&mut s, n);
    assert(s@ =~= decimal(n as nat));
    s
}

/// The characters of a string slice.
pub fn str_chars(s: &str) -> (r: Vec<char>)
    ensures
        r@ == s@,
{
    let n = s.unicode_len();
    let mut r: Vec<char> = Vec::new();
    let mut i: usize = 0;
    while i < n
        invariant
            n == s@.len(),
            i <= n,
            r@ == s@.subrange(0, i as int),
        decreases n - i,
    {
        let c = s.get_char(i);
        r.push(c);
        i = i + 1;
        assert(r@ =~= s@.subrange(0, i as int));
    }
    assert(r@ =~= s@);
    r
}

/// A string made of the given characters.
pub fn string_from_chars(cs: &Vec<char>) -> (r: String)
    ensures
        r@ == cs@,
{
    let mut r = String::new();
    let mut i: usize = 0;
    while i < cs.len()
        invariant
            i <= cs.len(),
            r@ == cs@.subrange(0, i as int),
        decreases cs.len() - i,
    {
        push_char(&mut r, cs[i]);
        i = i + 1;
        assert(r@ =~= cs@.subrange(0, i as int));
    }
    assert(r@ =~= cs@);
    r
}

/// Whether two character sequences are equal.
pub fn chars_eq(a: &Vec<char>, b: &Vec<char>) -> (r: bool)
    ensures
        r == (a@ == b@),
{
    if a.len() != b.len() {
        return false;
    }
    let mut i: usize = 0;
    while i < a.len()
        invariant
            a.len() == b.len(),
            i <= a.len(),
            forall|j: int| 0 <= j < i ==> a@[j] == b@[j],
        decreases a.len() - i,
    {
        if a[i] != b[i] {
            return false;
        }
        i = i + 1;
    }
    assert(a@ =~= b@);
    true
}

/// Whether two strings hold the same characters.
pub fn str_eq(a: &str, b: &str) -> (r: bool)
    ensures
        r == (a@ == b@),
{
    let ca = str_chars(a);
    let cb = str_chars(b);
    chars_eq(&ca, &cb)
}

/// Whether `needle` occurs in `hay` at `start`.
pub fn occurs_at_exec(hay: &Vec<char>, needle: &Vec<char>, start: usize) -> (r: bool)
    ensures
        r == occurs_at(hay@, needle@, start as int),
{
    if start > hay.len() || needle.len() > hay.len() - start {
        return false;
    }
    let mut j: usize = 0;
    while j < needle.len()
        invariant
            start + needle.len() <= hay.len(),
            j <= needle.len(),
            forall|k: int| 0 <= k < j ==> hay@[start + k] == needle@[k],
        decreases needle.len() - j,
    {
        if hay[start + j] != needle[j] {
            assert(hay@.subrange(start as int, start + needle.len())[j as int] != needle@[j as int]);
            return false;
        }
        j = j + 1;
    }
    assert(hay@.subrange(start as int, start + needle.len()) =~= needle@);
    true
}

/// The first position at which `needle` occurs in `hay`.
pub fn find_chars(hay: &Vec<char>, needle: &Vec<char>) -> (r: Option<usize>)
    ensures
        match r {
            Some(i) => occurs_at(hay@, needle@, i as int) && forall|j: int|
                0 <= j < i ==> !occurs_at(hay@, needle@, j),
            None => !contains_seq(hay@, needle@),
        },
{
    let mut i: usize = 0;
    while i < hay.len()
        invariant
            i <= hay.len(),
            forall|j: int| 0 <= j < i ==> !occurs_at(hay@, needle@, j),
        decreases hay.len() - i,
    {
        if occurs_at_exec(hay, needle, i) {
            return Some(i);
        }
        i = i + 1;
    }
    if occurs_at_exec(hay, needle, i) {
        return Some(i);
    }
    assert forall|j: int| !occurs_at(hay@, needle@, j) by {
        if 0 <= j <= i {
        }
    }
    None
}

/// Whether `needle` occurs in `hay`.
pub fn contains_chars(hay: &Vec<char>, needle: &Vec<char>) -> (r: bool)
    ensures
        r == contains_seq(hay@, needle@),
{
    match find_chars(hay, needle) {
        Some(i) => {
            assert(occurs_at(hay@, needle@, i as int));
            true
        },
        None => false,
    }
}

/// Whether `needle` occurs in `hay`.
pub fn str_contains(hay: &str, needle: &str) -> (r: bool)
    ensures
        r == contains_seq(hay@, needle@),
{
    let h = str_chars(hay);
    let n = str_chars(needle);
    contains_chars(&h, &n)
}

/// Whether `hay` begins with `prefix`.
pub fn str_starts_with(hay: &str, prefix: &str) -> (r: bool)
    ensures
        r == starts_with_seq(hay@, prefix@),
{
    let h = str_chars(hay);
    let p = str_chars(prefix);
    occurs_at_exec(&h, &p, 0)
}

/// A copy of a string slice.
pub fn to_string(s: &str) -> (r: String)
    ensures
        r@ == s@,
{
    String::from_str(s)
}

/// A copy of a string.
pub fn copy_string(s: &String) -> (r: String)
    ensures
        r@ == s@,
{
    s.clone()
}

/// The first position from `k` on at which `needle` occurs in `hay`.
pub open spec fn first_from(hay: Seq<char>, needle: Seq<char>, k: int) -> Option<int>
    decreases hay.len() + 1 - k,
{
    if k < 0 || k > hay.len() {
        None
    } else if occurs_at(hay, needle, k) {
        Some(k)
    } else {
        first_from(hay, needle, k + 1)
    }
}

/// The last position at or below `k` at which `needle` occurs in `hay`.
pub open spec fn last_below(hay: Seq<char>, needle: Seq<char>, k: int) -> Option<int>
    decreases k + 1,
{
    if k < 0 {
        None
    } else if occurs_at(hay, needle, k) {
        Some(k)
    } else {
        last_below(hay, needle, k - 1)
    }
}

/// The first position of `needle` in `hay` (as `str::find`).
pub open spec fn find_seq(hay: Seq<char>, needle: Seq<char>) -> Option<int> {
    first_from(hay, needle, 0)
}

/// The last position of `needle` in `hay` (as `str::rfind`).
pub open spec fn rfind_seq(hay: Seq<char>, needle: Seq<char>) -> Option<int> {
    last_below(hay, needle, hay.len() as int)
}

/// A found position lies within the searched range.
pub proof fn lemma_first_from(hay: Seq<char>, needle: Seq<char>, k: int)
    ensures
        first_from(hay, needle, k) matches Some(i) ==> k <= i && occurs_at(hay, needle, i),
    decreases hay.len() + 1 - k,
{
    if 0 <= k <= hay.len() && !occurs_at(hay, needle, k) {
        lemma_first_from(hay, needle, k + 1);
    }
}

/// A found position lies within the searched range.
pub proof fn lemma_last_below(hay: Seq<char>, needle: Seq<char>, k: int)
    ensures
        last_below(hay, needle, k) matches Some(i) ==> 0 <= i <= k && occurs_at(hay, needle, i),
    decreases k + 1,
{
    if k >= 0 && !occurs_at(hay, needle, k) {
        lemma_last_below(hay, needle, k - 1);
    }
}

/// The first position from `k` on at which `needle` occurs in `hay`.
pub fn find_from(hay: &Vec<char>, needle: &Vec<char>, k: usize) -> (r: Option<usize>)
    ensures
        match r { Some(i) => first_from(hay@, needle@, k as int) == Some(i as int), None => first_from(hay@, needle@, k as int) is None },
        r matches Some(i) ==> i <= hay@.len(),
{
    if k > hay.len() {
        return None;
    }
    let mut i: usize = k;
    while i < hay.len()
        invariant
            k <= i <= hay.len(),
            first_from(hay@, needle@, k as int) == first_from(hay@, needle@, i as int),
        decreases hay.len() - i,
    {
        if occurs_at_exec(hay, needle, i) {
            return Some(i);
        }
        i = i + 1;
    }
    if occurs_at_exec(hay, needle, i) {
        return Some(i);
    }
    assert(first_from(hay@, needle@, i + 1) is None);
    None
}

/// The last position at or below `k` at which `needle` occurs in `hay`.
pub fn rfind_below(hay: &Vec<char>, needle: &Vec<char>, k: usize) -> (r: Option<usize>)
    ensures
        match r { Some(i) => last_below(hay@, needle@, k as int) == Some(i as int), None => last_below(hay@, needle@, k as int) is None },
{
    let mut i: usize = k;
    loop
        invariant
            i <= k,
            last_below(hay@, needle@, k as int) == last_below(hay@, needle@, i as int),
        decreases i,
    {
        if occurs_at_exec(hay, needle, i) {
            return Some(i);
        }
        if i == 0 {
            assert(last_below(hay@, needle@, -1) is None);
            return None;
        }
        i = i - 1;
    }
}

/// The characters of `v` from `a` up to `b`.
pub fn sub_chars(v: &Vec<char>, a: usize, b: usize) -> (r: Vec<char>)
    requires
        a <= b <= v@.len(),
    ensures
        r@ == v@.subrange(a as int, b as int),
{
    let mut r: Vec<char> = Vec::new();
    let mut i: usize = a;
    while i < b
        invariant
            a <= i <= b <= v@.len(),
            r@ == v@.subrange(a as int, i as int),
        decreases b - i,
    {
        r.push(v[i]);
        i = i + 1;
        assert(r@ =~= v@.subrange(a as int, i as int));
    }
    r
}

/// The characters of `a` followed by those of `b`.
pub fn concat_chars(a: &Vec<char>, b: &Vec<char>) -> (r: Vec<char>)
    ensures
        r@ == a@ + b@,
{
    let mut r: Vec<char> = Vec::new();
    let mut i: usize = 0;
    while i < a.len()
        invariant
            i <= a.len(),
            r@ == a@.subrange(0, i as int),
        decreases a.len() - i,
    {
        r.push(a[i]);
        i = i + 1;
        assert(r@ =~= a@.subrange(0, i as int));
    }
    let mut j: usize = 0;
    while j < b.len()
        invariant
            j <= b.len(),
            i == a.len(),
            r@ == a@ + b@.subrange(0, j as int),
        decreases b.len() - j,
    {
        r.push(b[j]);
        j = j + 1;
        assert(r@ =~= a@ + b@.subrange(0, j as int));
    }
    assert(a@.subrange(0, i as int) =~= a@);
    assert(b@.subrange(0, j as int) =~= b@);
    r
}


/// Whether `c` is white space: a character with Unicode's `White_Space`
/// property.
pub open spec fn is_white(c: char) -> bool {
    ||| ('\u{9}' <= c && c <= '\u{d}')
    ||| c == ' '
    ||| c == '\u{85}'
    ||| c == '\u{a0}'
    ||| c == '\u{1680}'
    ||| ('\u{2000}' <= c && c <= '\u{200a}')
    ||| c == '\u{2028}'
    ||| c == '\u{2029}'
    ||| c == '\u{202f}'
    ||| c == '\u{205f}'
    ||| c == '\u{3000}'
}

/// Whether `c` is white space.
pub fn white(c: char) -> (r: bool)
    ensures
        r == is_white(c),
{
    ('\u{9}' <= c && c <= '\u{d}') || c == ' ' || c == '\u{85}' || c == '\u{a0}' || c == '\u{1680}'
        || ('\u{2000}' <= c && c <= '\u{200a}') || c == '\u{2028}' || c == '\u{2029}' || c == '\u{202f}'
        || c == '\u{205f}' || c == '\u{3000}'
}

/// How many white characters `s` starts with.
pub open spec fn lead_white(s: Seq<char>) -> nat
    decreases s.len(),
{
    if s.len() > 0 && is_white(s[0]) { 1 + lead_white(s.drop_first()) } else { 0 }
}

/// How many white characters `s` ends with.
pub open spec fn trail_white(s: Seq<char>) -> nat
    decreases s.len(),
{
    if s.len() > 0 && is_white(s.last()) { 1 + trail_white(s.drop_last()) } else { 0 }
}

/// `s` without its leading and trailing white space.
pub open spec fn trimmed(s: Seq<char>) -> Seq<char> {
    let t = s.skip(lead_white(s) as int);
    t.take(t.len() - trail_white(t))
}

/// At most all of `s` is leading or trailing white space.
pub proof fn lemma_white_bounds(s: Seq<char>)
    ensures
        lead_white(s) <= s.len(),
        trail_white(s) <= s.len(),
    decreases s.len(),
{
    if s.len() > 0 {
        lemma_white_bounds(s.drop_first());
        lemma_white_bounds(s.drop_last());
    }
}

/// `v` without its leading and trailing white space.
pub fn trim_chars(v: &Vec<char>) -> (r: Vec<char>)
    ensures
        r@ == trimmed(v@),
{
    let n = v.len();
    let mut a: usize = 0;
    assert(v@.skip(0) =~= v@);
    while a < n && white(v[a])
        invariant
            n == v@.len(),
            a <= n,
            lead_white(v@) == a + lead_white(v@.skip(a as int)),
        decreases n - a,
    {
        assert(v@.skip(a as int).drop_first() =~= v@.skip(a + 1));
        a = a + 1;
    }
    let ghost t = v@.skip(a as int);
    assert(lead_white(t) == 0);
    proof {
        lemma_white_bounds(t);
    }
    let mut b: usize = n;
    assert(t.take(t.len() as int) =~= t);
    while b > a && white(v[b - 1])
        invariant
            n == v@.len(),
            a <= b <= n,
            t == v@.skip(a as int),
            trail_white(t) == (n - b) + trail_white(t.take(b - a)),
        decreases b - a,
    {
        assert(t.take(b - a).last() == v@[b - 1]);
        assert(t.take(b - a).drop_last() =~= t.take(b - 1 - a));
        b = b - 1;
    }
    assert(trail_white(t.take(b - a)) == 0);
    let r = sub_chars(v, a, b);
    assert(r@ =~= t.take(t.len() - trail_white(t)));
    r
}

} // verus!
