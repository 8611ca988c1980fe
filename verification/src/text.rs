//! Character-level string helpers with specifications over `Seq<char>`.

use vstd::prelude::*;
use vstd::string::*;

verus! {

/// `p` is a prefix of `s`.
pub open spec fn seq_starts_with(s: Seq<char>, p: Seq<char>) -> bool {
    p.len() <= s.len() && s.subrange(0, p.len() as int) == p
}

/// `p` occurs somewhere inside `s`.
pub open spec fn seq_contains_seq(s: Seq<char>, p: Seq<char>) -> bool {
    exists|i: int| 0 <= i && i + p.len() <= s.len() && #[trigger] s.subrange(i, i + p.len()) == p
}

/// The ASCII digit character for a value below ten.
pub open spec fn digit_char(d: nat) -> char {
    if d == 0 { '0' }
    else if d == 1 { '1' }
    else if d == 2 { '2' }
    else if d == 3 { '3' }
    else if d == 4 { '4' }
    else if d == 5 { '5' }
    else if d == 6 { '6' }
    else if d == 7 { '7' }
    else if d == 8 { '8' }
    else { '9' }
}

/// Decimal notation of a natural number, without leading zeros.
pub open spec fn dec(n: nat) -> Seq<char>
    decreases n,
{
    if n < 10 {
        seq![digit_char(n)]
    } else {
        dec(n / 10).push(digit_char(n % 10))
    }
}

/// Decimal notation of an integer, with a leading `-` when negative.
pub open spec fn dec_int(n: int) -> Seq<char> {
    if n < 0 { seq!['-'] + dec((-n) as nat) } else { dec(n as nat) }
}

/// Index of the last occurrence of `c` in `s`, or -1.
pub open spec fn last_index_of(s: Seq<char>, c: char) -> int
    decreases s.len(),
{
    if s.len() == 0 {
        -1
    } else if s.last() == c {
        s.len() - 1
    } else {
        last_index_of(s.drop_last(), c)
    }
}

/// What `rsplit(c).next()` yields: the part after the last `c`, or all of `s`.
pub open spec fn last_segment(s: Seq<char>, c: char) -> Seq<char> {
    s.subrange(last_index_of(s, c) + 1, s.len() as int)
}

/// Index of the first occurrence of `c` in `s`, or -1.
pub open spec fn first_index_of(s: Seq<char>, c: char) -> int
    decreases s.len(),
{
    if s.len() == 0 {
        -1
    } else if s[0] == c {
        0
    } else {
        let r = first_index_of(s.drop_first(), c);
        if r < 0 { -1 } else { r + 1 }
    }
}

pub proof fn lemma_last_index_of(s: Seq<char>, c: char)
    ensures
        -1 <= last_index_of(s, c) < s.len(),
        last_index_of(s, c) >= 0 ==> s[last_index_of(s, c)] == c,
        forall|j: int| last_index_of(s, c) < j < s.len() ==> s[j] != c,
    decreases s.len(),
{
    if s.len() > 0 && s.last() != c {
        lemma_last_index_of(s.drop_last(), c);
        assert forall|j: int| last_index_of(s, c) < j < s.len() implies s[j] != c by {
            if j < s.len() - 1 {
                assert(s[j] == s.drop_last()[j]);
            }
        }
    }
}

pub proof fn lemma_first_index_of(s: Seq<char>, c: char)
    ensures
        -1 <= first_index_of(s, c) < s.len(),
        first_index_of(s, c) >= 0 ==> s[first_index_of(s, c)] == c,
        forall|j: int| 0 <= j < s.len() && (first_index_of(s, c) < 0 || j < first_index_of(s, c))
            ==> s[j] != c,
    decreases s.len(),
{
    if s.len() > 0 && s[0] != c {
        lemma_first_index_of(s.drop_first(), c);
        assert forall|j: int| 0 < j < s.len() implies s[j] == s.drop_first()[j - 1] by {}
    }
}

/// In `p + [c] + q` with no `c` in `p`, the first `c` is the one after `p`.
pub proof fn lemma_first_split(p: Seq<char>, q: Seq<char>, c: char)
    requires
        !p.contains(c),
    ensures
        first_index_of(p + seq![c] + q, c) == p.len(),
        before_first(p + seq![c] + q, c) == p,
        after_first(p + seq![c] + q, c) == Some(q),
    decreases p.len(),
{
    let s = p + seq![c] + q;
    if p.len() == 0 {
        assert(s[0] == c);
    } else {
        assert(s[0] == p[0]);
        assert(p[0] != c) by {
            if p[0] == c {
                assert(p.contains(c));
            }
        }
        assert(!p.drop_first().contains(c)) by {
            if p.drop_first().contains(c) {
                let j = choose|j: int| 0 <= j < p.drop_first().len() && p.drop_first()[j] == c;
                assert(p[j + 1] == c);
            }
        }
        assert(s.drop_first() =~= p.drop_first() + seq![c] + q);
        lemma_first_split(p.drop_first(), q, c);
    }
    assert(s.subrange(0, p.len() as int) =~= p);
    assert(s.subrange(p.len() as int + 1, s.len() as int) =~= q);
}

/// In `p + [c] + q` with no `c` in `q`, the last `c` is the one before `q`.
pub proof fn lemma_last_split(p: Seq<char>, q: Seq<char>, c: char)
    requires
        !q.contains(c),
    ensures
        last_index_of(p + seq![c] + q, c) == p.len(),
        last_segment(p + seq![c] + q, c) == q,
    decreases q.len(),
{
    let s = p + seq![c] + q;
    if q.len() == 0 {
        assert(s.last() == c);
    } else {
        assert(s.last() == q.last());
        assert(q.last() != c) by {
            if q.last() == c {
                assert(q[q.len() - 1] == c);
            }
        }
        assert(!q.drop_last().contains(c)) by {
            if q.drop_last().contains(c) {
                let j = choose|j: int| 0 <= j < q.drop_last().len() && q.drop_last()[j] == c;
                assert(q[j] == c);
            }
        }
        assert(s.drop_last() =~= p + seq![c] + q.drop_last());
        lemma_last_split(p, q.drop_last(), c);
    }
    assert(s.subrange(p.len() as int + 1, s.len() as int) =~= q);
}

/// A character in neither part is not in their concatenation.
pub proof fn lemma_concat_lacks(a: Seq<char>, b: Seq<char>, c: char)
    requires
        !a.contains(c),
        !b.contains(c),
    ensures
        !(a + b).contains(c),
{
    if (a + b).contains(c) {
        let j = choose|j: int| 0 <= j < (a + b).len() && (a + b)[j] == c;
        if j < a.len() {
            assert(a[j] == c);
        } else {
            assert(b[j - a.len()] == c);
        }
    }
}

/// Decimal notation uses only the ten digits.
pub proof fn lemma_dec_digits(n: nat)
    ensures
        forall|i: int| 0 <= i < dec(n).len() ==> '0' <= #[trigger] dec(n)[i] && dec(n)[i] <= '9',
    decreases n,
{
    let d = digit_char(n % 10);
    assert('0' <= d && d <= '9');
    if n >= 10 {
        lemma_dec_digits(n / 10);
        let s = dec(n);
        assert forall|i: int| 0 <= i < s.len() implies '0' <= #[trigger] s[i] && s[i] <= '9' by {
            if i < s.len() - 1 {
                assert(s[i] == dec(n / 10)[i]);
            }
        }
    } else {
        assert('0' <= digit_char(n) && digit_char(n) <= '9');
    }
}

/// Decimal notation of an integer uses only digits and `-`.
pub proof fn lemma_dec_int_chars(n: int)
    ensures
        forall|i: int| 0 <= i < dec_int(n).len() ==> ('0' <= #[trigger] dec_int(n)[i] && dec_int(n)[i] <= '9')
            || dec_int(n)[i] == '-',
{
    if n < 0 {
        lemma_dec_digits((-n) as nat);
        assert forall|i: int| 0 <= i < dec_int(n).len() implies ('0' <= #[trigger] dec_int(n)[i] && dec_int(n)[i] <= '9')
            || dec_int(n)[i] == '-' by {
            if i > 0 {
                assert(dec_int(n)[i] == dec((-n) as nat)[i - 1]);
            }
        }
    } else {
        lemma_dec_digits(n as nat);
    }
}

/// Appends one character to a string (wraps `String::push`).
#[verifier::external_body]
pub(crate) fn push_char(s: &mut String, c: char)
    ensures
        final(s)@ == old(s)@.push(c),
{
    s.push(c);
}

/// The characters of a string slice, in order.
pub fn chars_of(s: &str) -> (v: Vec<char>)
    ensures
        v@ == s@,
{
    let mut v: Vec<char> = Vec::new();
    for c in it: s.chars()
        invariant
            v@ == it.seq().take(it.index() as int),
            it.seq() == s@,
    {
        v.push(c);
    }
    v
}

/// A string made of the characters `v[from..to]`.
pub fn string_from_range(v: &Vec<char>, from: usize, to: usize) -> (r: String)
    requires
        from <= to <= v.len(),
    ensures
        r@ == v@.subrange(from as int, to as int),
{
    let mut r = String::new();
    let mut i = from;
    while i < to
        invariant
            from <= i <= to <= v.len(),
            r@ == v@.subrange(from as int, i as int),
        decreases to - i,
    {
        push_char(&mut r, v[i]);
        assert(v@.subrange(from as int, i + 1) == v@.subrange(from as int, i as int).push(v@[i as int]));
        i = i + 1;
    }
    r
}

/// A string made of all the characters of `v`.
pub fn string_from_chars(v: &Vec<char>) -> (r: String)
    ensures
        r@ == v@,
{
    let r = string_from_range(v, 0, v.len());
    assert(v@.subrange(0, v@.len() as int) == v@);
    r
}

/// An owned copy of a string slice.
pub fn owned(s: &str) -> (r: String)
    ensures
        r@ == s@,
{
    String::from_str(s)
}

/// The concatenation of two string slices.
pub fn concat2(a: &str, b: &str) -> (r: String)
    ensures
        r@ == a@ + b@,
{
    let mut r = String::from_str(a);
    r.append(b);
    r
}

/// The concatenation of three string slices.
pub fn concat3(a: &str, b: &str, c: &str) -> (r: String)
    ensures
        r@ == a@ + b@ + c@,
{
    let mut r = String::from_str(a);
    r.append(b);
    r.append(c);
    r
}

/// Character-wise equality of two string slices.
pub fn str_eq(a: &str, b: &str) -> (r: bool)
    ensures
        r == (a@ == b@),
{
    let va = chars_of(a);
    let vb = chars_of(b);
    if va.len() != vb.len() {
        return false;
    }
    let mut i: usize = 0;
    while i < va.len()
        invariant
            va@ == a@,
            vb@ == b@,
            va.len() == vb.len(),
            i <= va.len(),
            forall|j: int| 0 <= j < i ==> va@[j] == vb@[j],
        decreases va.len() - i,
    {
        if va[i] != vb[i] {
            return false;
        }
        i = i + 1;
    }
    assert(va@ == vb@);
    true
}

/// Whether the characters `v[0..p.len()]` equal `p`.
pub fn vec_starts_with(v: &Vec<char>, p: &Vec<char>) -> (r: bool)
    ensures
        r == seq_starts_with(v@, p@),
{
    if p.len() > v.len() {
        return false;
    }
    let mut i: usize = 0;
    while i < p.len()
        invariant
            p.len() <= v.len(),
            i <= p.len(),
            forall|j: int| 0 <= j < i ==> v@[j] == p@[j],
        decreases p.len() - i,
    {
        if v[i] != p[i] {
            assert(v@.subrange(0, p@.len() as int)[i as int] != p@[i as int]);
            return false;
        }
        i = i + 1;
    }
    assert(v@.subrange(0, p@.len() as int) == p@);
    true
}

/// Whether `p` occurs in `v` at position `at`.
pub fn vec_matches_at(v: &Vec<char>, p: &Vec<char>, at: usize) -> (r: bool)
    requires
        at + p.len() <= v.len(),
    ensures
        r == (v@.subrange(at as int, at + p.len()) == p@),
{
    let mut i: usize = 0;
    while i < p.len()
        invariant
            at + p.len() <= v.len(),
            i <= p.len(),
            forall|j: int| 0 <= j < i ==> v@[at + j] == p@[j],
        decreases p.len() - i,
    {
        if v[at + i] != p[i] {
            assert(v@.subrange(at as int, at + p.len())[i as int] != p@[i as int]);
            return false;
        }
        i = i + 1;
    }
    assert(v@.subrange(at as int, at + p.len()) =~= p@);
    true
}

/// `s.contains(p)` for string slices.
pub fn contains_str(s: &str, p: &str) -> (r: bool)
    ensures
        r == seq_contains_seq(s@, p@),
{
    let vs = chars_of(s);
    let vp = chars_of(p);
    if vp.len() > vs.len() {
        return false;
    }
    if vp.len() == 0 {
        assert(s@.subrange(0int, 0int + p@.len()) =~= p@);
        return true;
    }
    let last: usize = vs.len() - vp.len();
    let mut i: usize = 0;
    while i <= last
        invariant
            vs@ == s@,
            vp@ == p@,
            0 < vp.len() <= vs.len(),
            last == vs.len() - vp.len(),
            i <= last + 1,
            forall|j: int| 0 <= j < i ==> #[trigger] vs@.subrange(j, j + vp@.len()) != vp@,
        decreases last + 1 - i,
    {
        if vec_matches_at(&vs, &vp, i) {
            assert(s@.subrange(i as int, i + p@.len()) == p@);
            return true;
        }
        i = i + 1;
    }
    assert forall|j: int| 0 <= j && j + p@.len() <= s@.len() implies #[trigger] s@.subrange(j, j + p@.len()) != p@ by {
        assert(j < i);
    }
    false
}

/// `s.starts_with(p)` for string slices.
pub fn starts_with(s: &str, p: &str) -> (r: bool)
    ensures
        r == seq_starts_with(s@, p@),
{
    let vs = chars_of(s);
    let vp = chars_of(p);
    vec_starts_with(&vs, &vp)
}

/// Whether `c` occurs in `v`.
pub fn vec_contains_char(v: &Vec<char>, c: char) -> (r: bool)
    ensures
        r == v@.contains(c),
{
    let mut i: usize = 0;
    while i < v.len()
        invariant
            i <= v.len(),
            forall|j: int| 0 <= j < i ==> v@[j] != c,
        decreases v.len() - i,
    {
        if v[i] == c {
            assert(v@[i as int] == c);
            return true;
        }
        i = i + 1;
    }
    false
}

/// Where the part after the last `c` of `v` begins: just past that `c`, or 0 when `v` holds
/// none (`last_index_of` plus one).
pub fn vec_last_segment_start(v: &Vec<char>, c: char) -> (r: usize)
    ensures
        r as int == last_index_of(v@, c) + 1,
{
    let mut i: usize = v.len();
    proof {
        assert(v@.subrange(0, v@.len() as int) == v@);
    }
    while i > 0
        invariant
            i <= v.len(),
            last_index_of(v@.subrange(0, i as int), c) == last_index_of(v@, c),
        decreases i,
    {
        let ghost sub = v@.subrange(0, i as int);
        if v[i - 1] == c {
            assert(sub.last() == c);
            return i;
        }
        assert(sub.drop_last() == v@.subrange(0, i - 1));
        i = i - 1;
    }
    assert(v@.subrange(0, 0).len() == 0);
    0
}

/// Decimal notation of an unsigned integer.
pub fn u64_to_string(n: u64) -> (r: String)
    ensures
        r@ == dec(n as nat),
    decreases n,
{
    let d = n % 10;
    let c: char = if d == 0 { '0' }
        else if d == 1 { '1' }
        else if d == 2 { '2' }
        else if d == 3 { '3' }
        else if d == 4 { '4' }
        else if d == 5 { '5' }
        else if d == 6 { '6' }
        else if d == 7 { '7' }
        else if d == 8 { '8' }
        else { '9' };
    if n < 10 {
        let mut r = String::new();
        push_char(&mut r, c);
        r
    } else {
        let mut r = u64_to_string(n / 10);
        push_char(&mut r, c);
        r
    }
}

/// Decimal notation of a signed integer.
pub fn i64_to_string(n: i64) -> (r: String)
    ensures
        r@ == dec_int(n as int),
{
    if n < 0 {
        let m: u64 = if n == i64::MIN { 9223372036854775808u64 } else { (-n) as u64 };
        let mut r = String::new();
        push_char(&mut r, '-');
        let t = u64_to_string(m);
        r.append(t.as_str());
        r
    } else {
        u64_to_string(n as u64)
    }
}

} // verus!

verus! {

/// Unicode lowercase mapping of a string, as `str::to_lowercase` computes it.
pub uninterp spec fn lowercase(s: Seq<char>) -> Seq<char>;

/// ASCII lowercase of one character.
pub open spec fn ascii_lower(c: char) -> char {
    if 'A' <= c && c <= 'Z' { ((c as u32) + 32) as char } else { c }
}

/// Every character is ASCII.
pub open spec fn all_ascii(s: Seq<char>) -> bool {
    forall|i: int| 0 <= i < s.len() ==> (s[i] as u32) < 128
}

/// Lowercases a string (wraps `str::to_lowercase`). On ASCII input the result is the
/// character-wise ASCII lowercase, as the standard library documents; other input is
/// described only through `lowercase`, but for this: no Unicode lowercase mapping yields `/`
/// from another character, so a text without `/` stays without it.
#[verifier::external_body]
pub(crate) fn to_lowercase(s: &str) -> (r: String)
    ensures
        r@ == lowercase(s@),
        all_ascii(s@) ==> r@ == s@.map_values(|c: char| ascii_lower(c)),
        !s@.contains('/') ==> !r@.contains('/'),
{
    s.to_lowercase()
}

/// Unicode `Alphabetic` or `Numeric` property of a character, as `char::is_alphanumeric`.
pub uninterp spec fn alphanumeric(c: char) -> bool;

/// ASCII letters and digits.
pub open spec fn ascii_alnum(c: char) -> bool {
    ('a' <= c && c <= 'z') || ('A' <= c && c <= 'Z') || ('0' <= c && c <= '9')
}

/// Whether a character is alphanumeric (wraps `char::is_alphanumeric`). For ASCII characters
/// this is exactly the ASCII letters and digits.
#[verifier::external_body]
pub(crate) fn is_alphanumeric(c: char) -> (r: bool)
    ensures
        r == alphanumeric(c),
        (c as u32) < 128 ==> (r == ascii_alnum(c)),
{
    c.is_alphanumeric()
}

} // verus!

verus! {

/// Lexicographic order of character sequences by code point (the order of `str` comparison).
pub open spec fn seq_less(a: Seq<char>, b: Seq<char>) -> bool
    decreases a.len(),
{
    if a.len() == 0 {
        b.len() > 0
    } else if b.len() == 0 {
        false
    } else if a[0] != b[0] {
        a[0] < b[0]
    } else {
        seq_less(a.drop_first(), b.drop_first())
    }
}

pub proof fn lemma_seq_less_asym(a: Seq<char>, b: Seq<char>)
    ensures
        !(seq_less(a, b) && seq_less(b, a)),
        a != b ==> (seq_less(a, b) || seq_less(b, a)),
    decreases a.len(),
{
    if a.len() > 0 && b.len() > 0 && a[0] == b[0] {
        lemma_seq_less_asym(a.drop_first(), b.drop_first());
        if a != b {
            assert(a == seq![a[0]] + a.drop_first());
            assert(b == seq![b[0]] + b.drop_first());
            if a.drop_first() == b.drop_first() {
                assert(a == b);
            }
        }
    } else if a.len() == 0 && b.len() == 0 {
        assert(a == b);
    }
}

/// Whether `a` sorts strictly before `b`.
pub fn str_less(a: &str, b: &str) -> (r: bool)
    ensures
        r == seq_less(a@, b@),
{
    let va = chars_of(a);
    let vb = chars_of(b);
    let mut i: usize = 0;
    proof {
        assert(a@.subrange(0, a@.len() as int) == a@);
        assert(b@.subrange(0, b@.len() as int) == b@);
    }
    while i < va.len() && i < vb.len() && va[i] == vb[i]
        invariant
            va@ == a@,
            vb@ == b@,
            i <= va.len(),
            i <= vb.len(),
            forall|j: int| 0 <= j < i ==> va@[j] == vb@[j],
            seq_less(a@, b@) == seq_less(a@.subrange(i as int, a@.len() as int), b@.subrange(i as int, b@.len() as int)),
        decreases va.len() - i,
    {
        let ghost sa = a@.subrange(i as int, a@.len() as int);
        let ghost sb = b@.subrange(i as int, b@.len() as int);
        assert(sa.drop_first() == a@.subrange(i + 1, a@.len() as int));
        assert(sb.drop_first() == b@.subrange(i + 1, b@.len() as int));
        i = i + 1;
    }
    if i == va.len() {
        i < vb.len()
    } else if i == vb.len() {
        false
    } else {
        va[i] < vb[i]
    }
}

/// The text before the first `c` (all of `s` when there is none).
pub open spec fn before_first(s: Seq<char>, c: char) -> Seq<char> {
    if first_index_of(s, c) < 0 { s } else { s.subrange(0, first_index_of(s, c)) }
}

/// The text after the first `c`, when there is one.
pub open spec fn after_first(s: Seq<char>, c: char) -> Option<Seq<char>> {
    if first_index_of(s, c) < 0 { None } else { Some(s.subrange(first_index_of(s, c) + 1, s.len() as int)) }
}

/// Splits `v` at its first `c`: the part before it, and the part after it when there is one.
pub fn split_first(v: &Vec<char>, c: char) -> (r: (Vec<char>, Option<Vec<char>>))
    ensures
        r.0@ == before_first(v@, c),
        r.1 matches Some(t) ==> t@.len() < v@.len(),
        match r.1 {
            Some(t) => after_first(v@, c) == Some(t@),
            None => after_first(v@, c) is None,
        },
{
    proof { lemma_first_index_of(v@, c); }
    let mut i: usize = 0;
    while i < v.len() && v[i] != c
        invariant
            i <= v.len(),
            forall|j: int| 0 <= j < i ==> v@[j] != c,
        decreases v.len() - i,
    {
        i = i + 1;
    }
    proof {
        let f = first_index_of(v@, c);
        if i < v.len() {
            assert(v@[i as int] == c);
            assert(f >= 0);
            assert(f == i as int) by {
                if f < i { assert(v@[f] != c); }
            }
        } else {
            if f >= 0 { assert(v@[f] != c); }
        }
    }
    if i == v.len() {
        (v.clone(), None)
    } else {
        let mut head: Vec<char> = Vec::new();
        let mut j: usize = 0;
        while j < i
            invariant
                i < v.len(),
                j <= i,
                head@ == v@.subrange(0, j as int),
            decreases i - j,
        {
            head.push(v[j]);
            assert(v@.subrange(0, j + 1) == v@.subrange(0, j as int).push(v@[j as int]));
            j = j + 1;
        }
        let mut tail: Vec<char> = Vec::new();
        let mut k: usize = i + 1;
        while k < v.len()
            invariant
                i < v.len(),
                i + 1 <= k <= v.len(),
                tail@ == v@.subrange(i + 1, k as int),
            decreases v.len() - k,
        {
            tail.push(v[k]);
            assert(v@.subrange(i + 1, k + 1) == v@.subrange(i + 1, k as int).push(v@[k as int]));
            k = k + 1;
        }
        (head, Some(tail))
    }
}

} // verus!

verus! {

/// The characters of an optional string slice.
pub open spec fn opt_view(o: Option<&str>) -> Option<Seq<char>> {
    match o {
        Some(s) => Some(s@),
        None => None,
    }
}

} // verus!

verus! {

/// The characters of each string of a sequence.
pub open spec fn strings_view(v: Seq<String>) -> Seq<Seq<char>> {
    v.map_values(|s: String| s@)
}

} // verus!
