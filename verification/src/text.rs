//! Character-level helpers on strings, each specified over `Seq<char>`.
//!
//! The specifications here are the meaning that the rest of the library gives to
//! prefix tests, substring search, whitespace trimming, splitting on a separator
//! and decimal numbers.
use vstd::prelude::*;

verus! {

// ---------------------------------------------------------------------------
// Specifications
// ---------------------------------------------------------------------------

/// `p` is a prefix of `s`.
pub open spec fn starts_with(s: Seq<char>, p: Seq<char>) -> bool {
    p.len() <= s.len() && s.subrange(0, p.len() as int) == p
}

/// `p` occurs in `s` at position `i`.
pub open spec fn occurs_at(s: Seq<char>, p: Seq<char>, i: int) -> bool {
    0 <= i && i + p.len() <= s.len() && s.subrange(i, i + p.len()) == p
}

/// `p` occurs somewhere in `s`.
pub open spec fn contains(s: Seq<char>, p: Seq<char>) -> bool {
    exists|i: int| occurs_at(s, p, i)
}

/// The Unicode `White_Space` property, as `char::is_whitespace` tests it.
pub open spec fn is_whitespace(c: char) -> bool {
    let u = c as u32;
    ||| 0x09 <= u <= 0x0d
    ||| u == 0x20
    ||| u == 0x85
    ||| u == 0xa0
    ||| u == 0x1680
    ||| 0x2000 <= u <= 0x200a
    ||| u == 0x2028
    ||| u == 0x2029
    ||| u == 0x202f
    ||| u == 0x205f
    ||| u == 0x3000
}

/// Index of the first non-whitespace character at or after `i` (or `s.len()`).
pub open spec fn skip_whitespace(s: Seq<char>, i: int) -> int
    decreases s.len() - i,
{
    if i < 0 || i >= s.len() {
        s.len() as int
    } else if is_whitespace(s[i]) {
        skip_whitespace(s, i + 1)
    } else {
        i
    }
}

/// End of `s[..j]` once the whitespace at its end, down to `lo`, is removed.
pub open spec fn trim_end_from(s: Seq<char>, lo: int, j: int) -> int
    decreases j - lo,
{
    if j <= lo {
        lo
    } else if is_whitespace(s[j - 1]) {
        trim_end_from(s, lo, j - 1)
    } else {
        j
    }
}

/// `s` without leading and trailing whitespace (`str::trim`).
pub open spec fn trim(s: Seq<char>) -> Seq<char> {
    let lo = skip_whitespace(s, 0);
    s.subrange(lo, trim_end_from(s, lo, s.len() as int))
}

/// Index of the first `c` at or after `i` in `s`, or `s.len()` when there is none.
pub open spec fn find_from(s: Seq<char>, c: char, i: int) -> int
    decreases s.len() - i,
{
    if i < 0 || i >= s.len() {
        s.len() as int
    } else if s[i] == c {
        i
    } else {
        find_from(s, c, i + 1)
    }
}

/// The first field of `s` split on `c` (`s.split(c).next()`).
pub open spec fn first_field(s: Seq<char>, c: char) -> Seq<char> {
    s.subrange(0, find_from(s, c, 0))
}

/// The second field of `s` split on `c` (`s.split(c).nth(1)`), if `c` occurs in `s`.
pub open spec fn second_field(s: Seq<char>, c: char) -> Option<Seq<char>> {
    let i = find_from(s, c, 0);
    if i >= s.len() {
        None
    } else {
        Some(s.subrange(i + 1, find_from(s, c, i + 1)))
    }
}

/// Index of the first character at or after `i` that is not `c`.
pub open spec fn skip_char(s: Seq<char>, c: char, i: int) -> int
    decreases s.len() - i,
{
    if i < 0 || i >= s.len() {
        s.len() as int
    } else if s[i] == c {
        skip_char(s, c, i + 1)
    } else {
        i
    }
}

/// `s` with every leading `c` removed (`str::trim_start_matches(c)`).
pub open spec fn trim_start_char(s: Seq<char>, c: char) -> Seq<char> {
    s.subrange(skip_char(s, c, 0), s.len() as int)
}

/// An ASCII decimal digit.
pub open spec fn is_digit(c: char) -> bool {
    '0' <= c && c <= '9'
}

/// Every character of `s` is an ASCII decimal digit.
pub open spec fn all_digits(s: Seq<char>) -> bool {
    forall|i: int| 0 <= i < s.len() ==> is_digit(#[trigger] s[i])
}

/// The value of a digit character.
pub open spec fn digit_value(c: char) -> int {
    c as int - '0' as int
}

/// The character of a digit value below ten.
pub open spec fn digit_char(d: int) -> char {
    (d + 48) as char
}

/// The number that the digits `s` write in base ten.
pub open spec fn decimal_value(s: Seq<char>) -> nat
    decreases s.len(),
{
    if s.len() == 0 {
        0
    } else {
        (10 * decimal_value(s.drop_last()) + digit_value(s.last())) as nat
    }
}

/// The base-ten text of `n`, without sign or leading zeros (`format!("{}", n)`).
pub open spec fn decimal_text(n: nat) -> Seq<char>
    decreases n,
{
    if n < 10 {
        seq![digit_char(n as int)]
    } else {
        decimal_text(n / 10).push(digit_char((n % 10) as int))
    }
}

/// What `str::parse::<usize>` gives: an optional `+`, then at least one digit,
/// and a value that fits in `usize`.
pub open spec fn parse_usize(s: Seq<char>) -> Option<usize> {
    let d = if s.len() > 0 && s[0] == '+' { s.drop_first() } else { s };
    if d.len() == 0 || !all_digits(d) || decimal_value(d) > usize::MAX {
        None
    } else {
        Some(decimal_value(d) as usize)
    }
}

/// `base` joined with the relative path `part`, with `/` between them as
/// `Path::join` does on Unix.
pub open spec fn join_path(base: Seq<char>, part: Seq<char>) -> Seq<char> {
    if base.len() == 0 {
        part
    } else if base.last() == '/' {
        base + part
    } else {
        base + seq!['/'] + part
    }
}

// ---------------------------------------------------------------------------
// Lemmas
// ---------------------------------------------------------------------------

/// Every character of `s` is whitespace.
pub open spec fn all_whitespace(s: Seq<char>) -> bool {
    forall|i: int| 0 <= i < s.len() ==> is_whitespace(#[trigger] s[i])
}

/// `skip_whitespace` is the first non-whitespace position from `i` on.
pub proof fn lemma_skip_whitespace_is(s: Seq<char>, i: int, j: int)
    requires
        0 <= i <= j <= s.len(),
        forall|k: int| i <= k < j ==> is_whitespace(#[trigger] s[k]),
        j < s.len() ==> !is_whitespace(s[j]),
    ensures
        skip_whitespace(s, i) == j,
    decreases j - i,
{
    if i < j {
        lemma_skip_whitespace_is(s, i + 1, j);
    }
}

/// `trim_end_from` is the end of the last non-whitespace character after `lo`.
pub proof fn lemma_trim_end_is(s: Seq<char>, lo: int, j: int, e: int)
    requires
        0 <= lo <= e <= j <= s.len(),
        forall|k: int| e <= k < j ==> is_whitespace(#[trigger] s[k]),
        e > lo ==> !is_whitespace(s[e - 1]),
    ensures
        trim_end_from(s, lo, j) == e,
    decreases j - e,
{
    if e < j {
        lemma_trim_end_is(s, lo, j - 1, e);
    }
}

/// Where the whitespace-trimmed part of `s` starts and ends.
pub proof fn lemma_trim_bounds(s: Seq<char>)
    ensures
        ({
            let lo = skip_whitespace(s, 0);
            let hi = trim_end_from(s, lo, s.len() as int);
            &&& 0 <= lo <= hi <= s.len()
            &&& forall|k: int| 0 <= k < lo ==> is_whitespace(#[trigger] s[k])
            &&& forall|k: int| hi <= k < s.len() ==> is_whitespace(#[trigger] s[k])
            &&& lo < s.len() ==> !is_whitespace(s[lo]) && lo < hi
            &&& hi > lo ==> !is_whitespace(s[hi - 1])
        }),
{
    lemma_skip_whitespace_bounds(s, 0);
    let lo = skip_whitespace(s, 0);
    lemma_trim_end_bounds(s, lo, s.len() as int);
}

/// Bounds of `skip_whitespace`.
proof fn lemma_skip_whitespace_bounds(s: Seq<char>, i: int)
    requires
        0 <= i <= s.len(),
    ensures
        i <= skip_whitespace(s, i) <= s.len(),
        forall|k: int| i <= k < skip_whitespace(s, i) ==> is_whitespace(#[trigger] s[k]),
        skip_whitespace(s, i) < s.len() ==> !is_whitespace(s[skip_whitespace(s, i)]),
    decreases s.len() - i,
{
    if i < s.len() && is_whitespace(s[i]) {
        lemma_skip_whitespace_bounds(s, i + 1);
    }
}

/// Bounds of `trim_end_from`.
proof fn lemma_trim_end_bounds(s: Seq<char>, lo: int, j: int)
    requires
        0 <= lo <= j <= s.len(),
        lo < s.len() ==> !is_whitespace(s[lo]),
        lo < s.len() ==> lo < j,
    ensures
        lo <= trim_end_from(s, lo, j) <= j,
        forall|k: int| trim_end_from(s, lo, j) <= k < j ==> is_whitespace(#[trigger] s[k]),
        trim_end_from(s, lo, j) > lo ==> !is_whitespace(s[trim_end_from(s, lo, j) - 1]),
        lo < s.len() ==> lo < trim_end_from(s, lo, j),
    decreases j - lo,
{
    if j > lo && is_whitespace(s[j - 1]) {
        lemma_trim_end_bounds(s, lo, j - 1);
    }
}

/// Whitespace around a text does not change what trimming keeps.
pub proof fn lemma_trim_padding(pre: Seq<char>, s: Seq<char>, post: Seq<char>)
    requires
        all_whitespace(pre),
        all_whitespace(post),
    ensures
        trim(pre + s + post) == trim(s),
{
    let x = pre + s + post;
    let p = pre.len() as int;
    lemma_trim_bounds(s);
    let lo = skip_whitespace(s, 0);
    let hi = trim_end_from(s, lo, s.len() as int);
    assert forall|k: int| 0 <= k < p implies x[k] == pre[k] by {}
    assert forall|k: int| 0 <= k < s.len() implies x[p + k] == s[k] by {}
    assert forall|k: int| 0 <= k < post.len() implies x[p + s.len() + k] == post[k] by {}
    if lo < s.len() {
        assert forall|k: int| 0 <= k < p + lo implies is_whitespace(#[trigger] x[k]) by {
            if k >= p {
                assert(x[k] == s[k - p]);
            }
        }
        lemma_skip_whitespace_is(x, 0, p + lo);
        assert forall|k: int| p + hi <= k < x.len() implies is_whitespace(#[trigger] x[k]) by {
            if k < p + s.len() {
                assert(x[k] == s[k - p]);
            } else {
                assert(x[k] == post[k - p - s.len()]);
            }
        }
        assert(x[p + hi - 1] == s[hi - 1]);
        lemma_trim_end_is(x, p + lo, x.len() as int, p + hi);
        assert(x.subrange(p + lo, p + hi) =~= s.subrange(lo, hi));
    } else {
        assert forall|k: int| 0 <= k < x.len() implies is_whitespace(#[trigger] x[k]) by {
            if p <= k < p + s.len() {
                assert(x[k] == s[k - p]);
            } else if k >= p + s.len() {
                assert(x[k] == post[k - p - s.len()]);
            }
        }
        lemma_skip_whitespace_is(x, 0, x.len() as int);
        lemma_trim_end_is(x, x.len() as int, x.len() as int, x.len() as int);
        assert(trim(x) =~= Seq::<char>::empty());
        assert(trim(s) =~= Seq::<char>::empty());
    }
}

/// A prefix of digits never writes more than the whole.
pub proof fn lemma_decimal_prefix_le(s: Seq<char>, k: int)
    requires
        0 <= k <= s.len(),
        all_digits(s),
    ensures
        decimal_value(s.take(k)) <= decimal_value(s),
    decreases s.len(),
{
    if k < s.len() {
        assert(s.drop_last().take(k) =~= s.take(k));
        assert(all_digits(s.drop_last())) by {
            assert forall|i: int| 0 <= i < s.drop_last().len() implies is_digit(
                #[trigger] s.drop_last()[i],
            ) by {
                assert(s.drop_last()[i] == s[i]);
            }
        }
        lemma_decimal_prefix_le(s.drop_last(), k);
        assert(is_digit(s[s.len() - 1]));
    } else {
        assert(s.take(k) =~= s);
    }
}

/// The text of `n` is made of digits, and reads back as `n`.
pub proof fn lemma_decimal_text(n: nat)
    ensures
        decimal_text(n).len() > 0,
        all_digits(decimal_text(n)),
        decimal_value(decimal_text(n)) == n,
        decimal_text(n)[0] != '+',
    decreases n,
{
    lemma_digit_char_value(n % 10);
    if n < 10 {
        let u = seq![digit_char(n as int)];
        assert(u.drop_last() =~= Seq::<char>::empty());
        assert(decimal_value(Seq::<char>::empty()) == 0);
        assert(decimal_value(u) == digit_value(u.last()));
        assert(all_digits(u));
    }
    if n >= 10 {
        lemma_decimal_text(n / 10);
        let t = decimal_text(n / 10);
        let u = t.push(digit_char((n % 10) as int));
        assert(u.drop_last() =~= t);
        assert forall|i: int| 0 <= i < u.len() implies is_digit(#[trigger] u[i]) by {
            if i < t.len() {
                assert(u[i] == t[i]);
            }
        }
        assert(u[0] == t[0]);
        assert(u.last() == digit_char((n % 10) as int));
        assert(decimal_value(u) == 10 * decimal_value(t) + digit_value(u.last()));
        assert(10 * (n / 10) + n % 10 == n);
    }
}

/// A digit character has the value it was made from.
pub proof fn lemma_digit_char_value(d: nat)
    requires
        d < 10,
    ensures
        is_digit(digit_char(d as int)),
        digit_value(digit_char(d as int)) == d,
        digit_char(d as int) != '+',
{
}

/// Reading the text of `n` as a `usize` gives `n` back.
pub proof fn lemma_parse_decimal_text(n: usize)
    ensures
        parse_usize(decimal_text(n as nat)) == Some(n),
{
    lemma_decimal_text(n as nat);
}

// ---------------------------------------------------------------------------
// Executable helpers
// ---------------------------------------------------------------------------

/// Appends `c` to `s` by `String::push`. Claimed, as the standard library
/// documents it: the string afterwards is the old one followed by `c`.
#[verifier::external_body]
fn push_char(s: &mut String, c: char)
    ensures
        final(s)@ == old(s)@.push(c),
{
    s.push(c);
}

/// The characters of `s`, in order.
pub fn chars_of(s: &str) -> (v: Vec<char>)
    ensures
        v@ == s@,
{
    broadcast use vstd::string::group_string_axioms;

    let mut v: Vec<char> = Vec::new();
    for c in iter: s.chars()
        invariant
            v@ == iter.seq().take(iter.index()),
            iter.seq() == s@,
    {
        v.push(c);
    }
    v
}

/// The string made of `v[lo..hi]`.
pub fn string_of(v: &Vec<char>, lo: usize, hi: usize) -> (s: String)
    requires
        lo <= hi <= v.len(),
    ensures
        s@ == v@.subrange(lo as int, hi as int),
{
    let mut s = String::new();
    let mut i = lo;
    while i < hi
        invariant
            lo <= i <= hi <= v.len(),
            s@ == v@.subrange(lo as int, i as int),
        decreases hi - i,
    {
        push_char(&mut s, v[i]);
        assert(v@.subrange(lo as int, i + 1) =~= v@.subrange(lo as int, i as int).push(v@[i as int]));
        i = i + 1;
    }
    s
}

/// A copy of `v[lo..hi]`.
pub fn sub_chars(v: &Vec<char>, lo: usize, hi: usize) -> (r: Vec<char>)
    requires
        lo <= hi <= v.len(),
    ensures
        r@ == v@.subrange(lo as int, hi as int),
{
    let mut r: Vec<char> = Vec::new();
    let mut i = lo;
    while i < hi
        invariant
            lo <= i <= hi <= v.len(),
            r@ == v@.subrange(lo as int, i as int),
        decreases hi - i,
    {
        r.push(v[i]);
        assert(v@.subrange(lo as int, i + 1) =~= v@.subrange(lo as int, i as int).push(v@[i as int]));
        i = i + 1;
    }
    r
}

/// The concatenation `a` followed by `b`.
pub fn concat(a: &str, b: &str) -> (s: String)
    ensures
        s@ == a@ + b@,
{
    let mut s = a.to_owned();
    s.append(b);
    s
}

/// Whether `p` occurs in `s` at position `i`.
pub fn occurs_at_exec(s: &Vec<char>, p: &Vec<char>, i: usize) -> (b: bool)
    ensures
        b == occurs_at(s@, p@, i as int),
{
    if i > s.len() || p.len() > s.len() - i {
        return false;
    }
    let mut k: usize = 0;
    while k < p.len()
        invariant
            i + p.len() <= s.len(),
            k <= p.len(),
            forall|j: int| 0 <= j < k ==> s@[i + j] == p@[j],
        decreases p.len() - k,
    {
        if s[i + k] != p[k] {
            assert(s@.subrange(i as int, i + p.len())[k as int] != p@[k as int]);
            return false;
        }
        k = k + 1;
    }
    assert(s@.subrange(i as int, i + p.len()) =~= p@);
    true
}

/// Whether `s` starts with `p`.
pub fn starts_with_exec(s: &Vec<char>, p: &Vec<char>) -> (b: bool)
    ensures
        b == starts_with(s@, p@),
{
    occurs_at_exec(s, p, 0)
}

/// Whether `p` occurs in `s`.
pub fn contains_exec(s: &Vec<char>, p: &Vec<char>) -> (b: bool)
    ensures
        b == contains(s@, p@),
{
    if p.len() > s.len() {
        assert forall|i: int| !occurs_at(s@, p@, i) by {}
        return false;
    }
    let last = s.len() - p.len();
    let mut i: usize = 0;
    loop
        invariant
            p.len() <= s.len(),
            last == s.len() - p.len(),
            i <= last,
            forall|j: int| 0 <= j < i ==> !occurs_at(s@, p@, j),
        ensures
            forall|j: int| 0 <= j <= last ==> !occurs_at(s@, p@, j),
        decreases last - i,
    {
        if occurs_at_exec(s, p, i) {
            return true;
        }
        if i == last {
            break;
        }
        i = i + 1;
    }
    assert forall|j: int| !occurs_at(s@, p@, j) by {
        if 0 <= j <= last {
        }
    }
    false
}

/// Whether `s` starts with the characters of `p`.
pub fn str_starts_with(s: &str, p: &str) -> (b: bool)
    ensures
        b == starts_with(s@, p@),
{
    let sv = chars_of(s);
    let pv = chars_of(p);
    starts_with_exec(&sv, &pv)
}

/// Whether `a` and `b` hold the same characters.
pub fn str_eq(a: &str, b: &str) -> (r: bool)
    ensures
        r == (a@ == b@),
{
    let av = chars_of(a);
    let bv = chars_of(b);
    if av.len() != bv.len() {
        return false;
    }
    let r = starts_with_exec(&av, &bv);
    proof {
        if r {
            assert(av@.subrange(0, av@.len() as int) =~= av@);
        } else {
            assert(av@ != bv@) by {
                if av@ == bv@ {
                    assert(av@.subrange(0, bv@.len() as int) =~= av@);
                }
            }
        }
    }
    r
}

/// Whether `c` is a whitespace character.
pub fn is_whitespace_exec(c: char) -> (b: bool)
    ensures
        b == is_whitespace(c),
{
    let u = c as u32;
    (0x09 <= u && u <= 0x0d) || u == 0x20 || u == 0x85 || u == 0xa0 || u == 0x1680 || (0x2000
        <= u && u <= 0x200a) || u == 0x2028 || u == 0x2029 || u == 0x202f || u == 0x205f || u
        == 0x3000
}

/// `s` without leading and trailing whitespace.
pub fn trim_exec(s: &Vec<char>) -> (r: Vec<char>)
    ensures
        r@ == trim(s@),
{
    let mut lo: usize = 0;
    while lo < s.len() && is_whitespace_exec(s[lo])
        invariant
            lo <= s.len(),
            skip_whitespace(s@, lo as int) == skip_whitespace(s@, 0),
        decreases s.len() - lo,
    {
        lo = lo + 1;
    }
    let mut hi: usize = s.len();
    while hi > lo && is_whitespace_exec(s[hi - 1])
        invariant
            lo <= hi <= s.len(),
            trim_end_from(s@, lo as int, hi as int) == trim_end_from(s@, lo as int, s.len() as int),
        decreases hi - lo,
    {
        hi = hi - 1;
    }
    sub_chars(s, lo, hi)
}

/// Index of the first `c` at or after `i` in `s`, or `s.len()` when there is none.
pub fn find_from_exec(s: &Vec<char>, c: char, i: usize) -> (r: usize)
    ensures
        r as int == find_from(s@, c, i as int),
{
    let mut k = i;
    if k > s.len() {
        return s.len();
    }
    while k < s.len() && s[k] != c
        invariant
            i <= k <= s.len(),
            find_from(s@, c, k as int) == find_from(s@, c, i as int),
        decreases s.len() - k,
    {
        k = k + 1;
    }
    k
}

/// The first field of `s` split on `c`.
pub fn first_field_exec(s: &str, c: char) -> (r: String)
    ensures
        r@ == first_field(s@, c),
{
    let v = chars_of(s);
    let e = find_from_exec(&v, c, 0);
    proof { lemma_find_from_bounds(v@, c, 0); }
    string_of(&v, 0, e)
}

/// The second field of `s` split on `c`, if `c` occurs in `s`.
pub fn second_field_exec(s: &Vec<char>, c: char) -> (r: Option<Vec<char>>)
    ensures
        match r {
            Some(f) => second_field(s@, c) == Some(f@),
            None => second_field(s@, c) is None,
        },
{
    let i = find_from_exec(s, c, 0);
    if i >= s.len() {
        return None;
    }
    let j = find_from_exec(s, c, i + 1);
    proof { lemma_find_from_bounds(s@, c, i + 1); }
    Some(sub_chars(s, i + 1, j))
}

/// `find_from` stays within the sequence.
pub proof fn lemma_find_from_bounds(s: Seq<char>, c: char, i: int)
    ensures
        0 <= i <= s.len() ==> i <= find_from(s, c, i) <= s.len(),
        find_from(s, c, i) <= s.len(),
        find_from(s, c, i) < s.len() ==> s[find_from(s, c, i)] == c,
    decreases s.len() - i,
{
    if 0 <= i < s.len() && s[i] != c {
        lemma_find_from_bounds(s, c, i + 1);
    }
}

/// `s` with every leading `c` removed.
pub fn trim_start_char_exec(s: &str, c: char) -> (r: String)
    ensures
        r@ == trim_start_char(s@, c),
{
    let v = chars_of(s);
    let mut k: usize = 0;
    while k < v.len() && v[k] == c
        invariant
            k <= v.len(),
            skip_char(v@, c, k as int) == skip_char(v@, c, 0),
        decreases v.len() - k,
    {
        k = k + 1;
    }
    string_of(&v, k, v.len())
}

/// The character of the digit `d`.
fn digit_char_exec(d: usize) -> (c: char)
    requires
        d < 10,
    ensures
        c == digit_char(d as int),
{
    let b: u8 = 48 + d as u8;
    b as char
}

/// Appends the base-ten text of `n` to `out`.
pub fn push_decimal(out: &mut String, n: usize)
    ensures
        final(out)@ == old(out)@ + decimal_text(n as nat),
    decreases n,
{
    if n >= 10 {
        push_decimal(out, n / 10);
    }
    let ghost before = out@;
    push_char(out, digit_char_exec(n % 10));
    assert(old(out)@ + decimal_text(n as nat) =~= before.push(digit_char((n % 10) as int)));
}

/// The base-ten text of `n` (`n.to_string()`).
pub fn usize_to_string(n: usize) -> (s: String)
    ensures
        s@ == decimal_text(n as nat),
{
    let mut s = String::new();
    push_decimal(&mut s, n);
    assert(s@ =~= decimal_text(n as nat));
    s
}

/// Reads `s` as a `usize` in base ten, as `str::parse::<usize>` does.
pub fn parse_usize_exec(s: &Vec<char>) -> (r: Option<usize>)
    ensures
        r == parse_usize(s@),
{
    let start: usize = if s.len() > 0 && s[0] == '+' { 1 } else { 0 };
    let ghost d = if s@.len() > 0 && s@[0] == '+' { s@.drop_first() } else { s@ };
    assert(d =~= s@.subrange(start as int, s@.len() as int));
    if start >= s.len() {
        return None;
    }
    let mut acc: usize = 0;
    let mut i = start;
    while i < s.len()
        invariant
            start <= i <= s.len(),
            d == s@.subrange(start as int, s@.len() as int),
            d == (if s@.len() > 0 && s@[0] == '+' { s@.drop_first() } else { s@ }),
            d.len() > 0,
            all_digits(d.take(i - start)),
            acc as nat == decimal_value(d.take(i - start)),
        decreases s.len() - i,
    {
        let c = s[i];
        let ghost k = i - start;
        assert(d[k] == c);
        if !('0' <= c && c <= '9') {
            assert(!all_digits(d));
            return None;
        }
        let dig = (c as u32 - '0' as u32) as usize;
        assert(d.take(k + 1).drop_last() =~= d.take(k));
        assert(all_digits(d.take(k + 1))) by {
            assert forall|j: int| 0 <= j < k + 1 implies is_digit(#[trigger] d.take(k + 1)[j]) by {
                if j < k {
                    assert(d.take(k + 1)[j] == d.take(k)[j]);
                }
            }
        }
        match acc.checked_mul(10) {
            Some(m) => match m.checked_add(dig) {
                Some(a) => {
                    acc = a;
                },
                None => {
                    proof { lemma_overflow_rejects(d, k + 1); }
                    return None;
                },
            },
            None => {
                proof { lemma_overflow_rejects(d, k + 1); }
                return None;
            },
        }
        i = i + 1;
    }
    assert(d.take(i - start) =~= d);
    Some(acc)
}

/// Once a prefix of digits exceeds `usize::MAX`, the whole text is rejected.
proof fn lemma_overflow_rejects(d: Seq<char>, k: int)
    requires
        0 < k <= d.len(),
        all_digits(d.take(k)),
        decimal_value(d.take(k)) > usize::MAX,
    ensures
        !all_digits(d) || decimal_value(d) > usize::MAX,
{
    if all_digits(d) {
        lemma_decimal_prefix_le(d, k);
    }
}

/// `base` joined with the relative path `part`.
pub fn join_path_exec(base: &str, part: &str) -> (r: String)
    ensures
        r@ == join_path(base@, part@),
{
    let bv = chars_of(base);
    if bv.len() == 0 {
        return part.to_owned();
    }
    let mut r = base.to_owned();
    if bv[bv.len() - 1] != '/' {
        push_char(&mut r, '/');
    }
    r.append(part);
    r
}

} // verus!
