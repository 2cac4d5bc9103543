//! Text handling on character sequences.
//!
//! A slice of characters stands for a piece of text; every function states its
//! result over the sequence of those characters.

use vstd::prelude::*;

verus! {

// ---------------------------------------------------------------- conversion

/// `String::push` of std: appends one character at the end of the string.
pub assume_specification[ String::push ](s: &mut String, ch: char)
    ensures
        final(s)@ == old(s)@.push(ch),
;

/// The characters of `s`, in order.
pub fn chars_of(s: &str) -> (r: Vec<char>)
    ensures
        r@ == s@,
{
    let mut out: Vec<char> = Vec::new();
    for c in it: s.chars()
        invariant
            it.seq() == s@,
            out@ == s@.take(it.index() as int),
    {
        assert(s@.take(it.index() as int).push(c) =~= s@.take(it.index() + 1));
        out.push(c);
    }
    assert(s@.take(s@.len() as int) =~= s@);
    out
}

/// The string made of the given characters.
pub fn string_of(s: &[char]) -> (r: String)
    ensures
        r@ == s@,
{
    let mut out: String = String::new();
    let mut i: usize = 0;
    while i < s.len()
        invariant
            i <= s@.len(),
            out@ == s@.take(i as int),
        decreases s@.len() - i,
    {
        assert(s@.take(i as int).push(s@[i as int]) =~= s@.take(i + 1));
        out.push(s[i]);
        i += 1;
    }
    assert(s@.take(s@.len() as int) =~= s@);
    out
}

/// The pieces of text that a list of slices stands for.
pub open spec fn pieces(v: Seq<&[char]>) -> Seq<Seq<char>> {
    v.map_values(|x: &[char]| x@)
}

/// The texts of a list of strings.
pub open spec fn texts(v: Seq<String>) -> Seq<Seq<char>> {
    v.map_values(|x: String| x@)
}

/// The text of an optional string.
pub open spec fn opt_text(v: Option<String>) -> Option<Seq<char>> {
    match v {
        Some(x) => Some(x@),
        None => None,
    }
}

/// The text of an optional string slice.
pub open spec fn opt_str(v: Option<&str>) -> Option<Seq<char>> {
    match v {
        Some(x) => Some(x@),
        None => None,
    }
}

// ---------------------------------------------------------------- equality

/// A text or the text of an error.
pub open spec fn text_result(r: Result<String, String>) -> Result<Seq<char>, Seq<char>> {
    match r {
        Ok(t) => Ok(t@),
        Err(e) => Err(e@),
    }
}

/// Whether two pieces of text are the same.
pub fn chars_eq(a: &[char], b: &[char]) -> (r: bool)
    ensures
        r == (a@ == b@),
{
    if a.len() != b.len() {
        return false;
    }
    let mut i: usize = 0;
    while i < a.len()
        invariant
            i <= a@.len(),
            a@.len() == b@.len(),
            forall|j: int| 0 <= j < i ==> a@[j] == b@[j],
        decreases a@.len() - i,
    {
        if a[i] != b[i] {
            return false;
        }
        i += 1;
    }
    assert(a@ =~= b@);
    true
}

/// Whether two strings hold the same text.
pub fn str_eq(a: &str, b: &str) -> (r: bool)
    ensures
        r == (a@ == b@),
{
    let left: Vec<char> = chars_of(a);
    let right: Vec<char> = chars_of(b);
    chars_eq(left.as_slice(), right.as_slice())
}

/// A copy of an optional string.
pub fn opt_clone(v: &Option<String>) -> (r: Option<String>)
    ensures
        opt_text(r) == opt_text(*v),
{
    match v {
        Some(x) => Some(x.clone()),
        None => None,
    }
}

// ---------------------------------------------------------------- characters

/// The scalar value of a character.
pub fn code_of(c: char) -> (r: u32)
    ensures
        r == c as int,
{
    c as u32
}

/// The Unicode `White_Space` property.
pub open spec fn white(c: char) -> bool {
    ||| 0x9 <= c as int <= 0xd
    ||| c as int == 0x20
    ||| c as int == 0x85
    ||| c as int == 0xa0
    ||| c as int == 0x1680
    ||| 0x2000 <= c as int <= 0x200a
    ||| 0x2028 <= c as int <= 0x2029
    ||| c as int == 0x202f
    ||| c as int == 0x205f
    ||| c as int == 0x3000
}

/// Whether `c` has the Unicode `White_Space` property.
pub fn is_white(c: char) -> (r: bool)
    ensures
        r == white(c),
{
    let n: u32 = c as u32;
    (0x9 <= n && n <= 0xd) || n == 0x20 || n == 0x85 || n == 0xa0 || n == 0x1680 || (0x2000 <= n
        && n <= 0x200a) || n == 0x2028 || n == 0x2029 || n == 0x202f || n == 0x205f || n == 0x3000
}

/// The lower-case form of an ASCII letter; any other character is its own form.
pub open spec fn lower(c: char) -> char {
    if 'A' as int <= c as int <= 'Z' as int {
        (c as int + 32) as char
    } else {
        c
    }
}

/// The ASCII lower-case form of `c`.
pub fn lower_char(c: char) -> (r: char)
    ensures
        r == lower(c),
{
    let n: u32 = c as u32;
    if 65 <= n && n <= 90 {
        let b: u8 = n as u8;
        (b + 32) as char
    } else {
        c
    }
}

/// The text with every ASCII letter in lower case.
pub open spec fn lowered(s: Seq<char>) -> Seq<char> {
    s.map_values(|c: char| lower(c))
}

/// The text with every ASCII letter in lower case.
pub fn to_lower(s: &[char]) -> (r: Vec<char>)
    ensures
        r@ == lowered(s@),
{
    let mut out: Vec<char> = Vec::new();
    let mut i: usize = 0;
    while i < s.len()
        invariant
            i <= s@.len(),
            out@ == lowered(s@).take(i as int),
        decreases s@.len() - i,
    {
        out.push(lower_char(s[i]));
        i += 1;
        assert(lowered(s@).take(i as int) =~= lowered(s@).take(i - 1).push(lower(s@[i - 1])));
    }
    assert(lowered(s@).take(s@.len() as int) =~= lowered(s@));
    out
}

/// Whether two texts differ at most in the case of ASCII letters.
pub fn eq_ignoring_case(a: &[char], b: &[char]) -> (r: bool)
    ensures
        r == (lowered(a@) == lowered(b@)),
{
    let left: Vec<char> = to_lower(a);
    let right: Vec<char> = to_lower(b);
    chars_eq(left.as_slice(), right.as_slice())
}

/// An ASCII letter or digit.
pub open spec fn alphanumeric(c: char) -> bool {
    ||| 'a' as int <= c as int <= 'z' as int
    ||| 'A' as int <= c as int <= 'Z' as int
    ||| '0' as int <= c as int <= '9' as int
}

/// Whether `c` is an ASCII letter or digit.
pub fn is_alphanumeric(c: char) -> (r: bool)
    ensures
        r == alphanumeric(c),
{
    let n: u32 = c as u32;
    (97 <= n && n <= 122) || (65 <= n && n <= 90) || (48 <= n && n <= 57)
}

// ---------------------------------------------------------------- trimming

/// The text without the white space at its start.
pub open spec fn trim_start(s: Seq<char>) -> Seq<char>
    decreases s.len(),
{
    if s.len() > 0 && white(s[0]) {
        trim_start(s.skip(1))
    } else {
        s
    }
}

/// The text without the white space at its end.
pub open spec fn trim_end(s: Seq<char>) -> Seq<char>
    decreases s.len(),
{
    if s.len() > 0 && white(s.last()) {
        trim_end(s.drop_last())
    } else {
        s
    }
}

/// The text without the white space around it.
pub open spec fn trimmed(s: Seq<char>) -> Seq<char> {
    trim_end(trim_start(s))
}

/// The text without the white space at its start.
pub fn skip_white(s: &[char]) -> (r: &[char])
    ensures
        r@ == trim_start(s@),
        r@.len() <= s@.len(),
{
    let mut i: usize = 0;
    assert(s@.skip(0) =~= s@);
    while i < s.len() && is_white(s[i])
        invariant
            i <= s@.len(),
            trim_start(s@.skip(i as int)) == trim_start(s@),
        decreases s@.len() - i,
    {
        assert(s@.skip(i as int).skip(1) =~= s@.skip(i + 1));
        i += 1;
    }
    assert(s@.subrange(i as int, s@.len() as int) =~= s@.skip(i as int));
    &s[i..s.len()]
}

/// The text without the white space around it.
pub fn trim(s: &[char]) -> (r: &[char])
    ensures
        r@ == trimmed(s@),
        r@.len() <= s@.len(),
{
    let t: &[char] = skip_white(s);
    let mut n: usize = t.len();
    assert(t@.take(n as int) =~= t@);
    while n > 0 && is_white(t[n - 1])
        invariant
            n <= t@.len(),
            trim_end(t@.take(n as int)) == trim_end(t@),
        decreases n,
    {
        assert(t@.take(n as int).drop_last() =~= t@.take(n - 1));
        n -= 1;
    }
    assert(t@.subrange(0, n as int) =~= t@.take(n as int));
    &t[0..n]
}

/// The text without the run of `c` at its end.
pub open spec fn trim_end_of(s: Seq<char>, c: char) -> Seq<char>
    decreases s.len(),
{
    if s.len() > 0 && s.last() == c {
        trim_end_of(s.drop_last(), c)
    } else {
        s
    }
}

/// The text without the run of `c` at its end.
pub fn trim_end_char(s: &[char], c: char) -> (r: &[char])
    ensures
        r@ == trim_end_of(s@, c),
        r@.len() <= s@.len(),
{
    let mut n: usize = s.len();
    assert(s@.take(n as int) =~= s@);
    while n > 0 && s[n - 1] == c
        invariant
            n <= s@.len(),
            trim_end_of(s@.take(n as int), c) == trim_end_of(s@, c),
        decreases n,
    {
        assert(s@.take(n as int).drop_last() =~= s@.take(n - 1));
        n -= 1;
    }
    assert(s@.subrange(0, n as int) =~= s@.take(n as int));
    &s[0..n]
}

/// The text without the run of `c` at its start.
pub open spec fn trim_start_of(s: Seq<char>, c: char) -> Seq<char>
    decreases s.len(),
{
    if s.len() > 0 && s[0] == c {
        trim_start_of(s.skip(1), c)
    } else {
        s
    }
}

/// The text without the run of `c` at its start.
pub fn trim_start_char(s: &[char], c: char) -> (r: &[char])
    ensures
        r@ == trim_start_of(s@, c),
        r@.len() <= s@.len(),
{
    let mut i: usize = 0;
    assert(s@.skip(0) =~= s@);
    while i < s.len() && s[i] == c
        invariant
            i <= s@.len(),
            trim_start_of(s@.skip(i as int), c) == trim_start_of(s@, c),
        decreases s@.len() - i,
    {
        assert(s@.skip(i as int).skip(1) =~= s@.skip(i + 1));
        i += 1;
    }
    assert(s@.subrange(i as int, s@.len() as int) =~= s@.skip(i as int));
    &s[i..s.len()]
}

// ---------------------------------------------------------------- prefixes

/// `p` stands at the start of `s`.
pub open spec fn has_prefix(s: Seq<char>, p: Seq<char>) -> bool {
    p.len() <= s.len() && s.take(p.len() as int) == p
}

/// `p` stands at the end of `s`.
pub open spec fn has_suffix(s: Seq<char>, p: Seq<char>) -> bool {
    p.len() <= s.len() && s.skip(s.len() - p.len()) == p
}

/// Whether `s` starts with `p`.
pub fn starts_with(s: &[char], p: &[char]) -> (r: bool)
    ensures
        r == has_prefix(s@, p@),
{
    if p.len() > s.len() {
        return false;
    }
    assert(s@.subrange(0, p@.len() as int) =~= s@.take(p@.len() as int));
    chars_eq(&s[0..p.len()], p)
}

/// Whether `s` ends with `p`.
pub fn ends_with(s: &[char], p: &[char]) -> (r: bool)
    ensures
        r == has_suffix(s@, p@),
{
    if p.len() > s.len() {
        return false;
    }
    assert(s@.subrange(s@.len() - p@.len(), s@.len() as int) =~= s@.skip(s@.len() - p@.len()));
    chars_eq(&s[s.len() - p.len()..s.len()], p)
}

/// Whether `s` starts with the text of `p`.
pub fn starts_with_str(s: &[char], p: &str) -> (r: bool)
    ensures
        r == has_prefix(s@, p@),
{
    let q: Vec<char> = chars_of(p);
    starts_with(s, q.as_slice())
}

/// Whether `s` ends with the text of `p`.
pub fn ends_with_str(s: &[char], p: &str) -> (r: bool)
    ensures
        r == has_suffix(s@, p@),
{
    let q: Vec<char> = chars_of(p);
    ends_with(s, q.as_slice())
}

/// What follows the prefix `p` in `s`, where it stands there.
pub open spec fn after_prefix(s: Seq<char>, p: Seq<char>) -> Option<Seq<char>> {
    if has_prefix(s, p) {
        Some(s.skip(p.len() as int))
    } else {
        None
    }
}

/// What follows the prefix `p` in `s`, where it stands there.
pub fn strip_prefix<'a>(s: &'a [char], p: &str) -> (r: Option<&'a [char]>)
    ensures
        match r {
            Some(x) => after_prefix(s@, p@) == Some(x@) && x@.len() + p@.len() == s@.len(),
            None => after_prefix(s@, p@) is None,
        },
{
    let q: Vec<char> = chars_of(p);
    if starts_with(s, q.as_slice()) {
        assert(s@.subrange(q@.len() as int, s@.len() as int) =~= s@.skip(q@.len() as int));
        Some(&s[q.len()..s.len()])
    } else {
        None
    }
}

/// The text without any number of leading copies of the non-empty text `p`.
pub open spec fn without_prefixes(s: Seq<char>, p: Seq<char>) -> Seq<char>
    decreases s.len(),
{
    if p.len() > 0 && has_prefix(s, p) {
        without_prefixes(s.skip(p.len() as int), p)
    } else {
        s
    }
}

/// The text without any number of leading copies of `p`.
pub fn strip_prefixes<'a>(s: &'a [char], p: &str) -> (r: &'a [char])
    requires
        p@.len() > 0,
    ensures
        r@ == without_prefixes(s@, p@),
        r@.len() <= s@.len(),
{
    let q: Vec<char> = chars_of(p);
    let mut rest: &'a [char] = s;
    while starts_with(rest, q.as_slice())
        invariant
            q@ == p@,
            p@.len() > 0,
            rest@.len() <= s@.len(),
            without_prefixes(rest@, p@) == without_prefixes(s@, p@),
        decreases rest@.len(),
    {
        assert(rest@.subrange(q@.len() as int, rest@.len() as int) =~= rest@.skip(q@.len() as int));
        rest = &rest[q.len()..rest.len()];
    }
    rest
}

// ---------------------------------------------------------------- searching

/// The number of characters before the first `c`; the whole length where there
/// is none.
pub open spec fn index_of(s: Seq<char>, c: char) -> int
    decreases s.len(),
{
    if s.len() == 0 || s[0] == c {
        0
    } else {
        1 + index_of(s.skip(1), c)
    }
}

/// The index of the last `c`, or -1 where there is none.
pub open spec fn last_index_of(s: Seq<char>, c: char) -> int
    decreases s.len(),
{
    if s.len() == 0 {
        -1
    } else if s.last() == c {
        s.len() - 1
    } else {
        last_index_of(s.drop_last(), c)
    }
}

/// The number of characters before the first one of `set`; the whole length
/// where there is none.
pub open spec fn index_of_any(s: Seq<char>, set: Seq<char>) -> int
    decreases s.len(),
{
    if s.len() == 0 || set.contains(s[0]) {
        0
    } else {
        1 + index_of_any(s.skip(1), set)
    }
}

/// `index_of_any` lies within the text and finds the first character of `set`.
pub proof fn lemma_index_of_any(s: Seq<char>, set: Seq<char>)
    ensures
        0 <= index_of_any(s, set) <= s.len(),
        index_of_any(s, set) < s.len() ==> set.contains(s[index_of_any(s, set)]),
        forall|j: int| 0 <= j < index_of_any(s, set) ==> !set.contains(#[trigger] s[j]),
    decreases s.len(),
{
    if s.len() > 0 && !set.contains(s[0]) {
        lemma_index_of_any(s.skip(1), set);
        assert forall|j: int| 0 <= j < index_of_any(s, set) implies !set.contains(
            #[trigger] s[j],
        ) by {
            if j > 0 {
                assert(s[j] == s.skip(1)[j - 1]);
            }
        }
    }
}

/// `index_of_any` is the place of the first character of `set`.
pub proof fn lemma_index_of_any_is(s: Seq<char>, set: Seq<char>, k: int)
    requires
        0 <= k <= s.len(),
        k < s.len() ==> set.contains(s[k]),
        forall|j: int| 0 <= j < k ==> !set.contains(#[trigger] s[j]),
    ensures
        index_of_any(s, set) == k,
{
    lemma_index_of_any(s, set);
    let m: int = index_of_any(s, set);
    if m < k {
        assert(!set.contains(s[m]));
    }
    if k < m {
        assert(!set.contains(s[k]));
    }
}

/// `index_of` lies within the text and finds the first `c`.
pub proof fn lemma_index_of(s: Seq<char>, c: char)
    ensures
        0 <= index_of(s, c) <= s.len(),
        index_of(s, c) < s.len() ==> s[index_of(s, c)] == c,
        forall|j: int| 0 <= j < index_of(s, c) ==> s[j] != c,
    decreases s.len(),
{
    if s.len() > 0 && s[0] != c {
        lemma_index_of(s.skip(1), c);
        assert forall|j: int| 0 <= j < index_of(s, c) implies s[j] != c by {
            if j > 0 {
                assert(s[j] == s.skip(1)[j - 1]);
            }
        }
    }
}

/// `index_of` is the only index that finds the first `c`.
pub proof fn lemma_index_of_is(s: Seq<char>, c: char, k: int)
    requires
        0 <= k <= s.len(),
        k < s.len() ==> s[k] == c,
        forall|j: int| 0 <= j < k ==> s[j] != c,
    ensures
        index_of(s, c) == k,
{
    lemma_index_of(s, c);
    let m: int = index_of(s, c);
    if m < k {
        assert(s[m] != c);
    }
    if k < m {
        assert(s[k] != c);
    }
}

/// The index of the first `c`, or the length of the text.
pub fn find_char(s: &[char], c: char) -> (r: usize)
    ensures
        r == index_of(s@, c),
        r <= s@.len(),
        r < s@.len() ==> s@[r as int] == c,
        forall|j: int| 0 <= j < r ==> s@[j] != c,
{
    let mut i: usize = 0;
    while i < s.len() && s[i] != c
        invariant
            i <= s@.len(),
            forall|j: int| 0 <= j < i ==> s@[j] != c,
        decreases s@.len() - i,
    {
        i += 1;
    }
    proof {
        lemma_index_of_is(s@, c, i as int);
    }
    i
}

/// `last_index_of` lies within the text and finds the last `c`.
pub proof fn lemma_last_index_of(s: Seq<char>, c: char)
    ensures
        -1 <= last_index_of(s, c) < s.len(),
        last_index_of(s, c) >= 0 ==> s[last_index_of(s, c)] == c,
        forall|j: int| last_index_of(s, c) < j < s.len() ==> s[j] != c,
    decreases s.len(),
{
    if s.len() > 0 && s.last() != c {
        lemma_last_index_of(s.drop_last(), c);
        assert forall|j: int| last_index_of(s, c) < j < s.len() implies s[j] != c by {
            if j < s.len() - 1 {
                assert(s[j] == s.drop_last()[j]);
            }
        }
    }
}

/// The index of the last `c`.
pub fn rfind_char(s: &[char], c: char) -> (r: Option<usize>)
    ensures
        match r {
            Some(k) => k == last_index_of(s@, c) && k < s@.len(),
            None => last_index_of(s@, c) == -1,
        },
{
    let mut n: usize = s.len();
    assert(s@.take(n as int) =~= s@);
    while n > 0
        invariant
            n <= s@.len(),
            last_index_of(s@.take(n as int), c) == last_index_of(s@, c),
        decreases n,
    {
        if s[n - 1] == c {
            assert(s@.take(n as int).last() == c);
            return Some(n - 1);
        }
        assert(s@.take(n as int).drop_last() =~= s@.take(n - 1));
        n -= 1;
    }
    None
}

/// Whether `c` is one of the characters of `set`.
pub fn in_set(set: &[char], c: char) -> (r: bool)
    ensures
        r == set@.contains(c),
{
    let mut i: usize = 0;
    while i < set.len()
        invariant
            i <= set@.len(),
            forall|j: int| 0 <= j < i ==> set@[j] != c,
        decreases set@.len() - i,
    {
        if set[i] == c {
            assert(set@[i as int] == c);
            return true;
        }
        i += 1;
    }
    false
}

/// The text before the first character of `set`.
pub open spec fn before_any(s: Seq<char>, set: Seq<char>) -> Seq<char> {
    s.take(index_of_any(s, set))
}

/// The text before the first character of `set`.
pub fn take_before_any<'a>(s: &'a [char], set: &[char]) -> (r: &'a [char])
    ensures
        r@ == before_any(s@, set@),
        r@.len() <= s@.len(),
{
    let mut i: usize = 0;
    assert(s@.skip(0) =~= s@);
    while i < s.len() && !in_set(set, s[i])
        invariant
            i <= s@.len(),
            i + index_of_any(s@.skip(i as int), set@) == index_of_any(s@, set@),
        decreases s@.len() - i,
    {
        assert(s@.skip(i as int).skip(1) =~= s@.skip(i + 1));
        i += 1;
    }
    assert(s@.subrange(0, i as int) =~= s@.take(i as int));
    &s[0..i]
}

/// `p` stands in `s` at index `i`.
pub open spec fn occurs_at(s: Seq<char>, p: Seq<char>, i: int) -> bool {
    0 <= i && i + p.len() <= s.len() && s.subrange(i, i + p.len()) == p
}

/// `p` stands somewhere in `s`.
pub open spec fn contains_text(s: Seq<char>, p: Seq<char>) -> bool {
    exists|i: int| occurs_at(s, p, i)
}

/// The least index from `i` on at which `p` stands in `s`.
pub open spec fn find_from(s: Seq<char>, p: Seq<char>, i: int) -> Option<int>
    decreases s.len() - i + 1,
{
    if i < 0 || i + p.len() > s.len() {
        None
    } else if occurs_at(s, p, i) {
        Some(i)
    } else {
        find_from(s, p, i + 1)
    }
}

/// `find_from` finds an occurrence exactly where there is one.
pub proof fn lemma_find_from(s: Seq<char>, p: Seq<char>, i: int)
    requires
        0 <= i,
    ensures
        match find_from(s, p, i) {
            Some(k) => i <= k && occurs_at(s, p, k) && forall|j: int|
                i <= j < k ==> !occurs_at(s, p, j),
            None => forall|j: int| i <= j ==> !occurs_at(s, p, j),
        },
    decreases s.len() - i + 1,
{
    if i + p.len() <= s.len() && !occurs_at(s, p, i) {
        lemma_find_from(s, p, i + 1);
    }
}

/// The first occurrence is found where there is one and none before it.
pub proof fn lemma_find_from_is(s: Seq<char>, p: Seq<char>, k: int)
    requires
        occurs_at(s, p, k),
        forall|j: int| 0 <= j < k ==> !occurs_at(s, p, j),
    ensures
        find_from(s, p, 0) == Some(k),
{
    lemma_find_from(s, p, 0);
    match find_from(s, p, 0) {
        Some(m) => {
            assert(occurs_at(s, p, m));
        },
        None => {
            assert(!occurs_at(s, p, k));
        },
    }
}

/// The index of the first occurrence of `p` at or after `from`.
pub fn find_text_from(s: &[char], p: &[char], from: usize) -> (r: Option<usize>)
    ensures
        match r {
            Some(k) => find_from(s@, p@, from as int) == Some(k as int) && from <= k && k + p@.len()
                <= s@.len(),
            None => find_from(s@, p@, from as int) is None,
        },
{
    if p.len() > s.len() {
        return None;
    }
    let last: usize = s.len() - p.len();
    let mut i: usize = from;
    while i <= last
        invariant
            from <= i,
            last == s@.len() - p@.len(),
            p@.len() <= s@.len() <= usize::MAX,
            find_from(s@, p@, i as int) == find_from(s@, p@, from as int),
        decreases last + 1 - i,
    {
        if chars_eq(&s[i..i + p.len()], p) {
            return Some(i);
        }
        if i == last {
            assert(find_from(s@, p@, i + 1) is None);
            return None;
        }
        i += 1;
    }
    None
}

/// Whether `p` stands somewhere in `s`.
pub fn contains(s: &[char], p: &[char]) -> (r: bool)
    ensures
        r == contains_text(s@, p@),
{
    proof {
        lemma_find_from(s@, p@, 0);
    }
    find_text_from(s, p, 0).is_some()
}

/// Whether the text of `p` stands somewhere in `s`.
pub fn contains_str(s: &[char], p: &str) -> (r: bool)
    ensures
        r == contains_text(s@, p@),
{
    let q: Vec<char> = chars_of(p);
    contains(s, q.as_slice())
}

// ---------------------------------------------------------------- splitting

/// What stands before and after the first `c`.
pub open spec fn cut(s: Seq<char>, c: char) -> Option<(Seq<char>, Seq<char>)> {
    if index_of(s, c) < s.len() {
        Some((s.take(index_of(s, c)), s.skip(index_of(s, c) + 1)))
    } else {
        None
    }
}

/// What stands before and after the first `c`.
pub fn split_once<'a>(s: &'a [char], c: char) -> (r: Option<(&'a [char], &'a [char])>)
    ensures
        match r {
            Some(p) => cut(s@, c) == Some((p.0@, p.1@)) && p.0@.len() + p.1@.len() + 1 == s@.len(),
            None => cut(s@, c) is None,
        },
{
    let k: usize = find_char(s, c);
    if k < s.len() {
        assert(s@.subrange(0, k as int) =~= s@.take(k as int));
        assert(s@.subrange(k + 1, s@.len() as int) =~= s@.skip(k + 1));
        Some((&s[0..k], &s[k + 1..s.len()]))
    } else {
        None
    }
}

/// What stands before and after the last `c`.
pub open spec fn rcut(s: Seq<char>, c: char) -> Option<(Seq<char>, Seq<char>)> {
    if last_index_of(s, c) >= 0 {
        Some((s.take(last_index_of(s, c)), s.skip(last_index_of(s, c) + 1)))
    } else {
        None
    }
}

/// What stands before and after the last `c`.
pub fn rsplit_once<'a>(s: &'a [char], c: char) -> (r: Option<(&'a [char], &'a [char])>)
    ensures
        match r {
            Some(p) => rcut(s@, c) == Some((p.0@, p.1@)) && p.0@.len() + p.1@.len() + 1 == s@.len(),
            None => rcut(s@, c) is None,
        },
{
    let n: usize = s.len();
    match rfind_char(s, c) {
        Some(k) => {
            assert(s@.subrange(0, k as int) =~= s@.take(k as int));
            assert(s@.subrange(k + 1, s@.len() as int) =~= s@.skip(k + 1));
            Some((&s[0..k], &s[k + 1..n]))
        },
        None => None,
    }
}

/// What stands before and after the first occurrence of the text `p`.
pub open spec fn cut_text(s: Seq<char>, p: Seq<char>) -> Option<(Seq<char>, Seq<char>)> {
    match find_from(s, p, 0) {
        Some(k) => Some((s.take(k), s.skip(k + p.len()))),
        None => None,
    }
}

/// What stands before and after the first occurrence of the text `p`.
pub fn split_once_str<'a>(s: &'a [char], p: &str) -> (r: Option<(&'a [char], &'a [char])>)
    ensures
        match r {
            Some(q) => cut_text(s@, p@) == Some((q.0@, q.1@)) && q.0@.len() + q.1@.len() + p@.len()
                == s@.len(),
            None => cut_text(s@, p@) is None,
        },
{
    let q: Vec<char> = chars_of(p);
    let n: usize = s.len();
    match find_text_from(s, q.as_slice(), 0) {
        Some(k) => {
            assert(s@.subrange(0, k as int) =~= s@.take(k as int));
            assert(s@.subrange(k + q@.len(), s@.len() as int) =~= s@.skip(k + q@.len()));
            Some((&s[0..k], &s[k + q.len()..n]))
        },
        None => None,
    }
}

/// The text with every occurrence of `p`, taken from the left, replaced by another text.
pub open spec fn replaced(s: Seq<char>, p: Seq<char>, by: Seq<char>) -> Seq<char>
    decreases s.len(),
{
    if p.len() == 0 {
        s
    } else {
        proof {
            lemma_find_from(s, p, 0);
        }
        match cut_text(s, p) {
            Some((before, after)) => before + by + replaced(after, p, by),
            None => s,
        }
    }
}

/// The text with every occurrence of `p` replaced by another text.
pub fn replace(s: &[char], p: &str, by: &str) -> (r: String)
    requires
        p@.len() > 0,
    ensures
        r@ == replaced(s@, p@, by@),
    decreases s@.len(),
{
    match split_once_str(s, p) {
        Some((before, after)) => string_of(before).concat(by).concat(replace(after, p, by).as_str()),
        None => string_of(s),
    }
}

/// The text without the occurrences of `c`.
pub open spec fn without_char(s: Seq<char>, c: char) -> Seq<char>
    decreases s.len(),
{
    if s.len() == 0 {
        Seq::empty()
    } else if s.last() == c {
        without_char(s.drop_last(), c)
    } else {
        without_char(s.drop_last(), c).push(s.last())
    }
}

/// The text without the occurrences of `c`.
pub fn remove_char(s: &[char], c: char) -> (r: String)
    ensures
        r@ == without_char(s@, c),
{
    let mut out: String = String::new();
    let mut i: usize = 0;
    assert(s@.take(0) =~= Seq::<char>::empty());
    while i < s.len()
        invariant
            i <= s@.len(),
            out@ == without_char(s@.take(i as int), c),
        decreases s@.len() - i,
    {
        assert(s@.take(i + 1).drop_last() =~= s@.take(i as int));
        if s[i] != c {
            out.push(s[i]);
        }
        i = i + 1;
    }
    assert(s@.take(i as int) =~= s@);
    out
}

/// The pieces of the text between the occurrences of `c`.
pub open spec fn split_at_char(s: Seq<char>, c: char) -> Seq<Seq<char>>
    decreases s.len(),
{
    let k = index_of(s, c);
    if 0 <= k < s.len() {
        seq![s.take(k)] + split_at_char(s.skip(k + 1), c)
    } else {
        seq![s]
    }
}

/// The pieces of the text between the occurrences of `c`.
pub fn split<'a>(s: &'a [char], c: char) -> (r: Vec<&'a [char]>)
    ensures
        pieces(r@) == split_at_char(s@, c),
        r@.len() >= 1,
{
    let mut out: Vec<&'a [char]> = Vec::new();
    let mut rest: &'a [char] = s;
    assert(pieces(out@) + split_at_char(rest@, c) =~= split_at_char(s@, c));
    loop
        invariant
            pieces(out@) + split_at_char(rest@, c) == split_at_char(s@, c),
        decreases rest@.len(),
    {
        let k: usize = find_char(rest, c);
        let ghost before = out@;
        let ghost old_rest = rest@;
        if k >= rest.len() {
            out.push(rest);
            assert(pieces(out@) =~= pieces(before) + seq![old_rest]);
            return out;
        }
        assert(old_rest.subrange(0, k as int) =~= old_rest.take(k as int));
        assert(old_rest.subrange(k + 1, old_rest.len() as int) =~= old_rest.skip(k + 1));
        out.push(&rest[0..k]);
        assert(pieces(out@) =~= pieces(before).push(old_rest.take(k as int)));
        rest = &rest[k + 1..rest.len()];
        assert(pieces(out@) + split_at_char(rest@, c) =~= pieces(before) + (seq![
            old_rest.take(k as int),
        ] + split_at_char(rest@, c)));
    }
}

/// The number of characters before the first white space.
pub open spec fn word_len(s: Seq<char>) -> int
    decreases s.len(),
{
    if s.len() == 0 || white(s[0]) {
        0
    } else {
        1 + word_len(s.skip(1))
    }
}

/// `word_len` lies within the text.
pub proof fn lemma_word_len(s: Seq<char>)
    ensures
        0 <= word_len(s) <= s.len(),
    decreases s.len(),
{
    if s.len() > 0 && !white(s[0]) {
        lemma_word_len(s.skip(1));
    }
}

/// Trimming the end leaves a start of the text.
pub proof fn lemma_trim_end_is_prefix(s: Seq<char>)
    ensures
        trim_end(s).len() <= s.len(),
        trim_end(s) == s.take(trim_end(s).len() as int),
    decreases s.len(),
{
    if s.len() > 0 && white(s.last()) {
        lemma_trim_end_is_prefix(s.drop_last());
        assert(trim_end(s) =~= s.take(trim_end(s).len() as int));
    } else {
        assert(s.take(s.len() as int) =~= s);
    }
}

/// Trimming a character leaves a start of the text, and what was behind it is that character.
pub proof fn lemma_trim_end_of(s: Seq<char>, c: char)
    ensures
        trim_end_of(s, c).len() <= s.len(),
        trim_end_of(s, c) == s.take(trim_end_of(s, c).len() as int),
        forall|j: int| trim_end_of(s, c).len() <= j < s.len() ==> #[trigger] s[j] == c,
        trim_end_of(s, c).len() > 0 ==> trim_end_of(s, c).last() != c,
    decreases s.len(),
{
    if s.len() > 0 && s.last() == c {
        lemma_trim_end_of(s.drop_last(), c);
        assert(trim_end_of(s, c) =~= s.take(trim_end_of(s, c).len() as int));
        assert forall|j: int| trim_end_of(s, c).len() <= j < s.len() implies #[trigger] s[j] == c by {
            if j < s.len() - 1 {
                assert(s.drop_last()[j] == c);
            }
        }
    } else {
        assert(s.take(s.len() as int) =~= s);
    }
}

/// Trimming never lengthens the text, and leaves no white space in front.
pub proof fn lemma_trim_start(s: Seq<char>)
    ensures
        trim_start(s).len() <= s.len(),
        trim_start(s).len() > 0 ==> !white(trim_start(s)[0]),
    decreases s.len(),
{
    if s.len() > 0 && white(s[0]) {
        lemma_trim_start(s.skip(1));
    }
}

/// The maximal runs of characters that are not white space.
pub open spec fn words(s: Seq<char>) -> Seq<Seq<char>>
    decreases s.len(),
{
    let t = trim_start(s);
    if t.len() == 0 {
        Seq::empty()
    } else {
        proof {
            lemma_trim_start(s);
            lemma_word_len(t);
            lemma_word_len(t.skip(1));
        }
        seq![t.take(word_len(t))] + words(t.skip(word_len(t)))
    }
}

/// The maximal runs of characters that are not white space.
pub fn split_white<'a>(s: &'a [char]) -> (r: Vec<&'a [char]>)
    ensures
        pieces(r@) == words(s@),
{
    let mut out: Vec<&'a [char]> = Vec::new();
    let mut rest: &'a [char] = s;
    assert(pieces(out@) + words(rest@) =~= words(s@));
    loop
        invariant
            pieces(out@) + words(rest@) == words(s@),
        decreases rest@.len(),
    {
        let ghost before = out@;
        let ghost old_rest = rest@;
        let t: &'a [char] = skip_white(rest);
        if t.len() == 0 {
            assert(pieces(out@) + words(old_rest) =~= pieces(out@));
            return out;
        }
        let mut n: usize = 0;
        assert(t@.skip(0) =~= t@);
        while n < t.len() && !is_white(t[n])
            invariant
                n <= t@.len(),
                n + word_len(t@.skip(n as int)) == word_len(t@),
            decreases t@.len() - n,
        {
            assert(t@.skip(n as int).skip(1) =~= t@.skip(n + 1));
            n += 1;
        }
        proof {
            lemma_trim_start(old_rest);
            assert(t@[0] == trim_start(old_rest)[0]);
            lemma_word_len(t@.skip(1));
        }
        assert(n == word_len(t@));
        assert(n >= 1);
        assert(t@.subrange(0, n as int) =~= t@.take(n as int));
        assert(t@.subrange(n as int, t@.len() as int) =~= t@.skip(n as int));
        out.push(&t[0..n]);
        assert(pieces(out@) =~= pieces(before).push(t@.take(n as int)));
        rest = &t[n..t.len()];
        assert(pieces(out@) + words(rest@) =~= pieces(before) + (seq![t@.take(n as int)] + words(
            rest@,
        )));
    }
}

/// A line without the carriage return that ends it.
pub open spec fn without_cr(s: Seq<char>) -> Seq<char> {
    if s.len() > 0 && s.last() == '\r' {
        s.drop_last()
    } else {
        s
    }
}

/// The lines of the text: each ends with a line feed, before which one carriage
/// return is dropped; the last line may lack the line feed.
pub open spec fn lines_of(s: Seq<char>) -> Seq<Seq<char>>
    decreases s.len(),
{
    let k = index_of(s, '\n');
    if s.len() == 0 {
        Seq::empty()
    } else if 0 <= k < s.len() {
        seq![without_cr(s.take(k))] + lines_of(s.skip(k + 1))
    } else {
        seq![s]
    }
}

/// The lines of the text.
pub fn lines<'a>(s: &'a [char]) -> (r: Vec<&'a [char]>)
    ensures
        pieces(r@) == lines_of(s@),
{
    let mut out: Vec<&'a [char]> = Vec::new();
    let mut rest: &'a [char] = s;
    assert(pieces(out@) + lines_of(rest@) =~= lines_of(s@));
    while rest.len() > 0
        invariant
            pieces(out@) + lines_of(rest@) == lines_of(s@),
        decreases rest@.len(),
    {
        let ghost before = out@;
        let ghost old_rest = rest@;
        let k: usize = find_char(rest, '\n');
        if k >= rest.len() {
            out.push(rest);
            assert(pieces(out@) =~= pieces(before) + seq![old_rest]);
            return out;
        }
        assert(old_rest.subrange(0, k as int) =~= old_rest.take(k as int));
        assert(old_rest.subrange(k + 1, old_rest.len() as int) =~= old_rest.skip(k + 1));
        let line: &'a [char] = &rest[0..k];
        if k > 0 && line[k - 1] == '\r' {
            assert(line@.subrange(0, k - 1) =~= line@.drop_last());
            out.push(&line[0..k - 1]);
        } else {
            out.push(line);
        }
        assert(pieces(out@) =~= pieces(before).push(without_cr(old_rest.take(k as int))));
        rest = &rest[k + 1..rest.len()];
        assert(pieces(out@) + lines_of(rest@) =~= pieces(before) + (seq![
            without_cr(old_rest.take(k as int)),
        ] + lines_of(rest@)));
    }
    assert(pieces(out@) + lines_of(rest@) =~= pieces(out@));
    out
}

// ---------------------------------------------------------------- joining

/// The parts in order, with `sep` between each two of them.
pub open spec fn joined(parts: Seq<Seq<char>>, sep: Seq<char>) -> Seq<char>
    decreases parts.len(),
{
    if parts.len() == 0 {
        Seq::empty()
    } else if parts.len() == 1 {
        parts.last()
    } else {
        joined(parts.drop_last(), sep) + sep + parts.last()
    }
}

/// Whether a text is one line, and remains so when a line feed follows it.
pub open spec fn is_line(s: Seq<char>) -> bool {
    !s.contains('\n') && (s.len() > 0 ==> s.last() != '\r')
}

proof fn lemma_lines_of_sum(s: Seq<char>, t: Seq<char>)
    requires
        s.len() > 0 ==> s.last() == '\n',
    ensures
        lines_of(s + t) == lines_of(s) + lines_of(t),
    decreases s.len(),
{
    if s.len() == 0 {
        assert(s + t =~= t);
        assert(lines_of(s) + lines_of(t) =~= lines_of(t));
    } else {
        lemma_index_of(s, '\n');
        let k = index_of(s, '\n');
        assert(k < s.len()) by {
            if k == s.len() {
                assert(s[s.len() - 1] != '\n');
            }
        }
        assert forall|j: int| 0 <= j < k implies (s + t)[j] != '\n' by {
            assert(s[j] != '\n');
        }
        lemma_index_of_is(s + t, '\n', k);
        assert((s + t).take(k) =~= s.take(k));
        assert((s + t).skip(k + 1) =~= s.skip(k + 1) + t);
        lemma_lines_of_sum(s.skip(k + 1), t);
        let first = seq![without_cr(s.take(k))];
        assert(first + (lines_of(s.skip(k + 1)) + lines_of(t)) =~= (first + lines_of(
            s.skip(k + 1),
        )) + lines_of(t));
    }
}

proof fn lemma_lines_of_one(s: Seq<char>)
    requires
        is_line(s),
    ensures
        lines_of(s + "\n"@) == seq![s],
{
    reveal_strlit("\n");
    let line = s + "\n"@;
    assert forall|j: int| 0 <= j < s.len() implies line[j] != '\n' by {
        assert(s.contains(s[j]));
    }
    lemma_index_of_is(line, '\n', s.len() as int);
    assert(line.take(s.len() as int) =~= s);
    assert(line.skip(s.len() as int + 1) =~= Seq::<char>::empty());
    reveal_with_fuel(lines_of, 2);
    assert(lines_of(line) =~= seq![s]);
}

/// Lines that were joined and ended by line feeds are read back as they were.
pub proof fn joined_lines_read_back(parts: Seq<Seq<char>>)
    requires
        parts.len() > 0,
        forall|i: int| 0 <= i < parts.len() ==> is_line(#[trigger] parts[i]),
    ensures
        lines_of(joined(parts, "\n"@) + "\n"@) == parts,
    decreases parts.len(),
{
    reveal_strlit("\n");
    let last = parts.last();
    assert(is_line(parts[parts.len() - 1]));
    lemma_lines_of_one(last);
    if parts.len() == 1 {
        assert(parts =~= seq![last]);
    } else {
        let before = parts.drop_last();
        joined_lines_read_back(before);
        let head = joined(before, "\n"@) + "\n"@;
        assert(joined(parts, "\n"@) + "\n"@ =~= head + (last + "\n"@));
        lemma_lines_of_sum(head, last + "\n"@);
        assert(before + seq![last] =~= parts);
    }
}

/// The strings in order, with `sep` between each two of them.
pub fn join(parts: &Vec<String>, sep: &str) -> (r: String)
    ensures
        r@ == joined(texts(parts@), sep@),
{
    let mut out: String = String::new();
    let mut i: usize = 0;
    let ghost all = texts(parts@);
    assert(out@ =~= joined(all.take(0), sep@));
    while i < parts.len()
        invariant
            i <= parts@.len(),
            all == texts(parts@),
            out@ == joined(all.take(i as int), sep@),
        decreases parts@.len() - i,
    {
        assert(all.take(i + 1).drop_last() =~= all.take(i as int));
        assert(all.take(i + 1).last() == parts@[i as int]@);
        if i > 0 {
            out.append(sep);
        }
        out.append(parts[i].as_str());
        i += 1;
        assert(out@ =~= joined(all.take(i as int), sep@));
    }
    assert(all.take(parts@.len() as int) =~= all);
    out
}

/// The pieces in order, with `sep` between each two of them.
pub fn join_pieces(parts: &Vec<&[char]>, sep: &str) -> (r: String)
    ensures
        r@ == joined(pieces(parts@), sep@),
{
    let mut list: Vec<String> = Vec::new();
    let mut i: usize = 0;
    while i < parts.len()
        invariant
            i <= parts@.len(),
            texts(list@) == pieces(parts@).take(i as int),
        decreases parts@.len() - i,
    {
        let ghost before = list@;
        list.push(string_of(parts[i]));
        i += 1;
        assert(texts(list@) =~= texts(before).push(parts@[i - 1]@));
        assert(pieces(parts@).take(i as int) =~= pieces(parts@).take(i - 1).push(parts@[i - 1]@));
    }
    assert(pieces(parts@).take(parts@.len() as int) =~= pieces(parts@));
    join(&list, sep)
}

/// Every part of a joined text stands in it.
pub proof fn joined_text_holds_its_parts(parts: Seq<Seq<char>>, sep: Seq<char>, k: int)
    requires
        0 <= k < parts.len(),
    ensures
        contains_text(joined(parts, sep), parts[k]),
    decreases parts.len(),
{
    let all = joined(parts, sep);
    if k == parts.len() - 1 {
        let at = all.len() - parts[k].len();
        assert(all.subrange(at, all.len() as int) =~= parts[k]);
        assert(occurs_at(all, parts[k], at));
    } else {
        joined_text_holds_its_parts(parts.drop_last(), sep, k);
        let head = joined(parts.drop_last(), sep);
        let at = choose|i: int| occurs_at(head, parts[k], i);
        assert(all.subrange(at, at + parts[k].len()) =~= head.subrange(at, at + parts[k].len()));
        assert(occurs_at(all, parts[k], at));
    }
}

proof fn lemma_start_off(s: Seq<char>)
    ensures
        trim_start(s).len() <= s.len(),
        trim_start(s) == s.skip(s.len() - trim_start(s).len()),
        forall|j: int| 0 <= j < s.len() - trim_start(s).len() ==> white(#[trigger] s[j]),
        trim_start(s).len() > 0 ==> !white(trim_start(s)[0]),
    decreases s.len(),
{
    if s.len() > 0 && white(s[0]) {
        let rest = s.skip(1);
        lemma_start_off(rest);
        assert(trim_start(s) =~= s.skip(s.len() - trim_start(s).len()));
        assert forall|j: int| 0 <= j < s.len() - trim_start(s).len() implies white(
            #[trigger] s[j],
        ) by {
            if j > 0 {
                assert(rest[j - 1] == s[j]);
            }
        }
    } else {
        assert(s.skip(0) =~= s);
    }
}

proof fn lemma_end_off(s: Seq<char>)
    ensures
        trim_end(s).len() <= s.len(),
        trim_end(s) == s.take(trim_end(s).len() as int),
        forall|j: int| trim_end(s).len() <= j < s.len() ==> white(#[trigger] s[j]),
        trim_end(s).len() > 0 ==> !white(trim_end(s).last()),
    decreases s.len(),
{
    if s.len() > 0 && white(s.last()) {
        let head = s.drop_last();
        lemma_end_off(head);
        assert(trim_end(s) =~= s.take(trim_end(s).len() as int));
        assert forall|j: int| trim_end(s).len() <= j < s.len() implies white(#[trigger] s[j]) by {
            if j < head.len() {
                assert(head[j] == s[j]);
            }
        }
    } else {
        assert(s.take(s.len() as int) =~= s);
    }
}

/// Trimming takes the white space around a text off, all of it and nothing else.
pub proof fn trimming_takes_white_space_off(s: Seq<char>)
    ensures
        exists|a: int, b: int|
            0 <= a <= b <= s.len() && trimmed(s) == #[trigger] s.subrange(a, b) && (forall|j: int|
                0 <= j < a || b <= j < s.len() ==> white(#[trigger] s[j])),
        trimmed(s).len() > 0 ==> !white(trimmed(s)[0]) && !white(trimmed(s).last()),
{
    let t = trim_start(s);
    lemma_start_off(s);
    lemma_end_off(t);
    let a = s.len() - t.len();
    let b = a + trim_end(t).len();
    assert(trimmed(s) =~= s.subrange(a, b));
    assert forall|j: int| 0 <= j < a || b <= j < s.len() implies white(#[trigger] s[j]) by {
        if j >= b {
            assert(t[j - a] == s[j]);
        }
    }
    if trimmed(s).len() > 0 {
        assert(trimmed(s)[0] == t[0]);
    }
}

/// A text that begins and ends without white space is its own trimmed form.
pub proof fn trimming_keeps_what_is_bare(s: Seq<char>)
    requires
        s.len() > 0 ==> !white(s[0]) && !white(s.last()),
    ensures
        trimmed(s) == s,
{
}

/// Trimming a character at the start takes its run off, all of it and nothing else.
pub proof fn trimming_takes_a_run_off(s: Seq<char>, c: char)
    ensures
        trim_start_of(s, c).len() <= s.len(),
        trim_start_of(s, c) == s.skip(s.len() - trim_start_of(s, c).len()),
        forall|j: int| 0 <= j < s.len() - trim_start_of(s, c).len() ==> #[trigger] s[j] == c,
        trim_start_of(s, c).len() > 0 ==> trim_start_of(s, c)[0] != c,
    decreases s.len(),
{
    if s.len() > 0 && s[0] == c {
        let rest = s.skip(1);
        trimming_takes_a_run_off(rest, c);
        assert(trim_start_of(s, c) =~= s.skip(s.len() - trim_start_of(s, c).len()));
        assert forall|j: int| 0 <= j < s.len() - trim_start_of(s, c).len() implies #[trigger] s[j]
            == c by {
            if j > 0 {
                assert(rest[j - 1] == s[j]);
            }
        }
    } else {
        assert(s.skip(0) =~= s);
    }
}

/// Lower case changes the twenty-six capital letters, and nothing else; done twice it is
/// done once.
pub proof fn lower_case_changes_capitals(s: Seq<char>)
    ensures
        lowered(s).len() == s.len(),
        forall|i: int|
            0 <= i < s.len() ==> #[trigger] lowered(s)[i] == s[i] || 65 <= s[i] as int <= 90
                && lowered(s)[i] as int == s[i] as int + 32,
        forall|i: int|
            0 <= i < s.len() ==> !(65 <= (#[trigger] lowered(s)[i]) as int <= 90),
        lowered(lowered(s)) == lowered(s),
{
    assert(lowered(lowered(s)) =~= lowered(s));
}

/// What stands in a part of a text stands in the text.
pub proof fn containing_is_transitive(a: Seq<char>, b: Seq<char>, c: Seq<char>)
    requires
        contains_text(a, b),
        contains_text(b, c),
    ensures
        contains_text(a, c),
{
    let i = choose|i: int| occurs_at(a, b, i);
    let j = choose|j: int| occurs_at(b, c, j);
    assert(a.subrange(i, i + b.len()) == b);
    assert(a.subrange(i + j, i + j + c.len()) =~= b.subrange(j, j + c.len()));
    assert(occurs_at(a, c, i + j));
}

/// What stands in a text stands in what that text is a part of.
pub proof fn sum_contains_its_middle(a: Seq<char>, b: Seq<char>, c: Seq<char>)
    ensures
        contains_text(a + b + c, b),
{
    assert((a + b + c).subrange(a.len() as int, (a.len() + b.len()) as int) =~= b);
    assert(occurs_at(a + b + c, b, a.len() as int));
}

/// Taking a character out of a text leaves the text where it does not occur, and none of it
/// anywhere.
pub proof fn taking_out_a_character(s: Seq<char>, c: char)
    ensures
        !without_char(s, c).contains(c),
        !s.contains(c) ==> without_char(s, c) == s,
        forall|x: char| x != c ==> (#[trigger] without_char(s, c).contains(x) <==> s.contains(x)),
    decreases s.len(),
{
    if s.len() > 0 {
        let head = s.drop_last();
        let rest = without_char(head, c);
        taking_out_a_character(head, c);
        assert forall|x: char| without_char(s, c).contains(x) implies x != c && s.contains(x) by {
            let k = choose|k: int| 0 <= k < without_char(s, c).len() && without_char(s, c)[k] == x;
            if k < rest.len() {
                assert(rest.contains(rest[k]));
                let i = choose|i: int| 0 <= i < head.len() && head[i] == x;
                assert(s[i] == x);
            } else {
                assert(s[s.len() - 1] == x);
            }
        }
        assert forall|x: char| x != c && s.contains(x) implies #[trigger] without_char(
            s,
            c,
        ).contains(x) by {
            let i = choose|i: int| 0 <= i < s.len() && s[i] == x;
            if i < head.len() {
                assert(head[i] == x);
                assert(head.contains(x));
                assert(rest.contains(x));
                let k = choose|k: int| 0 <= k < rest.len() && rest[k] == x;
                assert(without_char(s, c)[k] == x);
            } else {
                assert(without_char(s, c)[rest.len() as int] == x);
            }
        }
        if !s.contains(c) {
            assert(s[s.len() - 1] != c);
            if head.contains(c) {
                let i = choose|i: int| 0 <= i < head.len() && head[i] == c;
                assert(s[i] == c);
            }
            assert(without_char(s, c) =~= s);
        }
    }
}

/// A text is cut at the first occurrence of a character, and not cut exactly where it has
/// none.
pub proof fn cut_is_at_the_first(s: Seq<char>, c: char)
    ensures
        cut(s, c) matches Some(p) ==> s == p.0 + seq![c] + p.1 && !p.0.contains(c),
        cut(s, c) is None <==> !s.contains(c),
{
    lemma_index_of(s, c);
    let k = index_of(s, c);
    if k < s.len() {
        assert(s =~= s.take(k) + seq![c] + s.skip(k + 1));
        assert(s.contains(s[k]));
        if s.take(k).contains(c) {
            let j = choose|j: int| 0 <= j < k && s.take(k)[j] == c;
            assert(s[j] == c);
        }
    } else if s.contains(c) {
        let j = choose|j: int| 0 <= j < s.len() && s[j] == c;
        assert(s[j] != c);
    }
}

/// A text is cut from behind at the last occurrence of a character, and not cut exactly where
/// it has none.
pub proof fn rcut_is_at_the_last(s: Seq<char>, c: char)
    ensures
        rcut(s, c) matches Some(p) ==> s == p.0 + seq![c] + p.1 && !p.1.contains(c),
        rcut(s, c) is None <==> !s.contains(c),
{
    lemma_last_index_of(s, c);
    let k = last_index_of(s, c);
    if k >= 0 {
        assert(s =~= s.take(k) + seq![c] + s.skip(k + 1));
        assert(s.contains(s[k]));
        let tail = s.skip(k + 1);
        if tail.contains(c) {
            let j = choose|j: int| 0 <= j < tail.len() && tail[j] == c;
            assert(s[k + 1 + j] == c);
        }
    } else if s.contains(c) {
        let j = choose|j: int| 0 <= j < s.len() && s[j] == c;
        assert(s[j] != c);
    }
}

/// A text is cut at the first occurrence of another text, and not cut exactly where that does
/// not stand in it.
pub proof fn text_is_cut_at_the_first(s: Seq<char>, p: Seq<char>)
    ensures
        cut_text(s, p) matches Some(q) ==> s == q.0 + p + q.1 && forall|j: int|
            0 <= j < q.0.len() ==> !occurs_at(s, p, j),
        cut_text(s, p) is None <==> !contains_text(s, p),
{
    lemma_find_from(s, p, 0);
    match find_from(s, p, 0) {
        Some(k) => {
            assert(occurs_at(s, p, k));
            assert(s =~= s.take(k) + p + s.skip(k + p.len())) by {
                assert(s.subrange(k, k + p.len()) == p);
            }
        },
        None => {},
    }
}

/// A text is put together again from its pieces, none of which holds the character between
/// them.
pub proof fn pieces_make_the_text(s: Seq<char>, c: char)
    ensures
        split_at_char(s, c).len() > 0,
        forall|i: int|
            0 <= i < split_at_char(s, c).len() ==> !(#[trigger] split_at_char(s, c)[i]).contains(c),
        chained(split_at_char(s, c), c) == s,
    decreases s.len(),
{
    lemma_index_of(s, c);
    cut_is_at_the_first(s, c);
    let k = index_of(s, c);
    if k < s.len() {
        let rest = split_at_char(s.skip(k + 1), c);
        let all = split_at_char(s, c);
        pieces_make_the_text(s.skip(k + 1), c);
        assert forall|i: int| 0 <= i < all.len() implies !(#[trigger] all[i]).contains(c) by {
            if i > 0 {
                assert(all[i] == rest[i - 1]);
            }
        }
        assert(all.skip(1) =~= rest);
        assert(chained(all, c) =~= s);
    } else {
        let all = split_at_char(s, c);
        assert(all.skip(1) =~= Seq::<Seq<char>>::empty());
        assert(chained(all, c) =~= s);
    }
}

/// The pieces one after the other, with a character between each two.
pub open spec fn chained(pieces: Seq<Seq<char>>, c: char) -> Seq<char>
    decreases pieces.len(),
{
    if pieces.len() == 0 {
        Seq::empty()
    } else if pieces.len() == 1 {
        pieces[0]
    } else {
        pieces[0] + seq![c] + chained(pieces.skip(1), c)
    }
}

/// Replacing leaves a text as it is where there is nothing to replace, and otherwise puts the
/// other text in the place of the first occurrence and goes on behind it.
pub proof fn replacing_goes_from_occurrence_to_occurrence(
    s: Seq<char>,
    p: Seq<char>,
    by: Seq<char>,
    k: int,
)
    requires
        p.len() > 0,
    ensures
        !contains_text(s, p) ==> replaced(s, p, by) == s,
        occurs_at(s, p, k) && (forall|j: int| 0 <= j < k ==> !occurs_at(s, p, j)) ==> replaced(
            s,
            p,
            by,
        ) == s.take(k) + by + replaced(s.skip(k + p.len()), p, by),
{
    text_is_cut_at_the_first(s, p);
    if occurs_at(s, p, k) && (forall|j: int| 0 <= j < k ==> !occurs_at(s, p, j)) {
        lemma_find_from_is(s, p, k);
    }
}

/// No character of a text is white space.
pub open spec fn is_word(s: Seq<char>) -> bool {
    forall|j: int| 0 <= j < s.len() ==> !white(#[trigger] s[j])
}

proof fn lemma_word_chars(s: Seq<char>)
    ensures
        0 <= word_len(s) <= s.len(),
        forall|j: int| 0 <= j < word_len(s) ==> !white(#[trigger] s[j]),
    decreases s.len(),
{
    if s.len() > 0 && !white(s[0]) {
        let rest = s.skip(1);
        lemma_word_chars(rest);
        assert forall|j: int| 0 <= j < word_len(s) implies !white(#[trigger] s[j]) by {
            if j > 0 {
                assert(rest[j - 1] == s[j]);
            }
        }
    }
}

/// The words of a text hold no white space, none of them is empty, and a text without white
/// space is its own only word.
pub proof fn words_hold_no_white_space(s: Seq<char>)
    ensures
        forall|i: int|
            0 <= i < words(s).len() ==> (#[trigger] words(s)[i]).len() > 0 && is_word(words(s)[i]),
        s.len() > 0 && (forall|j: int| 0 <= j < s.len() ==> !white(#[trigger] s[j])) ==> words(s)
            == seq![s],
    decreases s.len(),
{
    let t = trim_start(s);
    lemma_trim_start(s);
    if t.len() > 0 {
        lemma_word_len(t);
        lemma_word_len(t.skip(1));
        let n = word_len(t);
        let rest = t.skip(n);
        words_hold_no_white_space(rest);
        let all = words(s);
        lemma_word_chars(t);
        assert forall|i: int| 0 <= i < all.len() implies (#[trigger] all[i]).len() > 0 && is_word(
            all[i],
        ) by {
            if i == 0 {
                assert(all[0] == t.take(n));
                assert(is_word(t.take(n))) by {
                    assert forall|j: int| 0 <= j < n implies !white(#[trigger] t.take(n)[j]) by {
                        assert(t.take(n)[j] == t[j]);
                    }
                }
            } else {
                assert(all[i] == words(rest)[i - 1]);
            }
        }
        if forall|j: int| 0 <= j < s.len() ==> !white(#[trigger] s[j]) {
            assert(!white(s[0]));
            assert(t == s);
            lemma_no_white(s);
            assert(s.take(s.len() as int) =~= s);
            assert(rest =~= Seq::<char>::empty());
            assert(words(rest) =~= Seq::<Seq<char>>::empty());
            assert(all =~= seq![s]);
        }
    }
}

proof fn lemma_no_white(s: Seq<char>)
    requires
        forall|j: int| 0 <= j < s.len() ==> !white(#[trigger] s[j]),
    ensures
        word_len(s) == s.len(),
    decreases s.len(),
{
    if s.len() > 0 {
        let rest = s.skip(1);
        assert(!white(s[0]));
        assert forall|j: int| 0 <= j < rest.len() implies !white(#[trigger] rest[j]) by {
            assert(rest[j] == s[j + 1]);
        }
        lemma_no_white(rest);
    }
}

/// A sum holds each of its three parts, and ends with the last.
pub proof fn sum_contains_its_parts(a: Seq<char>, b: Seq<char>, c: Seq<char>)
    ensures
        contains_text(a + b + c, a),
        contains_text(a + b + c, b),
        contains_text(a + b + c, c),
        has_suffix(a + b + c, c),
        has_prefix(a + b + c, a),
{
    sum_contains_its_middle(a, b, c);
    sum_contains_its_middle(Seq::empty(), a, b + c);
    assert(Seq::<char>::empty() + a + (b + c) =~= a + b + c);
    sum_contains_its_middle(a + b, c, Seq::empty());
    assert(a + b + c + Seq::<char>::empty() =~= a + b + c);
    assert((a + b + c).skip((a + b + c).len() - c.len()) =~= c);
    assert((a + b + c).take(a.len() as int) =~= a);
}

/// What stands before a space is the first word, and the words behind it follow.
pub proof fn first_word_is_read(word: Seq<char>, rest: Seq<char>)
    requires
        word.len() > 0,
        is_word(word),
    ensures
        words(word + (" "@ + rest)) == seq![word] + words(rest),
{
    reveal_strlit(" ");
    let s = word + (" "@ + rest);
    let n = word.len() as int;
    assert(s[0] == word[0]);
    assert(!white(word[0]));
    assert(trim_start(s) == s);
    lemma_word_ends(word, " "@ + rest);
    assert(s.take(n) =~= word);
    assert(s.skip(n) =~= " "@ + rest);
    let tail = " "@ + rest;
    assert(tail[0] == ' ');
    assert(white(' '));
    assert(tail.skip(1) =~= rest);
    assert(trim_start(tail) == trim_start(rest));
    assert(words(tail) == words(rest));
}

proof fn lemma_word_ends(word: Seq<char>, tail: Seq<char>)
    requires
        is_word(word),
        tail.len() > 0,
        white(tail[0]),
    ensures
        word_len(word + tail) == word.len(),
    decreases word.len(),
{
    let s = word + tail;
    if word.len() > 0 {
        let rest = word.skip(1);
        assert(!white(word[0]));
        assert(s[0] == word[0]);
        assert forall|j: int| 0 <= j < rest.len() implies !white(#[trigger] rest[j]) by {
            assert(rest[j] == word[j + 1]);
        }
        lemma_word_ends(rest, tail);
        assert(s.skip(1) =~= rest + tail);
    } else {
        assert(s =~= tail);
    }
}

} // verus!
