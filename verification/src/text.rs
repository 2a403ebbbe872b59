//! Character-level string helpers shared by the rest of the crate.

use vstd::prelude::*;

verus! {

/// What `str::to_lowercase` returns for a string.
pub uninterp spec fn lowercase(s: Seq<char>) -> Seq<char>;

/// What `str::to_uppercase` returns for a string.
pub uninterp spec fn uppercase(s: Seq<char>) -> Seq<char>;

/// The characters with the Unicode White_Space property, which is what
/// `char::is_whitespace` tests: U+0009..U+000D, U+0020, U+0085, U+00A0,
/// U+1680, U+2000..U+200A, U+2028, U+2029, U+202F, U+205F, U+3000.
pub open spec fn is_white(c: char) -> bool {
    let u = c as u32;
    (0x9 <= u && u <= 0xd) || u == 0x20 || u == 0x85 || u == 0xa0 || u == 0x1680
        || (0x2000 <= u && u <= 0x200a) || u == 0x2028 || u == 0x2029 || u == 0x202f
        || u == 0x205f || u == 0x3000
}

/// Calls `str::to_lowercase`; the result is named `lowercase` of the input.
/// Each character lowercases to one or more characters, so the result is
/// empty exactly when the input is.
#[verifier::external_body]
pub(crate) fn to_lower(s: &str) -> (r: String)
    ensures
        r@ == lowercase(s@),
        (r@.len() == 0) == (s@.len() == 0),
{
    s.to_lowercase()
}

/// Calls `str::to_uppercase`; the result is named `uppercase` of the input.
/// Each character uppercases to one or more characters, so the result is
/// empty exactly when the input is.
#[verifier::external_body]
pub(crate) fn to_upper(s: &str) -> (r: String)
    ensures
        r@ == uppercase(s@),
        (r@.len() == 0) == (s@.len() == 0),
{
    s.to_uppercase()
}

/// Whether a character is Unicode whitespace.
pub fn char_is_whitespace(c: char) -> (b: bool)
    ensures
        b == is_white(c),
{
    let u = c as u32;
    (0x9 <= u && u <= 0xd) || u == 0x20 || u == 0x85 || u == 0xa0 || u == 0x1680
        || (0x2000 <= u && u <= 0x200a) || u == 0x2028 || u == 0x2029 || u == 0x202f
        || u == 0x205f || u == 0x3000
}

/// Calls `String::push`, which appends one character.
#[verifier::external_body]
pub(crate) fn push_char(s: &mut String, c: char)
    ensures
        final(s)@ == old(s)@.push(c),
{
    s.push(c)
}

/// The characters of each string in a sequence.
pub open spec fn views(v: Seq<String>) -> Seq<Seq<char>> {
    v.map_values(|m: String| m@)
}

/// A copy of a list of strings.
pub fn copy_strings(v: &Vec<String>) -> (r: Vec<String>)
    ensures
        views(r@) == views(v@),
{
    let mut r: Vec<String> = Vec::new();
    let mut i: usize = 0;
    while i < v.len()
        invariant
            i <= v@.len(),
            r@.len() == i,
            forall|k: int| 0 <= k < i ==> #[trigger] r@[k]@ == v@[k]@,
        decreases v.len() - i,
    {
        r.push(v[i].clone());
        i = i + 1;
    }
    assert(views(r@) =~= views(v@));
    r
}

/// The characters of a string slice, in order.
pub fn chars_of(s: &str) -> (v: Vec<char>)
    ensures
        v@ == s@,
{
    let mut v: Vec<char> = Vec::new();
    for c in it: s.chars()
        invariant
            v@ == it.seq().take(it.index() as int),
            it.seq() == s@,
    {
        v.push(c);
    }
    v
}


/// A string built from a character sequence.
pub fn string_of(v: &[char]) -> (s: String)
    ensures
        s@ == v@,
{
    let mut s = String::new();
    let mut i: usize = 0;
    while i < v.len()
        invariant
            i <= v.len(),
            s@ == v@.subrange(0, i as int),
        decreases v.len() - i,
    {
        push_char(&mut s, v[i]);
        i = i + 1;
        assert(s@ =~= v@.subrange(0, i as int));
    }
    assert(v@.subrange(0, v.len() as int) =~= v@);
    s
}

/// Appends a character sequence to a string.
pub fn push_chars(s: &mut String, v: &[char])
    ensures
        final(s)@ == old(s)@ + v@,
{
    let ghost start = s@;
    let mut i: usize = 0;
    while i < v.len()
        invariant
            i <= v.len(),
            s@ == start + v@.subrange(0, i as int),
        decreases v.len() - i,
    {
        push_char(s, v[i]);
        i = i + 1;
        assert(s@ =~= start + v@.subrange(0, i as int));
    }
    assert(v@.subrange(0, v.len() as int) =~= v@);
}

/// Appends a string slice to a string.
pub fn push_str(s: &mut String, t: &str)
    ensures
        final(s)@ == old(s)@ + t@,
{
    let v = chars_of(t);
    push_chars(s, v.as_slice());
}

/// The characters `from..to` of a sequence, copied.
pub fn sub_chars(v: &[char], from: usize, to: usize) -> (r: Vec<char>)
    requires
        from <= to <= v@.len(),
    ensures
        r@ == v@.subrange(from as int, to as int),
{
    let mut r: Vec<char> = Vec::new();
    let mut i: usize = from;
    while i < to
        invariant
            from <= i <= to,
            to <= v@.len(),
            r@ == v@.subrange(from as int, i as int),
        decreases to - i,
    {
        r.push(v[i]);
        i = i + 1;
        assert(r@ =~= v@.subrange(from as int, i as int));
    }
    r
}

/// Leading whitespace removed, as `str::trim_start` does.
pub open spec fn trim_start(s: Seq<char>) -> Seq<char>
    decreases s.len(),
{
    if s.len() > 0 && is_white(s[0]) {
        trim_start(s.drop_first())
    } else {
        s
    }
}

/// Trailing whitespace removed, as `str::trim_end` does.
pub open spec fn trim_end(s: Seq<char>) -> Seq<char>
    decreases s.len(),
{
    if s.len() > 0 && is_white(s.last()) {
        trim_end(s.drop_last())
    } else {
        s
    }
}

/// Whitespace removed from both ends, as `str::trim` does.
pub open spec fn trim(s: Seq<char>) -> Seq<char> {
    trim_end(trim_start(s))
}

proof fn lemma_trim_start_skip(s: Seq<char>, i: int)
    requires
        0 <= i <= s.len(),
        forall|k: int| 0 <= k < i ==> is_white(#[trigger] s[k]),
    ensures
        trim_start(s) == trim_start(s.subrange(i, s.len() as int)),
    decreases i,
{
    if i > 0 {
        assert(s.drop_first() =~= s.subrange(1, s.len() as int));
        let t = s.drop_first();
        assert forall|k: int| 0 <= k < i - 1 implies is_white(#[trigger] t[k]) by {
            assert(t[k] == s[k + 1]);
        }
        lemma_trim_start_skip(t, i - 1);
        assert(t.subrange(i - 1, t.len() as int) =~= s.subrange(i, s.len() as int));
    } else {
        assert(s.subrange(0, s.len() as int) =~= s);
    }
}

proof fn lemma_trim_end_cut(s: Seq<char>, j: int)
    requires
        0 <= j <= s.len(),
        forall|k: int| j <= k < s.len() ==> is_white(#[trigger] s[k]),
    ensures
        trim_end(s) == trim_end(s.subrange(0, j)),
    decreases s.len() - j,
{
    if j < s.len() {
        let t = s.drop_last();
        assert forall|k: int| j <= k < t.len() implies is_white(#[trigger] t[k]) by {
            assert(t[k] == s[k]);
        }
        lemma_trim_end_cut(t, j);
        assert(t.subrange(0, j) =~= s.subrange(0, j));
    } else {
        assert(s.subrange(0, j) =~= s);
    }
}

/// A sequence with no whitespace at either end is its own trim.
pub proof fn lemma_trim_unchanged(w: Seq<char>)
    requires
        w.len() > 0,
        !is_white(w[0]),
        !is_white(w.last()),
    ensures
        trim(w) == w,
{
}

/// Index of the first non-whitespace character at or after `from`
/// (or `to` when there is none before `to`).
pub fn skip_white(v: &[char], from: usize, to: usize) -> (i: usize)
    requires
        from <= to <= v@.len(),
    ensures
        from <= i <= to,
        forall|k: int| from <= k < i ==> is_white(#[trigger] v@[k]),
        i < to ==> !is_white(v@[i as int]),
{
    let mut i = from;
    while i < to && char_is_whitespace(v[i])
        invariant
            from <= i <= to,
            to <= v@.len(),
            forall|k: int| from <= k < i ==> is_white(#[trigger] v@[k]),
        decreases to - i,
    {
        i = i + 1;
    }
    i
}

/// Index just past the last non-whitespace character before `to`
/// (or `from` when there is none at or after `from`).
pub fn back_white(v: &[char], from: usize, to: usize) -> (j: usize)
    requires
        from <= to <= v@.len(),
    ensures
        from <= j <= to,
        forall|k: int| j <= k < to ==> is_white(#[trigger] v@[k]),
        j > from ==> !is_white(v@[j - 1]),
{
    let mut j = to;
    while j > from && char_is_whitespace(v[j - 1])
        invariant
            from <= j <= to,
            to <= v@.len(),
            forall|k: int| j <= k < to ==> is_white(#[trigger] v@[k]),
        decreases j - from,
    {
        j = j - 1;
    }
    j
}

/// The bounds of `trim_start` of a sequence.
pub fn trim_start_at(v: &[char]) -> (i: usize)
    ensures
        i <= v@.len(),
        v@.subrange(i as int, v@.len() as int) == trim_start(v@),
{
    let i = skip_white(v, 0, v.len());
    proof {
        lemma_trim_start_skip(v@, i as int);
        let t = v@.subrange(i as int, v@.len() as int);
        if t.len() > 0 {
            assert(t[0] == v@[i as int]);
        }
    }
    i
}

/// The end bound of `trim_end` of a sequence.
pub fn trim_end_at(v: &[char]) -> (j: usize)
    ensures
        j <= v@.len(),
        v@.subrange(0, j as int) == trim_end(v@),
{
    let j = back_white(v, 0, v.len());
    proof {
        lemma_trim_end_cut(v@, j as int);
        let t = v@.subrange(0, j as int);
        if t.len() > 0 {
            assert(t.last() == v@[j - 1]);
        }
    }
    j
}

/// A sequence with its surrounding whitespace removed.
pub fn trim_chars(v: &[char]) -> (r: Vec<char>)
    ensures
        r@ == trim(v@),
{
    let i = trim_start_at(v);
    let mid = sub_chars(v, i, v.len());
    let j = trim_end_at(mid.as_slice());
    sub_chars(mid.as_slice(), 0, j)
}

/// Whether two character sequences are equal.
pub fn eq_chars(a: &[char], b: &[char]) -> (r: bool)
    ensures
        r == (a@ == b@),
{
    if a.len() != b.len() {
        return false;
    }
    let r = matches_at(a, b, 0);
    assert(r ==> a@.subrange(0, b@.len() as int) =~= a@);
    assert(a@ == b@ ==> a@.subrange(0, b@.len() as int) =~= a@);
    r
}

/// Whether a string slice spells exactly the given characters.
pub fn str_is(a: &str, b: &str) -> (r: bool)
    ensures
        r == (a@ == b@),
{
    let x = chars_of(a);
    let y = chars_of(b);
    eq_chars(x.as_slice(), y.as_slice())
}

/// `p` occurs in `s` starting at index `i`.
pub open spec fn occurs_at(s: Seq<char>, p: Seq<char>, i: int) -> bool {
    0 <= i && i + p.len() <= s.len() && s.subrange(i, i + p.len()) == p
}

/// `p` occurs somewhere in `s`, as `str::contains` asks.
pub open spec fn has_sub(s: Seq<char>, p: Seq<char>) -> bool {
    exists|i: int| occurs_at(s, p, i)
}

/// Whether `p` occurs in `v` at index `i`.
pub fn matches_at(v: &[char], p: &[char], i: usize) -> (b: bool)
    ensures
        b == occurs_at(v@, p@, i as int),
{
    let n = v.len();
    if i > n || p.len() > n - i {
        return false;
    }
    let mut k: usize = 0;
    while k < p.len()
        invariant
            n == v@.len(),
            k <= p@.len(),
            i + p@.len() <= n,
            forall|m: int| 0 <= m < k ==> v@[i + m] == p@[m],
        decreases p.len() - k,
    {
        if v[i + k] != p[k] {
            assert(v@.subrange(i as int, i + p@.len())[k as int] != p@[k as int]);
            return false;
        }
        k = k + 1;
    }
    assert(v@.subrange(i as int, i + p@.len()) =~= p@);
    true
}

/// Whether `p` is a prefix of `v`, as `str::starts_with` asks.
pub fn starts_with(v: &[char], p: &[char]) -> (b: bool)
    ensures
        b == occurs_at(v@, p@, 0),
{
    matches_at(v, p, 0)
}

/// Whether `p` occurs in `v`, as `str::contains` asks.
pub fn contains(v: &[char], p: &[char]) -> (b: bool)
    ensures
        b == has_sub(v@, p@),
{
    if p.len() > v.len() {
        assert forall|i: int| !occurs_at(v@, p@, i) by {}
        return false;
    }
    let last = v.len() - p.len();
    let mut i: usize = 0;
    loop
        invariant
            p@.len() <= v@.len(),
            last == v@.len() - p@.len(),
            i <= last,
            forall|j: int| 0 <= j < i ==> !occurs_at(v@, p@, j),
        ensures
            forall|j: int| 0 <= j <= last ==> !occurs_at(v@, p@, j),
        decreases last - i,
    {
        if matches_at(v, p, i) {
            return true;
        }
        if i == last {
            break;
        }
        i = i + 1;
    }
    assert forall|j: int| !occurs_at(v@, p@, j) by {
        if occurs_at(v@, p@, j) {
            assert(j <= last);
        }
    }
    false
}

/// `i` is the first index where `p` occurs in `s`.
pub open spec fn is_first_occ(s: Seq<char>, p: Seq<char>, i: int) -> bool {
    occurs_at(s, p, i) && forall|j: int| 0 <= j < i ==> !#[trigger] occurs_at(s, p, j)
}

/// The first index where `p` occurs in `s`, as `str::find` locates it.
pub open spec fn first_occ(s: Seq<char>, p: Seq<char>) -> Option<int> {
    if has_sub(s, p) {
        Some(choose|i: int| is_first_occ(s, p, i))
    } else {
        None
    }
}

/// The text before the first `p` (all of it without one): the first item
/// `str::split` yields.
pub open spec fn before_first(s: Seq<char>, p: Seq<char>) -> Seq<char> {
    match first_occ(s, p) {
        Some(i) => s.take(i),
        None => s,
    }
}

/// The text after the first `p`, when there is one.
pub open spec fn after_first(s: Seq<char>, p: Seq<char>) -> Option<Seq<char>> {
    match first_occ(s, p) {
        Some(i) => Some(s.skip(i + p.len())),
        None => None,
    }
}

/// Splits at the first occurrence of a non-empty `p`: the text before it,
/// and the text after it when it occurs.
pub fn split_first(v: &[char], p: &[char]) -> (r: (Vec<char>, Option<Vec<char>>))
    requires
        p@.len() > 0,
    ensures
        r.0@ == before_first(v@, p@),
        match after_first(v@, p@) {
            Some(t) => r.1 matches Some(x) && x@ == t,
            None => r.1 is None,
        },
{
    let n = v.len();
    if p.len() > n {
        assert forall|i: int| !occurs_at(v@, p@, i) by {}
        let w = sub_chars(v, 0, n);
        assert(w@ =~= v@);
        return (w, None);
    }
    let last = n - p.len();
    let mut i: usize = 0;
    loop
        invariant
            p@.len() <= v@.len(),
            n == v@.len(),
            last == v@.len() - p@.len(),
            i <= last,
            forall|j: int| 0 <= j < i ==> !#[trigger] occurs_at(v@, p@, j),
        ensures
            forall|j: int| 0 <= j <= last ==> !#[trigger] occurs_at(v@, p@, j),
        decreases last - i,
    {
        if matches_at(v, p, i) {
            proof {
                assert(is_first_occ(v@, p@, i as int));
                let c = choose|c: int| is_first_occ(v@, p@, c);
                if c < i {
                    assert(!occurs_at(v@, p@, c));
                }
                if i < c {
                    assert(!occurs_at(v@, p@, i as int));
                }
            }
            let head = sub_chars(v, 0, i);
            let tail = sub_chars(v, i + p.len(), n);
            return (head, Some(tail));
        }
        if i == last {
            break;
        }
        i = i + 1;
    }
    assert forall|j: int| !occurs_at(v@, p@, j) by {
        if occurs_at(v@, p@, j) {
            assert(j <= last);
        }
    }
    let w = sub_chars(v, 0, n);
    assert(w@ =~= v@);
    (w, None)
}

/// `i` is the last index where `p` occurs in `s`.
pub open spec fn is_last_occ(s: Seq<char>, p: Seq<char>, i: int) -> bool {
    occurs_at(s, p, i) && forall|j: int| i < j ==> !#[trigger] occurs_at(s, p, j)
}

/// The last index where `p` occurs in `s`, as `str::rfind` locates it.
pub open spec fn last_occ(s: Seq<char>, p: Seq<char>) -> Option<int> {
    if has_sub(s, p) {
        Some(choose|i: int| is_last_occ(s, p, i))
    } else {
        None
    }
}

/// The last occurrence is the one `last_occ` names.
pub proof fn lemma_last_occ(s: Seq<char>, p: Seq<char>, i: int)
    requires
        is_last_occ(s, p, i),
    ensures
        last_occ(s, p) == Some(i),
{
    assert(has_sub(s, p));
    let c = choose|c: int| is_last_occ(s, p, c);
    assert(is_last_occ(s, p, c));
    if c < i {
        assert(!occurs_at(s, p, i));
    }
    if i < c {
        assert(!occurs_at(s, p, c));
    }
}

/// Finds the last occurrence of `p` in `v`.
pub fn rfind(v: &[char], p: &[char]) -> (r: Option<usize>)
    ensures
        r matches Some(i) ==> is_last_occ(v@, p@, i as int) && last_occ(v@, p@) == Some(i as int),
        r is None ==> !has_sub(v@, p@) && last_occ(v@, p@) is None,
{
    if p.len() > v.len() {
        assert forall|i: int| !occurs_at(v@, p@, i) by {}
        return None;
    }
    let mut i: usize = v.len() - p.len();
    loop
        invariant
            p@.len() <= v@.len(),
            i <= v@.len() - p@.len(),
            forall|j: int| i < j ==> !#[trigger] occurs_at(v@, p@, j),
        ensures
            forall|j: int| 0 <= j ==> !#[trigger] occurs_at(v@, p@, j),
        decreases i,
    {
        if matches_at(v, p, i) {
            proof {
                lemma_last_occ(v@, p@, i as int);
            }
            return Some(i);
        }
        if i == 0 {
            break;
        }
        i = i - 1;
    }
    assert forall|j: int| !occurs_at(v@, p@, j) by {
        if occurs_at(v@, p@, j) {
            assert(0 <= j);
        }
    }
    None
}

/// Whether two strings are equal once lowercased.
pub fn lower_eq(a: &str, b: &str) -> (r: bool)
    ensures
        r == (lowercase(a@) == lowercase(b@)),
{
    let x = to_lower(a);
    let y = to_lower(b);
    str_is(x.as_str(), y.as_str())
}

/// The last `/`-separated component of a path (all of it when there is no
/// `/`).
pub open spec fn basename(s: Seq<char>) -> Seq<char> {
    match last_occ(s, seq!['/']) {
        Some(i) => s.subrange(i + 1, s.len() as int),
        None => s,
    }
}

/// The last `/`-separated component of a path.
pub fn base_name(s: &str) -> (r: Vec<char>)
    ensures
        r@ == basename(s@),
{
    let v = chars_of(s);
    let slash = vec!['/'];
    assert(slash@ =~= seq!['/']);
    match rfind(v.as_slice(), slash.as_slice()) {
        Some(i) => {
            let n = v.len();
            assert(occurs_at(v@, seq!['/'], i as int));
            sub_chars(v.as_slice(), i + 1, n)
        },
        None => v,
    }
}

/// `rel` appended to `base` as `Path::join` does for a relative `rel` on
/// Unix: a `/` goes between them unless `base` is empty or already ends
/// with one.
pub open spec fn path_join(base: Seq<char>, rel: Seq<char>) -> Seq<char> {
    if base.len() == 0 || base.last() == '/' {
        base + rel
    } else {
        base.push('/') + rel
    }
}

/// Joins a relative path onto a directory.
pub fn join_path(base: &str, rel: &str) -> (r: String)
    ensures
        r@ == path_join(base@, rel@),
{
    let b = chars_of(base);
    let mut r = string_of(b.as_slice());
    if b.len() > 0 && b[b.len() - 1] != '/' {
        push_char(&mut r, '/');
    }
    push_str(&mut r, rel);
    r
}

} // verus!
