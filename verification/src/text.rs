//! Text handling shared by the display and monitor logic.
//!
//! Strings are reasoned about through their views, `Seq<char>`; the
//! executable helpers work on `Vec<char>` and convert at the edges.
use vstd::prelude::*;

verus! {

broadcast use vstd::string::group_string_axioms;

// ---------------------------------------------------------------------
// Conversions between `str`/`String` and character vectors
// ---------------------------------------------------------------------

/// The characters of `s`, in order.
pub fn chars_of(s: &str) -> (v: Vec<char>)
    ensures
        v@ == s@,
{
    let mut v: Vec<char> = Vec::new();
    for c in it: s.chars()
        invariant
            v@ == it.seq().take(it.index() as int),
            it.seq() == s@,
    {
        v.push(c);
    }
    v
}

/// Collects characters into a `String` (std's `FromIterator<char>` for `String`):
/// the string holds exactly the given characters, in order.
#[verifier::external_body]
pub(crate) fn string_of(v: &Vec<char>) -> (s: String)
    ensures
        s@ == v@,
{
    v.iter().collect::<String>()
}

/// What std's `str::to_uppercase` returns for a string, by its characters.
pub uninterp spec fn upper_of(s: Seq<char>) -> Seq<char>;

/// std's `str::to_uppercase`: the result is named `upper_of` of the
/// argument's characters. Unicode case mapping (which may change the
/// length of the text) is not written out here.
#[verifier::external_body]
pub(crate) fn to_uppercase(s: &str) -> (r: String)
    ensures
        r@ == upper_of(s@),
{
    s.to_uppercase()
}

/// The upper-case form of a character vector, as `str::to_uppercase` gives it.
pub fn upper_chars(v: &Vec<char>) -> (r: Vec<char>)
    ensures
        r@ == upper_of(v@),
{
    let s = string_of(v);
    let u = to_uppercase(s.as_str());
    chars_of(u.as_str())
}

/// Appends the characters of `extra` to `out`.
pub fn extend_chars(out: &mut Vec<char>, extra: &Vec<char>)
    ensures
        final(out)@ == old(out)@ + extra@,
{
    let n = extra.len();
    let ghost start = out@;
    for i in 0..n
        invariant
            n == extra@.len(),
            out@ == start + extra@.take(i as int),
    {
        out.push(extra[i]);
        assert(extra@.take(i + 1) == extra@.take(i as int).push(extra@[i as int]));
    }
    assert(extra@.take(n as int) == extra@);
}

/// Concatenation of two character vectors.
pub fn concat_chars(a: &Vec<char>, b: &Vec<char>) -> (r: Vec<char>)
    ensures
        r@ == a@ + b@,
{
    let mut r: Vec<char> = Vec::new();
    extend_chars(&mut r, a);
    extend_chars(&mut r, b);
    assert(r@ == a@ + b@);
    r
}

/// A copy of the characters `v[from..to]`.
pub fn sub_chars(v: &Vec<char>, from: usize, to: usize) -> (r: Vec<char>)
    requires
        from <= to <= v@.len(),
    ensures
        r@ == v@.subrange(from as int, to as int),
{
    let mut r: Vec<char> = Vec::new();
    let mut i = from;
    while i < to
        invariant
            from <= i <= to <= v@.len(),
            r@ == v@.subrange(from as int, i as int),
        decreases to - i,
    {
        r.push(v[i]);
        assert(v@.subrange(from as int, i + 1) == v@.subrange(from as int, i as int).push(v@[i as int]));
        i = i + 1;
    }
    r
}

/// Element-wise equality of two character vectors.
pub fn chars_eq(a: &Vec<char>, b: &Vec<char>) -> (r: bool)
    ensures
        r == (a@ == b@),
{
    if a.len() != b.len() {
        return false;
    }
    let n = a.len();
    for i in 0..n
        invariant
            n == a@.len() == b@.len(),
            forall|k: int| 0 <= k < i ==> a@[k] == b@[k],
    {
        if a[i] != b[i] {
            return false;
        }
    }
    assert(a@ =~= b@);
    true
}

// ---------------------------------------------------------------------
// Whitespace and trimming
// ---------------------------------------------------------------------

/// Unicode `White_Space`, the property that `char::is_whitespace` tests.
pub open spec fn is_ws(c: char) -> bool {
    let u = c as u32;
    ||| 0x09 <= u <= 0x0D
    ||| u == 0x20
    ||| u == 0x85
    ||| u == 0xA0
    ||| u == 0x1680
    ||| 0x2000 <= u <= 0x200A
    ||| u == 0x2028
    ||| u == 0x2029
    ||| u == 0x202F
    ||| u == 0x205F
    ||| u == 0x3000
}

/// Whether `c` is white space in the sense of `char::is_whitespace`.
pub fn is_whitespace(c: char) -> (b: bool)
    ensures
        b == is_ws(c),
{
    let u = c as u32;
    (0x09 <= u && u <= 0x0D) || u == 0x20 || u == 0x85 || u == 0xA0 || u == 0x1680 || (0x2000
        <= u && u <= 0x200A) || u == 0x2028 || u == 0x2029 || u == 0x202F || u == 0x205F || u
        == 0x3000
}

/// A text is blank when it holds white space only (so `trim()` leaves it empty).
pub open spec fn is_blank(s: Seq<char>) -> bool {
    forall|i: int| 0 <= i < s.len() ==> is_ws(#[trigger] s[i])
}

/// Whether the characters are all white space (`s.trim().is_empty()`).
pub fn blank(v: &Vec<char>) -> (b: bool)
    ensures
        b == is_blank(v@),
{
    let n = v.len();
    for i in 0..n
        invariant
            n == v@.len(),
            forall|k: int| 0 <= k < i ==> is_ws(#[trigger] v@[k]),
    {
        if !is_whitespace(v[i]) {
            return false;
        }
    }
    true
}

/// Whether a string is blank.
pub fn str_blank(s: &str) -> (b: bool)
    ensures
        b == is_blank(s@),
{
    let v = chars_of(s);
    blank(&v)
}

/// `s` without its leading white space.
pub open spec fn trim_start(s: Seq<char>) -> Seq<char>
    decreases s.len(),
{
    if s.len() > 0 && is_ws(s[0]) {
        trim_start(s.drop_first())
    } else {
        s
    }
}

/// `s` without its trailing white space.
pub open spec fn trim_end(s: Seq<char>) -> Seq<char>
    decreases s.len(),
{
    if s.len() > 0 && is_ws(s.last()) {
        trim_end(s.drop_last())
    } else {
        s
    }
}

/// `s` without leading and trailing white space, as `str::trim` gives it.
pub open spec fn trimmed(s: Seq<char>) -> Seq<char> {
    trim_end(trim_start(s))
}

proof fn lemma_trim_start_skip(s: Seq<char>, i: int)
    requires
        0 <= i <= s.len(),
        forall|k: int| 0 <= k < i ==> is_ws(#[trigger] s[k]),
    ensures
        trim_start(s) == trim_start(s.skip(i)),
    decreases i,
{
    if i == 0 {
        assert(s.skip(0) =~= s);
    } else {
        let t = s.drop_first();
        assert forall|k: int| 0 <= k < i - 1 implies is_ws(#[trigger] t[k]) by {
            assert(t[k] == s[k + 1]);
        }
        lemma_trim_start_skip(t, i - 1);
        assert(t.skip(i - 1) =~= s.skip(i));
    }
}

proof fn lemma_trim_end_take(s: Seq<char>, j: int)
    requires
        0 <= j <= s.len(),
        forall|k: int| j <= k < s.len() ==> is_ws(#[trigger] s[k]),
    ensures
        trim_end(s) == trim_end(s.take(j)),
    decreases s.len() - j,
{
    if j == s.len() {
        assert(s.take(j) =~= s);
    } else {
        let t = s.drop_last();
        assert(is_ws(s[s.len() - 1]));
        lemma_trim_end_take(t, j);
        assert(t.take(j) =~= s.take(j));
    }
}

/// The characters of `v` without leading and trailing white space.
pub fn trim_chars(v: &Vec<char>) -> (r: Vec<char>)
    ensures
        r@ == trimmed(v@),
{
    let n = v.len();
    let mut i: usize = 0;
    while i < n
        invariant
            i <= n == v@.len(),
            forall|k: int| 0 <= k < i ==> is_ws(#[trigger] v@[k]),
        ensures
            i <= n,
            forall|k: int| 0 <= k < i ==> is_ws(#[trigger] v@[k]),
            i == n || !is_ws(v@[i as int]),
        decreases n - i,
    {
        if !is_whitespace(v[i]) {
            break;
        }
        i = i + 1;
    }
    let mut j: usize = n;
    while j > i
        invariant
            i <= j <= n == v@.len(),
            forall|k: int| j <= k < n ==> is_ws(#[trigger] v@[k]),
        ensures
            i <= j <= n,
            forall|k: int| j <= k < n ==> is_ws(#[trigger] v@[k]),
            j == i || !is_ws(v@[j - 1]),
        decreases j,
    {
        if !is_whitespace(v[j - 1]) {
            break;
        }
        j = j - 1;
    }
    proof {
        let s = v@;
        lemma_trim_start_skip(s, i as int);
        let t = s.skip(i as int);
        assert(trim_start(t) == t) by {
            if t.len() > 0 {
                assert(t[0] == s[i as int]);
            }
        }
        assert forall|k: int| j - i <= k < t.len() implies is_ws(#[trigger] t[k]) by {
            assert(t[k] == s[k + i]);
        }
        lemma_trim_end_take(t, j - i);
        let u = t.take(j - i);
        assert(trim_end(u) == u) by {
            if u.len() > 0 {
                assert(u.last() == s[j - 1]);
            }
        }
        assert(u =~= s.subrange(i as int, j as int));
    }
    sub_chars(v, i, j)
}

// ---------------------------------------------------------------------
// Searching and comparing
// ---------------------------------------------------------------------

/// `needle` occurs in `hay` at position `i`.
pub open spec fn occurs_at(hay: Seq<char>, needle: Seq<char>, i: int) -> bool {
    0 <= i && i + needle.len() <= hay.len() && hay.subrange(i, i + needle.len()) == needle
}

/// `needle` occurs somewhere in `hay` (`str::contains` with a string pattern).
pub open spec fn has_sub(hay: Seq<char>, needle: Seq<char>) -> bool {
    exists|i: int| occurs_at(hay, needle, i)
}

fn matches_at(hay: &Vec<char>, needle: &Vec<char>, i: usize) -> (r: bool)
    requires
        i + needle@.len() <= hay@.len(),
    ensures
        r == occurs_at(hay@, needle@, i as int),
{
    let m = needle.len();
    let n = hay.len();
    let mut k: usize = 0;
    while k < m
        invariant
            m == needle@.len(),
            n == hay@.len(),
            i + m <= n,
            k <= m,
            forall|q: int| 0 <= q < k ==> hay@[i + q] == needle@[q],
        decreases m - k,
    {
        if hay[i + k] != needle[k] {
            assert(hay@.subrange(i as int, i + m)[k as int] != needle@[k as int]);
            return false;
        }
        k = k + 1;
    }
    assert(hay@.subrange(i as int, i + m) =~= needle@);
    true
}

/// Whether `needle` occurs in `hay`.
pub fn contains_chars(hay: &Vec<char>, needle: &Vec<char>) -> (r: bool)
    ensures
        r == has_sub(hay@, needle@),
{
    let n = hay.len();
    let m = needle.len();
    if m > n {
        assert(!has_sub(hay@, needle@));
        return false;
    }
    if m == 0 {
        assert(occurs_at(hay@, needle@, 0)) by {
            assert(hay@.subrange(0, 0) =~= needle@);
        }
        return true;
    }
    let mut i: usize = 0;
    while m <= n - i
        invariant
            n == hay@.len(),
            m == needle@.len() > 0,
            i <= n,
            forall|q: int| 0 <= q < i ==> !occurs_at(hay@, needle@, q),
        decreases n - i,
    {
        if matches_at(hay, needle, i) {
            return true;
        }
        i = i + 1;
    }
    assert forall|q: int| !occurs_at(hay@, needle@, q) by {
        if 0 <= q < i {
        }
    }
    false
}

/// Whether `hay` contains the string `needle`.
pub fn contains_str(hay: &Vec<char>, needle: &str) -> (r: bool)
    ensures
        r == has_sub(hay@, needle@),
{
    let n = chars_of(needle);
    contains_chars(hay, &n)
}

/// ASCII case folding of one character, as `char::to_ascii_lowercase` does it.
pub open spec fn ascii_fold(c: char) -> u32 {
    let u = c as u32;
    if 0x41 <= u <= 0x5A {
        (u + 0x20) as u32
    } else {
        u
    }
}

/// `str::eq_ignore_ascii_case`: equal after ASCII lower-casing both sides.
pub open spec fn eq_ignore_ascii(a: Seq<char>, b: Seq<char>) -> bool {
    a.len() == b.len() && forall|i: int| 0 <= i < a.len() ==> ascii_fold(#[trigger] a[i]) == ascii_fold(b[i])
}

fn fold_char(c: char) -> (r: u32)
    ensures
        r == ascii_fold(c),
{
    let u = c as u32;
    if 0x41 <= u && u <= 0x5A {
        u + 0x20
    } else {
        u
    }
}

/// Whether two texts are equal ignoring ASCII case.
pub fn eq_ignore_ascii_case(a: &Vec<char>, b: &str) -> (r: bool)
    ensures
        r == eq_ignore_ascii(a@, b@),
{
    let bv = chars_of(b);
    if a.len() != bv.len() {
        return false;
    }
    let n = a.len();
    for i in 0..n
        invariant
            n == a@.len() == bv@.len(),
            bv@ == b@,
            forall|k: int| 0 <= k < i ==> ascii_fold(#[trigger] a@[k]) == ascii_fold(bv@[k]),
    {
        if fold_char(a[i]) != fold_char(bv[i]) {
            return false;
        }
    }
    true
}

/// Lexicographic order of texts by code point (the order of `String::cmp`,
/// since UTF-8 byte order follows code point order): `a` comes strictly before `b`.
pub open spec fn text_lt(a: Seq<char>, b: Seq<char>) -> bool
    decreases a.len(),
{
    if a.len() == 0 {
        b.len() > 0
    } else if b.len() == 0 {
        false
    } else if a[0] != b[0] {
        (a[0] as u32) < (b[0] as u32)
    } else {
        text_lt(a.drop_first(), b.drop_first())
    }
}

/// Whether `a` sorts strictly before `b` as text.
pub fn text_less(a: &Vec<char>, b: &Vec<char>) -> (r: bool)
    ensures
        r == text_lt(a@, b@),
{
    let n = a.len();
    let m = b.len();
    let mut i: usize = 0;
    assert(a@.skip(0) =~= a@);
    assert(b@.skip(0) =~= b@);
    while i < n && i < m
        invariant
            n == a@.len(),
            m == b@.len(),
            i <= n,
            i <= m,
            forall|k: int| 0 <= k < i ==> a@[k] == b@[k],
            text_lt(a@, b@) == text_lt(a@.skip(i as int), b@.skip(i as int)),
        decreases n - i,
    {
        let ca = a[i];
        let cb = b[i];
        if ca != cb {
            let r = (ca as u32) < (cb as u32);
            proof {
                let sa = a@.skip(i as int);
                let sb = b@.skip(i as int);
                assert(sa[0] == a@[i as int]);
                assert(sb[0] == b@[i as int]);
            }
            return r;
        }
        proof {
            let sa = a@.skip(i as int);
            let sb = b@.skip(i as int);
            assert(sa.drop_first() =~= a@.skip(i + 1));
            assert(sb.drop_first() =~= b@.skip(i + 1));
        }
        i = i + 1;
    }
    i < m
}

// ---------------------------------------------------------------------
// Rewriting
// ---------------------------------------------------------------------

/// Whether `s` starts with the non-empty text `p`.
pub open spec fn starts_with(s: Seq<char>, p: Seq<char>) -> bool {
    p.len() <= s.len() && s.take(p.len() as int) == p
}

/// `str::trim_start_matches` with a non-empty string pattern: repeatedly
/// removes `p` from the front of `s`.
pub open spec fn strip_prefixes(s: Seq<char>, p: Seq<char>) -> Seq<char>
    decreases s.len(),
{
    if p.len() > 0 && starts_with(s, p) {
        strip_prefixes(s.skip(p.len() as int), p)
    } else {
        s
    }
}

/// The characters of `v` with every leading copy of `pat` removed.
pub fn trim_start_matches(v: &Vec<char>, pat: &str) -> (r: Vec<char>)
    requires
        pat@.len() > 0,
    ensures
        r@ == strip_prefixes(v@, pat@),
{
    let p = chars_of(pat);
    let n = v.len();
    let m = p.len();
    let mut i: usize = 0;
    assert(v@.skip(0) =~= v@);
    while i <= n && m <= n - i && matches_at(v, &p, i)
        invariant
            n == v@.len(),
            m == p@.len() > 0,
            p@ == pat@,
            i <= n,
            strip_prefixes(v@, p@) == strip_prefixes(v@.skip(i as int), p@),
        decreases n - i,
    {
        proof {
            let s = v@.skip(i as int);
            assert(s.take(m as int) =~= v@.subrange(i as int, i + m));
            assert(s.skip(m as int) =~= v@.skip(i + m));
        }
        i = i + m;
    }
    proof {
        let s = v@.skip(i as int);
        if m <= s.len() {
            assert(s.take(m as int) =~= v@.subrange(i as int, i + m));
        }
    }
    sub_chars(v, i, n)
}

/// `s` with every `from` character replaced by `to`.
pub open spec fn replaced(s: Seq<char>, from: char, to: char) -> Seq<char> {
    Seq::new(s.len(), |i: int| if s[i] == from { to } else { s[i] })
}

/// Replaces every `from` character with `to`.
pub fn replace_char(v: &Vec<char>, from: char, to: char) -> (r: Vec<char>)
    ensures
        r@ == replaced(v@, from, to),
{
    let mut r: Vec<char> = Vec::new();
    let n = v.len();
    for i in 0..n
        invariant
            n == v@.len(),
            r@.len() == i,
            forall|k: int| 0 <= k < i ==> r@[k] == (if v@[k] == from { to } else { v@[k] }),
    {
        if v[i] == from {
            r.push(to);
        } else {
            r.push(v[i]);
        }
    }
    assert(r@ =~= replaced(v@, from, to));
    r
}

// ---------------------------------------------------------------------
// Splitting
// ---------------------------------------------------------------------

/// The pieces completed so far and the piece being read, after splitting
/// `s` at every character of `seps` (left to right, as `str::split` does).
pub open spec fn split_state(s: Seq<char>, seps: Seq<char>) -> (Seq<Seq<char>>, Seq<char>)
    decreases s.len(),
{
    if s.len() == 0 {
        (Seq::empty(), Seq::empty())
    } else {
        let prev = split_state(s.drop_last(), seps);
        if seps.contains(s.last()) {
            (prev.0.push(prev.1), Seq::empty())
        } else {
            (prev.0, prev.1.push(s.last()))
        }
    }
}

/// The pieces of `s` between the separators `seps` (`str::split`).
pub open spec fn split_on(s: Seq<char>, seps: Seq<char>) -> Seq<Seq<char>> {
    let st = split_state(s, seps);
    st.0.push(st.1)
}

/// The pieces of `s` that are not blank (`split(..).filter(|p| !p.trim().is_empty())`).
pub open spec fn parts_of(s: Seq<char>, seps: Seq<char>) -> Seq<Seq<char>> {
    split_on(s, seps).filter(not_blank())
}

/// The test that keeps a piece: it is not blank.
pub open spec fn not_blank() -> spec_fn(Seq<char>) -> bool {
    |p: Seq<char>| !is_blank(p)
}

/// The views of a vector of character vectors.
pub open spec fn views(v: Seq<Vec<char>>) -> Seq<Seq<char>> {
    v.map_values(|p: Vec<char>| p@)
}

fn in_chars(c: char, set: &Vec<char>) -> (r: bool)
    ensures
        r == set@.contains(c),
{
    let n = set.len();
    for i in 0..n
        invariant
            n == set@.len(),
            forall|k: int| 0 <= k < i ==> set@[k] != c,
    {
        if set[i] == c {
            return true;
        }
    }
    false
}

/// Splits `v` at every character in `seps` and keeps the non-blank pieces.
pub fn nonblank_parts(v: &Vec<char>, seps: &Vec<char>) -> (r: Vec<Vec<char>>)
    ensures
        views(r@) == parts_of(v@, seps@),
{
    let ghost pred = not_blank();
    let mut out: Vec<Vec<char>> = Vec::new();
    let mut cur: Vec<char> = Vec::new();
    let n = v.len();
    for i in 0..n
        invariant
            n == v@.len(),
            pred == not_blank(),
            views(out@) == split_state(v@.take(i as int), seps@).0.filter(pred),
            cur@ == split_state(v@.take(i as int), seps@).1,
    {
        let c = v[i];
        proof {
            assert(v@.take(i + 1).drop_last() =~= v@.take(i as int));
            assert(v@.take(i + 1).last() == c);
        }
        let ghost done = split_state(v@.take(i as int), seps@).0;
        let ghost old_out = out@;
        proof {
            let t = v@.take(i + 1);
            assert(split_state(t, seps@) == (if seps@.contains(c) {
                (done.push(cur@), Seq::<char>::empty())
            } else {
                (done, cur@.push(c))
            }));
        }
        if in_chars(c, seps) {
            let piece = cur;
            cur = Vec::new();
            proof {
                done.lemma_filter_push(piece@, pred);
            }
            if !blank(&piece) {
                out.push(piece);
                assert(views(out@) =~= views(old_out).push(piece@));
                assert(views(out@) == done.push(piece@).filter(pred));
            } else {
                assert(views(out@) == done.push(piece@).filter(pred));
            }
            assert(v@.take(i + 1) =~= v@.take(i as int).push(c));
            assert(views(out@) == split_state(v@.take(i + 1), seps@).0.filter(pred));
        } else {
            cur.push(c);
            assert(views(out@) == split_state(v@.take(i + 1), seps@).0.filter(pred));
        }
    }
    let ghost done = split_state(v@.take(n as int), seps@).0;
    proof {
        assert(v@.take(n as int) =~= v@);
        done.lemma_filter_push(cur@, pred);
    }
    let ghost old_out = out@;
    if !blank(&cur) {
        out.push(cur);
        assert(views(out@) =~= views(old_out).push(cur@));
    }
    out
}

// ---------------------------------------------------------------------
// Numbers
// ---------------------------------------------------------------------

/// The decimal digit for `d < 10`.
pub open spec fn digit_char(d: nat) -> char {
    seq!['0', '1', '2', '3', '4', '5', '6', '7', '8', '9'][d as int]
}

/// The decimal representation of `n` without leading zeros, as `{}` prints it.
pub open spec fn decimal(n: nat) -> Seq<char>
    decreases n,
{
    if n < 10 {
        seq![digit_char(n)]
    } else {
        decimal(n / 10).push(digit_char(n % 10))
    }
}

/// The decimal representation of a signed number, with `-` before negatives.
pub open spec fn signed_decimal(n: int) -> Seq<char> {
    if n < 0 {
        seq!['-'] + decimal((-n) as nat)
    } else {
        decimal(n as nat)
    }
}

fn digit(d: u64) -> (c: char)
    requires
        d < 10,
    ensures
        c == digit_char(d as nat),
{
    match d {
        0 => '0',
        1 => '1',
        2 => '2',
        3 => '3',
        4 => '4',
        5 => '5',
        6 => '6',
        7 => '7',
        8 => '8',
        _ => '9',
    }
}

/// Appends the decimal representation of `n`.
pub fn push_decimal(out: &mut Vec<char>, n: u64)
    ensures
        final(out)@ == old(out)@ + decimal(n as nat),
    decreases n,
{
    if n >= 10 {
        push_decimal(out, n / 10);
    }
    out.push(digit(n % 10));
    proof {
        if n >= 10 {
            assert(decimal(n as nat) == decimal((n / 10) as nat).push(digit_char((n % 10) as nat)));
        }
    }
}

/// Appends the decimal representation of a signed number.
pub fn push_signed(out: &mut Vec<char>, n: i64)
    ensures
        final(out)@ == old(out)@ + signed_decimal(n as int),
{
    if n < 0 {
        let ghost before = out@;
        out.push('-');
        let mag: u64 = if n == i64::MIN {
            0x8000_0000_0000_0000u64
        } else {
            (-n) as u64
        };
        push_decimal(out, mag);
        assert(out@ =~= before + (seq!['-'] + decimal((-n) as nat)));
    } else {
        push_decimal(out, n as u64);
    }
}

} // verus!
