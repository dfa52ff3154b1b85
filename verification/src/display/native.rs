//! The display logic of the platform layer: naming and identifying
//! monitors, merging the two enumerations (CCD paths and GDI devices),
//! ordering them, and planning the mode changes of a switch or a restore.
//!
//! The platform calls themselves are made by the caller, which hands the
//! raw records in and carries the resulting plans out.
use vstd::prelude::*;
use crate::text::{
    blank, chars_of, concat_chars, contains_chars, contains_str, eq_ignore_ascii,
    eq_ignore_ascii_case, extend_chars, has_sub, is_blank, nonblank_parts, parts_of,
    push_decimal, push_signed, replace_char, replaced, signed_decimal, decimal, str_blank,
    string_of, strip_prefixes, trim_chars, trim_start_matches, trimmed, upper_chars,
    upper_of, views, text_lt, text_less, chars_eq,
};
use crate::display::{
    DisplayModeSnapshot, DisplayLayoutSnapshot, ModeView, MonitorInfo, MonitorInfoView,
    opt_mode_view, duplicate_mode, mode_views, info_views,
};

verus! {

broadcast use vstd::string::group_string_axioms;

// ---------------------------------------------------------------------
// UTF-16 buffers
// ---------------------------------------------------------------------

/// The UTF-16 code units of one character.
pub open spec fn utf16_of_char(c: char) -> Seq<u16> {
    let u = c as u32;
    if u < 0x10000 {
        seq![u as u16]
    } else {
        let v = (u - 0x10000) as u32;
        seq![(0xD800 + v / 0x400) as u16, (0xDC00 + v % 0x400) as u16]
    }
}

/// The UTF-16 encoding of a text (`str::encode_utf16`).
pub open spec fn utf16_encode(s: Seq<char>) -> Seq<u16>
    decreases s.len(),
{
    if s.len() == 0 {
        Seq::empty()
    } else {
        utf16_encode(s.drop_last()) + utf16_of_char(s.last())
    }
}

/// A NUL-terminated UTF-16 copy of `value`, as the wide Win32 calls take it.
pub fn to_wide(value: &str) -> (r: Vec<u16>)
    ensures
        r@ == utf16_encode(value@).push(0u16),
{
    let v = chars_of(value);
    let mut r: Vec<u16> = Vec::new();
    let n = v.len();
    for i in 0..n
        invariant
            n == v@.len(),
            r@ == utf16_encode(v@.take(i as int)),
    {
        let c = v[i];
        let u = c as u32;
        proof {
            assert(v@.take(i + 1).drop_last() =~= v@.take(i as int));
        }
        let ghost before = r@;
        if u < 0x10000 {
            r.push(u as u16);
        } else {
            let w = u - 0x10000;
            r.push((0xD800 + w / 0x400) as u16);
            r.push((0xDC00 + w % 0x400) as u16);
        }
        assert(r@ =~= before + utf16_of_char(c));
    }
    assert(v@.take(n as int) =~= value@);
    r.push(0u16);
    r
}

/// Lossy UTF-16 decoding (`String::from_utf16_lossy`): a surrogate pair
/// gives one character, any other lone surrogate gives U+FFFD.
pub open spec fn utf16_decode(u: Seq<u16>) -> Seq<char>
    decreases u.len(),
{
    if u.len() == 0 {
        Seq::empty()
    } else if u[0] < 0xD800 || u[0] > 0xDFFF {
        seq![(u[0] as u32) as char] + utf16_decode(u.drop_first())
    } else if u[0] <= 0xDBFF && u.len() >= 2 && 0xDC00 <= u[1] <= 0xDFFF {
        seq![
            (0x10000 + (u[0] - 0xD800) * 0x400 + (u[1] - 0xDC00)) as char
        ] + utf16_decode(u.skip(2))
    } else {
        seq!['\u{FFFD}'] + utf16_decode(u.drop_first())
    }
}

proof fn lemma_decode_char(c: char, rest: Seq<u16>)
    ensures
        utf16_decode(utf16_of_char(c) + rest) == seq![c] + utf16_decode(rest),
{
    let u = c as u32;
    let units = utf16_of_char(c) + rest;
    if u < 0x10000 {
        assert(units[0] == u as u16);
        assert(units.drop_first() =~= rest);
        assert(((u as u16) as u32) as char == c);
    } else {
        let v = (u - 0x10000) as u32;
        let hi = (0xD800 + v / 0x400) as u16;
        let lo = (0xDC00 + v % 0x400) as u16;
        assert(v < 0x100000);
        assert(v / 0x400 < 0x400);
        assert(units[0] == hi && units[1] == lo);
        assert(units.skip(2) =~= rest);
        assert(0x10000 + (hi - 0xD800) * 0x400 + (lo - 0xDC00) == u) by {
            assert(v == (v / 0x400) * 0x400 + v % 0x400);
        }
        assert((u as int) as char == c);
    }
}

proof fn lemma_encode_prepend(c: char, t: Seq<char>)
    ensures
        utf16_encode(seq![c] + t) == utf16_of_char(c) + utf16_encode(t),
    decreases t.len(),
{
    if t.len() == 0 {
        assert(seq![c] + t =~= seq![c]);
        assert((seq![c] + t).drop_last() =~= Seq::<char>::empty());
        assert(utf16_encode(Seq::<char>::empty()) == Seq::<u16>::empty());
        assert(utf16_of_char(c) + utf16_encode(t) =~= utf16_of_char(c));
        assert(Seq::<u16>::empty() + utf16_of_char(c) =~= utf16_of_char(c));
    } else {
        lemma_encode_prepend(c, t.drop_last());
        assert((seq![c] + t).drop_last() =~= seq![c] + t.drop_last());
        assert((seq![c] + t).last() == t.last());
        assert(utf16_of_char(c) + utf16_encode(t.drop_last()) + utf16_of_char(t.last())
            =~= utf16_of_char(c) + (utf16_encode(t.drop_last()) + utf16_of_char(t.last())));
    }
}

proof fn lemma_decode_encode(s: Seq<char>, rest: Seq<u16>)
    ensures
        utf16_decode(utf16_encode(s) + rest) == s + utf16_decode(rest),
    decreases s.len(),
{
    if s.len() == 0 {
        assert(utf16_encode(s) + rest =~= rest);
        assert(s + utf16_decode(rest) =~= utf16_decode(rest));
    } else {
        let c = s[0];
        let t = s.drop_first();
        assert(s =~= seq![c] + t);
        lemma_encode_prepend(c, t);
        lemma_decode_encode(t, rest);
        assert(utf16_encode(s) + rest =~= utf16_of_char(c) + (utf16_encode(t) + rest));
        lemma_decode_char(c, utf16_encode(t) + rest);
        assert(seq![c] + (t + utf16_decode(rest)) =~= s + utf16_decode(rest));
    }
}

proof fn lemma_encode_no_nul(s: Seq<char>)
    requires
        !s.contains('\0'),
    ensures
        forall|i: int| 0 <= i < utf16_encode(s).len() ==> utf16_encode(s)[i] != 0,
    decreases s.len(),
{
    if s.len() > 0 {
        let p = s.drop_last();
        assert forall|k: int| 0 <= k < p.len() implies p[k] != '\0' by {
            assert(p[k] == s[k]);
        }
        lemma_encode_no_nul(p);
        let c = s.last();
        assert(c == s[s.len() - 1]);
        assert(c != '\0') by {
            if c == '\0' {
                assert(s.contains('\0'));
            }
        }
        let e = utf16_encode(s);
        let ep = utf16_encode(p);
        assert(e == ep + utf16_of_char(c));
        assert forall|i: int| 0 <= i < e.len() implies e[i] != 0 by {
            if i >= ep.len() {
                assert(e[i] == utf16_of_char(c)[i - ep.len()]);
                assert((c as u32) != 0) by {
                    vstd::utf8::char_u32_cast(c, c as u32);
                    vstd::utf8::char_u32_cast('\0', '\0' as u32);
                }
                let u = c as u32;
                if u < 0x10000 {
                    assert((u as u16) != 0) by (bit_vector)
                        requires
                            u != 0,
                            u < 0x10000,
                    ;
                } else {
                    assert(u <= 0x10FFFF) by {
                        vstd::utf8::char_is_scalar(c);
                    }
                    let v = (u - 0x10000) as u32;
                    assert(v / 0x400 < 0x400);
                }
            } else {
                assert(e[i] == ep[i]);
            }
        }
    }
}

/// A text without NUL survives the wide buffer: decoding what `to_wide`
/// encodes gives the text back, trimmed as `wide_to_string` trims it.
pub proof fn law_wide_round_trip(s: Seq<char>)
    requires
        !s.contains('\0'),
    ensures
        utf16_decode(utf16_encode(s)) == s,
        wide_text(utf16_encode(s).push(0u16)) == trimmed(s),
{
    lemma_decode_encode(s, Seq::empty());
    assert(utf16_encode(s) + Seq::<u16>::empty() =~= utf16_encode(s));
    assert(s + utf16_decode(Seq::<u16>::empty()) =~= s);
    lemma_encode_no_nul(s);
    let w = utf16_encode(s).push(0u16);
    let n = utf16_encode(s).len() as int;
    assert(w[n] == 0);
    let k = choose|i: int| 0 <= i < w.len() && w[i] == 0 && forall|j: int| 0 <= j < i ==> w[j] != 0;
    assert(0 <= n < w.len() && w[n] == 0 && forall|j: int| 0 <= j < n ==> w[j] != 0) by {
        assert forall|j: int| 0 <= j < n implies w[j] != 0 by {
            assert(w[j] == utf16_encode(s)[j]);
        }
    }
    if k < n {
        assert(w[k] == utf16_encode(s)[k]);
    } else if k > n {
        assert(w[n] != 0);
    }
    assert(nul_len(w) == n);
    assert(w.take(n) =~= utf16_encode(s));
}

/// std's `String::from_utf16_lossy`: decodes the units, putting U+FFFD in
/// place of unpaired surrogates (as its documentation states).
#[verifier::external_body]
fn decode_utf16_lossy(units: &[u16]) -> (s: String)
    ensures
        s@ == utf16_decode(units@),
{
    String::from_utf16_lossy(units)
}

/// The length of a NUL-terminated buffer: the index of the first 0, or
/// the whole length when there is none.
pub open spec fn nul_len(v: Seq<u16>) -> int {
    if exists|i: int| 0 <= i < v.len() && v[i] == 0 {
        choose|i: int| 0 <= i < v.len() && v[i] == 0 && forall|k: int| 0 <= k < i ==> v[k] != 0
    } else {
        v.len() as int
    }
}

/// The trimmed text of a fixed-size wide buffer (up to its first NUL).
pub open spec fn wide_text(v: Seq<u16>) -> Seq<char> {
    trimmed(utf16_decode(v.take(nul_len(v))))
}

/// The text held in a NUL-terminated wide buffer, trimmed.
pub fn wide_to_string(value: &[u16]) -> (r: String)
    ensures
        r@ == wide_text(value@),
{
    let n = value.len();
    let mut len: usize = 0;
    while len < n
        invariant
            n == value@.len(),
            len <= n,
            forall|k: int| 0 <= k < len ==> value@[k] != 0,
        ensures
            len <= n,
            forall|k: int| 0 <= k < len ==> value@[k] != 0,
            len == n || value@[len as int] == 0,
        decreases n - len,
    {
        if value[len] == 0 {
            break;
        }
        len = len + 1;
    }
    proof {
        let v = value@;
        if len < n {
            let w = choose|i: int| 0 <= i < v.len() && v[i] == 0 && forall|k: int| 0 <= k < i ==> v[k] != 0;
            assert(0 <= len < v.len() && v[len as int] == 0 && forall|k: int| 0 <= k < len ==> v[k] != 0);
            if w < len {
                assert(v[w] != 0);
            } else if w > len {
                assert(v[len as int] != 0);
            }
            assert(nul_len(v) == len);
        } else {
            assert(!exists|i: int| 0 <= i < v.len() && v[i] == 0);
        }
    }
    let mut head: Vec<u16> = Vec::new();
    for i in 0..len
        invariant
            len <= n == value@.len(),
            head@ == value@.take(i as int),
    {
        head.push(value[i]);
        assert(value@.take(i + 1) =~= value@.take(i as int).push(value@[i as int]));
    }
    let decoded = decode_utf16_lossy(head.as_slice());
    let dv = chars_of(decoded.as_str());
    let t = trim_chars(&dv);
    string_of(&t)
}


// ---------------------------------------------------------------------
// Monitors as the platform layer sees them
// ---------------------------------------------------------------------

/// A monitor found by enumeration, with the mode that controls it and its
/// rank in the platform's path order.
#[derive(Clone, Debug)]
pub struct RuntimeMonitor {
    pub info: MonitorInfo,
    pub mode: Option<DisplayModeSnapshot>,
    pub ccd_rank: usize,
}

/// The mathematical content of a `RuntimeMonitor`.
pub struct RuntimeMonitorView {
    pub info: MonitorInfoView,
    pub mode: Option<ModeView>,
    pub ccd_rank: usize,
}

impl View for RuntimeMonitor {
    type V = RuntimeMonitorView;

    open spec fn view(&self) -> RuntimeMonitorView {
        RuntimeMonitorView { info: self.info@, mode: opt_mode_view(self.mode), ccd_rank: self.ccd_rank }
    }
}

/// The views of a sequence of runtime monitors.
pub open spec fn runtime_views(s: Seq<RuntimeMonitor>) -> Seq<RuntimeMonitorView> {
    s.map_values(|m: RuntimeMonitor| m@)
}

/// A display device as GDI enumerates it, with the monitor attached to it.
#[derive(Clone, Debug)]
pub struct GdiDisplay {
    pub device_name: String,
    pub adapter_name: String,
    pub monitor_name: String,
    pub monitor_id: String,
    pub active: bool,
    pub primary: bool,
    pub mode: Option<DisplayModeSnapshot>,
}

/// The mathematical content of a `GdiDisplay`.
pub struct GdiDisplayView {
    pub device_name: Seq<char>,
    pub adapter_name: Seq<char>,
    pub monitor_name: Seq<char>,
    pub monitor_id: Seq<char>,
    pub active: bool,
    pub primary: bool,
    pub mode: Option<ModeView>,
}

impl View for GdiDisplay {
    type V = GdiDisplayView;

    open spec fn view(&self) -> GdiDisplayView {
        GdiDisplayView {
            device_name: self.device_name@,
            adapter_name: self.adapter_name@,
            monitor_name: self.monitor_name@,
            monitor_id: self.monitor_id@,
            active: self.active,
            primary: self.primary,
            mode: opt_mode_view(self.mode),
        }
    }
}

impl GdiDisplay {
    /// A field-by-field copy.
    pub fn duplicate(&self) -> (r: GdiDisplay)
        ensures
            r@ == self@,
    {
        GdiDisplay {
            device_name: self.device_name.clone(),
            adapter_name: self.adapter_name.clone(),
            monitor_name: self.monitor_name.clone(),
            monitor_id: self.monitor_id.clone(),
            active: self.active,
            primary: self.primary,
            mode: duplicate_mode(&self.mode),
        }
    }
}

/// The views of a sequence of GDI displays.
pub open spec fn gdi_views(s: Seq<GdiDisplay>) -> Seq<GdiDisplayView> {
    s.map_values(|d: GdiDisplay| d@)
}

/// The preference of a monitor when two paths lead to it: active first,
/// then primary, then one whose mode is known.
pub open spec fn score_of(m: RuntimeMonitorView) -> int {
    (if m.info.active { 4int } else { 0int }) + (if m.info.primary { 2int } else { 0int }) + (if m.mode
        is Some { 1int } else { 0int })
}

/// The preference score of a monitor.
pub fn monitor_score(monitor: &RuntimeMonitor) -> (r: u8)
    ensures
        r as int == score_of(monitor@),
{
    let mut score: u8 = 0;
    if monitor.info.active {
        score = score + 4;
    }
    if monitor.info.primary {
        score = score + 2;
    }
    if monitor.mode.is_some() {
        score = score + 1;
    }
    score
}

/// Whether `candidate` should take the place of `current` for the same
/// target: a better score, or an equal score and an earlier path.
pub open spec fn replaces(current: RuntimeMonitorView, candidate: RuntimeMonitorView) -> bool {
    score_of(candidate) > score_of(current) || (score_of(candidate) == score_of(current)
        && candidate.ccd_rank < current.ccd_rank)
}

/// Whether `candidate` should take the place of `current`.
pub fn should_replace_monitor(current: &RuntimeMonitor, candidate: &RuntimeMonitor) -> (r: bool)
    ensures
        r == replaces(current@, candidate@),
{
    let a = monitor_score(candidate);
    let b = monitor_score(current);
    a > b || (a == b && candidate.ccd_rank < current.ccd_rank)
}

// ---------------------------------------------------------------------
// Identifiers and names
// ---------------------------------------------------------------------

/// The prefix of a Win32 device path (`\\?\`).
pub open spec fn device_path_prefix() -> Seq<char> {
    "\\\\?\\"@
}

/// A device path reduced to a comparable identifier: trimmed, without the
/// `\\?\` prefix, backslashes as `#`, upper case.
pub open spec fn normalized(value: Seq<char>) -> Seq<char> {
    upper_of(replaced(strip_prefixes(trimmed(value), device_path_prefix()), '\\', '#'))
}

/// Normalizes a device path into an identifier.
pub fn normalize_id(value: &str) -> (r: String)
    ensures
        r@ == normalized(value@),
{
    proof {
        reveal_strlit("\\\\?\\");
    }
    let v = chars_of(value);
    let t = trim_chars(&v);
    let s = trim_start_matches(&t, "\\\\?\\");
    let rep = replace_char(&s, '\\', '#');
    let up = upper_chars(&rep);
    string_of(&up)
}

/// `DISPLAY` or `MONITOR`, ignoring ASCII case.
pub open spec fn is_device_word(p: Seq<char>) -> bool {
    eq_ignore_ascii(p, "DISPLAY"@) || eq_ignore_ascii(p, "MONITOR"@)
}

fn device_word(p: &Vec<char>) -> (r: bool)
    ensures
        r == is_device_word(p@),
{
    eq_ignore_ascii_case(p, "DISPLAY") || eq_ignore_ascii_case(p, "MONITOR")
}

/// The separators of a device path: `#` and `\`.
pub open spec fn path_separators() -> Seq<char> {
    seq!['#', '\\']
}

/// The model part of a device path: the piece after the first `DISPLAY` or
/// `MONITOR` piece, upper-cased; none when there is no such pair.
#[verifier::opaque]
pub open spec fn model_key_of(value: Seq<char>) -> Option<Seq<char>> {
    model_in_parts(parts_of(strip_prefixes(trimmed(value), device_path_prefix()), path_separators()))
}

/// The piece after the first device word among `parts`, upper-cased.
pub open spec fn model_in_parts(parts: Seq<Seq<char>>) -> Option<Seq<char>> {
    if exists|k: int| 0 <= k && k + 1 < parts.len() && is_device_word(#[trigger] parts[k]) {
        let k = choose|k: int|
            0 <= k && k + 1 < parts.len() && is_device_word(#[trigger] parts[k]) && forall|j: int|
                0 <= j < k ==> !is_device_word(#[trigger] parts[j]);
        Some(upper_of(parts[k + 1]))
    } else {
        None
    }
}

/// The model key of a device path, if it names one.
pub fn monitor_model_key(value: &str) -> (r: Option<String>)
    ensures
        match r {
            Some(s) => model_key_of(value@) == Some(s@),
            None => model_key_of(value@) is None,
        },
{
    proof {
        reveal_strlit("\\\\?\\");
        reveal(model_key_of);
    }
    let v = chars_of(value);
    let t = trim_chars(&v);
    let cleaned = trim_start_matches(&t, "\\\\?\\");
    let mut seps: Vec<char> = Vec::new();
    seps.push('#');
    seps.push('\\');
    assert(seps@ == path_separators());
    let parts = nonblank_parts(&cleaned, &seps);
    let ghost ps = views(parts@);
    let n = parts.len();
    if n < 2 {
        return None;
    }
    let mut k: usize = 0;
    while k < n - 1
        invariant
            n == parts@.len() >= 2,
            ps == views(parts@),
            model_key_of(value@) == model_in_parts(ps),
            ps.len() == n,
            k <= n - 1,
            forall|j: int| 0 <= j < k ==> !is_device_word(#[trigger] ps[j]),
        decreases n - k,
    {
        let hit = device_word(&parts[k]);
        assert(ps[k as int] == parts@[k as int]@);
        if hit {
            proof {
                assert(ps[k as int] == parts@[k as int]@);
                lemma_first_device_word(ps, k as int);
                assert(ps[k + 1] == parts@[k + 1]@);
                assert(model_in_parts(ps) == Some(upper_of(ps[k + 1])));
            }
            let up = upper_chars(&parts[k + 1]);
            return Some(string_of(&up));
        }
        k = k + 1;
    }
    None
}

proof fn lemma_first_device_word(ps: Seq<Seq<char>>, k: int)
    requires
        0 <= k && k + 1 < ps.len(),
        is_device_word(ps[k]),
        forall|j: int| 0 <= j < k ==> !is_device_word(#[trigger] ps[j]),
    ensures
        (choose|w: int|
            0 <= w && w + 1 < ps.len() && is_device_word(#[trigger] ps[w]) && forall|j: int|
                0 <= j < w ==> !is_device_word(#[trigger] ps[j])) == k,
{
    let w = choose|w: int|
        0 <= w && w + 1 < ps.len() && is_device_word(#[trigger] ps[w]) && forall|j: int|
            0 <= j < w ==> !is_device_word(#[trigger] ps[j]);
    assert(0 <= k && k + 1 < ps.len() && is_device_word(ps[k]) && forall|j: int|
        0 <= j < k ==> !is_device_word(#[trigger] ps[j]));
    if w < k {
        assert(!is_device_word(ps[w]));
    } else if w > k {
        assert(!is_device_word(ps[k]));
    }
}

/// Whether a monitor's names mark it as a virtual display.
pub open spec fn virtual_marked(name: Seq<char>, path: Seq<char>, device: Seq<char>) -> bool {
    let combined = upper_of(name + seq![' '] + path + seq![' '] + device);
    has_sub(combined, "VIRTUAL"@) || has_sub(combined, "VDD"@) || has_sub(combined, "MTT"@)
}

/// Whether a monitor is a virtual display, judged by its names.
pub fn is_virtual_display(name: &str, path: &str, device: &str) -> (r: bool)
    ensures
        r == virtual_marked(name@, path@, device@),
{
    let mut combined = chars_of(name);
    combined.push(' ');
    let p = chars_of(path);
    extend_chars(&mut combined, &p);
    combined.push(' ');
    let d = chars_of(device);
    extend_chars(&mut combined, &d);
    assert(combined@ == name@ + seq![' '] + path@ + seq![' '] + device@);
    let up = upper_chars(&combined);
    contains_str(&up, "VIRTUAL") || contains_str(&up, "VDD") || contains_str(&up, "MTT")
}


/// The index of the first element of `s` that satisfies `p`.
#[verifier::opaque]
pub open spec fn first_where<A>(s: Seq<A>, p: spec_fn(A) -> bool) -> Option<int> {
    if exists|i: int| 0 <= i < s.len() && p(s[i]) {
        Some(choose|i: int| 0 <= i < s.len() && p(s[i]) && forall|j: int| 0 <= j < i ==> !p(s[j]))
    } else {
        None
    }
}

/// `first_where` is the first index that satisfies the test.
pub proof fn lemma_first_where<A>(s: Seq<A>, p: spec_fn(A) -> bool, k: int)
    requires
        0 <= k < s.len(),
        p(s[k]),
        forall|j: int| 0 <= j < k ==> !p(s[j]),
    ensures
        first_where(s, p) == Some(k),
{
    reveal(first_where);
    let w = choose|i: int| 0 <= i < s.len() && p(s[i]) && forall|j: int| 0 <= j < i ==> !p(s[j]);
    assert(0 <= k < s.len() && p(s[k]) && forall|j: int| 0 <= j < k ==> !p(s[j]));
    if w < k {
        assert(!p(s[w]));
    } else if w > k {
        assert(!p(s[k]));
    }
}

/// `first_where` is none when nothing satisfies the test.
pub proof fn lemma_first_where_none<A>(s: Seq<A>, p: spec_fn(A) -> bool)
    requires
        forall|j: int| 0 <= j < s.len() ==> !p(s[j]),
    ensures
        first_where(s, p) is None,
{
    reveal(first_where);
}

/// A piece of a device path that names a display or a monitor.
pub open spec fn names_device() -> spec_fn(Seq<char>) -> bool {
    |p: Seq<char>| has_sub(upper_of(p), "DISPLAY"@) || has_sub(upper_of(p), "MONITOR"@)
}

/// A short label for a device path: the model after a leading `DISPLAY` or
/// `MONITOR` piece, else the first piece that names a display or monitor,
/// else the path without its `\\?\` prefix.
pub open spec fn compact_path(path: Seq<char>) -> Seq<char> {
    let cleaned = strip_prefixes(path, device_path_prefix());
    let parts = parts_of(cleaned, seq!['#']);
    if parts.len() >= 2 && is_device_word(parts[0]) {
        parts[1]
    } else {
        match first_where(parts, names_device()) {
            Some(i) => parts[i],
            None => cleaned,
        }
    }
}

/// Shortens a device path into a label.
pub fn compact_monitor_path(path: &str) -> (r: String)
    ensures
        r@ == compact_path(path@),
{
    proof {
        reveal_strlit("\\\\?\\");
    }
    let v = chars_of(path);
    let cleaned = trim_start_matches(&v, "\\\\?\\");
    let mut seps: Vec<char> = Vec::new();
    seps.push('#');
    assert(seps@ == seq!['#']);
    let parts = nonblank_parts(&cleaned, &seps);
    let ghost ps = views(parts@);
    let n = parts.len();
    if n >= 2 {
        assert(ps[0] == parts@[0]@);
        assert(ps[1] == parts@[1]@);
        if device_word(&parts[0]) {
            return string_of(&parts[1]);
        }
    }
    let ghost pred = names_device();
    let mut i: usize = 0;
    while i < n
        invariant
            n == parts@.len() == ps.len(),
            ps == views(parts@),
            pred == names_device(),
            i <= n,
            forall|j: int| 0 <= j < i ==> !pred(ps[j]),
            ps == parts_of(strip_prefixes(path@, device_path_prefix()), seq!['#']),
            !(ps.len() >= 2 && is_device_word(ps[0])),
        decreases n - i,
    {
        let up = upper_chars(&parts[i]);
        assert(ps[i as int] == parts@[i as int]@);
        if contains_str(&up, "DISPLAY") || contains_str(&up, "MONITOR") {
            proof {
                lemma_first_where(ps, pred, i as int);
            }
            return string_of(&parts[i]);
        }
        i = i + 1;
    }
    proof {
        lemma_first_where_none(ps, pred);
    }
    string_of(&cleaned)
}

/// The `Display N` label of the path at `rank` (counted from one).
pub open spec fn numbered_label(rank: usize) -> Seq<char> {
    "Display "@ + decimal((rank + 1) as nat)
}

/// The label of a monitor: its friendly name, else its shortened path, else
/// the GDI monitor name, else the GDI adapter name, else `Display N`.
pub open spec fn display_label(
    friendly: Seq<char>,
    path: Seq<char>,
    gdi: Option<GdiDisplayView>,
    rank: usize,
) -> Seq<char> {
    if !is_blank(friendly) {
        friendly
    } else if !is_blank(path) {
        compact_path(path)
    } else {
        match gdi {
            Some(d) => if !is_blank(d.monitor_name) {
                d.monitor_name
            } else if !is_blank(d.adapter_name) {
                d.adapter_name
            } else {
                numbered_label(rank)
            },
            None => numbered_label(rank),
        }
    }
}

/// The views of an optional GDI display.
pub open spec fn opt_gdi_view(g: Option<&GdiDisplay>) -> Option<GdiDisplayView> {
    match g {
        Some(d) => Some(d@),
        None => None,
    }
}

fn numbered(rank: usize) -> (r: String)
    requires
        rank < usize::MAX,
    ensures
        r@ == numbered_label(rank),
{
    let mut v = chars_of("Display ");
    push_decimal(&mut v, (rank + 1) as u64);
    string_of(&v)
}

/// The label of a monitor.
pub fn monitor_display_name(
    friendly: &str,
    monitor_path: &str,
    gdi: Option<&GdiDisplay>,
    rank: usize,
) -> (r: String)
    requires
        rank < usize::MAX,
    ensures
        r@ == display_label(friendly@, monitor_path@, opt_gdi_view(gdi), rank),
{
    if !str_blank(friendly) {
        return friendly.to_string();
    }
    if !str_blank(monitor_path) {
        return compact_monitor_path(monitor_path);
    }
    if let Some(display) = gdi {
        if !str_blank(display.monitor_name.as_str()) {
            return display.monitor_name.clone();
        }
        if !str_blank(display.adapter_name.as_str()) {
            return display.adapter_name.clone();
        }
    }
    numbered(rank)
}

/// The placement text of a monitor: `WxH @ (X, Y)` for an active one with a
/// known mode, otherwise the "not enabled" label.
pub open spec fn bounds_label(mode: Option<ModeView>, active: bool) -> Seq<char> {
    match mode {
        Some(m) => if active {
            decimal(m.width as nat) + "x"@ + decimal(m.height as nat) + " @ ("@ + signed_decimal(
                m.x as int,
            ) + ", "@ + signed_decimal(m.y as int) + ")"@
        } else {
            "未启用"@
        },
        None => "未启用"@,
    }
}

/// The placement text of a monitor.
pub fn bounds_text(mode: &Option<DisplayModeSnapshot>, active: bool) -> (r: String)
    ensures
        r@ == bounds_label(opt_mode_view(*mode), active),
{
    match mode {
        Some(m) => {
            if active {
                let mut v: Vec<char> = Vec::new();
                push_decimal(&mut v, m.width as u64);
                let x = chars_of("x");
                extend_chars(&mut v, &x);
                push_decimal(&mut v, m.height as u64);
                let at = chars_of(" @ (");
                extend_chars(&mut v, &at);
                push_signed(&mut v, m.x as i64);
                let comma = chars_of(", ");
                extend_chars(&mut v, &comma);
                push_signed(&mut v, m.y as i64);
                let close = chars_of(")");
                extend_chars(&mut v, &close);
                assert(v@ == bounds_label(opt_mode_view(*mode), active));
                string_of(&v)
            } else {
                "未启用".to_string()
            }
        },
        None => "未启用".to_string(),
    }
}

/// The kind of a monitor as listed: `virtual` or `physical`.
pub open spec fn kind_label(is_virtual: bool) -> Seq<char> {
    if is_virtual {
        "virtual"@
    } else {
        "physical"@
    }
}

/// The listed name of a monitor: its kind in words, then its label.
pub open spec fn titled(is_virtual: bool, label: Seq<char>) -> Seq<char> {
    if is_virtual {
        "虚拟显示器 "@ + label
    } else {
        "物理显示器 "@ + label
    }
}

fn kind_text(is_virtual: bool) -> (r: String)
    ensures
        r@ == kind_label(is_virtual),
{
    if is_virtual {
        "virtual".to_string()
    } else {
        "physical".to_string()
    }
}

fn title_text(is_virtual: bool, label: &String) -> (r: String)
    ensures
        r@ == titled(is_virtual, label@),
{
    let head = if is_virtual {
        chars_of("虚拟显示器 ")
    } else {
        chars_of("物理显示器 ")
    };
    let l = chars_of(label.as_str());
    let all = concat_chars(&head, &l);
    string_of(&all)
}

/// The monitor that a GDI device stands for when no CCD path is known.
pub open spec fn gdi_monitor(index: usize, d: GdiDisplayView) -> RuntimeMonitorView {
    let is_virtual = virtual_marked(d.monitor_name, d.monitor_id, d.adapter_name);
    let label = if d.monitor_name.len() == 0 {
        d.adapter_name
    } else {
        d.monitor_name
    };
    RuntimeMonitorView {
        info: MonitorInfoView {
            id: if d.monitor_id.len() == 0 {
                d.device_name
            } else {
                normalized(d.monitor_id)
            },
            name: titled(is_virtual, label),
            monitor_type: kind_label(is_virtual),
            active: d.active,
            primary: d.primary,
            bounds: bounds_label(d.mode, d.active),
            hardware_id: d.monitor_id,
        },
        mode: d.mode,
        ccd_rank: index,
    }
}

/// The monitor that a GDI device stands for.
pub fn monitor_from_gdi(index: usize, display: GdiDisplay) -> (r: RuntimeMonitor)
    ensures
        r@ == gdi_monitor(index, display@),
{
    let id = if display.monitor_id.as_str().is_empty() {
        display.device_name.clone()
    } else {
        normalize_id(display.monitor_id.as_str())
    };
    let is_virtual = is_virtual_display(
        display.monitor_name.as_str(),
        display.monitor_id.as_str(),
        display.adapter_name.as_str(),
    );
    let label = if display.monitor_name.as_str().is_empty() {
        display.adapter_name.clone()
    } else {
        display.monitor_name.clone()
    };
    let bounds = bounds_text(&display.mode, display.active);
    RuntimeMonitor {
        info: MonitorInfo {
            id,
            name: title_text(is_virtual, &label),
            monitor_type: kind_text(is_virtual),
            active: display.active,
            primary: display.primary,
            bounds,
            hardware_id: display.monitor_id,
        },
        mode: display.mode,
        ccd_rank: index,
    }
}


// ---------------------------------------------------------------------
// Matching a CCD target to a GDI device
// ---------------------------------------------------------------------

/// One identifier contains the other (both non-empty).
pub open spec fn ids_overlap(a: Seq<char>, b: Seq<char>) -> bool {
    a.len() > 0 && b.len() > 0 && (has_sub(a, b) || has_sub(b, a))
}

/// First test: the device's monitor id and the target's path overlap.
pub open spec fn path_match(path: Seq<char>) -> spec_fn(GdiDisplayView) -> bool {
    |d: GdiDisplayView| ids_overlap(normalized(path), normalized(d.monitor_id))
}

/// Second test: both name the same monitor model.
pub open spec fn model_match(path: Seq<char>) -> spec_fn(GdiDisplayView) -> bool {
    |d: GdiDisplayView|
        match (model_key_of(path), model_key_of(d.monitor_id)) {
            (Some(a), Some(b)) => a == b,
            _ => false,
        }
}

/// Third test: the friendly name and the device's monitor name overlap
/// (upper case), the monitor name not being blank.
pub open spec fn name_match(friendly: Seq<char>) -> spec_fn(GdiDisplayView) -> bool {
    |d: GdiDisplayView|
        upper_of(friendly).len() > 0 && !is_blank(d.monitor_name) && (has_sub(
            upper_of(d.monitor_name),
            upper_of(friendly),
        ) || has_sub(upper_of(friendly), upper_of(d.monitor_name)))
}

/// The GDI device that a CCD target corresponds to: the first matching by
/// path, else the first matching by model, else the first matching by name.
pub open spec fn gdi_for_target(path: Seq<char>, friendly: Seq<char>, gdi: Seq<GdiDisplayView>) -> Option<GdiDisplayView> {
    match first_where(gdi, path_match(path)) {
        Some(i) => Some(gdi[i]),
        None => match first_where(gdi, model_match(path)) {
            Some(i) => Some(gdi[i]),
            None => match first_where(gdi, name_match(friendly)) {
                Some(i) => Some(gdi[i]),
                None => None,
            },
        },
    }
}

fn opt_string_eq(a: &Option<String>, b: &Option<String>) -> (r: bool)
    ensures
        r == match (*a, *b) {
            (Some(x), Some(y)) => x@ == y@,
            _ => false,
        },
{
    match (a, b) {
        (Some(x), Some(y)) => {
            let xv = chars_of(x.as_str());
            let yv = chars_of(y.as_str());
            chars_eq(&xv, &yv)
        },
        _ => false,
    }
}

fn first_path_match(monitor_path: &str, gdi_displays: &[GdiDisplay]) -> (r: Option<usize>)
    ensures
        match r {
            Some(i) => i < gdi_displays@.len() && first_where(gdi_views(gdi_displays@), path_match(monitor_path@)) == Some(i as int),
            None => first_where(gdi_views(gdi_displays@), path_match(monitor_path@)) is None,
        },
{
    let ghost gs = gdi_views(gdi_displays@);
    let n = gdi_displays.len();
    let np = normalize_id(monitor_path);
    let npv = chars_of(np.as_str());
    let np_empty = np.as_str().is_empty();
    let ghost p1 = path_match(monitor_path@);
    let mut i: usize = 0;
    while i < n
        invariant
            n == gdi_displays@.len() == gs.len(),
            gs == gdi_views(gdi_displays@),
            p1 == path_match(monitor_path@),
            npv@ == normalized(monitor_path@),
            np_empty == (npv@.len() == 0),
            i <= n,
            forall|j: int| 0 <= j < i ==> !p1(gs[j]),
        decreases n - i,
    {
        let d = &gdi_displays[i];
        assert(gs[i as int] == d@);
        let mid = normalize_id(d.monitor_id.as_str());
        let midv = chars_of(mid.as_str());
        if !mid.as_str().is_empty() && !np_empty && (contains_chars(&npv, &midv) || contains_chars(
            &midv,
            &npv,
        )) {
            proof {
                lemma_first_where(gs, p1, i as int);
            }
            return Some(i);
        }
        i = i + 1;
    }
    proof {
        lemma_first_where_none(gs, p1);
    }
    None
}

fn first_model_match(monitor_path: &str, gdi_displays: &[GdiDisplay]) -> (r: Option<usize>)
    ensures
        match r {
            Some(i) => i < gdi_displays@.len() && first_where(gdi_views(gdi_displays@), model_match(monitor_path@)) == Some(i as int),
            None => first_where(gdi_views(gdi_displays@), model_match(monitor_path@)) is None,
        },
{
    let ghost gs = gdi_views(gdi_displays@);
    let n = gdi_displays.len();
    let model = monitor_model_key(monitor_path);
    let ghost p2 = model_match(monitor_path@);
    let mut i: usize = 0;
    while i < n
        invariant
            n == gdi_displays@.len() == gs.len(),
            gs == gdi_views(gdi_displays@),
            p2 == model_match(monitor_path@),
            match model {
                Some(s) => model_key_of(monitor_path@) == Some(s@),
                None => model_key_of(monitor_path@) is None,
            },
            i <= n,
            forall|j: int| 0 <= j < i ==> !p2(gs[j]),
        decreases n - i,
    {
        let d = &gdi_displays[i];
        assert(gs[i as int] == d@);
        let other = monitor_model_key(d.monitor_id.as_str());
        if opt_string_eq(&model, &other) {
            proof {
                lemma_first_where(gs, p2, i as int);
            }
            return Some(i);
        }
        i = i + 1;
    }
    proof {
        lemma_first_where_none(gs, p2);
    }
    None
}

fn first_name_match(friendly: &str, gdi_displays: &[GdiDisplay]) -> (r: Option<usize>)
    ensures
        match r {
            Some(i) => i < gdi_displays@.len() && first_where(gdi_views(gdi_displays@), name_match(friendly@)) == Some(i as int),
            None => first_where(gdi_views(gdi_displays@), name_match(friendly@)) is None,
        },
{
    let ghost gs = gdi_views(gdi_displays@);
    let n = gdi_displays.len();
    let fv = chars_of(friendly);
    let fu = upper_chars(&fv);
    let ghost p3 = name_match(friendly@);
    let mut i: usize = 0;
    while i < n
        invariant
            n == gdi_displays@.len() == gs.len(),
            gs == gdi_views(gdi_displays@),
            p3 == name_match(friendly@),
            fu@ == upper_of(friendly@),
            i <= n,
            forall|j: int| 0 <= j < i ==> !p3(gs[j]),
        decreases n - i,
    {
        let d = &gdi_displays[i];
        assert(gs[i as int] == d@);
        let mn = chars_of(d.monitor_name.as_str());
        let mu = upper_chars(&mn);
        if fu.len() > 0 && !blank(&mn) && (contains_chars(&mu, &fu) || contains_chars(&fu, &mu)) {
            proof {
                lemma_first_where(gs, p3, i as int);
            }
            return Some(i);
        }
        i = i + 1;
    }
    proof {
        lemma_first_where_none(gs, p3);
    }
    None
}

/// The GDI device that a CCD target corresponds to.
pub fn find_gdi_for_target(monitor_path: &str, friendly: &str, gdi_displays: &[GdiDisplay]) -> (r:
    Option<GdiDisplay>)
    ensures
        opt_gdi_own_view(r) == gdi_for_target(monitor_path@, friendly@, gdi_views(gdi_displays@)),
{
    let ghost gs = gdi_views(gdi_displays@);
    if let Some(i) = first_path_match(monitor_path, gdi_displays) {
        assert(gs[i as int] == gdi_displays@[i as int]@);
        return Some(gdi_displays[i].duplicate());
    }
    if let Some(i) = first_model_match(monitor_path, gdi_displays) {
        assert(gs[i as int] == gdi_displays@[i as int]@);
        return Some(gdi_displays[i].duplicate());
    }
    if let Some(i) = first_name_match(friendly, gdi_displays) {
        assert(gs[i as int] == gdi_displays@[i as int]@);
        return Some(gdi_displays[i].duplicate());
    }
    None
}

/// The view of an optional owned GDI display.
pub open spec fn opt_gdi_own_view(g: Option<GdiDisplay>) -> Option<GdiDisplayView> {
    match g {
        Some(d) => Some(d@),
        None => None,
    }
}


// ---------------------------------------------------------------------
// CCD paths
// ---------------------------------------------------------------------

/// `DISPLAYCONFIG_PATH_ACTIVE`, the flag of a path that drives a display.
pub const DISPLAYCONFIG_PATH_ACTIVE: u32 = 1;
/// `DISPLAYCONFIG_OUTPUT_TECHNOLOGY_INDIRECT_VIRTUAL`, the output
/// technology of an indirect (virtual) display driver.
pub const OUTPUT_TECHNOLOGY_INDIRECT_VIRTUAL: i32 = 17;
/// `DISPLAYCONFIG_MODE_INFO_TYPE_SOURCE`, the kind of a source mode record.
pub const MODE_INFO_TYPE_SOURCE: i32 = 1;

/// What `DisplayConfigGetDeviceInfo` reports of a path's target.
#[derive(Clone, Debug)]
pub struct TargetName {
    pub monitor_device_path: Vec<u16>,
    pub monitor_friendly_device_name: Vec<u16>,
    pub output_technology: i32,
}

/// One path of `QueryDisplayConfig`, with what the platform reported of
/// its target (`None`: the query failed) and of its source's GDI name
/// (read for active paths only; `None`: failed or not read).
#[derive(Clone, Debug)]
pub struct CcdPath {
    pub flags: u32,
    pub target: Option<TargetName>,
    pub source_gdi_name: Option<Vec<u16>>,
    pub target_adapter_high: i32,
    pub target_adapter_low: u32,
    pub target_id: u32,
    pub source_adapter_high: i32,
    pub source_adapter_low: u32,
    pub source_id: u32,
}

/// One mode record of `QueryDisplayConfig`; source records carry the
/// source's size and position.
#[derive(Clone, Debug)]
pub struct SourceModeInfo {
    pub info_type: i32,
    pub adapter_high: i32,
    pub adapter_low: u32,
    pub id: u32,
    pub width: u32,
    pub height: u32,
    pub x: i32,
    pub y: i32,
}

/// A display mode to read from the platform: device name and whether the
/// display is active.
#[derive(Clone, Debug)]
pub struct ModeRequest {
    pub device_name: String,
    pub active: bool,
}

/// Whether a path drives a display.
pub open spec fn path_active(p: CcdPath) -> bool {
    p.flags & DISPLAYCONFIG_PATH_ACTIVE != 0
}

/// The target's device path.
pub open spec fn target_path(p: CcdPath) -> Seq<char> {
    match p.target {
        Some(t) => wide_text(t.monitor_device_path@),
        None => Seq::empty(),
    }
}

/// The target's friendly name.
pub open spec fn target_friendly(p: CcdPath) -> Seq<char> {
    match p.target {
        Some(t) => wide_text(t.monitor_friendly_device_name@),
        None => Seq::empty(),
    }
}

/// The target's output technology (0 when unknown).
pub open spec fn target_technology(p: CcdPath) -> i32 {
    match p.target {
        Some(t) => t.output_technology,
        None => 0,
    }
}

/// The GDI name of an active path's source (empty when unknown).
pub open spec fn source_text(p: CcdPath) -> Seq<char> {
    if path_active(p) {
        match p.source_gdi_name {
            Some(w) => wide_text(w@),
            None => Seq::empty(),
        }
    } else {
        Seq::empty()
    }
}

/// Inactive paths without a monitor are left out.
pub open spec fn path_skipped(p: CcdPath) -> bool {
    !path_active(p) && target_path(p).len() == 0
}

/// The GDI device name of a path: its source's name, else that of the GDI
/// device matched to its target.
pub open spec fn path_device(p: CcdPath, gs: Seq<GdiDisplayView>) -> Seq<char> {
    if source_text(p).len() > 0 {
        source_text(p)
    } else {
        match gdi_for_target(target_path(p), target_friendly(p), gs) {
            Some(d) => d.device_name,
            None => Seq::empty(),
        }
    }
}

/// The identifier of a path's monitor: its normalized device path, else
/// `ccd:<adapter high>:<adapter low>:<target id>`.
pub open spec fn path_key(p: CcdPath) -> Seq<char> {
    if target_path(p).len() > 0 {
        normalized(target_path(p))
    } else {
        "ccd:"@ + signed_decimal(p.target_adapter_high as int) + ":"@ + decimal(
            p.target_adapter_low as nat,
        ) + ":"@ + decimal(p.target_id as nat)
    }
}

/// The last element of `s` that satisfies `p`.
#[verifier::opaque]
pub open spec fn last_where<A>(s: Seq<A>, p: spec_fn(A) -> bool) -> Option<int> {
    if exists|i: int| 0 <= i < s.len() && p(s[i]) {
        Some(choose|i: int| 0 <= i < s.len() && p(s[i]) && forall|j: int| i < j < s.len() ==> !p(s[j]))
    } else {
        None
    }
}

/// `last_where` is the last index that satisfies the test.
pub proof fn lemma_last_where<A>(s: Seq<A>, p: spec_fn(A) -> bool, k: int)
    requires
        0 <= k < s.len(),
        p(s[k]),
        forall|j: int| k < j < s.len() ==> !p(s[j]),
    ensures
        last_where(s, p) == Some(k),
{
    reveal(last_where);
    let w = choose|i: int| 0 <= i < s.len() && p(s[i]) && forall|j: int| i < j < s.len() ==> !p(s[j]);
    assert(0 <= k < s.len() && p(s[k]) && forall|j: int| k < j < s.len() ==> !p(s[j]));
    if w < k {
        assert(!p(s[k]));
    } else if w > k {
        assert(!p(s[w]));
    }
}

/// `last_where` is none when nothing satisfies the test.
pub proof fn lemma_last_where_none<A>(s: Seq<A>, p: spec_fn(A) -> bool)
    requires
        forall|j: int| 0 <= j < s.len() ==> !p(s[j]),
    ensures
        last_where(s, p) is None,
{
    reveal(last_where);
}

/// A GDI device whose name equals `name` ignoring case (upper-cased).
pub open spec fn named(name: Seq<char>) -> spec_fn(GdiDisplayView) -> bool {
    |d: GdiDisplayView| upper_of(d.device_name) == upper_of(name)
}

/// The GDI device of a path: the last one with its device name (by upper
/// case), none when the path has no device name.
pub open spec fn path_gdi(p: CcdPath, gs: Seq<GdiDisplayView>) -> Option<GdiDisplayView> {
    let dev = path_device(p, gs);
    if dev.len() == 0 {
        None
    } else {
        match last_where(gs, named(dev)) {
            Some(i) => Some(gs[i]),
            None => None,
        }
    }
}

/// A source mode record of the path's source.
pub open spec fn source_of(p: CcdPath) -> spec_fn(SourceModeInfo) -> bool {
    |m: SourceModeInfo|
        m.info_type == MODE_INFO_TYPE_SOURCE && m.adapter_high == p.source_adapter_high
            && m.adapter_low == p.source_adapter_low && m.id == p.source_id
}

/// The size and position of a path's source: the last source record for it.
pub open spec fn path_source_mode(p: CcdPath, ms: Seq<SourceModeInfo>) -> Option<SourceModeInfo> {
    match last_where(ms, source_of(p)) {
        Some(i) => Some(ms[i]),
        None => None,
    }
}

/// A mode with the identity fields of a CCD monitor.
pub open spec fn relabeled(m: ModeView, id: Seq<char>, friendly: Seq<char>, path: Seq<char>, active: bool) -> ModeView {
    ModeView { id: id, device_string: friendly, hardware_id: path, active: active, ..m }
}

/// A queried mode with the source's size and position, when the source
/// record has a non-zero size.
pub open spec fn sized(m: ModeView, src: Option<SourceModeInfo>) -> ModeView {
    match src {
        Some(s) => if s.width > 0 && s.height > 0 {
            ModeView { width: s.width, height: s.height, x: s.x, y: s.y, ..m }
        } else {
            m
        },
        None => m,
    }
}

/// The mode read from the platform for a path, when neither its GDI device
/// knows one nor it lacks a device name.
pub open spec fn path_request(p: CcdPath, gs: Seq<GdiDisplayView>) -> Option<(Seq<char>, bool)> {
    let gdi_mode = match path_gdi(p, gs) {
        Some(d) => d.mode,
        None => None,
    };
    if !path_skipped(p) && gdi_mode is None && path_device(p, gs).len() > 0 {
        Some((path_device(p, gs), path_active(p)))
    } else {
        None
    }
}

/// The mode of a monitor: its GDI device's mode relabeled, else (for a
/// known device name) the mode read for it, sized by its source record and
/// relabeled.
pub open spec fn made_mode(
    id: Seq<char>,
    device: Seq<char>,
    friendly: Seq<char>,
    path: Seq<char>,
    active: bool,
    gdi: Option<GdiDisplayView>,
    src: Option<SourceModeInfo>,
    queried: Option<ModeView>,
) -> Option<ModeView> {
    match gdi {
        Some(d) if d.mode is Some => Some(relabeled(d.mode->0, id, friendly, path, active)),
        _ => if device.len() == 0 {
            None
        } else {
            match queried {
                Some(q) => Some(relabeled(sized(q, src), id, friendly, path, active)),
                None => None,
            }
        },
    }
}

/// The mode of a path's monitor.
pub open spec fn path_mode(
    p: CcdPath,
    gs: Seq<GdiDisplayView>,
    ms: Seq<SourceModeInfo>,
    queried: Option<ModeView>,
) -> Option<ModeView> {
    made_mode(
        path_key(p),
        path_device(p, gs),
        target_friendly(p),
        target_path(p),
        path_active(p),
        path_gdi(p, gs),
        path_source_mode(p, ms),
        queried,
    )
}

/// Whether a path's monitor is a virtual display.
pub open spec fn path_virtual(p: CcdPath, gs: Seq<GdiDisplayView>) -> bool {
    target_technology(p) == OUTPUT_TECHNOLOGY_INDIRECT_VIRTUAL || virtual_marked(
        target_friendly(p),
        target_path(p),
        path_device(p, gs),
    )
}

/// The monitor a path stands for (none for a skipped path).
pub open spec fn path_monitor(
    p: CcdPath,
    rank: usize,
    gs: Seq<GdiDisplayView>,
    ms: Seq<SourceModeInfo>,
    queried: Option<ModeView>,
) -> Option<RuntimeMonitorView> {
    if path_skipped(p) {
        None
    } else {
        let active = path_active(p);
        let gdi = path_gdi(p, gs);
        let mode = path_mode(p, gs, ms, queried);
        let is_virtual = path_virtual(p, gs);
        let label = display_label(target_friendly(p), target_path(p), gdi, rank);
        Some(
            RuntimeMonitorView {
                info: MonitorInfoView {
                    id: path_key(p),
                    name: titled(is_virtual, label),
                    monitor_type: kind_label(is_virtual),
                    active: active,
                    primary: active && match gdi {
                        Some(d) => d.primary,
                        None => false,
                    },
                    bounds: bounds_label(mode, active),
                    hardware_id: target_path(p),
                },
                mode: mode,
                ccd_rank: rank,
            },
        )
    }
}


fn relabel(
    m: DisplayModeSnapshot,
    id: &str,
    friendly: &str,
    path: &str,
    active: bool,
) -> (r: DisplayModeSnapshot)
    ensures
        r@ == relabeled(m@, id@, friendly@, path@, active),
{
    let mut m = m;
    m.id = id.to_string();
    m.device_string = friendly.to_string();
    m.hardware_id = path.to_string();
    m.active = active;
    m
}

/// The mode of a monitor, from its GDI device or from the mode read for it.
pub fn make_mode_snapshot(
    id: &str,
    device_name: &str,
    friendly: &str,
    monitor_path: &str,
    active: bool,
    gdi: Option<&GdiDisplay>,
    source_mode: Option<&SourceModeInfo>,
    queried: &Option<DisplayModeSnapshot>,
) -> (r: Option<DisplayModeSnapshot>)
    ensures
        opt_mode_view(r) == made_mode(
            id@,
            device_name@,
            friendly@,
            monitor_path@,
            active,
            opt_gdi_view(gdi),
            match source_mode {
                Some(m) => Some(*m),
                None => None,
            },
            opt_mode_view(*queried),
        ),
{
    if let Some(display) = gdi {
        if let Some(gdi_mode) = &display.mode {
            return Some(relabel(gdi_mode.duplicate(), id, friendly, monitor_path, active));
        }
    }
    if device_name.is_empty() {
        return None;
    }
    match queried {
        Some(q) => {
            let mut mode = q.duplicate();
            if let Some(src) = source_mode {
                if src.width > 0 && src.height > 0 {
                    mode.width = src.width;
                    mode.height = src.height;
                    mode.x = src.x;
                    mode.y = src.y;
                }
            }
            Some(relabel(mode, id, friendly, monitor_path, active))
        },
        None => None,
    }
}

/// Whether a path drives a display.
pub fn is_path_active(p: &CcdPath) -> (r: bool)
    ensures
        r == path_active(*p),
{
    p.flags & DISPLAYCONFIG_PATH_ACTIVE != 0
}

fn path_texts(p: &CcdPath) -> (r: (String, String, i32))
    ensures
        r.0@ == target_path(*p),
        r.1@ == target_friendly(*p),
        r.2 == target_technology(*p),
{
    match &p.target {
        Some(t) => (
            wide_to_string(t.monitor_device_path.as_slice()),
            wide_to_string(t.monitor_friendly_device_name.as_slice()),
            t.output_technology,
        ),
        None => (String::new(), String::new(), 0),
    }
}

fn source_name(p: &CcdPath) -> (r: String)
    ensures
        r@ == source_text(*p),
{
    if !is_path_active(p) {
        return String::new();
    }
    match &p.source_gdi_name {
        Some(w) => wide_to_string(w.as_slice()),
        None => String::new(),
    }
}

fn device_for_path(p: &CcdPath, path: &String, friendly: &String, gdi: &[GdiDisplay]) -> (r: String)
    requires
        path@ == target_path(*p),
        friendly@ == target_friendly(*p),
    ensures
        r@ == path_device(*p, gdi_views(gdi@)),
{
    let src = source_name(p);
    if !src.as_str().is_empty() {
        return src;
    }
    match find_gdi_for_target(path.as_str(), friendly.as_str(), gdi) {
        Some(d) => d.device_name,
        None => String::new(),
    }
}

fn key_for_path(p: &CcdPath, path: &String) -> (r: String)
    requires
        path@ == target_path(*p),
    ensures
        r@ == path_key(*p),
{
    if !path.as_str().is_empty() {
        return normalize_id(path.as_str());
    }
    let mut v = chars_of("ccd:");
    push_signed(&mut v, p.target_adapter_high as i64);
    let colon = chars_of(":");
    extend_chars(&mut v, &colon);
    push_decimal(&mut v, p.target_adapter_low as u64);
    extend_chars(&mut v, &colon);
    push_decimal(&mut v, p.target_id as u64);
    string_of(&v)
}

fn gdi_named_index(gdi: &[GdiDisplay], name: &String) -> (r: Option<usize>)
    ensures
        match r {
            Some(i) => i < gdi@.len() && last_where(gdi_views(gdi@), named(name@)) == Some(i as int),
            None => last_where(gdi_views(gdi@), named(name@)) is None,
        },
{
    let ghost gs = gdi_views(gdi@);
    let ghost pr = named(name@);
    let nv = chars_of(name.as_str());
    let target = upper_chars(&nv);
    let n = gdi.len();
    let mut found: Option<usize> = None;
    for i in 0..n
        invariant
            n == gdi@.len() == gs.len(),
            gs == gdi_views(gdi@),
            pr == named(name@),
            target@ == upper_of(name@),
            match found {
                Some(k) => k < i && pr(gs[k as int]) && forall|j: int| k < j < i ==> !pr(gs[j]),
                None => forall|j: int| 0 <= j < i ==> !pr(gs[j]),
            },
    {
        let dv = chars_of(gdi[i].device_name.as_str());
        let du = upper_chars(&dv);
        assert(gs[i as int] == gdi@[i as int]@);
        if chars_eq(&du, &target) {
            found = Some(i);
        }
    }
    proof {
        match found {
            Some(k) => lemma_last_where(gs, pr, k as int),
            None => lemma_last_where_none(gs, pr),
        }
    }
    found
}

fn source_mode_index(p: &CcdPath, modes: &Vec<SourceModeInfo>) -> (r: Option<usize>)
    ensures
        match r {
            Some(i) => i < modes@.len() && last_where(modes@, source_of(*p)) == Some(i as int),
            None => last_where(modes@, source_of(*p)) is None,
        },
{
    let ghost pr = source_of(*p);
    let n = modes.len();
    let mut found: Option<usize> = None;
    for i in 0..n
        invariant
            n == modes@.len(),
            pr == source_of(*p),
            match found {
                Some(k) => k < i && pr(modes@[k as int]) && forall|j: int| k < j < i ==> !pr(modes@[j]),
                None => forall|j: int| 0 <= j < i ==> !pr(modes@[j]),
            },
    {
        let m = &modes[i];
        if m.info_type == MODE_INFO_TYPE_SOURCE && m.adapter_high == p.source_adapter_high
            && m.adapter_low == p.source_adapter_low && m.id == p.source_id {
            found = Some(i);
        }
    }
    proof {
        match found {
            Some(k) => lemma_last_where(modes@, pr, k as int),
            None => lemma_last_where_none(modes@, pr),
        }
    }
    found
}

/// The display mode that must be read from the platform for a path, if any.
pub fn ccd_mode_request(p: &CcdPath, gdi: &[GdiDisplay]) -> (r: Option<ModeRequest>)
    ensures
        match r {
            Some(q) => path_request(*p, gdi_views(gdi@)) == Some((q.device_name@, q.active)),
            None => path_request(*p, gdi_views(gdi@)) is None,
        },
{
    let (path, friendly, _tech) = path_texts(p);
    let active = is_path_active(p);
    if !active && path.as_str().is_empty() {
        return None;
    }
    let device = device_for_path(p, &path, &friendly, gdi);
    if device.as_str().is_empty() {
        return None;
    }
    let idx = gdi_named_index(gdi, &device);
    let gdi_has_mode = match idx {
        Some(i) => gdi[i].mode.is_some(),
        None => false,
    };
    proof {
        if let Some(i) = idx {
            assert(gdi_views(gdi@)[i as int] == gdi@[i as int]@);
        }
    }
    if gdi_has_mode {
        return None;
    }
    Some(ModeRequest { device_name: device, active })
}

/// The monitor a CCD path stands for; `queried` is the mode read for the
/// path's `ccd_mode_request`, if it made one.
pub fn ccd_monitor(
    p: &CcdPath,
    rank: usize,
    gdi: &[GdiDisplay],
    modes: &Vec<SourceModeInfo>,
    queried: &Option<DisplayModeSnapshot>,
) -> (r: Option<RuntimeMonitor>)
    requires
        rank < usize::MAX,
    ensures
        opt_runtime_view(r) == path_monitor(*p, rank, gdi_views(gdi@), modes@, opt_mode_view(*queried)),
{
    let ghost gs = gdi_views(gdi@);
    let (path, friendly, tech) = path_texts(p);
    let active = is_path_active(p);
    if !active && path.as_str().is_empty() {
        return None;
    }
    let device = device_for_path(p, &path, &friendly, gdi);
    let key = key_for_path(p, &path);
    let idx = if device.as_str().is_empty() {
        None
    } else {
        gdi_named_index(gdi, &device)
    };
    let g: Option<&GdiDisplay> = match idx {
        Some(i) => Some(&gdi[i]),
        None => None,
    };
    proof {
        if let Some(i) = idx {
            assert(gs[i as int] == gdi@[i as int]@);
        }
        assert(opt_gdi_view(g) == path_gdi(*p, gs));
    }
    let si = source_mode_index(p, modes);
    let src: Option<&SourceModeInfo> = match si {
        Some(i) => Some(&modes[i]),
        None => None,
    };
    let mode = make_mode_snapshot(
        key.as_str(),
        device.as_str(),
        friendly.as_str(),
        path.as_str(),
        active,
        g,
        src,
        queried,
    );
    let primary = active && match g {
        Some(d) => d.primary,
        None => false,
    };
    let is_virtual = tech == OUTPUT_TECHNOLOGY_INDIRECT_VIRTUAL || is_virtual_display(
        friendly.as_str(),
        path.as_str(),
        device.as_str(),
    );
    let label = monitor_display_name(friendly.as_str(), path.as_str(), g, rank);
    let bounds = bounds_text(&mode, active);
    Some(
        RuntimeMonitor {
            info: MonitorInfo {
                id: key,
                name: title_text(is_virtual, &label),
                monitor_type: kind_text(is_virtual),
                active,
                primary,
                bounds,
                hardware_id: path,
            },
            mode,
            ccd_rank: rank,
        },
    )
}

/// The view of an optional runtime monitor.
pub open spec fn opt_runtime_view(m: Option<RuntimeMonitor>) -> Option<RuntimeMonitorView> {
    match m {
        Some(x) => Some(x@),
        None => None,
    }
}


// ---------------------------------------------------------------------
// Merging the paths of one monitor, and ordering the monitors
// ---------------------------------------------------------------------

/// A monitor with identifier `id`.
pub open spec fn with_id(id: Seq<char>) -> spec_fn(RuntimeMonitorView) -> bool {
    |m: RuntimeMonitorView| m.info.id == id
}

/// Adds a candidate to the list of monitors found so far: a monitor with a
/// new identifier is appended; one with a known identifier takes the place
/// of the one there when it `replaces` it, else it is dropped.
pub open spec fn merge_step(list: Seq<RuntimeMonitorView>, c: RuntimeMonitorView) -> Seq<RuntimeMonitorView> {
    match first_where(list, with_id(c.info.id)) {
        Some(i) => if replaces(list[i], c) {
            list.update(i, c)
        } else {
            list
        },
        None => list.push(c),
    }
}

/// The monitors that the candidates merge into, in order of first appearance.
pub open spec fn merged(cands: Seq<Option<RuntimeMonitorView>>) -> Seq<RuntimeMonitorView>
    decreases cands.len(),
{
    if cands.len() == 0 {
        Seq::empty()
    } else {
        let prev = merged(cands.drop_last());
        match cands.last() {
            Some(c) => merge_step(prev, c),
            None => prev,
        }
    }
}

/// Adds one candidate monitor to the merged list.
pub fn merge_monitor(list: &mut Vec<RuntimeMonitor>, candidate: RuntimeMonitor)
    ensures
        runtime_views(final(list)@) == merge_step(runtime_views(old(list)@), candidate@),
{
    let ghost ls = runtime_views(list@);
    let ghost pr = with_id(candidate@.info.id);
    let cid = chars_of(candidate.info.id.as_str());
    let n = list.len();
    let mut i: usize = 0;
    while i < n
        invariant
            n == list@.len() == ls.len(),
            ls == runtime_views(list@),
            pr == with_id(candidate@.info.id),
            cid@ == candidate@.info.id,
            i <= n,
            forall|j: int| 0 <= j < i ==> !pr(ls[j]),
            list@ == old(list)@,
        decreases n - i,
    {
        let lid = chars_of(list[i].info.id.as_str());
        assert(ls[i as int] == list@[i as int]@);
        if chars_eq(&lid, &cid) {
            proof {
                lemma_first_where(ls, pr, i as int);
            }
            if should_replace_monitor(&list[i], &candidate) {
                list.set(i, candidate);
                assert(runtime_views(list@) =~= ls.update(i as int, candidate@));
            }
            return;
        }
        i = i + 1;
    }
    proof {
        lemma_first_where_none(ls, pr);
    }
    list.push(candidate);
    assert(runtime_views(list@) =~= ls.push(candidate@));
}

/// The candidate monitors of all paths, the path's rank being its index.
pub open spec fn path_candidates(
    paths: Seq<CcdPath>,
    gs: Seq<GdiDisplayView>,
    ms: Seq<SourceModeInfo>,
    queried: Seq<Option<DisplayModeSnapshot>>,
) -> Seq<Option<RuntimeMonitorView>> {
    Seq::new(
        paths.len(),
        |i: int| path_monitor(paths[i], i as usize, gs, ms, opt_mode_view(queried[i])),
    )
}

/// The display modes to read from the platform, one entry per path.
pub fn ccd_mode_requests(paths: &Vec<CcdPath>, gdi: &[GdiDisplay]) -> (r: Vec<Option<ModeRequest>>)
    ensures
        r@.len() == paths@.len(),
        forall|i: int|
            0 <= i < paths@.len() ==> match #[trigger] r@[i] {
                Some(q) => path_request(paths@[i], gdi_views(gdi@)) == Some((q.device_name@, q.active)),
                None => path_request(paths@[i], gdi_views(gdi@)) is None,
            },
{
    let mut r: Vec<Option<ModeRequest>> = Vec::new();
    let n = paths.len();
    for i in 0..n
        invariant
            n == paths@.len(),
            r@.len() == i,
            forall|k: int|
                0 <= k < i ==> match #[trigger] r@[k] {
                    Some(q) => path_request(paths@[k], gdi_views(gdi@)) == Some((q.device_name@, q.active)),
                    None => path_request(paths@[k], gdi_views(gdi@)) is None,
                },
    {
        r.push(ccd_mode_request(&paths[i], gdi));
    }
    r
}

/// The monitors of the CCD paths, one per target: `queried[i]` is the mode
/// read for path `i`'s request, if it made one.
pub fn enumerate_ccd_monitors(
    paths: &Vec<CcdPath>,
    gdi_displays: &[GdiDisplay],
    modes: &Vec<SourceModeInfo>,
    queried: &Vec<Option<DisplayModeSnapshot>>,
) -> (r: Vec<RuntimeMonitor>)
    requires
        queried@.len() == paths@.len(),
        paths@.len() < usize::MAX,
    ensures
        runtime_views(r@) == merged(
            path_candidates(paths@, gdi_views(gdi_displays@), modes@, queried@),
        ),
{
    let ghost cands = path_candidates(paths@, gdi_views(gdi_displays@), modes@, queried@);
    let mut out: Vec<RuntimeMonitor> = Vec::new();
    let n = paths.len();
    for rank in 0..n
        invariant
            n == paths@.len() == queried@.len() < usize::MAX,
            cands == path_candidates(paths@, gdi_views(gdi_displays@), modes@, queried@),
            runtime_views(out@) == merged(cands.take(rank as int)),
    {
        let c = ccd_monitor(&paths[rank], rank, gdi_displays, modes, &queried[rank]);
        proof {
            assert(cands.take(rank + 1).drop_last() =~= cands.take(rank as int));
            assert(cands.take(rank + 1).last() == cands[rank as int]);
        }
        match c {
            Some(m) => merge_monitor(&mut out, m),
            None => {},
        }
    }
    assert(cands.take(n as int) =~= cands);
    out
}

/// `a` is listed before `b`: active ones first, then primary ones, then by
/// path rank, then by name.
pub open spec fn listed_before(a: RuntimeMonitorView, b: RuntimeMonitorView) -> bool {
    if a.info.active != b.info.active {
        a.info.active
    } else if a.info.primary != b.info.primary {
        a.info.primary
    } else if a.ccd_rank != b.ccd_rank {
        a.ccd_rank < b.ccd_rank
    } else {
        text_lt(a.info.name, b.info.name)
    }
}

/// The monitors are in listing order.
pub open spec fn in_listing_order(s: Seq<RuntimeMonitorView>) -> bool {
    forall|i: int, j: int| 0 <= i < j < s.len() ==> !listed_before(s[j], s[i])
}

/// Text order is irreflexive and asymmetric.
pub proof fn lemma_text_lt_asym(a: Seq<char>, b: Seq<char>)
    ensures
        !(text_lt(a, b) && text_lt(b, a)),
        !text_lt(a, a),
    decreases a.len(),
{
    if a.len() > 0 && b.len() > 0 && a[0] == b[0] {
        lemma_text_lt_asym(a.drop_first(), b.drop_first());
    }
    if a.len() > 0 {
        lemma_text_lt_asym(a.drop_first(), a.drop_first());
    }
}

/// Text order is transitive.
pub proof fn lemma_text_lt_trans(a: Seq<char>, b: Seq<char>, c: Seq<char>)
    requires
        text_lt(a, b),
        text_lt(b, c),
    ensures
        text_lt(a, c),
    decreases a.len(),
{
    if a.len() > 0 && b.len() > 0 && c.len() > 0 && a[0] == b[0] && b[0] == c[0] {
        lemma_text_lt_trans(a.drop_first(), b.drop_first(), c.drop_first());
    }
}

proof fn lemma_listed_before_order(a: RuntimeMonitorView, b: RuntimeMonitorView, c: RuntimeMonitorView)
    ensures
        !(listed_before(a, b) && listed_before(b, a)),
        listed_before(a, b) && listed_before(b, c) ==> listed_before(a, c),
{
    lemma_text_lt_asym(a.info.name, b.info.name);
    if listed_before(a, b) && listed_before(b, c) && a.info.active == b.info.active
        && b.info.active == c.info.active && a.info.primary == b.info.primary && b.info.primary
        == c.info.primary && a.ccd_rank == b.ccd_rank && b.ccd_rank == c.ccd_rank {
        lemma_text_lt_trans(a.info.name, b.info.name, c.info.name);
    }
}

fn monitor_listed_before(a: &RuntimeMonitor, b: &RuntimeMonitor) -> (r: bool)
    ensures
        r == listed_before(a@, b@),
{
    if a.info.active != b.info.active {
        a.info.active
    } else if a.info.primary != b.info.primary {
        a.info.primary
    } else if a.ccd_rank != b.ccd_rank {
        a.ccd_rank < b.ccd_rank
    } else {
        let an = chars_of(a.info.name.as_str());
        let bn = chars_of(b.info.name.as_str());
        text_less(&an, &bn)
    }
}

proof fn lemma_insert_keeps_order(s: Seq<RuntimeMonitorView>, p: int, m: RuntimeMonitorView)
    requires
        in_listing_order(s),
        0 <= p <= s.len(),
        forall|k: int| 0 <= k < p ==> !listed_before(m, s[k]),
        p < s.len() ==> listed_before(m, s[p]),
    ensures
        in_listing_order(s.insert(p, m)),
{
    let t = s.insert(p, m);
    assert forall|i: int, j: int| 0 <= i < j < t.len() implies !listed_before(t[j], t[i]) by {
        if j < p {
            assert(t[i] == s[i] && t[j] == s[j]);
        } else if j == p {
            assert(t[i] == s[i]);
        } else if i > p {
            assert(t[i] == s[i - 1] && t[j] == s[j - 1]);
        } else if i == p {
            assert(t[j] == s[j - 1]);
            lemma_listed_before_order(s[j - 1], m, s[p]);
            if j - 1 > p {
                assert(!listed_before(s[j - 1], s[p]));
            }
        } else {
            assert(t[i] == s[i] && t[j] == s[j - 1]);
        }
    }
}

/// Text order is a strict weak order: whatever lies strictly between two
/// texts in it, a third text is after the first or before the second.
pub proof fn lemma_text_lt_between(a: Seq<char>, b: Seq<char>, c: Seq<char>)
    requires
        text_lt(a, c),
    ensures
        text_lt(a, b) || text_lt(b, c),
    decreases a.len(),
{
    if a.len() > 0 && b.len() > 0 && c.len() > 0 {
        vstd::utf8::char_u32_cast(a[0], a[0] as u32);
        vstd::utf8::char_u32_cast(b[0], b[0] as u32);
        vstd::utf8::char_u32_cast(c[0], c[0] as u32);
        if a[0] == b[0] && b[0] == c[0] {
            lemma_text_lt_between(a.drop_first(), b.drop_first(), c.drop_first());
        }
    }
}

proof fn lemma_listed_before_between(a: RuntimeMonitorView, b: RuntimeMonitorView, c: RuntimeMonitorView)
    requires
        listed_before(a, c),
    ensures
        listed_before(a, b) || listed_before(b, c),
{
    if a.info.active == b.info.active && b.info.active == c.info.active && a.info.primary == b.info.primary
        && b.info.primary == c.info.primary && a.ccd_rank == b.ccd_rank && b.ccd_rank == c.ccd_rank {
        lemma_text_lt_between(a.info.name, b.info.name, c.info.name);
    }
}

/// The monitors that the listing order does not tell apart from `x`.
pub open spec fn tied_with(x: RuntimeMonitorView) -> spec_fn(RuntimeMonitorView) -> bool {
    |y: RuntimeMonitorView| !listed_before(x, y) && !listed_before(y, x)
}

/// `out` keeps the monitors of `input` that the listing order does not tell
/// apart in the order they have in `input`, and no others.
pub open spec fn keeps_ties(out: Seq<RuntimeMonitorView>, input: Seq<RuntimeMonitorView>) -> bool {
    forall|x: RuntimeMonitorView| #[trigger] out.filter(tied_with(x)) == input.filter(tied_with(x))
}

proof fn lemma_filter_none<A>(s: Seq<A>, p: spec_fn(A) -> bool)
    requires
        forall|i: int| 0 <= i < s.len() ==> !p(#[trigger] s[i]),
    ensures
        s.filter(p) == Seq::<A>::empty(),
    decreases s.len(),
{
    if s.len() > 0 {
        lemma_filter_none(s.drop_last(), p);
        s.drop_last().lemma_filter_push(s.last(), p);
        assert(s.drop_last().push(s.last()) =~= s);
    } else {
        assert(s =~= Seq::<A>::empty());
        Seq::<A>::empty().filter_lemma(p);
    }
}

proof fn lemma_insert_keeps_ties(
    s: Seq<RuntimeMonitorView>,
    input: Seq<RuntimeMonitorView>,
    p: int,
    m: RuntimeMonitorView,
)
    requires
        in_listing_order(s),
        keeps_ties(s, input),
        0 <= p <= s.len(),
        p < s.len() ==> listed_before(m, s[p]),
    ensures
        keeps_ties(s.insert(p, m), input.push(m)),
{
    broadcast use vstd::seq::Seq::filter_distributes_over_add;

    let t = s.insert(p, m);
    let head = s.take(p);
    let tail = s.skip(p);
    assert(t =~= head + seq![m] + tail);
    assert(s =~= head + tail);
    assert forall|x: RuntimeMonitorView| #[trigger] t.filter(tied_with(x)) == input.push(m).filter(tied_with(x)) by {
        let pr = tied_with(x);
        input.lemma_filter_push(m, pr);
        Seq::<RuntimeMonitorView>::empty().lemma_filter_push(m, pr);
        assert(seq![m] =~= Seq::<RuntimeMonitorView>::empty().push(m));
        lemma_filter_none(Seq::<RuntimeMonitorView>::empty(), pr);
        assert(s.filter(pr) == input.filter(pr));
        if pr(m) {
            assert forall|i: int| 0 <= i < tail.len() implies !pr(#[trigger] tail[i]) by {
                let k = p + i;
                assert(tail[i] == s[k]);
                if k > p {
                    lemma_listed_before_between(m, s[k], s[p]);
                    assert(!listed_before(s[k], s[p]));
                }
                lemma_listed_before_between(m, x, s[k]);
            }
            lemma_filter_none(tail, pr);
            assert(t.filter(pr) =~= head.filter(pr) + seq![m]);
            assert(s.filter(pr) =~= head.filter(pr));
        } else {
            assert(t.filter(pr) =~= head.filter(pr) + tail.filter(pr));
        }
    }
}

/// Puts monitors in listing order (a stable insertion sort): the result
/// holds the same monitors, and those that the order does not tell apart
/// keep their relative order.
pub fn sort_monitors(monitors: Vec<RuntimeMonitor>) -> (r: Vec<RuntimeMonitor>)
    ensures
        in_listing_order(runtime_views(r@)),
        r@.to_multiset() == monitors@.to_multiset(),
        keeps_ties(runtime_views(r@), runtime_views(monitors@)),
{
    broadcast use vstd::seq_lib::to_multiset_insert, vstd::seq::Seq::to_multiset_ensures;

    let mut out: Vec<RuntimeMonitor> = Vec::new();
    let mut rest = monitors;
    let ghost all = rest@;
    let ghost mut taken: Seq<RuntimeMonitor> = Seq::empty();
    proof {
        assert(runtime_views(out@) =~= runtime_views(taken));
    }
    while rest.len() > 0
        invariant
            in_listing_order(runtime_views(out@)),
            all == taken + rest@,
            out@.to_multiset() == taken.to_multiset(),
            keeps_ties(runtime_views(out@), runtime_views(taken)),
        decreases rest.len(),
    {
        let ghost before = rest@;
        let m = rest.remove(0);
        assert(before.remove(0) == rest@);
        proof {
            assert(all == taken.push(m) + rest@);
        }
        let ghost ov = runtime_views(out@);
        let n = out.len();
        let mut p: usize = 0;
        while p < n
            invariant
                n == out@.len() == ov.len(),
                ov == runtime_views(out@),
                p <= n,
                forall|k: int| 0 <= k < p ==> !listed_before(m@, ov[k]),
            ensures
                p <= n,
                forall|k: int| 0 <= k < p ==> !listed_before(m@, ov[k]),
                p < n ==> listed_before(m@, ov[p as int]),
            decreases n - p,
        {
            assert(ov[p as int] == out@[p as int]@);
            if monitor_listed_before(&m, &out[p]) {
                break;
            }
            p = p + 1;
        }
        proof {
            lemma_insert_keeps_order(ov, p as int, m@);
            lemma_insert_keeps_ties(ov, runtime_views(taken), p as int, m@);
            assert(runtime_views(taken.push(m)) =~= runtime_views(taken).push(m@));
        }
        let ghost old_out = out@;
        out.insert(p, m);
        assert(runtime_views(out@) =~= ov.insert(p as int, m@));
        assert(out@ == old_out.insert(p as int, m));
        proof {
            vstd::seq_lib::to_multiset_insert(old_out, p as int, m);
            taken.to_multiset_ensures();
            assert(taken.push(m).to_multiset() =~= taken.to_multiset().insert(m));
            taken = taken.push(m);
        }
    }
    assert(all == taken);
    out
}


/// The monitors that GDI devices stand for, the rank being the device index.
pub open spec fn gdi_monitors(gs: Seq<GdiDisplayView>) -> Seq<RuntimeMonitorView> {
    Seq::new(gs.len(), |i: int| gdi_monitor(i as usize, gs[i]))
}

/// The monitors to work with: those of the CCD paths, or, when there are
/// none, those of the GDI devices; in listing order, those that the order
/// does not tell apart in the order they were found.
pub fn enumerate_runtime_monitors(
    gdi_displays: Vec<GdiDisplay>,
    ccd: Result<Vec<RuntimeMonitor>, String>,
) -> (r: Result<Vec<RuntimeMonitor>, String>)
    ensures
        match (ccd, r) {
            (Err(e), Err(f)) => e@ == f@,
            (Ok(c), Ok(m)) => in_listing_order(runtime_views(m@)) && if c@.len() > 0 {
                m@.to_multiset() == c@.to_multiset() && keeps_ties(runtime_views(m@), runtime_views(c@))
            } else {
                keeps_ties(runtime_views(m@), gdi_monitors(gdi_views(gdi_displays@))) && exists|base: Seq<RuntimeMonitor>|
                    runtime_views(base) == gdi_monitors(gdi_views(gdi_displays@))
                        && m@.to_multiset() == #[trigger] base.to_multiset()
            },
            _ => false,
        },
{
    let monitors = match ccd {
        Err(e) => return Err(e),
        Ok(c) => c,
    };
    if monitors.len() > 0 {
        return Ok(sort_monitors(monitors));
    }
    let ghost gs = gdi_views(gdi_displays@);
    let mut base: Vec<RuntimeMonitor> = Vec::new();
    let mut rest = gdi_displays;
    let n = rest.len();
    let mut index: usize = 0;
    while index < n
        invariant
            n == gs.len(),
            index <= n,
            rest@.len() == n - index,
            forall|k: int| 0 <= k < rest@.len() ==> #[trigger] rest@[k]@ == gs[k + index],
            runtime_views(base@) == gdi_monitors(gs).take(index as int),
            base@.len() == index,
        decreases n - index,
    {
        let ghost before = rest@;
        let display = rest.remove(0);
        assert(display@ == gs[index as int]);
        assert forall|k: int| 0 <= k < rest@.len() implies #[trigger] rest@[k]@ == gs[k + index + 1] by {
            assert(rest@[k] == before[k + 1]);
        }
        let ghost old_base = base@;
        let mon = monitor_from_gdi(index, display);
        let ghost mv = mon@;
        assert(mv == gdi_monitors(gs)[index as int]);
        base.push(mon);
        assert(base@ == old_base.push(base@[index as int]));
        assert(base@[index as int]@ == mv);
        assert(runtime_views(old_base).len() == index);
        assert forall|k: int| 0 <= k < index + 1 implies #[trigger] runtime_views(base@)[k] == gdi_monitors(gs)[k] by {
            if k < index {
                assert(base@[k] == old_base[k]);
                assert(runtime_views(old_base)[k] == old_base[k]@);
                assert(gdi_monitors(gs).take(index as int)[k] == gdi_monitors(gs)[k]);
            }
        }
        assert(runtime_views(base@) =~= gdi_monitors(gs).take(index + 1));
        index = index + 1;
    }
    assert(gdi_monitors(gs).take(n as int) =~= gdi_monitors(gs));
    let sorted = sort_monitors(base);
    Ok(sorted)
}

/// The monitors as listed: the information part of each runtime monitor.
pub fn enumerate_monitors(runtime: Result<Vec<RuntimeMonitor>, String>) -> (r: Result<Vec<MonitorInfo>, String>)
    ensures
        match (runtime, r) {
            (Err(e), Err(f)) => e@ == f@,
            (Ok(ms), Ok(infos)) => info_views(infos@) == runtime_views(ms@).map_values(
                |m: RuntimeMonitorView| m.info,
            ),
            _ => false,
        },
{
    let monitors = match runtime {
        Err(e) => return Err(e),
        Ok(m) => m,
    };
    let ghost rv = runtime_views(monitors@);
    let mut infos: Vec<MonitorInfo> = Vec::new();
    let n = monitors.len();
    for i in 0..n
        invariant
            n == monitors@.len() == rv.len(),
            rv == runtime_views(monitors@),
            infos@.len() == i,
            forall|k: int| 0 <= k < i ==> #[trigger] infos@[k]@ == rv[k].info,
    {
        assert(rv[i as int] == monitors@[i as int]@);
        infos.push(monitors[i].info.duplicate());
    }
    assert(info_views(infos@) =~= rv.map_values(|m: RuntimeMonitorView| m.info));
    Ok(infos)
}

// ---------------------------------------------------------------------
// Capturing, switching, restoring
// ---------------------------------------------------------------------

/// The modes of the GDI devices that have one, in order.
pub open spec fn modes_of(gs: Seq<GdiDisplayView>) -> Seq<ModeView>
    decreases gs.len(),
{
    if gs.len() == 0 {
        Seq::empty()
    } else {
        match gs.last().mode {
            Some(m) => modes_of(gs.drop_last()).push(m),
            None => modes_of(gs.drop_last()),
        }
    }
}

/// Some mode is of an active display.
pub open spec fn any_active(ms: Seq<ModeView>) -> bool {
    exists|i: int| 0 <= i < ms.len() && (#[trigger] ms[i]).active
}

/// Records the current layout: the modes of all GDI devices that have one;
/// refused when none of them is active.
pub fn capture_layout(gdi_displays: Vec<GdiDisplay>) -> (r: Result<DisplayLayoutSnapshot, String>)
    ensures
        match r {
            Ok(snapshot) => mode_views(snapshot.displays@) == modes_of(gdi_views(gdi_displays@))
                && any_active(modes_of(gdi_views(gdi_displays@))),
            Err(e) => !any_active(modes_of(gdi_views(gdi_displays@))) && e@
                == "no active display can be recorded"@,
        },
{
    let ghost gs = gdi_views(gdi_displays@);
    let mut displays: Vec<DisplayModeSnapshot> = Vec::new();
    let mut any = false;
    let mut rest = gdi_displays;
    let n = rest.len();
    let mut index: usize = 0;
    while index < n
        invariant
            n == gs.len(),
            index <= n,
            rest@.len() == n - index,
            forall|k: int| 0 <= k < rest@.len() ==> #[trigger] rest@[k]@ == gs[k + index],
            mode_views(displays@) == modes_of(gs.take(index as int)),
            any == any_active(mode_views(displays@)),
        decreases n - index,
    {
        let ghost before = rest@;
        let display = rest.remove(0);
        assert(display@ == gs[index as int]);
        assert forall|k: int| 0 <= k < rest@.len() implies #[trigger] rest@[k]@ == gs[k + index + 1] by {
            assert(rest@[k] == before[k + 1]);
        }
        assert(gs.take(index + 1).drop_last() =~= gs.take(index as int));
        let ghost old_views = mode_views(displays@);
        match display.mode {
            Some(m) => {
                let act = m.active;
                displays.push(m);
                assert(mode_views(displays@) =~= old_views.push(displays@[displays@.len() - 1]@));
                proof {
                    let nv = mode_views(displays@);
                    if any_active(old_views) {
                        let w = choose|w: int| 0 <= w < old_views.len() && (#[trigger] old_views[w]).active;
                        assert(nv[w] == old_views[w]);
                    }
                    if act {
                        assert(nv[nv.len() - 1].active);
                    }
                    if any_active(nv) {
                        let w = choose|w: int| 0 <= w < nv.len() && (#[trigger] nv[w]).active;
                        if w < old_views.len() {
                            assert(old_views[w] == nv[w]);
                        }
                    }
                }
                any = any || act;
            },
            None => {},
        }
        index = index + 1;
    }
    assert(gs.take(n as int) =~= gs);
    if any {
        Ok(DisplayLayoutSnapshot { displays })
    } else {
        Err("no active display can be recorded".to_string())
    }
}

/// A captured layout is always accepted by a restore, which then applies at
/// least one display: capturing refuses a layout without an active display.
pub proof fn law_captured_layout_restorable(gs: Seq<GdiDisplayView>, displays: Seq<ModeView>)
    requires
        displays == modes_of(gs),
        any_active(modes_of(gs)),
    ensures
        any_active(displays),
        active_modes(displays).len() > 0,
{
    let w = choose|w: int| 0 <= w < displays.len() && (#[trigger] displays[w]).active;
    let pr = mode_is_active();
    assert(displays.contains(displays[w]));
    displays.lemma_filter_contains_rev(pr, displays[w]);
    assert(displays.filter(pr).contains(displays[w]));
}

/// A display to detach: its GDI device name and a name for messages.
#[derive(Clone, Debug)]
pub struct DetachStep {
    pub device_name: String,
    pub friendly_name: String,
}

/// The mathematical content of a `DetachStep`.
pub open spec fn step_view(d: DetachStep) -> (Seq<char>, Seq<char>) {
    (d.device_name@, d.friendly_name@)
}

/// The views of a sequence of detach steps.
pub open spec fn step_views(s: Seq<DetachStep>) -> Seq<(Seq<char>, Seq<char>)> {
    s.map_values(|d: DetachStep| step_view(d))
}

/// The changes of a switch: the target's mode (made primary at the
/// origin), then the displays to detach.
#[derive(Clone, Debug)]
pub struct SwitchPlan {
    pub target: DisplayModeSnapshot,
    pub detach: Vec<DetachStep>,
}

/// The monitor named by `id`: the first with that identifier, else the
/// first with that hardware id or GDI device name.
pub open spec fn switch_target(ms: Seq<RuntimeMonitorView>, id: Seq<char>) -> Option<int> {
    match first_where(ms, with_id(id)) {
        Some(i) => Some(i),
        None => first_where(ms, known_as(id)),
    }
}

/// A monitor whose hardware id or GDI device name is `id`.
pub open spec fn known_as(id: Seq<char>) -> spec_fn(RuntimeMonitorView) -> bool {
    |m: RuntimeMonitorView|
        m.info.hardware_id == id || match m.mode {
            Some(md) => md.device_name == id,
            None => false,
        }
}

/// The target's mode as a switch sets it: active, primary, at the origin.
pub open spec fn promoted(m: ModeView) -> ModeView {
    ModeView { active: true, primary: true, x: 0, y: 0, ..m }
}

/// The displays a switch detaches: every other active monitor that has a
/// mode, each GDI device once, in list order.
pub open spec fn detach_plan(ms: Seq<RuntimeMonitorView>, target_id: Seq<char>) -> Seq<(Seq<char>, Seq<char>)>
    decreases ms.len(),
{
    if ms.len() == 0 {
        Seq::empty()
    } else {
        let prev = detach_plan(ms.drop_last(), target_id);
        let m = ms.last();
        if m.info.id != target_id && m.info.active && m.mode is Some && !prev.map_values(
            |d: (Seq<char>, Seq<char>)| d.0,
        ).contains(m.mode->0.device_name) {
            prev.push((m.mode->0.device_name, m.info.name))
        } else {
            prev
        }
    }
}

fn first_monitor_with_id(monitors: &Vec<RuntimeMonitor>, id: &Vec<char>) -> (r: Option<usize>)
    ensures
        match r {
            Some(i) => i < monitors@.len() && first_where(runtime_views(monitors@), with_id(id@)) == Some(i as int),
            None => first_where(runtime_views(monitors@), with_id(id@)) is None,
        },
{
    let ghost ms = runtime_views(monitors@);
    let ghost pr = with_id(id@);
    let n = monitors.len();
    for i in 0..n
        invariant
            n == monitors@.len() == ms.len(),
            ms == runtime_views(monitors@),
            pr == with_id(id@),
            forall|j: int| 0 <= j < i ==> !pr(ms[j]),
    {
        let mid = chars_of(monitors[i].info.id.as_str());
        assert(ms[i as int] == monitors@[i as int]@);
        if chars_eq(&mid, id) {
            proof {
                lemma_first_where(ms, pr, i as int);
            }
            return Some(i);
        }
    }
    proof {
        lemma_first_where_none(ms, pr);
    }
    None
}

fn first_monitor_known_as(monitors: &Vec<RuntimeMonitor>, id: &Vec<char>) -> (r: Option<usize>)
    ensures
        match r {
            Some(i) => i < monitors@.len() && first_where(runtime_views(monitors@), known_as(id@)) == Some(i as int),
            None => first_where(runtime_views(monitors@), known_as(id@)) is None,
        },
{
    let ghost ms = runtime_views(monitors@);
    let ghost pr = known_as(id@);
    let n = monitors.len();
    for i in 0..n
        invariant
            n == monitors@.len() == ms.len(),
            ms == runtime_views(monitors@),
            pr == known_as(id@),
            forall|j: int| 0 <= j < i ==> !pr(ms[j]),
    {
        let m = &monitors[i];
        assert(ms[i as int] == m@);
        let hw = chars_of(m.info.hardware_id.as_str());
        let by_device = match &m.mode {
            Some(md) => {
                let dn = chars_of(md.device_name.as_str());
                chars_eq(&dn, id)
            },
            None => false,
        };
        if chars_eq(&hw, id) || by_device {
            proof {
                lemma_first_where(ms, pr, i as int);
            }
            return Some(i);
        }
    }
    proof {
        lemma_first_where_none(ms, pr);
    }
    None
}

fn steps_have_device(steps: &Vec<DetachStep>, device: &Vec<char>) -> (r: bool)
    ensures
        r == step_views(steps@).map_values(|d: (Seq<char>, Seq<char>)| d.0).contains(device@),
{
    let ghost names = step_views(steps@).map_values(|d: (Seq<char>, Seq<char>)| d.0);
    let n = steps.len();
    for i in 0..n
        invariant
            n == steps@.len() == names.len(),
            names == step_views(steps@).map_values(|d: (Seq<char>, Seq<char>)| d.0),
            forall|j: int| 0 <= j < i ==> names[j] != device@,
    {
        let dn = chars_of(steps[i].device_name.as_str());
        assert(names[i as int] == steps@[i as int].device_name@);
        if chars_eq(&dn, device) {
            return true;
        }
    }
    false
}

/// Plans a switch to the display named `display_id` among `monitors`.
pub fn switch_to_display(monitors: &Vec<RuntimeMonitor>, display_id: &str) -> (r: Result<SwitchPlan, String>)
    ensures
        match switch_target(runtime_views(monitors@), display_id@) {
            None => r is Err && r->Err_0@ == "target display not found: "@ + display_id@,
            Some(t) => {
                let target = runtime_views(monitors@)[t];
                match target.mode {
                    None => r is Err && r->Err_0@ == "target display cannot be controlled: "@
                        + target.info.name,
                    Some(md) => r is Ok && r->Ok_0.target@ == promoted(md) && step_views(
                        r->Ok_0.detach@,
                    ) == detach_plan(runtime_views(monitors@), target.info.id),
                }
            },
        },
{
    let ghost ms = runtime_views(monitors@);
    let idv = chars_of(display_id);
    let found = match first_monitor_with_id(monitors, &idv) {
        Some(i) => Some(i),
        None => first_monitor_known_as(monitors, &idv),
    };
    let t = match found {
        Some(t) => t,
        None => {
            let mut msg = chars_of("target display not found: ");
            extend_chars(&mut msg, &idv);
            return Err(string_of(&msg));
        },
    };
    let target = &monitors[t];
    assert(ms[t as int] == target@);
    let mut target_mode = match &target.mode {
        Some(md) => md.duplicate(),
        None => {
            let mut msg = chars_of("target display cannot be controlled: ");
            let nm = chars_of(target.info.name.as_str());
            extend_chars(&mut msg, &nm);
            return Err(string_of(&msg));
        },
    };
    target_mode.active = true;
    target_mode.primary = true;
    target_mode.x = 0;
    target_mode.y = 0;
    let tid = chars_of(target.info.id.as_str());
    let mut detach: Vec<DetachStep> = Vec::new();
    let n = monitors.len();
    for i in 0..n
        invariant
            n == monitors@.len() == ms.len(),
            ms == runtime_views(monitors@),
            step_views(detach@) == detach_plan(ms.take(i as int), tid@),
    {
        let m = &monitors[i];
        assert(ms[i as int] == m@);
        assert(ms.take(i + 1).drop_last() =~= ms.take(i as int));
        assert(ms.take(i + 1).last() == m@);
        let mid = chars_of(m.info.id.as_str());
        if !chars_eq(&mid, &tid) && m.info.active {
            if let Some(md) = &m.mode {
                let dn = chars_of(md.device_name.as_str());
                if !steps_have_device(&detach, &dn) {
                    let ghost old_steps = step_views(detach@);
                    detach.push(DetachStep { device_name: md.device_name.clone(), friendly_name: m.info.name.clone() });
                    assert(step_views(detach@) =~= old_steps.push((md.device_name@, m.info.name@)));
                }
            }
        }
    }
    assert(ms.take(n as int) =~= ms);
    Ok(SwitchPlan { target: target_mode, detach })
}

/// The changes of a restore: the recorded modes of the displays that were
/// active, then the displays that were not.
#[derive(Clone, Debug)]
pub struct RestorePlan {
    pub apply: Vec<DisplayModeSnapshot>,
    pub detach: Vec<DetachStep>,
}

/// The recorded modes of active displays, in order.
pub open spec fn active_modes(ms: Seq<ModeView>) -> Seq<ModeView> {
    ms.filter(mode_is_active())
}

/// The test for a recorded active display.
pub open spec fn mode_is_active() -> spec_fn(ModeView) -> bool {
    |m: ModeView| m.active
}

/// The recorded displays that were not active, as detach steps.
pub open spec fn inactive_steps(ms: Seq<ModeView>) -> Seq<(Seq<char>, Seq<char>)> {
    ms.filter(mode_is_inactive()).map_values(|m: ModeView| (m.device_name, m.device_string))
}

/// The test for a recorded display that was not active.
pub open spec fn mode_is_inactive() -> spec_fn(ModeView) -> bool {
    |m: ModeView| !m.active
}

/// Plans the restore of a recorded layout; refused when it has no active
/// display.
pub fn restore_layout(snapshot: &DisplayLayoutSnapshot) -> (r: Result<RestorePlan, String>)
    ensures
        match r {
            Ok(plan) => any_active(mode_views(snapshot.displays@)) && mode_views(plan.apply@)
                == active_modes(mode_views(snapshot.displays@)) && step_views(plan.detach@)
                == inactive_steps(mode_views(snapshot.displays@)),
            Err(e) => !any_active(mode_views(snapshot.displays@)) && e@
                == "startup display state has no active display"@,
        },
{
    let ghost ms = mode_views(snapshot.displays@);
    let ghost act = mode_is_active();
    let ghost inact = mode_is_inactive();
    let ghost pair = |m: ModeView| (m.device_name, m.device_string);
    let mut apply: Vec<DisplayModeSnapshot> = Vec::new();
    let mut detach: Vec<DetachStep> = Vec::new();
    let mut any = false;
    let n = snapshot.displays.len();
    for i in 0..n
        invariant
            n == snapshot.displays@.len() == ms.len(),
            ms == mode_views(snapshot.displays@),
            act == mode_is_active(),
            inact == mode_is_inactive(),
            pair == (|m: ModeView| (m.device_name, m.device_string)),
            mode_views(apply@) == ms.take(i as int).filter(act),
            step_views(detach@) == ms.take(i as int).filter(inact).map_values(pair),
            any == exists|k: int| 0 <= k < i && (#[trigger] ms[k]).active,
    {
        let d = &snapshot.displays[i];
        assert(ms[i as int] == d@);
        assert(ms.take(i + 1) =~= ms.take(i as int).push(d@));
        proof {
            ms.take(i as int).lemma_filter_push(d@, act);
            ms.take(i as int).lemma_filter_push(d@, inact);
        }
        if d.active {
            let ghost old_apply = mode_views(apply@);
            apply.push(d.duplicate());
            assert(mode_views(apply@) =~= old_apply.push(d@));
            any = true;
        } else {
            let ghost old_detach = step_views(detach@);
            detach.push(DetachStep { device_name: d.device_name.clone(), friendly_name: d.device_string.clone() });
            assert(step_views(detach@) =~= old_detach.push(pair(d@)));
            assert(ms.take(i + 1).filter(inact).map_values(pair) =~= ms.take(i as int).filter(inact).map_values(pair).push(pair(d@)));
        }
    }
    assert(ms.take(n as int) =~= ms);
    if !any {
        return Err("startup display state has no active display".to_string());
    }
    Ok(RestorePlan { apply, detach })
}


// ---------------------------------------------------------------------
// Mode changes
// ---------------------------------------------------------------------

/// `DM_POSITION`.
pub const DM_POSITION: u32 = 0x20;
/// `DM_DISPLAYORIENTATION`.
pub const DM_DISPLAYORIENTATION: u32 = 0x80;
/// `DM_BITSPERPEL`.
pub const DM_BITSPERPEL: u32 = 0x40000;
/// `DM_PELSWIDTH`.
pub const DM_PELSWIDTH: u32 = 0x80000;
/// `DM_PELSHEIGHT`.
pub const DM_PELSHEIGHT: u32 = 0x100000;
/// `DM_DISPLAYFREQUENCY`.
pub const DM_DISPLAYFREQUENCY: u32 = 0x400000;
/// `DM_DISPLAYFIXEDOUTPUT`.
pub const DM_DISPLAYFIXEDOUTPUT: u32 = 0x20000000;
/// `CDS_UPDATEREGISTRY`.
pub const CDS_UPDATEREGISTRY: u32 = 0x1;
/// `CDS_NORESET`.
pub const CDS_NORESET: u32 = 0x10000000;
/// `ENUM_CURRENT_SETTINGS`.
pub const ENUM_CURRENT_SETTINGS: u32 = 0xFFFF_FFFF;
/// `ENUM_REGISTRY_SETTINGS`.
pub const ENUM_REGISTRY_SETTINGS: u32 = 0xFFFF_FFFE;
/// `EDS_RAWMODE`.
pub const EDS_RAWMODE: u32 = 0x2;
/// How many mode indices are tried when no current or registry mode is found.
pub const FALLBACK_MODE_INDICES: u32 = 128;

/// The fields of a `DEVMODEW` for `ChangeDisplaySettingsExW`.
#[derive(Clone, Copy, Debug, PartialEq, Eq)]
pub struct ModeSettings {
    pub fields: u32,
    pub width: u32,
    pub height: u32,
    pub bits_per_pel: u32,
    pub frequency: u32,
    pub x: i32,
    pub y: i32,
    pub orientation: u32,
    pub fixed_output: u32,
}

/// The settings that apply a recorded mode: at least 32 bits per pixel;
/// the frequency only when it is known.
pub open spec fn settings_for(m: ModeView) -> ModeSettings {
    let bits = if m.bits_per_pel > 32 { m.bits_per_pel } else { 32u32 };
    ModeSettings {
        fields: DM_POSITION | DM_PELSWIDTH | DM_PELSHEIGHT | DM_DISPLAYORIENTATION | DM_DISPLAYFIXEDOUTPUT
            | DM_BITSPERPEL | (if m.frequency > 0 { DM_DISPLAYFREQUENCY } else { 0u32 }),
        width: m.width,
        height: m.height,
        bits_per_pel: bits,
        frequency: m.frequency,
        x: m.x,
        y: m.y,
        orientation: m.orientation,
        fixed_output: m.fixed_output,
    }
}

/// The settings that apply a mode; refused for a display without a GDI
/// device name or with a zero size.
pub fn mode_settings(mode: &DisplayModeSnapshot) -> (r: Result<ModeSettings, String>)
    ensures
        mode@.device_name.len() == 0 ==> r is Err && r->Err_0@ == "display has no GDI device name: "@
            + mode@.id,
        mode@.device_name.len() > 0 && (mode.width == 0 || mode.height == 0) ==> r is Err
            && r->Err_0@ == "display mode is invalid: "@ + mode@.device_name,
        mode@.device_name.len() > 0 && mode.width > 0 && mode.height > 0 ==> r is Ok && r->Ok_0
            == settings_for(mode@),
{
    if mode.device_name.as_str().is_empty() {
        let mut msg = chars_of("display has no GDI device name: ");
        let id = chars_of(mode.id.as_str());
        extend_chars(&mut msg, &id);
        return Err(string_of(&msg));
    }
    if mode.width == 0 || mode.height == 0 {
        let mut msg = chars_of("display mode is invalid: ");
        let dn = chars_of(mode.device_name.as_str());
        extend_chars(&mut msg, &dn);
        return Err(string_of(&msg));
    }
    let bits = if mode.bits_per_pel > 32 { mode.bits_per_pel } else { 32u32 };
    let mut fields = DM_POSITION | DM_PELSWIDTH | DM_PELSHEIGHT | DM_DISPLAYORIENTATION
        | DM_DISPLAYFIXEDOUTPUT;
    if bits > 0 {
        fields = fields | DM_BITSPERPEL;
    }
    if mode.frequency > 0 {
        fields = fields | DM_DISPLAYFREQUENCY;
    } else {
        assert(fields | 0u32 == fields) by (bit_vector);
    }
    Ok(
        ModeSettings {
            fields,
            width: mode.width,
            height: mode.height,
            bits_per_pel: bits,
            frequency: mode.frequency,
            x: mode.x,
            y: mode.y,
            orientation: mode.orientation,
            fixed_output: mode.fixed_output,
        },
    )
}

/// `ERROR_SUCCESS`.
pub const ERROR_SUCCESS: u32 = 0;
/// `ERROR_INSUFFICIENT_BUFFER`.
pub const ERROR_INSUFFICIENT_BUFFER: u32 = 122;
/// How many times the display configuration is queried when it keeps
/// changing size between the two calls.
pub const CONFIG_QUERY_ATTEMPTS: u32 = 3;

/// What to do after a `QueryDisplayConfig` attempt.
#[derive(Clone, Debug)]
pub enum QueryStep {
    /// The buffers hold the configuration.
    Done,
    /// The configuration grew meanwhile: ask again.
    Retry,
    /// Give up with this message.
    Fail(String),
}

/// The message for a failed query.
pub open spec fn query_failure(code: u32) -> Seq<char> {
    "QueryDisplayConfig failed: "@ + decimal(code as nat)
}

/// Decides after attempt `attempt` (counted from 0) of `QueryDisplayConfig`
/// that returned `code`: success ends; a too small buffer is retried while
/// attempts remain; anything else fails.
pub fn config_query_step(attempt: u32, code: u32) -> (r: QueryStep)
    requires
        attempt < CONFIG_QUERY_ATTEMPTS,
    ensures
        code == ERROR_SUCCESS ==> r is Done,
        code == ERROR_INSUFFICIENT_BUFFER && attempt + 1 < CONFIG_QUERY_ATTEMPTS ==> r is Retry,
        code == ERROR_INSUFFICIENT_BUFFER && attempt + 1 == CONFIG_QUERY_ATTEMPTS ==> (r matches QueryStep::Fail(m)
            && m@ == "QueryDisplayConfig kept returning insufficient buffer"@),
        code != ERROR_SUCCESS && code != ERROR_INSUFFICIENT_BUFFER ==> (r matches QueryStep::Fail(m) && m@
            == query_failure(code)),
{
    if code == ERROR_SUCCESS {
        return QueryStep::Done;
    }
    if code != ERROR_INSUFFICIENT_BUFFER {
        let mut msg = chars_of("QueryDisplayConfig failed: ");
        push_decimal(&mut msg, code as u64);
        return QueryStep::Fail(string_of(&msg));
    }
    if attempt + 1 < CONFIG_QUERY_ATTEMPTS {
        QueryStep::Retry
    } else {
        QueryStep::Fail("QueryDisplayConfig kept returning insufficient buffer".to_string())
    }
}

/// The message of a refused settings change.
pub open spec fn change_failure(action: Seq<char>, code: i32) -> Seq<char> {
    action + " failed, Win32 code "@ + signed_decimal(code as int)
}

/// Describes a settings change that `ChangeDisplaySettingsExW` refused.
pub fn change_error(action: &str, code: i32) -> (r: String)
    ensures
        r@ == change_failure(action@, code),
{
    let mut msg = chars_of(action);
    let tail = chars_of(" failed, Win32 code ");
    extend_chars(&mut msg, &tail);
    push_signed(&mut msg, code as i64);
    string_of(&msg)
}

/// The settings that detach a display: zero size at the origin.
pub fn detach_settings() -> (r: ModeSettings)
    ensures
        r == (ModeSettings {
            fields: DM_POSITION | DM_PELSWIDTH | DM_PELSHEIGHT,
            width: 0,
            height: 0,
            bits_per_pel: 0,
            frequency: 0,
            x: 0,
            y: 0,
            orientation: 0,
            fixed_output: 0,
        }),
{
    ModeSettings {
        fields: DM_POSITION | DM_PELSWIDTH | DM_PELSHEIGHT,
        width: 0,
        height: 0,
        bits_per_pel: 0,
        frequency: 0,
        x: 0,
        y: 0,
        orientation: 0,
        fixed_output: 0,
    }
}

/// The flags of a settings change: always stored in the registry; held
/// back (not applied yet) when `defer` is set.
pub fn change_flags(defer: bool) -> (r: u32)
    ensures
        r == if defer { CDS_UPDATEREGISTRY | CDS_NORESET } else { CDS_UPDATEREGISTRY },
{
    if defer {
        CDS_UPDATEREGISTRY | CDS_NORESET
    } else {
        CDS_UPDATEREGISTRY
    }
}

/// The order in which a display's mode is looked up: current then registry
/// settings for an active display, registry then current for an inactive
/// one, each first raw and then plain.
pub open spec fn query_order(active: bool) -> Seq<(u32, u32)> {
    if active {
        seq![
            (ENUM_CURRENT_SETTINGS, EDS_RAWMODE),
            (ENUM_CURRENT_SETTINGS, 0u32),
            (ENUM_REGISTRY_SETTINGS, EDS_RAWMODE),
            (ENUM_REGISTRY_SETTINGS, 0u32),
        ]
    } else {
        seq![
            (ENUM_REGISTRY_SETTINGS, EDS_RAWMODE),
            (ENUM_REGISTRY_SETTINGS, 0u32),
            (ENUM_CURRENT_SETTINGS, EDS_RAWMODE),
            (ENUM_CURRENT_SETTINGS, 0u32),
        ]
    }
}

/// The (mode, flags) pairs to try, in order, when reading a display's mode.
pub fn mode_query_order(active: bool) -> (r: Vec<(u32, u32)>)
    ensures
        r@ == query_order(active),
{
    let mut r: Vec<(u32, u32)> = Vec::new();
    if active {
        r.push((ENUM_CURRENT_SETTINGS, EDS_RAWMODE));
        r.push((ENUM_CURRENT_SETTINGS, 0));
        r.push((ENUM_REGISTRY_SETTINGS, EDS_RAWMODE));
        r.push((ENUM_REGISTRY_SETTINGS, 0));
    } else {
        r.push((ENUM_REGISTRY_SETTINGS, EDS_RAWMODE));
        r.push((ENUM_REGISTRY_SETTINGS, 0));
        r.push((ENUM_CURRENT_SETTINGS, EDS_RAWMODE));
        r.push((ENUM_CURRENT_SETTINGS, 0));
    }
    assert(r@ =~= query_order(active));
    r
}

/// The `k`-th (mode, flags) pair of the last resort: every mode index below
/// `FALLBACK_MODE_INDICES`, each first raw and then plain.
pub fn fallback_mode_query(k: u32) -> (r: (u32, u32))
    requires
        k < 2 * FALLBACK_MODE_INDICES,
    ensures
        r.0 == k / 2,
        r.1 == if k % 2 == 0 { EDS_RAWMODE } else { 0 },
{
    (k / 2, if k % 2 == 0 { EDS_RAWMODE } else { 0 })
}

/// The `k`-th read to try for a display's mode: the four of `query_order`,
/// then the last resort; none after that.
pub open spec fn mode_query_at(active: bool, k: int) -> Option<(u32, u32)> {
    if 0 <= k < 4 {
        Some(query_order(active)[k])
    } else if 4 <= k < 4 + 2 * FALLBACK_MODE_INDICES {
        Some((((k - 4) / 2) as u32, if (k - 4) % 2 == 0 { EDS_RAWMODE } else { 0u32 }))
    } else {
        None
    }
}

/// The `k`-th read to try for a display's mode. The mode read is that of
/// the first read, in this order, that gives a usable mode; none when no
/// read does.
pub fn mode_query(active: bool, k: u32) -> (r: Option<(u32, u32)>)
    ensures
        r == mode_query_at(active, k as int),
{
    if k < 4 {
        let order = mode_query_order(active);
        Some(order[k as usize])
    } else if k < 4 + 2 * FALLBACK_MODE_INDICES {
        Some(fallback_mode_query(k - 4))
    } else {
        None
    }
}

/// A mode read from the platform is used only when the read succeeded and
/// gave a non-zero size.
pub fn usable_mode(read_ok: bool, width: u32, height: u32) -> (r: bool)
    ensures
        r == (read_ok && width > 0 && height > 0),
{
    read_ok && width > 0 && height > 0
}

/// The mode of a device as read from the platform, not yet placed in a
/// monitor: identified by the device name, not primary.
pub fn snapshot_from_mode(
    device_name: &str,
    active: bool,
    x: i32,
    y: i32,
    width: u32,
    height: u32,
    bits_per_pel: u32,
    frequency: u32,
    orientation: u32,
    fixed_output: u32,
) -> (r: DisplayModeSnapshot)
    ensures
        r@ == (ModeView {
            id: device_name@,
            device_name: device_name@,
            device_string: Seq::empty(),
            hardware_id: Seq::empty(),
            active: active,
            primary: false,
            x: x,
            y: y,
            width: width,
            height: height,
            bits_per_pel: bits_per_pel,
            frequency: frequency,
            orientation: orientation,
            fixed_output: fixed_output,
        }),
{
    DisplayModeSnapshot {
        id: device_name.to_string(),
        device_name: device_name.to_string(),
        device_string: String::new(),
        hardware_id: String::new(),
        active,
        primary: false,
        x,
        y,
        width,
        height,
        bits_per_pel,
        frequency,
        orientation,
        fixed_output,
    }
}

// ---------------------------------------------------------------------
// GDI devices
// ---------------------------------------------------------------------

/// `DISPLAY_DEVICE_ATTACHED_TO_DESKTOP`.
pub const DISPLAY_DEVICE_ATTACHED_TO_DESKTOP: u32 = 1;
/// `DISPLAY_DEVICE_PRIMARY_DEVICE`.
pub const DISPLAY_DEVICE_PRIMARY_DEVICE: u32 = 4;

/// A `DISPLAY_DEVICEW` record as `EnumDisplayDevicesW` fills it.
#[derive(Clone, Debug)]
pub struct DisplayDevice {
    pub device_name: Vec<u16>,
    pub device_string: Vec<u16>,
    pub state_flags: u32,
    pub device_id: Vec<u16>,
}

/// The device is part of the desktop.
pub open spec fn attached(d: DisplayDevice) -> bool {
    d.state_flags & DISPLAY_DEVICE_ATTACHED_TO_DESKTOP != 0
}

/// The device is the primary one.
pub open spec fn primary_device(d: DisplayDevice) -> bool {
    d.state_flags & DISPLAY_DEVICE_PRIMARY_DEVICE != 0
}

/// Whether a device is part of the desktop.
pub fn is_attached(d: &DisplayDevice) -> (r: bool)
    ensures
        r == attached(*d),
{
    d.state_flags & DISPLAY_DEVICE_ATTACHED_TO_DESKTOP != 0
}

/// The monitor child of an adapter that describes it: the last one
/// attached to the desktop, else the first; its name and id.
pub open spec fn chosen_child(children: Seq<DisplayDevice>) -> Option<(Seq<char>, Seq<char>)> {
    let pick = match last_where(children, |c: DisplayDevice| attached(c)) {
        Some(i) => Some(i),
        None => if children.len() > 0 {
            Some(0int)
        } else {
            None
        },
    };
    match pick {
        Some(i) => Some((wide_text(children[i].device_string@), wide_text(children[i].device_id@))),
        None => None,
    }
}

/// Chooses the monitor child that describes an adapter.
pub fn monitor_child_for_gdi_display(children: &Vec<DisplayDevice>) -> (r: Option<(String, String)>)
    ensures
        match r {
            Some(p) => chosen_child(children@) == Some((p.0@, p.1@)),
            None => chosen_child(children@) is None,
        },
{
    let ghost pr = |c: DisplayDevice| attached(c);
    let n = children.len();
    let mut best: Option<usize> = None;
    for i in 0..n
        invariant
            n == children@.len(),
            pr == (|c: DisplayDevice| attached(c)),
            match best {
                Some(k) => k < i && ((pr(children@[k as int]) && forall|j: int| k < j < i ==> !pr(children@[j]))
                    || (k == 0 && forall|j: int| 0 <= j < i ==> !pr(children@[j]))),
                None => i == 0,
            },
    {
        if best.is_none() || is_attached(&children[i]) {
            best = Some(i);
        }
    }
    proof {
        match best {
            Some(k) => {
                if pr(children@[k as int]) && forall|j: int| k < j < n ==> !pr(children@[j]) {
                    lemma_last_where(children@, pr, k as int);
                } else {
                    lemma_last_where_none(children@, pr);
                }
            },
            None => lemma_last_where_none(children@, pr),
        }
    }
    match best {
        Some(k) => Some(
            (
                wide_to_string(children[k].device_string.as_slice()),
                wide_to_string(children[k].device_id.as_slice()),
            ),
        ),
        None => None,
    }
}

/// The mode to read for a GDI device: its name, and whether it is attached.
pub fn gdi_mode_request(d: &DisplayDevice) -> (r: ModeRequest)
    ensures
        r.device_name@ == wide_text(d.device_name@),
        r.active == attached(*d),
{
    ModeRequest { device_name: wide_to_string(d.device_name.as_slice()), active: is_attached(d) }
}

/// A GDI display from its device record, its chosen monitor child and the
/// mode read for it (labelled with the device's names and state).
pub open spec fn gdi_display_of(
    d: DisplayDevice,
    child: Option<(Seq<char>, Seq<char>)>,
    queried: Option<ModeView>,
) -> GdiDisplayView {
    let name = wide_text(d.device_name@);
    let adapter = wide_text(d.device_string@);
    let monitor_id = match child {
        Some(c) => c.1,
        None => wide_text(d.device_id@),
    };
    GdiDisplayView {
        device_name: name,
        adapter_name: adapter,
        monitor_name: match child {
            Some(c) => c.0,
            None => Seq::empty(),
        },
        monitor_id: monitor_id,
        active: attached(d),
        primary: primary_device(d),
        mode: match queried {
            Some(m) => Some(
                ModeView {
                    id: name,
                    device_string: adapter,
                    hardware_id: monitor_id,
                    active: attached(d),
                    primary: primary_device(d),
                    ..m
                },
            ),
            None => None,
        },
    }
}

/// Builds a GDI display from what the platform reported of it.
pub fn gdi_display_from(
    d: &DisplayDevice,
    child: Option<(String, String)>,
    queried: Option<DisplayModeSnapshot>,
) -> (r: GdiDisplay)
    ensures
        r@ == gdi_display_of(
            *d,
            match child {
                Some(c) => Some((c.0@, c.1@)),
                None => None,
            },
            opt_mode_view(queried),
        ),
{
    let device_name = wide_to_string(d.device_name.as_slice());
    let adapter_name = wide_to_string(d.device_string.as_slice());
    let active = is_attached(d);
    let primary = d.state_flags & DISPLAY_DEVICE_PRIMARY_DEVICE != 0;
    let (monitor_name, monitor_id) = match child {
        Some(c) => (c.0, c.1),
        None => (String::new(), wide_to_string(d.device_id.as_slice())),
    };
    let mode = match queried {
        Some(m) => {
            let mut m = m;
            m.id = device_name.clone();
            m.device_string = adapter_name.clone();
            m.hardware_id = monitor_id.clone();
            m.active = active;
            m.primary = primary;
            Some(m)
        },
        None => None,
    };
    GdiDisplay { device_name, adapter_name, monitor_name, monitor_id, active, primary, mode }
}


// ---------------------------------------------------------------------
// Laws of the enumeration and the switch plan
// ---------------------------------------------------------------------

/// No two monitors share an identifier.
pub open spec fn ids_distinct(s: Seq<RuntimeMonitorView>) -> bool {
    forall|i: int, j: int| 0 <= i < j < s.len() ==> s[i].info.id != s[j].info.id
}

proof fn lemma_min_index<A>(s: Seq<A>, p: spec_fn(A) -> bool, i: int)
    requires
        0 <= i < s.len(),
        p(s[i]),
    ensures
        exists|k: int| 0 <= k < s.len() && p(s[k]) && forall|j: int| 0 <= j < k ==> !p(s[j]),
    decreases i,
{
    if exists|j: int| 0 <= j < i && p(s[j]) {
        let j = choose|j: int| 0 <= j < i && p(s[j]);
        lemma_min_index(s, p, j);
    } else {
        assert(0 <= i < s.len() && p(s[i]) && forall|j: int| 0 <= j < i ==> !p(s[j]));
    }
}

proof fn lemma_first_where_some<A>(s: Seq<A>, p: spec_fn(A) -> bool)
    ensures
        match first_where(s, p) {
            Some(i) => 0 <= i < s.len() && p(s[i]),
            None => forall|j: int| 0 <= j < s.len() ==> !p(s[j]),
        },
{
    reveal(first_where);
    if exists|i: int| 0 <= i < s.len() && p(s[i]) {
        let i = choose|i: int| 0 <= i < s.len() && p(s[i]);
        lemma_min_index(s, p, i);
    }
}

/// Merging lists each monitor once: the merged monitors have distinct
/// identifiers, each of them is one of the candidates, and for every
/// candidate the monitor kept under its identifier scores at least as well.
pub proof fn law_merge_keeps_one_best_per_target(cands: Seq<Option<RuntimeMonitorView>>)
    ensures
        ids_distinct(merged(cands)),
        forall|i: int| 0 <= i < merged(cands).len() ==> exists|j: int| 0 <= j < cands.len() && cands[j] == Some(#[trigger] merged(cands)[i]),
        forall|j: int|
            0 <= j < cands.len() && (#[trigger] cands[j]) is Some ==> exists|i: int|
                0 <= i < merged(cands).len() && merged(cands)[i].info.id == cands[j]->0.info.id
                    && score_of(merged(cands)[i]) >= score_of(cands[j]->0),
    decreases cands.len(),
{
    if cands.len() > 0 {
        let prev_c = cands.drop_last();
        law_merge_keeps_one_best_per_target(prev_c);
        let prev = merged(prev_c);
        match cands.last() {
            None => {
                assert(merged(cands) == prev);
                assert forall|i: int| 0 <= i < merged(cands).len() implies exists|j: int| 0 <= j < cands.len() && cands[j] == Some(#[trigger] merged(cands)[i]) by {
                    let j = choose|j: int| 0 <= j < prev_c.len() && prev_c[j] == Some(prev[i]);
                    assert(cands[j] == prev_c[j]);
                }
                assert forall|j: int|
                    0 <= j < cands.len() && (#[trigger] cands[j]) is Some implies exists|i: int|
                        0 <= i < merged(cands).len() && merged(cands)[i].info.id == cands[j]->0.info.id
                            && score_of(merged(cands)[i]) >= score_of(cands[j]->0) by {
                    assert(j < prev_c.len());
                    assert(cands[j] == prev_c[j]);
                    assert(prev_c[j] is Some);
                }
            },
            Some(c) => {
                let res = merged(cands);
                lemma_first_where_some(prev, with_id(c.info.id));
                match first_where(prev, with_id(c.info.id)) {
                    Some(k) => {
                        let rep = replaces(prev[k], c);
                        assert(res == if rep { prev.update(k, c) } else { prev });
                        assert forall|i: int| 0 <= i < res.len() implies exists|j: int| 0 <= j < cands.len() && cands[j] == Some(#[trigger] res[i]) by {
                            if rep && i == k {
                                assert(cands[cands.len() - 1] == Some(res[i]));
                            } else {
                                assert(res[i] == prev[i]);
                                let j = choose|j: int| 0 <= j < prev_c.len() && prev_c[j] == Some(prev[i]);
                                assert(cands[j] == prev_c[j]);
                            }
                        }
                        assert forall|j: int|
                            0 <= j < cands.len() && (#[trigger] cands[j]) is Some implies exists|i: int|
                                0 <= i < res.len() && res[i].info.id == cands[j]->0.info.id
                                    && score_of(res[i]) >= score_of(cands[j]->0) by {
                            if j == cands.len() - 1 {
                                assert(res[k].info.id == c.info.id);
                            } else {
                                assert(cands[j] == prev_c[j]);
                                assert(prev_c[j] is Some);
                                let i = choose|i: int|
                                    0 <= i < prev.len() && prev[i].info.id == prev_c[j]->0.info.id
                                        && score_of(prev[i]) >= score_of(prev_c[j]->0);
                                if rep && i == k {
                                    assert(res[k] == c);
                                } else {
                                    assert(res[i] == prev[i]);
                                }
                            }
                        }
                    },
                    None => {
                        assert(res == prev.push(c));
                        assert forall|i: int| 0 <= i < res.len() implies exists|j: int| 0 <= j < cands.len() && cands[j] == Some(#[trigger] res[i]) by {
                            if i == prev.len() {
                                assert(cands[cands.len() - 1] == Some(res[i]));
                            } else {
                                assert(res[i] == prev[i]);
                                let j = choose|j: int| 0 <= j < prev_c.len() && prev_c[j] == Some(prev[i]);
                                assert(cands[j] == prev_c[j]);
                            }
                        }
                        assert forall|j: int|
                            0 <= j < cands.len() && (#[trigger] cands[j]) is Some implies exists|i: int|
                                0 <= i < res.len() && res[i].info.id == cands[j]->0.info.id
                                    && score_of(res[i]) >= score_of(cands[j]->0) by {
                            if j == cands.len() - 1 {
                                assert(res[prev.len() as int] == c);
                            } else {
                                assert(cands[j] == prev_c[j]);
                                assert(prev_c[j] is Some);
                                let i = choose|i: int|
                                    0 <= i < prev.len() && prev[i].info.id == prev_c[j]->0.info.id
                                        && score_of(prev[i]) >= score_of(prev_c[j]->0);
                                assert(res[i] == prev[i]);
                            }
                        }
                        assert forall|a: int, b: int| 0 <= a < b < res.len() implies res[a].info.id != res[b].info.id by {
                            if b == prev.len() {
                                assert(!with_id(c.info.id)(prev[a]));
                            } else {
                                assert(res[a] == prev[a] && res[b] == prev[b]);
                            }
                        }
                    },
                }
            },
        }
    }
}

/// The GDI device names of a detach plan.
pub open spec fn plan_devices(plan: Seq<(Seq<char>, Seq<char>)>) -> Seq<Seq<char>> {
    plan.map_values(|d: (Seq<char>, Seq<char>)| d.0)
}

/// A switch detaches each GDI device at most once, never the target, and
/// only active monitors that have a mode.
#[verifier::spinoff_prover]
#[verifier::rlimit(40)]
pub proof fn law_switch_detaches_each_other_display_once(ms: Seq<RuntimeMonitorView>, target_id: Seq<char>)
    ensures
        plan_devices(detach_plan(ms, target_id)).no_duplicates(),
        forall|k: int|
            0 <= k < detach_plan(ms, target_id).len() ==> exists|i: int|
                0 <= i < ms.len() && ms[i].info.id != target_id && ms[i].info.active && ms[i].mode
                    is Some && ms[i].mode->0.device_name == (#[trigger] detach_plan(ms, target_id)[k]).0
                    && ms[i].info.name == detach_plan(ms, target_id)[k].1,
    decreases ms.len(),
{
    if ms.len() > 0 {
        let prev_ms = ms.drop_last();
        law_switch_detaches_each_other_display_once(prev_ms, target_id);
        let prev = detach_plan(prev_ms, target_id);
        let plan = detach_plan(ms, target_id);
        let m = ms.last();
        let add = m.info.id != target_id && m.info.active && m.mode is Some && !plan_devices(prev).contains(m.mode->0.device_name);
        assert(plan == if add { prev.push((m.mode->0.device_name, m.info.name)) } else { prev });
        assert forall|k: int| 0 <= k < plan.len() implies exists|i: int|
            0 <= i < ms.len() && ms[i].info.id != target_id && ms[i].info.active && ms[i].mode
                is Some && ms[i].mode->0.device_name == (#[trigger] plan[k]).0
                && ms[i].info.name == plan[k].1 by {
            if k < prev.len() {
                assert(plan[k] == prev[k]);
                let i = choose|i: int|
                    0 <= i < prev_ms.len() && prev_ms[i].info.id != target_id && prev_ms[i].info.active
                        && prev_ms[i].mode is Some && prev_ms[i].mode->0.device_name == (#[trigger] prev[k]).0
                        && prev_ms[i].info.name == prev[k].1;
                assert(ms[i] == prev_ms[i]);
            } else {
                assert(add);
                assert(ms[ms.len() - 1] == m);
            }
        }
        if add {
            let d = m.mode->0.device_name;
            assert(plan_devices(plan) == plan_devices(prev).push(d));
            assert(!plan_devices(prev).contains(d));
            assert forall|a: int, b: int| 0 <= a < plan_devices(plan).len() && 0 <= b < plan_devices(plan).len() && a != b
                implies plan_devices(plan)[a] != plan_devices(plan)[b] by {
                if a == prev.len() as int {
                    assert(plan_devices(prev)[b] == plan_devices(plan)[b]);
                } else if b == prev.len() as int {
                    assert(plan_devices(prev)[a] == plan_devices(plan)[a]);
                } else {
                    assert(plan_devices(prev)[a] == plan_devices(plan)[a]);
                    assert(plan_devices(prev)[b] == plan_devices(plan)[b]);
                }
            }
        }
    }
}

/// A monitor found through a CCD path is listed as virtual, with the
/// virtual title, exactly when its path reports the indirect-virtual output
/// technology or one of its names (friendly name, device path, GDI device
/// name), upper-cased, contains `VIRTUAL`, `VDD` or `MTT`; otherwise it is
/// listed as physical.
pub proof fn law_virtual_monitors_are_recognised(
    p: CcdPath,
    rank: usize,
    gs: Seq<GdiDisplayView>,
    ms: Seq<SourceModeInfo>,
    queried: Option<ModeView>,
)
    requires
        !path_skipped(p),
    ensures
        ({
            let names = upper_of(target_friendly(p) + seq![' '] + target_path(p) + seq![' '] + path_device(p, gs));
            let marked = target_technology(p) == 17 || has_sub(names, "VIRTUAL"@) || has_sub(names, "VDD"@)
                || has_sub(names, "MTT"@);
            let label = display_label(target_friendly(p), target_path(p), path_gdi(p, gs), rank);
            &&& path_monitor(p, rank, gs, ms, queried) is Some
            &&& marked ==> path_monitor(p, rank, gs, ms, queried)->0.info.monitor_type == "virtual"@
                && path_monitor(p, rank, gs, ms, queried)->0.info.name == "虚拟显示器 "@ + label
            &&& !marked ==> path_monitor(p, rank, gs, ms, queried)->0.info.monitor_type == "physical"@
                && path_monitor(p, rank, gs, ms, queried)->0.info.name == "物理显示器 "@ + label
        }),
{
}

/// A captured layout records the mode of every GDI device that has one,
/// active or not, in device order, and nothing else.
pub proof fn law_capture_records_every_mode(gs: Seq<GdiDisplayView>)
    ensures
        modes_of(gs) == gs.filter(|d: GdiDisplayView| d.mode is Some).map_values(|d: GdiDisplayView| d.mode->0),
        forall|i: int| 0 <= i < gs.len() && (#[trigger] gs[i]).mode is Some ==> modes_of(gs).contains(gs[i].mode->0),
    decreases gs.len(),
{
    let has = |d: GdiDisplayView| d.mode is Some;
    let get = |d: GdiDisplayView| d.mode->0;
    if gs.len() > 0 {
        law_capture_records_every_mode(gs.drop_last());
        gs.drop_last().lemma_filter_push(gs.last(), has);
        assert(gs.drop_last().push(gs.last()) =~= gs);
        if has(gs.last()) {
            assert(gs.drop_last().filter(has).push(gs.last()).map_values(get) =~= gs.drop_last().filter(
                has,
            ).map_values(get).push(get(gs.last())));
        }
        assert forall|i: int| 0 <= i < gs.len() && (#[trigger] gs[i]).mode is Some implies modes_of(gs).contains(
            gs[i].mode->0,
        ) by {
            if i < gs.len() - 1 {
                assert(gs.drop_last()[i] == gs[i]);
                let k = choose|k: int| 0 <= k < modes_of(gs.drop_last()).len() && modes_of(gs.drop_last())[k]
                    == gs[i].mode->0;
                assert(modes_of(gs)[k] == gs[i].mode->0);
            } else {
                assert(modes_of(gs).last() == gs[i].mode->0);
            }
        }
    } else {
        Seq::<GdiDisplayView>::empty().filter_lemma(has);
        assert(gs.filter(has).map_values(get) =~= Seq::<ModeView>::empty());
    }
}

/// A restore applies every recorded display that was active and detaches
/// every one that was not (by its device name, with its description), each
/// display exactly once, whatever its other fields.
pub proof fn law_restore_covers_every_display(ms: Seq<ModeView>)
    ensures
        forall|i: int| 0 <= i < ms.len() && (#[trigger] ms[i]).active ==> active_modes(ms).contains(ms[i]),
        forall|i: int|
            0 <= i < ms.len() && !(#[trigger] ms[i]).active ==> inactive_steps(ms).contains(
                (ms[i].device_name, ms[i].device_string),
            ),
        forall|j: int| 0 <= j < active_modes(ms).len() ==> (#[trigger] active_modes(ms)[j]).active,
        active_modes(ms).len() + inactive_steps(ms).len() == ms.len(),
    decreases ms.len(),
{
    let act = mode_is_active();
    let inact = mode_is_inactive();
    ms.filter_lemma(act);
    ms.filter_lemma(inact);
    assert forall|i: int|
        0 <= i < ms.len() && !(#[trigger] ms[i]).active implies inactive_steps(ms).contains(
            (ms[i].device_name, ms[i].device_string),
        ) by {
        assert(inact(ms[i]));
        assert(ms.filter(inact).contains(ms[i]));
        let k = choose|k: int| 0 <= k < ms.filter(inact).len() && ms.filter(inact)[k] == ms[i];
        assert(inactive_steps(ms)[k] == (ms[i].device_name, ms[i].device_string));
    }
    if ms.len() > 0 {
        law_restore_covers_every_display(ms.drop_last());
        ms.drop_last().lemma_filter_push(ms.last(), act);
        ms.drop_last().lemma_filter_push(ms.last(), inact);
        assert(ms.drop_last().push(ms.last()) =~= ms);
    } else {
        assert(ms.filter(act).len() == 0);
        assert(ms.filter(inact).len() == 0);
    }
}

} // verus!
