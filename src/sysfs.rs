use crate::model::CpuId;
use vstd::prelude::*;

verus! {

/// Status of the AMD P-State driver.
pub const AMD_PSTATE: &'static str = "/sys/devices/system/cpu/amd_pstate/status";
/// The range of cores present.
pub const CPU_PRESENT: &'static str = "/sys/devices/system/cpu/present";
/// A core's scaling governor, read and written.
pub const SCALING_GETSET: &'static str = "/sys/devices/system/cpu/cpu{}/cpufreq/scaling_governor";
/// The scaling governors a core offers.
pub const SCALING_AVAIL: &'static str = "/sys/devices/system/cpu/cpu{}/cpufreq/scaling_available_governors";
/// A core's energy/performance preference, read and written.
pub const EPP_GETSET: &'static str = "/sys/devices/system/cpu/cpu{}/cpufreq/energy_performance_preference";
/// The energy/performance preferences a core offers.
pub const EPP_AVAIL: &'static str = "/sys/devices/system/cpu/cpu{}/cpufreq/energy_performance_available_preferences";
/// A core's lowest frequency.
pub const CPU_MIN_FREQ: &'static str = "/sys/devices/system/cpu/cpu{}/cpufreq/cpuinfo_min_freq";
/// A core's highest frequency.
pub const CPU_MAX_FREQ: &'static str = "/sys/devices/system/cpu/cpu{}/cpufreq/cpuinfo_max_freq";
/// A core's current frequency.
pub const CPU_CUR_FREQ: &'static str = "/sys/devices/system/cpu/cpu{}/cpufreq/scaling_cur_freq";

/// A one-byte whitespace character: space, or tab to carriage return.
pub open spec fn is_ascii_space(b: u8) -> bool {
    b == 0x20u8 || (0x09u8 <= b && b <= 0x0Du8)
}

/// The UTF-8 encoding `[0xC2, b]` is a whitespace character (U+0085 or U+00A0).
pub open spec fn is_space2(b: u8) -> bool {
    b == 0x85u8 || b == 0xA0u8
}

/// The three bytes are the UTF-8 encoding of a whitespace character: U+1680,
/// U+2000 to U+200A, U+2028, U+2029, U+202F, U+205F or U+3000.
pub open spec fn is_space3(a: u8, b: u8, c: u8) -> bool {
    ||| a == 0xE1u8 && b == 0x9Au8 && c == 0x80u8
    ||| a == 0xE2u8 && b == 0x80u8 && ((0x80u8 <= c && c <= 0x8Au8) || c == 0xA8u8 || c == 0xA9u8
        || c == 0xAFu8)
    ||| a == 0xE2u8 && b == 0x81u8 && c == 0x9Fu8
    ||| a == 0xE3u8 && b == 0x80u8 && c == 0x80u8
}

/// The length of the encoded whitespace character that UTF-8 text `s` starts
/// with, or 0 when it starts with none.
pub open spec fn leading_space_len(s: Seq<u8>) -> nat {
    if s.len() >= 1 && is_ascii_space(s[0]) {
        1
    } else if s.len() >= 2 && s[0] == 0xC2u8 && is_space2(s[1]) {
        2
    } else if s.len() >= 3 && is_space3(s[0], s[1], s[2]) {
        3
    } else {
        0
    }
}

/// The length of the encoded whitespace character that UTF-8 text `s` ends
/// with, or 0 when it ends with none.
pub open spec fn trailing_space_len(s: Seq<u8>) -> nat {
    let n = s.len() as int;
    if n >= 1 && is_ascii_space(s[n - 1]) {
        1
    } else if n >= 2 && s[n - 2] == 0xC2u8 && is_space2(s[n - 1]) {
        2
    } else if n >= 3 && is_space3(s[n - 3], s[n - 2], s[n - 1]) {
        3
    } else {
        0
    }
}

/// UTF-8 text `s` without its leading whitespace characters.
pub open spec fn trim_start(s: Seq<u8>) -> Seq<u8>
    decreases s.len(),
{
    if leading_space_len(s) > 0 {
        trim_start(s.skip(leading_space_len(s) as int))
    } else {
        s
    }
}

/// UTF-8 text `s` without its trailing whitespace characters.
pub open spec fn trim_end(s: Seq<u8>) -> Seq<u8>
    decreases s.len(),
{
    if trailing_space_len(s) > 0 {
        trim_end(s.take(s.len() - trailing_space_len(s)))
    } else {
        s
    }
}

/// UTF-8 text `s` without whitespace characters at either end.
pub open spec fn trimmed(s: Seq<u8>) -> Seq<u8> {
    trim_end(trim_start(s))
}

pub open spec fn is_digit(b: u8) -> bool {
    0x30u8 <= b <= 0x39u8
}

/// A non-empty run of decimal digits.
pub open spec fn all_digits(s: Seq<u8>) -> bool {
    s.len() > 0 && forall|i: int| 0 <= i < s.len() ==> is_digit(#[trigger] s[i])
}

/// The number that a run of decimal digits writes.
pub open spec fn decimal(s: Seq<u8>) -> int
    decreases s.len(),
{
    if s.len() == 0 {
        0
    } else {
        decimal(s.drop_last()) * 10 + (s.last() - 0x30u8)
    }
}

/// The digits of an unsigned number, after an optional `+` sign.
pub open spec fn unsigned_digits(s: Seq<u8>) -> Seq<u8> {
    if s.len() > 0 && s[0] == 0x2Bu8 {
        s.drop_first()
    } else {
        s
    }
}

/// The unsigned number that `s` writes, if it writes one no greater than `max`:
/// an optional `+`, then one or more decimal digits, nothing else.
pub open spec fn unsigned_value(s: Seq<u8>, max: int) -> Option<int> {
    let d = unsigned_digits(s);
    if all_digits(d) && decimal(d) <= max {
        Some(decimal(d))
    } else {
        None
    }
}

/// The integer held by an attribute file's text.
pub open spec fn int_value(text: Seq<u8>) -> Option<int> {
    unsigned_value(trimmed(text), u32::MAX as int)
}

/// `p` is the position of the first `-` in `s`.
pub open spec fn first_dash(s: Seq<u8>, p: int) -> bool {
    &&& 0 <= p < s.len()
    &&& s[p] == 0x2Du8
    &&& forall|q: int| 0 <= q < p ==> s[q] != 0x2Du8
}

/// The bounds of a range written `from-to`, each an unsigned 8-bit number.
pub open spec fn range_value(text: Seq<u8>) -> Option<(int, int)> {
    let t = trimmed(text);
    if exists|p: int| first_dash(t, p) {
        let p = choose|p: int| first_dash(t, p);
        match (unsigned_value(t.take(p), u8::MAX as int), unsigned_value(t.skip(p + 1), u8::MAX as int)) {
            (Some(from), Some(to)) => Some((from, to)),
            _ => None,
        }
    } else {
        None
    }
}

fn space3(a: u8, b: u8, c: u8) -> (r: bool)
    ensures
        r == is_space3(a, b, c),
{
    (a == 0xE1u8 && b == 0x9Au8 && c == 0x80u8) || (a == 0xE2u8 && b == 0x80u8 && ((0x80u8 <= c
        && c <= 0x8Au8) || c == 0xA8u8 || c == 0xA9u8 || c == 0xAFu8)) || (a == 0xE2u8 && b
        == 0x81u8 && c == 0x9Fu8) || (a == 0xE3u8 && b == 0x80u8 && c == 0x80u8)
}

/// The length of the whitespace character that `s[lo..hi]` starts with, or 0.
fn leading_space(s: &[u8], lo: usize, hi: usize) -> (r: usize)
    requires
        lo <= hi <= s@.len(),
    ensures
        r == leading_space_len(s@.subrange(lo as int, hi as int)),
{
    let n = hi - lo;
    if n >= 1 && (s[lo] == 0x20u8 || (0x09u8 <= s[lo] && s[lo] <= 0x0Du8)) {
        1
    } else if n >= 2 && s[lo] == 0xC2u8 && (s[lo + 1] == 0x85u8 || s[lo + 1] == 0xA0u8) {
        2
    } else if n >= 3 && space3(s[lo], s[lo + 1], s[lo + 2]) {
        3
    } else {
        0
    }
}

/// The length of the whitespace character that `s[lo..hi]` ends with, or 0.
fn trailing_space(s: &[u8], lo: usize, hi: usize) -> (r: usize)
    requires
        lo <= hi <= s@.len(),
    ensures
        r == trailing_space_len(s@.subrange(lo as int, hi as int)),
{
    let n = hi - lo;
    if n >= 1 && (s[hi - 1] == 0x20u8 || (0x09u8 <= s[hi - 1] && s[hi - 1] <= 0x0Du8)) {
        1
    } else if n >= 2 && s[hi - 2] == 0xC2u8 && (s[hi - 1] == 0x85u8 || s[hi - 1] == 0xA0u8) {
        2
    } else if n >= 3 && space3(s[hi - 3], s[hi - 2], s[hi - 1]) {
        3
    } else {
        0
    }
}

/// The bounds `[lo, hi)` of `s` without whitespace characters at either end.
fn trim_bounds(s: &[u8]) -> (r: (usize, usize))
    ensures
        r.0 <= r.1 <= s@.len(),
        trimmed(s@) == s@.subrange(r.0 as int, r.1 as int),
{
    let n = s.len();
    assert(s@.subrange(0, n as int) =~= s@);
    let mut lo: usize = 0;
    loop
        invariant
            lo <= n == s@.len(),
            trim_start(s@) == trim_start(s@.subrange(lo as int, n as int)),
        ensures
            lo <= n == s@.len(),
            trim_start(s@) == s@.subrange(lo as int, n as int),
        decreases n - lo,
    {
        let k = leading_space(s, lo, n);
        if k == 0 {
            break;
        }
        assert(s@.subrange(lo as int, n as int).skip(k as int) =~= s@.subrange(lo + k, n as int));
        lo = lo + k;
    }
    let mut hi: usize = n;
    assert(trim_start(s@) == s@.subrange(lo as int, hi as int));
    loop
        invariant
            lo <= hi <= n == s@.len(),
            trimmed(s@) == trim_end(s@.subrange(lo as int, hi as int)),
        ensures
            lo <= hi <= n,
            trimmed(s@) == s@.subrange(lo as int, hi as int),
        decreases hi,
    {
        let k = trailing_space(s, lo, hi);
        if k == 0 {
            break;
        }
        assert(s@.subrange(lo as int, hi as int).take(hi - lo - k) =~= s@.subrange(
            lo as int,
            hi - k,
        ));
        hi = hi - k;
    }
    (lo, hi)
}

proof fn lemma_decimal_grows(s: Seq<u8>, i: int)
    requires
        0 <= i <= s.len(),
        forall|k: int| 0 <= k < s.len() ==> is_digit(#[trigger] s[k]),
    ensures
        decimal(s.take(i)) <= decimal(s),
        decimal(s.take(i)) >= 0,
    decreases s.len() - i,
{
    if i < s.len() {
        lemma_decimal_grows(s, i + 1);
        assert(s.take(i + 1).drop_last() =~= s.take(i));
    } else {
        assert(s.take(i) =~= s);
        lemma_decimal_nonneg(s);
    }
}

proof fn lemma_decimal_nonneg(s: Seq<u8>)
    requires
        forall|k: int| 0 <= k < s.len() ==> is_digit(#[trigger] s[k]),
    ensures
        decimal(s) >= 0,
    decreases s.len(),
{
    if s.len() > 0 {
        lemma_decimal_nonneg(s.drop_last());
    }
}

/// The unsigned number written by `s[lo..hi]`, if it is at most `max`.
fn parse_unsigned(s: &[u8], lo: usize, hi: usize, max: u64) -> (r: Option<u64>)
    requires
        lo <= hi <= s@.len(),
        9 <= max,
    ensures
        r matches Some(v) ==> unsigned_value(s@.subrange(lo as int, hi as int), max as int) == Some(v as int),
        r is None ==> unsigned_value(s@.subrange(lo as int, hi as int), max as int) is None,
{
    let ghost text = s@.subrange(lo as int, hi as int);
    let mut start = lo;
    if start < hi && s[start] == 0x2Bu8 {
        start = start + 1;
    }
    let ghost d = s@.subrange(start as int, hi as int);
    assert(unsigned_digits(text) =~= d);
    if start == hi {
        return None;
    }
    let mut acc: u64 = 0;
    let mut i = start;
    while i < hi
        invariant
            lo <= start <= i <= hi <= s@.len(),
            d == s@.subrange(start as int, hi as int),
            unsigned_digits(text) == d,
            text == s@.subrange(lo as int, hi as int),
            forall|k: int| 0 <= k < i - start ==> is_digit(#[trigger] d[k]),
            acc as int == decimal(d.take(i - start)),
            acc <= max,
            9 <= max,
        decreases hi - i,
    {
        let b = s[i];
        if b < 0x30u8 || b > 0x39u8 {
            assert(d[i - start] == b);
            assert(!all_digits(d));
            return None;
        }
        let digit = (b - 0x30u8) as u64;
        assert(d.take(i - start + 1).drop_last() =~= d.take(i - start));
        if acc > (max - digit) / 10 {
            proof {
                assert(acc * 10 + digit > max) by (nonlinear_arith)
                    requires
                        acc > (max - digit) / 10,
                        digit <= max,
                ;
                if all_digits(d) {
                    lemma_decimal_grows(d, i - start + 1);
                }
            }
            return None;
        }
        assert(acc * 10 + digit <= max) by (nonlinear_arith)
            requires
                acc <= (max - digit) / 10,
                digit <= max,
        ;
        acc = acc * 10 + digit;
        i = i + 1;
    }
    assert(d.take(i - start) =~= d);
    Some(acc)
}

/// The position of the first `-` in `s[lo..hi]`, counted from `lo`.
fn find_dash(s: &[u8], lo: usize, hi: usize) -> (r: Option<usize>)
    requires
        lo <= hi <= s@.len(),
    ensures
        r matches Some(p) ==> first_dash(s@.subrange(lo as int, hi as int), p as int),
        r is None ==> forall|p: int| !first_dash(s@.subrange(lo as int, hi as int), p),
{
    let ghost t = s@.subrange(lo as int, hi as int);
    let mut i = lo;
    while i < hi
        invariant
            lo <= i <= hi <= s@.len(),
            t == s@.subrange(lo as int, hi as int),
            forall|q: int| 0 <= q < i - lo ==> t[q] != 0x2Du8,
        decreases hi - i,
    {
        if s[i] == 0x2Du8 {
            return Some(i - lo);
        }
        i = i + 1;
    }
    assert forall|p: int| !first_dash(t, p) by {
        if first_dash(t, p) {
            assert(t[p] != 0x2Du8);
        }
    }
    None
}

/// The integer held by the text of an attribute file: surrounding whitespace
/// is ignored, and what remains must be an optional `+` and decimal digits
/// for a value that fits in 32 bits.
pub fn read_int_value(text: &[u8]) -> (r: Option<u32>)
    ensures
        r is Some <==> int_value(text@) is Some,
        r matches Some(v) ==> int_value(text@) == Some(v as int),
{
    let (lo, hi) = trim_bounds(text);
    match parse_unsigned(text, lo, hi, 0xFFFF_FFFF) {
        Some(v) => Some(v as u32),
        None => None,
    }
}

/// The bounds of a range written `from-to` (such as `0-7`) in the text of an
/// attribute file: surrounding whitespace is ignored, the text is split at its
/// first `-`, and each side must be an unsigned 8-bit number.
pub fn read_int_range_value(text: &[u8]) -> (r: Option<(u8, u8)>)
    ensures
        r is Some <==> range_value(text@) is Some,
        r matches Some((from, to)) ==> range_value(text@) == Some((from as int, to as int)),
{
    let (lo, hi) = trim_bounds(text);
    let ghost t = text@.subrange(lo as int, hi as int);
    match find_dash(text, lo, hi) {
        None => None,
        Some(p) => {
            proof {
                assert(first_dash(t, p as int));
                let c = choose|q: int| first_dash(t, q);
                if c < p {
                    assert(t[c] != 0x2Du8);
                }
                if p < c {
                    assert(t[p as int] != 0x2Du8);
                }
                assert(c == p);
                assert(t.take(p as int) =~= text@.subrange(lo as int, lo + p));
                assert(t.skip(p + 1) =~= text@.subrange(lo + p + 1, hi as int));
            }
            let from = parse_unsigned(text, lo, lo + p, 0xFF);
            let to = parse_unsigned(text, lo + p + 1, hi, 0xFF);
            match (from, to) {
                (Some(a), Some(b)) => Some((a as u8, b as u8)),
                _ => None,
            }
        },
    }
}

/// The cores numbered `from` to `to`, both included, in order; none when
/// `from` is greater than `to`.
pub fn cpu_range(from: u8, to: u8) -> (r: Vec<CpuId>)
    ensures
        r@.len() == if from <= to { to - from + 1 } else { 0 },
        forall|i: int| 0 <= i < r@.len() ==> (#[trigger] r@[i]).0 == from + i,
{
    let mut out: Vec<CpuId> = Vec::new();
    if from > to {
        return out;
    }
    let mut c: u8 = from;
    loop
        invariant
            from <= c <= to,
            out@.len() == c - from,
            forall|i: int| 0 <= i < out@.len() ==> (#[trigger] out@[i]).0 == from + i,
        decreases to - c,
    {
        out.push(CpuId(c));
        if c == to {
            return out;
        }
        c = c + 1;
    }
}

/// `s` split at every space, empty pieces included.
pub open spec fn split_spaces(s: Seq<u8>) -> Seq<Seq<u8>>
    decreases s.len(),
{
    if s.len() == 0 {
        seq![Seq::empty()]
    } else {
        let w = split_spaces(s.drop_last());
        if s.last() == 0x20u8 {
            w.push(Seq::empty())
        } else {
            w.update(w.len() - 1, w.last().push(s.last()))
        }
    }
}

proof fn lemma_split_nonempty(s: Seq<u8>)
    ensures
        split_spaces(s).len() > 0,
    decreases s.len(),
{
    if s.len() > 0 {
        lemma_split_nonempty(s.drop_last());
    }
}

/// The words of a list held by an attribute file: surrounding whitespace is
/// ignored and the rest is split at every space.
pub fn read_string_list_value(text: &[u8]) -> (r: Vec<Vec<u8>>)
    ensures
        r@.map_values(|w: Vec<u8>| w@) == split_spaces(trimmed(text@)),
{
    let (lo, hi) = trim_bounds(text);
    let ghost t = text@.subrange(lo as int, hi as int);
    let mut done: Vec<Vec<u8>> = Vec::new();
    let mut word: Vec<u8> = Vec::new();
    let mut i = lo;
    assert(t.take(0) =~= Seq::<u8>::empty());
    assert(done@.map_values(|w: Vec<u8>| w@).push(word@) =~= split_spaces(t.take(0)));
    while i < hi
        invariant
            lo <= i <= hi <= text@.len(),
            t == text@.subrange(lo as int, hi as int),
            done@.map_values(|w: Vec<u8>| w@).push(word@) == split_spaces(t.take(i - lo)),
        decreases hi - i,
    {
        let b = text[i];
        let ghost before = split_spaces(t.take(i - lo));
        assert(t.take(i - lo + 1).drop_last() =~= t.take(i - lo));
        assert(t.take(i - lo + 1).last() == b);
        if b == 0x20u8 {
            let mut finished: Vec<u8> = Vec::new();
            std::mem::swap(&mut finished, &mut word);
            done.push(finished);
            assert(done@.map_values(|w: Vec<u8>| w@).push(word@) =~= before.push(Seq::empty()));
        } else {
            proof {
                lemma_split_nonempty(t.take(i - lo));
            }
            word.push(b);
            assert(done@.map_values(|w: Vec<u8>| w@).push(word@) =~= before.update(
                before.len() - 1,
                before.last().push(b),
            ));
        }
        i = i + 1;
    }
    assert(t.take(hi - lo) =~= t);
    done.push(word);
    assert(done@.map_values(|w: Vec<u8>| w@) =~= split_spaces(t));
    done
}

/// The driver status that means the driver is in active mode.
pub open spec fn active_status() -> Seq<u8> {
    seq![0x61u8, 0x63u8, 0x74u8, 0x69u8, 0x76u8, 0x65u8]
}

/// The value of an attribute file without surrounding whitespace.
pub fn read_string_value(text: &[u8]) -> (r: Vec<u8>)
    ensures
        r@ == trimmed(text@),
{
    let (lo, hi) = trim_bounds(text);
    let mut out: Vec<u8> = Vec::new();
    let mut i = lo;
    while i < hi
        invariant
            lo <= i <= hi <= text@.len(),
            out@ == text@.subrange(lo as int, i as int),
        decreases hi - i,
    {
        out.push(text[i]);
        i = i + 1;
        assert(out@ =~= text@.subrange(lo as int, i as int));
    }
    out
}

/// Whether the driver status file says `active`, surrounding whitespace aside.
/// A status that could not be read is passed as empty text.
pub fn is_amd_pstate_enabled(status: &[u8]) -> (r: bool)
    ensures
        r == (trimmed(status@) == active_status()),
{
    let value = read_string_value(status);
    let active: Vec<u8> = vec![0x61u8, 0x63u8, 0x74u8, 0x69u8, 0x76u8, 0x65u8];
    assert(active@ =~= active_status());
    if value.len() != active.len() {
        return false;
    }
    let mut i: usize = 0;
    while i < value.len()
        invariant
            value@.len() == active@.len(),
            value@ == trimmed(status@),
            active@ == active_status(),
            i <= value@.len(),
            forall|k: int| 0 <= k < i ==> value@[k] == active@[k],
        decreases value@.len() - i,
    {
        if value[i] != active[i] {
            return false;
        }
        i = i + 1;
    }
    assert(value@ =~= active@);
    true
}

/// The cores listed by the text of the `present` attribute, a range `from-to`;
/// `None` when the text is not such a range.
pub fn get_cpus(present: &[u8]) -> (r: Option<Vec<CpuId>>)
    ensures
        r is Some <==> range_value(present@) is Some,
        r matches Some(cpus) ==> ({
            let (from, to) = range_value(present@)->Some_0;
            &&& cpus@.len() == if from <= to { to - from + 1 } else { 0 }
            &&& forall|i: int| 0 <= i < cpus@.len() ==> (#[trigger] cpus@[i]).0 == from + i
        }),
{
    match read_int_range_value(present) {
        Some((from, to)) => Some(cpu_range(from, to)),
        None => None,
    }
}

/// The first of the cores, if there is one.
pub fn first_cpu(cpus: &Vec<CpuId>) -> (r: Option<CpuId>)
    ensures
        cpus@.len() == 0 ==> r is None,
        cpus@.len() > 0 ==> r == Some(cpus@[0]),
{
    if cpus.len() == 0 {
        None
    } else {
        Some(cpus[0])
    }
}

} // verus!
