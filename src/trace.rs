//! The line structure of a trace, and the event that a run counts when no
//! event filter is given: the first event named by a header.
//!
//! A trace is a sequence of lines ended by `\n`. Lines starting with `#` are
//! metadata and are skipped. A line of whitespace (ASCII or Unicode, in
//! UTF-8) ends a record block. The
//! first other line of a block is read as its header; when it is malformed the
//! next line is tried as a header in its turn, and once a header has been read
//! the rest of the block are frame lines.
//!
//! Two line-by-line checks tell whether the folder can take a trace: no frame
//! has its symbol cut inside a character by the folder's symbol clean-up, and
//! the periods of the headers cannot add up past `usize`.
use vstd::prelude::*;
use vstd::utf8::is_continuation_byte;
use crate::header::{header_event, header_event_in, header_period, header_period_in, is_digit, is_space};

verus! {

/// Where the line that starts at `i` ends: the next `\n`, or the end of `s`.
pub open spec fn line_end(s: Seq<u8>, i: int) -> int
    decreases s.len() - i,
{
    if i >= s.len() {
        s.len() as int
    } else if s[i] == 10 {
        i
    } else {
        line_end(s, i + 1)
    }
}

/// The three bytes encode a whitespace character of U+1680, U+2000 to U+200A,
/// U+2028, U+2029, U+202F, U+205F or U+3000.
pub open spec fn is_wide_space(a: u8, b: u8, c: u8) -> bool {
    ||| (a == 0xE1 && b == 0x9A && c == 0x80)
    ||| (a == 0xE2 && b == 0x80 && ((0x80 <= c && c <= 0x8A) || c == 0xA8 || c == 0xA9 || c
        == 0xAF))
    ||| (a == 0xE2 && b == 0x81 && c == 0x9F)
    ||| (a == 0xE3 && b == 0x80 && c == 0x80)
}

/// The length in bytes of the whitespace character that ends `s[lo..hi]`, or
/// zero when it ends with none. U+0085 and U+00A0 take two bytes.
pub open spec fn space_tail(s: Seq<u8>, lo: int, hi: int) -> int {
    if hi - 1 >= lo && is_space(s[hi - 1]) {
        1
    } else if hi - 2 >= lo && s[hi - 2] == 0xC2 && (s[hi - 1] == 0x85 || s[hi - 1] == 0xA0) {
        2
    } else if hi - 3 >= lo && is_wide_space(s[hi - 3], s[hi - 2], s[hi - 1]) {
        3
    } else {
        0
    }
}

/// The end of `s[lo..hi]` once trailing whitespace characters are taken off.
pub open spec fn trim_end(s: Seq<u8>, lo: int, hi: int) -> int
    decreases hi - lo,
{
    if hi <= lo || space_tail(s, lo, hi) == 0 {
        hi
    } else {
        trim_end(s, lo, hi - space_tail(s, lo, hi))
    }
}

pub proof fn lemma_line_end_bounds(s: Seq<u8>, i: int)
    requires
        0 <= i <= s.len(),
    ensures
        i <= line_end(s, i) <= s.len(),
    decreases s.len() - i,
{
    if i < s.len() && s[i] != 10 {
        lemma_line_end_bounds(s, i + 1);
    }
}

/// The first event name of a header read from position `i` on, where
/// `in_event` tells whether a header of the current block has been read.
pub open spec fn first_event_from(s: Seq<u8>, i: int, in_event: bool) -> Option<Seq<u8>>
    decreases s.len() + 1 - i
    via first_event_from_decreases
{
    if i < 0 || i >= s.len() {
        None
    } else {
        let e = line_end(s, i);
        let t = trim_end(s, i, e);
        if s[i] == 35 {
            first_event_from(s, e + 1, in_event)
        } else if t == i {
            first_event_from(s, e + 1, false)
        } else if in_event {
            first_event_from(s, e + 1, true)
        } else {
            match header_event(s, i, t) {
                None => first_event_from(s, e + 1, false),
                Some(None) => first_event_from(s, e + 1, true),
                Some(Some(name)) => Some(name),
            }
        }
    }
}

#[via_fn]
proof fn first_event_from_decreases(s: Seq<u8>, i: int, in_event: bool) {
    if 0 <= i < s.len() {
        lemma_line_end_bounds(s, i);
    }
}

/// The event that a run counts when no filter is given.
pub open spec fn first_event_of(s: Seq<u8>) -> Option<Seq<u8>> {
    first_event_from(s, 0, false)
}

pub open spec fn is_hex(b: u8) -> bool {
    is_digit(b) || (97 <= b && b <= 102) || (65 <= b && b <= 70)
}

/// The last space of `s[lo..k]`, or `lo - 1` when there is none.
pub open spec fn last_space(s: Seq<u8>, lo: int, k: int) -> int
    decreases k - lo,
{
    if k <= lo {
        lo - 1
    } else if s[k - 1] == 32 {
        k - 1
    } else {
        last_space(s, lo, k - 1)
    }
}

/// Where the run of hex digits that ends `s[lo..e]` starts.
pub open spec fn hex_start(s: Seq<u8>, lo: int, e: int) -> int
    decreases e - lo,
{
    if e <= lo {
        lo
    } else if is_hex(s[e - 1]) {
        hex_start(s, lo, e - 1)
    } else {
        e
    }
}

/// The end of a symbol that ends at `e` once a `+0x<hex>` offset is taken off.
pub open spec fn symbol_end(s: Seq<u8>, lo: int, e: int) -> int {
    let h = hex_start(s, lo, e);
    if h - 3 >= lo && s[h - 3] == 43 && s[h - 2] == 48 && s[h - 1] == 120 {
        h - 3
    } else {
        e
    }
}

/// The line `s[lo..t]` ends like a frame, `... <symbol> (<module>)`, and the
/// byte seventeen before the end of its symbol lies inside a character. The
/// symbol ends at the last space before the module, with trailing whitespace
/// and any offset taken off; its start is not looked at, so a header that
/// carries a frame is judged by the same rule.
pub open spec fn frame_cut_inside_char(s: Seq<u8>, lo: int, t: int) -> bool {
    let m = last_space(s, lo, t);
    &&& m >= lo
    &&& m + 1 < t
    &&& s[m + 1] == 40
    &&& s[t - 1] == 41
    &&& symbol_end(s, lo, trim_end(s, lo, m)) - 17 >= lo
    &&& is_continuation_byte(s[symbol_end(s, lo, trim_end(s, lo, m)) - 17])
}

/// No line from `i` on, but metadata lines, is a frame whose symbol would be
/// cut inside a character.
pub open spec fn frames_cut_cleanly_from(s: Seq<u8>, i: int) -> bool
    decreases s.len() + 1 - i
    via frames_cut_cleanly_from_decreases
{
    if i < 0 || i >= s.len() {
        true
    } else {
        let e = line_end(s, i);
        (s[i] == 35 || !frame_cut_inside_char(s, i, trim_end(s, i, e))) && frames_cut_cleanly_from(
            s,
            e + 1,
        )
    }
}

#[via_fn]
proof fn frames_cut_cleanly_from_decreases(s: Seq<u8>, i: int) {
    if 0 <= i < s.len() {
        lemma_line_end_bounds(s, i);
    }
}

/// The most that a line can add to the counts: its period when it is a
/// header with one, else one.
pub open spec fn line_weight(s: Seq<u8>, lo: int, t: int) -> nat {
    match header_period(s, lo, t) {
        Some(p) => p,
        None => 1,
    }
}

/// The sum of the weights of the lines from `i` on, metadata lines left out.
pub open spec fn weight_from(s: Seq<u8>, i: int) -> nat
    decreases s.len() + 1 - i
    via weight_from_decreases
{
    if i < 0 || i >= s.len() {
        0
    } else {
        let e = line_end(s, i);
        (if s[i] == 35 {
            0
        } else {
            line_weight(s, i, trim_end(s, i, e))
        }) + weight_from(s, e + 1)
    }
}

#[via_fn]
proof fn weight_from_decreases(s: Seq<u8>, i: int) {
    if 0 <= i < s.len() {
        lemma_line_end_bounds(s, i);
    }
}

/// No frame of the trace has its symbol cut inside a character.
pub open spec fn frames_cut_cleanly(s: Seq<u8>) -> bool {
    frames_cut_cleanly_from(s, 0)
}

/// A bound on every count of the folded lines: each counted record adds its
/// header's period, or one, and has a header line of its own.
pub open spec fn weight_total(s: Seq<u8>) -> nat {
    weight_from(s, 0)
}

fn line_end_exec(s: &[u8], from: usize) -> (r: usize)
    requires
        from <= s@.len(),
    ensures
        r as int == line_end(s@, from as int),
        from <= r <= s@.len(),
{
    let mut i: usize = from;
    while i < s.len()
        invariant
            from <= i <= s@.len(),
            line_end(s@, from as int) == line_end(s@, i as int),
        decreases s@.len() - i,
    {
        if s[i] == 10 {
            return i;
        }
        i = i + 1;
    }
    i
}

fn space_tail_exec(s: &[u8], lo: usize, hi: usize) -> (r: usize)
    requires
        lo <= hi <= s@.len(),
    ensures
        r as int == space_tail(s@, lo as int, hi as int),
{
    if hi - lo >= 1 {
        let b = s[hi - 1];
        if b == 32 || (9 <= b && b <= 13) {
            return 1;
        }
    }
    if hi - lo >= 2 && s[hi - 2] == 0xC2 && (s[hi - 1] == 0x85 || s[hi - 1] == 0xA0) {
        return 2;
    }
    if hi - lo >= 3 {
        let (a, b, c) = (s[hi - 3], s[hi - 2], s[hi - 1]);
        if (a == 0xE1 && b == 0x9A && c == 0x80) || (a == 0xE2 && b == 0x80 && ((0x80 <= c && c
            <= 0x8A) || c == 0xA8 || c == 0xA9 || c == 0xAF)) || (a == 0xE2 && b == 0x81 && c
            == 0x9F) || (a == 0xE3 && b == 0x80 && c == 0x80) {
            return 3;
        }
    }
    0
}

pub(crate) fn trim_end_exec(s: &[u8], lo: usize, hi: usize) -> (r: usize)
    requires
        lo <= hi <= s@.len(),
    ensures
        r as int == trim_end(s@, lo as int, hi as int),
        lo <= r <= hi,
{
    let mut j: usize = hi;
    while j > lo
        invariant
            lo <= j <= hi <= s@.len(),
            trim_end(s@, lo as int, hi as int) == trim_end(s@, lo as int, j as int),
        decreases j - lo,
    {
        let w = space_tail_exec(s, lo, j);
        if w == 0 {
            return j;
        }
        j = j - w;
    }
    j
}

fn last_space_exec(s: &[u8], lo: usize, k: usize) -> (r: Option<usize>)
    requires
        lo <= k <= s@.len(),
    ensures
        match r {
            Some(m) => m as int == last_space(s@, lo as int, k as int) && lo <= m < k,
            None => last_space(s@, lo as int, k as int) == lo - 1,
        },
{
    let mut j: usize = k;
    while j > lo
        invariant
            lo <= j <= k <= s@.len(),
            last_space(s@, lo as int, k as int) == last_space(s@, lo as int, j as int),
        decreases j - lo,
    {
        if s[j - 1] == 32 {
            return Some(j - 1);
        }
        j = j - 1;
    }
    None
}

fn symbol_end_exec(s: &[u8], lo: usize, e: usize) -> (r: usize)
    requires
        lo <= e <= s@.len(),
    ensures
        r as int == symbol_end(s@, lo as int, e as int),
        lo <= r <= e,
{
    let mut h: usize = e;
    while h > lo && ((48 <= s[h - 1] && s[h - 1] <= 57) || (97 <= s[h - 1] && s[h - 1] <= 102) || (
    65 <= s[h - 1] && s[h - 1] <= 70))
        invariant
            lo <= h <= e <= s@.len(),
            hex_start(s@, lo as int, e as int) == hex_start(s@, lo as int, h as int),
        decreases h - lo,
    {
        h = h - 1;
    }
    if h - lo >= 3 && s[h - 3] == 43 && s[h - 2] == 48 && s[h - 1] == 120 {
        h - 3
    } else {
        e
    }
}

fn frame_cut_inside_char_exec(s: &[u8], lo: usize, t: usize) -> (r: bool)
    requires
        lo <= t <= s@.len(),
    ensures
        r == frame_cut_inside_char(s@, lo as int, t as int),
{
    match last_space_exec(s, lo, t) {
        None => false,
        Some(m) => {
            if m + 1 < t && s[m + 1] == 40 && s[t - 1] == 41 {
                let c = symbol_end_exec(s, lo, trim_end_exec(s, lo, m));
                c - lo >= 17 && 0x80 <= s[c - 17] && s[c - 17] <= 0xBF
            } else {
                false
            }
        },
    }
}

/// Tests [`frames_cut_cleanly`] on the bytes of a trace.
pub fn frames_cut_cleanly_exec(trace: &[u8]) -> (r: bool)
    ensures
        r == frames_cut_cleanly(trace@),
{
    let mut i: usize = 0;
    while i < trace.len()
        invariant
            i <= trace@.len(),
            frames_cut_cleanly(trace@) == frames_cut_cleanly_from(trace@, i as int),
        decreases trace@.len() - i,
    {
        let e = line_end_exec(trace, i);
        let t = trim_end_exec(trace, i, e);
        if trace[i] != 35 && frame_cut_inside_char_exec(trace, i, t) {
            return false;
        }
        i = if e < trace.len() {
            e + 1
        } else {
            e
        };
        assert(frames_cut_cleanly_from(trace@, e + 1) == frames_cut_cleanly_from(
            trace@,
            i as int,
        ));
    }
    true
}

/// Tests whether [`weight_total`] of the trace fits in `usize`.
pub fn weight_fits(trace: &[u8]) -> (r: bool)
    ensures
        r == (weight_total(trace@) <= usize::MAX),
{
    let mut i: usize = 0;
    let mut total: usize = 0;
    while i < trace.len()
        invariant
            i <= trace@.len(),
            weight_total(trace@) == total + weight_from(trace@, i as int),
        decreases trace@.len() - i,
    {
        let e = line_end_exec(trace, i);
        let t = trim_end_exec(trace, i, e);
        let w: usize = if trace[i] == 35 {
            0
        } else {
            match header_period_in(trace, i, t) {
                Some(p) => p,
                None => 1,
            }
        };
        if w > usize::MAX - total {
            return false;
        }
        total = total + w;
        i = if e < trace.len() {
            e + 1
        } else {
            e
        };
        assert(weight_from(trace@, e + 1) == weight_from(trace@, i as int));
    }
    true
}

/// The first event named by a header of the trace, if any header names one.
pub fn first_event(trace: &[u8]) -> (r: Option<Vec<u8>>)
    ensures
        match r {
            None => first_event_of(trace@) is None,
            Some(name) => first_event_of(trace@) == Some(name@),
        },
{
    let mut i: usize = 0;
    let mut in_event = false;
    while i < trace.len()
        invariant
            i <= trace@.len(),
            first_event_of(trace@) == first_event_from(trace@, i as int, in_event),
        decreases trace@.len() - i,
    {
        let e = line_end_exec(trace, i);
        let t = trim_end_exec(trace, i, e);
        let ghost was_in_event = in_event;
        if trace[i] == 35 {
        } else if t == i {
            in_event = false;
        } else if !in_event {
            match header_event_in(trace, i, t) {
                None => {
                    in_event = false;
                },
                Some(None) => {
                    in_event = true;
                },
                Some(Some(name)) => {
                    return Some(name);
                },
            }
        }
        assert(first_event_from(trace@, i as int, was_in_event) == first_event_from(
            trace@,
            e + 1,
            in_event,
        ));
        i = if e < trace.len() {
            e + 1
        } else {
            e
        };
        assert(first_event_from(trace@, e + 1, in_event) == first_event_from(
            trace@,
            i as int,
            in_event,
        ));
    }
    None
}

} // verus!
