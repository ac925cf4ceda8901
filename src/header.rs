//! The grammar of an event header line, such as
//! `java 24636/25607 [000] 4794564.109216: 1000 cycles:`.
//!
//! A header is split after the first word of digits (with `/` allowed, for
//! `pid/tid`) that follows a space and is followed by a space. The event name
//! is the last space-separated word between the first and the second `:` after
//! that split.
use vstd::prelude::*;

verus! {

pub open spec fn is_space(b: u8) -> bool {
    b == 32 || (9 <= b && b <= 13)
}

pub open spec fn is_id_byte(b: u8) -> bool {
    (48 <= b && b <= 57) || b == 47
}

/// The number of digit or `/` bytes that end just before `i`, not going below `lo`.
pub open spec fn id_run(s: Seq<u8>, lo: int, i: int) -> int
    decreases i - lo,
{
    if i <= lo {
        0
    } else if is_id_byte(s[i - 1]) {
        1 + id_run(s, lo, i - 1)
    } else {
        0
    }
}

/// The space at `i` ends a non-empty word of digits that follows a space.
pub open spec fn is_split(s: Seq<u8>, lo: int, i: int) -> bool {
    &&& s[i] == 32
    &&& id_run(s, lo, i) >= 1
    &&& i - id_run(s, lo, i) - 1 >= lo
    &&& s[i - id_run(s, lo, i) - 1] == 32
}

/// The position just after the first split at or after `i` and before `hi`.
pub open spec fn split_from(s: Seq<u8>, lo: int, i: int, hi: int) -> Option<int>
    decreases hi - i,
{
    if i >= hi {
        None
    } else if is_split(s, lo, i) {
        Some(i + 1)
    } else {
        split_from(s, lo, i + 1, hi)
    }
}

/// The first position at or after `i` and before `hi` that holds `c`, or `hi`.
pub open spec fn find_byte(s: Seq<u8>, c: u8, i: int, hi: int) -> int
    decreases hi - i,
{
    if i >= hi {
        hi
    } else if s[i] == c {
        i
    } else {
        find_byte(s, c, i + 1, hi)
    }
}

/// Where the last space-separated word of `s[lo..k]` starts.
pub open spec fn word_start(s: Seq<u8>, lo: int, k: int) -> int
    decreases k - lo,
{
    if k <= lo {
        lo
    } else if s[k - 1] == 32 {
        k
    } else {
        word_start(s, lo, k - 1)
    }
}

/// What the line `s[lo..hi]` is as a header: `None` when it is malformed,
/// `Some(None)` when it is a header without an event name, and
/// `Some(Some(name))` otherwise.
pub open spec fn header_event(s: Seq<u8>, lo: int, hi: int) -> Option<Option<Seq<u8>>> {
    match split_from(s, lo, lo, hi) {
        None => None,
        Some(e) => {
            let c1 = find_byte(s, 58, e, hi);
            if c1 >= hi {
                Some(None)
            } else {
                let c2 = find_byte(s, 58, c1 + 1, hi);
                Some(Some(s.subrange(word_start(s, c1 + 1, c2), c2)))
            }
        },
    }
}

fn split_exec(s: &[u8], lo: usize, hi: usize) -> (r: Option<usize>)
    requires
        lo <= hi <= s@.len(),
    ensures
        match r {
            Some(e) => split_from(s@, lo as int, lo as int, hi as int) == Some(e as int),
            None => split_from(s@, lo as int, lo as int, hi as int) is None,
        },
        r matches Some(e) ==> lo < e <= hi,
{
    let mut i: usize = lo;
    let mut run: usize = 0;
    while i < hi
        invariant
            lo <= i <= hi <= s@.len(),
            run == id_run(s@, lo as int, i as int),
            run <= i - lo,
            split_from(s@, lo as int, lo as int, hi as int) == split_from(
                s@,
                lo as int,
                i as int,
                hi as int,
            ),
        decreases hi - i,
    {
        if s[i] == 32 && run >= 1 && i >= lo + run + 1 && s[i - run - 1] == 32 {
            return Some(i + 1);
        }
        if (48 <= s[i] && s[i] <= 57) || s[i] == 47 {
            run = run + 1;
        } else {
            run = 0;
        }
        i = i + 1;
    }
    None
}

fn find_exec(s: &[u8], c: u8, from: usize, hi: usize) -> (r: usize)
    requires
        from <= hi <= s@.len(),
    ensures
        r as int == find_byte(s@, c, from as int, hi as int),
        from <= r <= hi,
{
    let mut i: usize = from;
    while i < hi
        invariant
            from <= i <= hi <= s@.len(),
            find_byte(s@, c, from as int, hi as int) == find_byte(s@, c, i as int, hi as int),
        decreases hi - i,
    {
        if s[i] == c {
            return i;
        }
        i = i + 1;
    }
    i
}

fn word_start_exec(s: &[u8], lo: usize, k: usize) -> (r: usize)
    requires
        lo <= k <= s@.len(),
    ensures
        r as int == word_start(s@, lo as int, k as int),
        lo <= r <= k,
{
    let mut j: usize = k;
    while j > lo
        invariant
            lo <= j <= k <= s@.len(),
            word_start(s@, lo as int, k as int) == word_start(s@, lo as int, j as int),
        decreases j - lo,
    {
        if s[j - 1] == 32 {
            return j;
        }
        j = j - 1;
    }
    j
}

fn copy_range(s: &[u8], from: usize, to: usize) -> (r: Vec<u8>)
    requires
        from <= to <= s@.len(),
    ensures
        r@ == s@.subrange(from as int, to as int),
{
    let mut r: Vec<u8> = Vec::new();
    let mut i: usize = from;
    while i < to
        invariant
            from <= i <= to <= s@.len(),
            r@ == s@.subrange(from as int, i as int),
        decreases to - i,
    {
        r.push(s[i]);
        i = i + 1;
        assert(r@ =~= s@.subrange(from as int, i as int));
    }
    r
}

/// Reads the line `s[lo..hi]` as a header (see [`header_event`]).
pub fn header_event_in(s: &[u8], lo: usize, hi: usize) -> (r: Option<Option<Vec<u8>>>)
    requires
        lo <= hi <= s@.len(),
    ensures
        match r {
            None => header_event(s@, lo as int, hi as int) is None,
            Some(None) => header_event(s@, lo as int, hi as int) == Some(None::<Seq<u8>>),
            Some(Some(name)) => header_event(s@, lo as int, hi as int) == Some(Some(name@)),
        },
{
    match split_exec(s, lo, hi) {
        None => None,
        Some(e) => {
            let c1 = find_exec(s, 58, e, hi);
            if c1 >= hi {
                Some(None)
            } else {
                let c2 = find_exec(s, 58, c1 + 1, hi);
                let start = word_start_exec(s, c1 + 1, c2);
                Some(Some(copy_range(s, start, c2)))
            }
        },
    }
}

/// Reads a whole line as a header: `None` when it is malformed, `Some(None)`
/// when it names no event, and `Some(Some(name))` with the event name.
pub fn event_of_header(line: &[u8]) -> (r: Option<Option<Vec<u8>>>)
    ensures
        match r {
            None => header_event(line@, 0, line@.len() as int) is None,
            Some(None) => header_event(line@, 0, line@.len() as int) == Some(None::<Seq<u8>>),
            Some(Some(name)) => header_event(line@, 0, line@.len() as int) == Some(Some(name@)),
        },
{
    header_event_in(line, 0, line.len())
}

pub open spec fn is_digit(b: u8) -> bool {
    48 <= b && b <= 57
}

/// The decimal value of the digits `s[a..k]`.
pub open spec fn digits_value(s: Seq<u8>, a: int, k: int) -> nat
    decreases k - a,
{
    if k <= a {
        0
    } else {
        digits_value(s, a, k - 1) * 10 + (s[k - 1] - 48) as nat
    }
}

/// `s[a..b]` read as an unsigned machine word: an optional `+`, then at least
/// one digit and nothing else, with a value that fits in `usize`.
pub open spec fn parse_word(s: Seq<u8>, a: int, b: int) -> Option<nat> {
    let d = if a < b && s[a] == 43 {
        a + 1
    } else {
        a
    };
    if d >= b || !(forall|k: int| d <= k < b ==> #[trigger] is_digit(s[k])) {
        None
    } else if digits_value(s, d, b) > usize::MAX {
        None
    } else {
        Some(digits_value(s, d, b))
    }
}

/// The sample period of the header `s[lo..hi]`: the word before the event
/// name, between the first and second `:` after the split, when it parses.
pub open spec fn header_period(s: Seq<u8>, lo: int, hi: int) -> Option<nat> {
    match split_from(s, lo, lo, hi) {
        None => None,
        Some(e) => {
            let c1 = find_byte(s, 58, e, hi);
            if c1 >= hi {
                None
            } else {
                let c2 = find_byte(s, 58, c1 + 1, hi);
                let n = word_start(s, c1 + 1, c2);
                if n == c1 + 1 {
                    None
                } else {
                    parse_word(s, word_start(s, c1 + 1, n - 1), n - 1)
                }
            }
        },
    }
}

proof fn lemma_digits_value_grows(s: Seq<u8>, a: int, k: int, j: int)
    requires
        a <= k <= j <= s.len(),
        forall|q: int| a <= q < j ==> #[trigger] is_digit(s[q]),
    ensures
        digits_value(s, a, k) <= digits_value(s, a, j),
    decreases j - k,
{
    if k < j {
        lemma_digits_value_grows(s, a, k, j - 1);
        assert(is_digit(s[j - 1]));
    }
}

fn parse_word_exec(s: &[u8], a: usize, b: usize) -> (r: Option<usize>)
    requires
        a <= b <= s@.len(),
    ensures
        match r {
            Some(v) => parse_word(s@, a as int, b as int) == Some(v as nat),
            None => parse_word(s@, a as int, b as int) is None,
        },
{
    let d: usize = if a < b && s[a] == 43 {
        a + 1
    } else {
        a
    };
    if d >= b {
        return None;
    }
    let mut k: usize = d;
    while k < b
        invariant
            d <= k <= b <= s@.len(),
            d as int == (if a < b && s@[a as int] == 43 {
                a + 1
            } else {
                a as int
            }),
            forall|q: int| d <= q < k ==> #[trigger] is_digit(s@[q]),
        decreases b - k,
    {
        if !(48 <= s[k] && s[k] <= 57) {
            assert(!is_digit(s@[k as int]));
            return None;
        }
        k = k + 1;
    }
    let mut acc: usize = 0;
    let mut j: usize = d;
    while j < b
        invariant
            d <= j <= b <= s@.len(),
            d as int == (if a < b && s@[a as int] == 43 {
                a + 1
            } else {
                a as int
            }),
            forall|q: int| d <= q < b ==> #[trigger] is_digit(s@[q]),
            acc as nat == digits_value(s@, d as int, j as int),
        decreases b - j,
    {
        assert(is_digit(s@[j as int]));
        let next: u128 = acc as u128 * 10 + (s[j] - 48) as u128;
        if next > usize::MAX as u128 {
            proof {
                lemma_digits_value_grows(s@, d as int, j + 1, b as int);
                assert(digits_value(s@, d as int, j + 1) == next);
            }
            return None;
        }
        acc = next as usize;
        j = j + 1;
    }
    Some(acc)
}

/// Reads the period of the header `s[lo..hi]` (see [`header_period`]).
pub fn header_period_in(s: &[u8], lo: usize, hi: usize) -> (r: Option<usize>)
    requires
        lo <= hi <= s@.len(),
    ensures
        match r {
            Some(v) => header_period(s@, lo as int, hi as int) == Some(v as nat),
            None => header_period(s@, lo as int, hi as int) is None,
        },
{
    match split_exec(s, lo, hi) {
        None => None,
        Some(e) => {
            let c1 = find_exec(s, 58, e, hi);
            if c1 >= hi {
                None
            } else {
                let c2 = find_exec(s, 58, c1 + 1, hi);
                let n = word_start_exec(s, c1 + 1, c2);
                if n == c1 + 1 {
                    None
                } else {
                    let w = word_start_exec(s, c1 + 1, n - 1);
                    parse_word_exec(s, w, n - 1)
                }
            }
        },
    }
}

} // verus!
