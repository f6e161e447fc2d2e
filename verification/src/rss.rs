//! Reading the resident-set size out of the process-status text.
//!
//! The probe itself opens an OS pseudo-file and hands its bytes over; that
//! read stays with the binary. Everything after the read is here: scan the
//! text line by line for the first line that begins with the marker
//! `VmRSS:`, take the second whitespace-delimited field of that line, and
//! parse it as an unsigned decimal number of kilobytes. The scan yields
//! nothing when no line carries the marker, when the marker line has no
//! second field, or when that field is not a number that fits in 64 bits.

use vstd::prelude::*;

verus! {

/// Line feed, which ends a line.
pub const LINE_FEED: u8 = 10;

/// Carriage return, stripped from a line end before the line is read.
pub const CARRIAGE_RETURN: u8 = 13;

/// Whether a byte separates fields within a line: the ASCII whitespace
/// bytes (space, tab, line feed, vertical tab, form feed, carriage return).
pub open spec fn is_space(b: u8) -> bool {
    b == 32 || b == 9 || b == 10 || b == 11 || b == 12 || b == 13
}

/// Whether a byte is an ASCII decimal digit.
pub open spec fn is_digit(b: u8) -> bool {
    48 <= b <= 57
}

/// The index of the first line feed at or after `i`, or the length of `s`
/// when the rest of `s` holds none: the end of the line that starts at `i`.
pub open spec fn line_end(s: Seq<u8>, i: int) -> int
    decreases s.len() - i
        when 0 <= i <= s.len()
{
    if i >= s.len() {
        s.len() as int
    } else if s[i] == LINE_FEED {
        i
    } else {
        line_end(s, i + 1)
    }
}

/// The first index at or after `i`, up to `end`, whose byte is not field
/// whitespace: where the next field starts.
pub open spec fn skip_space(s: Seq<u8>, i: int, end: int) -> int
    decreases end - i
        when 0 <= i <= end <= s.len()
{
    if i < end && is_space(s[i]) {
        skip_space(s, i + 1, end)
    } else {
        i
    }
}

/// The first index at or after `i`, up to `end`, whose byte is field
/// whitespace: where the field that starts at `i` ends.
pub open spec fn skip_field(s: Seq<u8>, i: int, end: int) -> int
    decreases end - i
        when 0 <= i <= end <= s.len()
{
    if i < end && !is_space(s[i]) {
        skip_field(s, i + 1, end)
    } else {
        i
    }
}

/// Whether the line `s[lo..hi]` begins with the marker `VmRSS:`, written
/// out as its six ASCII bytes.
pub open spec fn has_marker(s: Seq<u8>, lo: int, hi: int) -> bool {
    &&& hi - lo >= 6
    &&& s[lo] == 86
    &&& s[lo + 1] == 109
    &&& s[lo + 2] == 82
    &&& s[lo + 3] == 83
    &&& s[lo + 4] == 83
    &&& s[lo + 5] == 58
}

/// Whether every byte of `s[lo..hi]` is a decimal digit.
pub open spec fn all_digits(s: Seq<u8>, lo: int, hi: int) -> bool {
    forall|i: int| lo <= i < hi ==> #[trigger] is_digit(s[i])
}

/// The number that the digits `s[lo..hi]` write in decimal, most
/// significant digit first.
pub open spec fn digits_val(s: Seq<u8>, lo: int, hi: int) -> nat
    decreases hi - lo
        when lo <= hi
{
    if lo >= hi {
        0
    } else {
        (digits_val(s, lo, hi - 1) * 10 + (s[hi - 1] - 48)) as nat
    }
}

/// What parsing `s[lo..hi]` as an unsigned decimal number gives: its value,
/// when the range is non-empty, all digits, and the value fits in 64 bits;
/// nothing otherwise.
pub open spec fn decimal_value(s: Seq<u8>, lo: int, hi: int) -> Option<u64> {
    if lo < hi && all_digits(s, lo, hi) && digits_val(s, lo, hi) <= u64::MAX {
        Some(digits_val(s, lo, hi) as u64)
    } else {
        None
    }
}

/// What the marker line `s[lo..hi]` yields: its second whitespace-delimited
/// field parsed as an unsigned decimal number. An absent second field
/// leaves `c == d` and so yields nothing.
pub open spec fn line_value(s: Seq<u8>, lo: int, hi: int) -> Option<u64> {
    let a = skip_space(s, lo, hi);
    let b = skip_field(s, a, hi);
    let c = skip_space(s, b, hi);
    let d = skip_field(s, c, hi);
    decimal_value(s, c, d)
}

/// The bounds of `line_end`: it stays within `[i, s.len()]`, no line feed
/// stands before it, and a line feed stands at it unless the text ended.
pub proof fn lemma_line_end_bounds(s: Seq<u8>, i: int)
    requires
        0 <= i <= s.len(),
    ensures
        i <= line_end(s, i) <= s.len(),
        forall|j: int| i <= j < line_end(s, i) ==> s[j] != LINE_FEED,
        line_end(s, i) < s.len() ==> s[line_end(s, i)] == LINE_FEED,
    decreases s.len() - i,
{
    if i < s.len() && s[i] != LINE_FEED {
        lemma_line_end_bounds(s, i + 1);
    }
}

/// What the process-status text `s` yields when scanned from `start`: the
/// value of the first marker line at or after `start`, or nothing when no
/// line at or after `start` carries the marker. A carriage return at a
/// line's end is stripped before the line is read.
pub open spec fn rss_value_from(s: Seq<u8>, start: int) -> Option<u64>
    decreases s.len() - start + 1
        when 0 <= start
{
    if start >= s.len() {
        None
    } else {
        let end = line_end(s, start);
        let stripped = if end > start && s[end - 1] == CARRIAGE_RETURN {
            end - 1
        } else {
            end
        };
        if has_marker(s, start, stripped) {
            line_value(s, start, stripped)
        } else {
            proof {
                lemma_line_end_bounds(s, start);
            }
            rss_value_from(s, end + 1)
        }
    }
}

/// What the whole process-status text `s` yields: the kilobyte figure of
/// the first line that begins with `VmRSS:`, or nothing.
pub open spec fn rss_value(s: Seq<u8>) -> Option<u64> {
    rss_value_from(s, 0)
}

/// A longer digit string writes a number at least as large: appending
/// digits multiplies by ten and adds a non-negative digit.
proof fn lemma_digits_val_monotone(s: Seq<u8>, lo: int, i: int, j: int)
    requires
        lo <= i <= j,
        all_digits(s, lo, j),
    ensures
        digits_val(s, lo, j) >= digits_val(s, lo, i),
    decreases j - i,
{
    if i < j {
        lemma_digits_val_monotone(s, lo, i, j - 1);
        assert(is_digit(s[j - 1]));
    }
}

/// Parses `data[lo..hi]` as an unsigned decimal number: the second field
/// of a marker line, once its bounds are known.
fn parse_decimal(data: &Vec<u8>, lo: usize, hi: usize) -> (r: Option<u64>)
    requires
        lo <= hi <= data@.len(),
    ensures
        r == decimal_value(data@, lo as int, hi as int),
{
    if lo == hi {
        return None;
    }
    let mut v: u64 = 0;
    let mut i: usize = lo;
    while i < hi
        invariant
            lo <= i <= hi <= data@.len(),
            all_digits(data@, lo as int, i as int),
            v == digits_val(data@, lo as int, i as int),
        decreases hi - i,
    {
        let b = data[i];
        if b < 48 || b > 57 {
            assert(!is_digit(data@[i as int]));
            assert(!all_digits(data@, lo as int, hi as int));
            return None;
        }
        let wide: u128 = (v as u128) * 10 + ((b - 48) as u128);
        if wide > u64::MAX as u128 {
            proof {
                if all_digits(data@, lo as int, hi as int) {
                    lemma_digits_val_monotone(data@, lo as int, i as int + 1, hi as int);
                }
            }
            return None;
        }
        v = wide as u64;
        i = i + 1;
    }
    Some(v)
}

/// Scans the process-status text for the resident-set-size line and parses
/// its kilobyte figure: the first line that begins with `VmRSS:` decides,
/// and its second whitespace-delimited field must be an unsigned decimal
/// number. Yields nothing when no line carries the marker, when the marker
/// line has no second field, or when the field does not parse.
pub fn parse_rss_kb(data: &Vec<u8>) -> (r: Option<u64>)
    ensures
        r == rss_value(data@),
{
    let ghost s = data@;
    let n = data.len();
    let mut start: usize = 0;
    while start < n
        invariant
            start <= n,
            n == s.len(),
            s == data@,
            rss_value_from(s, start as int) == rss_value(s),
        decreases n - start,
    {
        let mut end: usize = start;
        while end < n && data[end] != LINE_FEED
            invariant
                start <= end <= n,
                n == s.len(),
                s == data@,
                line_end(s, start as int) == line_end(s, end as int),
            decreases n - end,
        {
            end = end + 1;
        }
        assert(end == line_end(s, start as int));
        let stripped = if end > start && data[end - 1] == CARRIAGE_RETURN {
            end - 1
        } else {
            end
        };
        if stripped - start >= 6
            && data[start] == 86
            && data[start + 1] == 109
            && data[start + 2] == 82
            && data[start + 3] == 83
            && data[start + 4] == 83
            && data[start + 5] == 58
        {
            let mut a: usize = start;
            while a < stripped && is_space_byte(data[a])
                invariant
                    start <= a <= stripped <= n,
                    n == s.len(),
                    s == data@,
                    skip_space(s, start as int, stripped as int) == skip_space(
                        s,
                        a as int,
                        stripped as int,
                    ),
                decreases stripped - a,
            {
                a = a + 1;
            }
            let mut b: usize = a;
            while b < stripped && !is_space_byte(data[b])
                invariant
                    a <= b <= stripped <= n,
                    n == s.len(),
                    s == data@,
                    skip_field(s, a as int, stripped as int) == skip_field(
                        s,
                        b as int,
                        stripped as int,
                    ),
                decreases stripped - b,
            {
                b = b + 1;
            }
            let mut c: usize = b;
            while c < stripped && is_space_byte(data[c])
                invariant
                    b <= c <= stripped <= n,
                    n == s.len(),
                    s == data@,
                    skip_space(s, b as int, stripped as int) == skip_space(
                        s,
                        c as int,
                        stripped as int,
                    ),
                decreases stripped - c,
            {
                c = c + 1;
            }
            let mut d: usize = c;
            while d < stripped && !is_space_byte(data[d])
                invariant
                    c <= d <= stripped <= n,
                    n == s.len(),
                    s == data@,
                    skip_field(s, c as int, stripped as int) == skip_field(
                        s,
                        d as int,
                        stripped as int,
                    ),
                decreases stripped - d,
            {
                d = d + 1;
            }
            return parse_decimal(data, c, d);
        }
        if end == n {
            proof {
                assert(rss_value_from(s, end as int + 1) == None::<u64>);
            }
            return None;
        }
        start = end + 1;
    }
    None
}

/// Whether a byte separates fields within a line.
fn is_space_byte(b: u8) -> (r: bool)
    ensures
        r == is_space(b),
{
    b == 32 || b == 9 || b == 10 || b == 11 || b == 12 || b == 13
}

/// The kilobyte figure to report for a probe result: the value itself,
/// or zero where the probe found nothing.
pub fn rss_report_kb(probe: Option<u64>) -> (r: u64)
    ensures
        r == (match probe {
            Some(kb) => kb,
            None => 0u64,
        }),
{
    match probe {
        Some(kb) => kb,
        None => 0,
    }
}

} // verus!
