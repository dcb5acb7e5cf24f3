//! Sampling decisions of the server system that exports metrics.
//!
//! Aggregating the per-system timelines is comparatively expensive, so it
//! runs only every few ticks, and on every slow tick so that spikes stay
//! visible. Entity and chunk counts are exported every hundred ticks.
use crate::text::chars_of;
use vstd::prelude::*;

verus! {

/// The server system that exports metrics.
#[derive(Debug, Default, Clone, Copy)]
pub struct Sys;

/// How often (in ticks) the per-system metrics are aggregated unless
/// configured otherwise.
pub const METRIC_SAMPLE_INTERVAL_TICKS_DEFAULT: u64 = 20;

/// A tick that takes longer than this many nanoseconds is slow and always
/// sampled.
pub const SLOW_TICK_THRESHOLD_NANOS: u128 = 50_000_000;

/// How often (in ticks) entity and chunk counts are exported.
pub const COUNT_INTERVAL_TICKS: u64 = 100;

pub open spec fn is_digit(c: char) -> bool {
    48 <= c as u32 <= 57
}

pub open spec fn digit_value(c: char) -> nat {
    (c as u32 - 48) as nat
}

/// The number the decimal digits `d` stand for.
pub open spec fn digits_value(d: Seq<char>) -> nat
    decreases d.len(),
{
    if d.len() == 0 {
        0
    } else {
        digits_value(d.drop_last()) * 10 + digit_value(d.last())
    }
}

/// The digits of `s` after an optional leading `+`.
pub open spec fn unsigned_digits(s: Seq<char>) -> Seq<char> {
    if s.len() > 0 && s[0] == '+' {
        s.drop_first()
    } else {
        s
    }
}

/// What `str::parse::<u64>` gives for `s`: an optional `+` followed by one
/// or more ASCII digits whose value fits in a `u64`.
pub open spec fn parse_u64_spec(s: Seq<char>) -> Option<u64> {
    let d = unsigned_digits(s);
    if d.len() == 0 || exists|i: int| 0 <= i < d.len() && !is_digit(#[trigger] d[i]) {
        None
    } else if digits_value(d) > u64::MAX {
        None
    } else {
        Some(digits_value(d) as u64)
    }
}

/// Parses a decimal `u64` the way `str::parse::<u64>` does.
pub fn parse_u64(s: &str) -> (r: Option<u64>)
    ensures
        r == parse_u64_spec(s@),
{
    let chars = chars_of(s);
    let n = chars.len();
    let start: usize = if n > 0 && chars[0] == '+' {
        1
    } else {
        0
    };
    let ghost d = unsigned_digits(s@);
    assert(d =~= s@.subrange(start as int, n as int));
    if start == n {
        return None;
    }
    let mut value: u64 = 0;
    let mut i: usize = start;
    let mut overflow = false;
    while i < n
        invariant
            start <= i <= n,
            start < n,
            n == s@.len(),
            chars@ == s@,
            d == s@.subrange(start as int, n as int),
            d == unsigned_digits(s@),
            forall|j: int| start <= j < i ==> is_digit(#[trigger] chars@[j]),
            !overflow ==> value == digits_value(d.take(i - start)),
            overflow ==> digits_value(d.take(i - start)) > u64::MAX,
        decreases n - i,
    {
        let c = chars[i];
        let u = c as u32;
        if !(48 <= u && u <= 57) {
            assert(d[i - start] == c);
            assert(!is_digit(d[i - start]));
            return None;
        }
        let dv = (u - 48) as u64;
        assert(d.take(i + 1 - start).drop_last() =~= d.take(i - start));
        assert(d.take(i + 1 - start).last() == c);
        if !overflow {
            match value.checked_mul(10) {
                Some(t) => match t.checked_add(dv) {
                    Some(v) => {
                        value = v;
                    },
                    None => {
                        overflow = true;
                    },
                },
                None => {
                    overflow = true;
                },
            }
        }
        i = i + 1;
    }
    assert(d.take(n - start) =~= d);
    assert forall|j: int| 0 <= j < d.len() implies is_digit(#[trigger] d[j]) by {
        assert(d[j] == chars@[start + j]);
    }
    if overflow {
        None
    } else {
        Some(value)
    }
}

proof fn lemma_decimal_digits(n: nat)
    ensures
        crate::text::decimal(n).len() > 0,
        forall|i: int|
            0 <= i < crate::text::decimal(n).len() ==> is_digit(#[trigger] crate::text::decimal(n)[i]),
        digits_value(crate::text::decimal(n)) == n,
    decreases n,
{
    let d = crate::text::decimal(n);
    if n < 10 {
        let c = crate::text::digit_char(n);
        assert(c as u32 == n + 48);
        assert(d == seq![c]);
        assert(d.drop_last() =~= Seq::<char>::empty());
        assert(d.last() == c);
        assert(digit_value(c) == n);
        assert(digits_value(d) == digits_value(d.drop_last()) * 10 + digit_value(d.last()));
    } else {
        lemma_decimal_digits(n / 10);
        let c = crate::text::digit_char(n % 10);
        assert(c as u32 == n % 10 + 48);
        let prev = crate::text::decimal(n / 10);
        assert(d == prev.push(c));
        assert(d.drop_last() =~= prev);
        assert forall|i: int| 0 <= i < d.len() implies is_digit(#[trigger] d[i]) by {
            if i < prev.len() {
                assert(d[i] == prev[i]);
            }
        }
        assert(d.last() == c);
        assert(digit_value(c) == n % 10);
        assert(digits_value(d) == digits_value(d.drop_last()) * 10 + digit_value(d.last()));
        assert(digits_value(prev) == n / 10);
        assert(n == (n / 10) * 10 + n % 10);
    }
}

/// Parsing reads back every decimal number written out: for every `u64`
/// value, its decimal digits parse to that value.
pub proof fn lemma_parse_reads_decimal(n: u64)
    ensures
        parse_u64_spec(crate::text::decimal(n as nat)) == Some(n),
{
    let d = crate::text::decimal(n as nat);
    lemma_decimal_digits(n as nat);
    assert(is_digit(d[0]));
    assert(unsigned_digits(d) == d);
}

/// The aggregation interval: the configured value when it is a positive
/// `u64`, otherwise the default.
pub open spec fn sample_interval_spec(configured: Option<Seq<char>>) -> u64 {
    match configured {
        Some(v) => match parse_u64_spec(v) {
            Some(n) => if n > 0 {
                n
            } else {
                METRIC_SAMPLE_INTERVAL_TICKS_DEFAULT
            },
            None => METRIC_SAMPLE_INTERVAL_TICKS_DEFAULT,
        },
        None => METRIC_SAMPLE_INTERVAL_TICKS_DEFAULT,
    }
}

/// The aggregation interval in ticks from the configured setting (the
/// `VELOREN_METRICS_SAMPLE_INTERVAL` environment variable), if any.
pub fn sample_interval(configured: Option<&str>) -> (interval: u64)
    ensures
        interval == sample_interval_spec(
            match configured {
                Some(v) => Some(v@),
                None => None,
            },
        ),
        interval > 0,
{
    match configured {
        Some(v) => match parse_u64(v) {
            Some(n) => if n > 0 {
                n
            } else {
                METRIC_SAMPLE_INTERVAL_TICKS_DEFAULT
            },
            None => METRIC_SAMPLE_INTERVAL_TICKS_DEFAULT,
        },
        None => METRIC_SAMPLE_INTERVAL_TICKS_DEFAULT,
    }
}

/// Whether this tick aggregates the per-system metrics: every `interval`
/// ticks, and on every tick that took longer than the slow-tick threshold.
pub fn sample_ecs_metrics(tick: u64, interval: u64, tick_elapsed_nanos: u128) -> (sample: bool)
    requires
        interval > 0,
    ensures
        sample == (tick % interval == 0 || tick_elapsed_nanos > SLOW_TICK_THRESHOLD_NANOS),
{
    tick % interval == 0 || tick_elapsed_nanos > SLOW_TICK_THRESHOLD_NANOS
}

/// Whether this tick exports the entity and chunk counts.
pub fn export_counts(tick: u64) -> (export: bool)
    ensures
        export == (tick % COUNT_INTERVAL_TICKS == 0),
{
    tick % COUNT_INTERVAL_TICKS == 0
}

/// The sum of the first components of `s` (`which == 0`) or of the second.
pub open spec fn column_sum(s: Seq<(usize, usize)>, which: int) -> int
    decreases s.len(),
{
    if s.len() == 0 {
        0
    } else {
        column_sum(s.drop_last(), which) + if which == 0 {
            s.last().0 as int
        } else {
            s.last().1 as int
        }
    }
}

proof fn lemma_column_sum_prefix(s: Seq<(usize, usize)>, which: int, i: int)
    requires
        0 <= i <= s.len(),
    ensures
        column_sum(s.take(i), which) <= column_sum(s, which),
    decreases s.len() - i,
{
    if i < s.len() {
        lemma_column_sum_prefix(s, which, i + 1);
        assert(s.take(i + 1).drop_last() =~= s.take(i));
    } else {
        assert(s.take(i) =~= s);
    }
}

/// Terrain statistics exported every hundred ticks.
#[derive(Debug, Clone, Copy, PartialEq, Eq, Structural)]
pub struct TerrainCounts {
    /// Loaded chunks (chonks).
    pub chonks: usize,
    /// Sub-chunks over all chunks.
    pub chunks: usize,
    /// Sub-chunk groups over all chunks.
    pub groups: usize,
}

/// Counts the loaded terrain; each chunk is given as its number of
/// sub-chunks and of sub-chunk groups.
pub fn terrain_counts(chonks: &Vec<(usize, usize)>) -> (counts: TerrainCounts)
    requires
        column_sum(chonks@, 0) <= usize::MAX,
        column_sum(chonks@, 1) <= usize::MAX,
    ensures
        counts.chonks == chonks@.len(),
        counts.chunks == column_sum(chonks@, 0),
        counts.groups == column_sum(chonks@, 1),
{
    let mut chonk_cnt: usize = 0;
    let mut chunk_cnt: usize = 0;
    let mut group_cnt: usize = 0;
    let n = chonks.len();
    let mut i: usize = 0;
    while i < n
        invariant
            n == chonks@.len(),
            0 <= i <= n,
            column_sum(chonks@, 0) <= usize::MAX,
            column_sum(chonks@, 1) <= usize::MAX,
            chonk_cnt == i,
            chunk_cnt == column_sum(chonks@.take(i as int), 0),
            group_cnt == column_sum(chonks@.take(i as int), 1),
        decreases n - i,
    {
        let (sub_chunks, sub_groups) = chonks[i];
        proof {
            assert(chonks@.take(i + 1).drop_last() =~= chonks@.take(i as int));
            lemma_column_sum_prefix(chonks@, 0, i + 1);
            lemma_column_sum_prefix(chonks@, 1, i + 1);
        }
        chonk_cnt = chonk_cnt + 1;
        chunk_cnt = chunk_cnt + sub_chunks;
        group_cnt = group_cnt + sub_groups;
        i = i + 1;
    }
    assert(chonks@.take(n as int) =~= chonks@);
    TerrainCounts { chonks: chonk_cnt, chunks: chunk_cnt, groups: group_cnt }
}

} // verus!
