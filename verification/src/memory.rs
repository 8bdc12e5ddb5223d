//! Parser and collector for the memory-information file.
//!
//! Each line has the shape `FieldName:   12345 kB`; the first token after
//! the colon must be an unsigned 64-bit number (the unit suffix is ignored).
//! Parsing yields the `(field, value)` pairs in input order; a lookup takes
//! the last occurrence of a field, so duplicate keys are last-write-wins.
//! The collector requires seven fields, converts kilobytes to bytes, and
//! derives `used = total - free - buffers - cached` with saturation.

use vstd::prelude::*;
use crate::error::{parse_error, CollectorError, ErrorView};
use crate::metric::{Metric, MetricSample, MetricType, MetricView, SampleView};
use crate::text::{spec_lines, spec_parse_u64, spec_split_colon, spec_tokens, spec_trim};
use crate::text::{parse_u64, split_lines, split_once_colon, split_tokens, str_eq, trim};
use crate::value::MetricValue;

verus! {

/// The fixed path of the memory-information file.
pub open spec fn meminfo_path() -> Seq<char> {
    "/proc/meminfo"@
}

// ---------------------------------------------------------------------------
// Specification
// ---------------------------------------------------------------------------

/// Scan lines into `(field, value-in-kB)` pairs, in input order.  Blank
/// lines and lines without a colon are skipped; a line whose value part has
/// no token, or whose first value token is not a `u64`, is a parse error
/// naming the field.
pub open spec fn spec_parse_mem_lines(lines: Seq<Seq<char>>) -> Result<
    Seq<(Seq<char>, u64)>,
    ErrorView,
>
    decreases lines.len(),
{
    if lines.len() == 0 {
        Ok(Seq::empty())
    } else {
        let t = spec_trim(lines[0]);
        if t.len() == 0 {
            spec_parse_mem_lines(lines.drop_first())
        } else {
            match spec_split_colon(t) {
                None => spec_parse_mem_lines(lines.drop_first()),
                Some(kv) => {
                    let vtoks = spec_tokens(kv.1);
                    if vtoks.len() == 0 {
                        Err(parse_error(meminfo_path(), kv.0, t))
                    } else {
                        match spec_parse_u64(vtoks[0]) {
                            None => Err(parse_error(meminfo_path(), kv.0, vtoks[0])),
                            Some(v) => match spec_parse_mem_lines(lines.drop_first()) {
                                Ok(rest) => Ok(seq![(kv.0, v)] + rest),
                                Err(e) => Err(e),
                            },
                        }
                    }
                },
            }
        }
    }
}

/// What [`parse_meminfo`] returns.
pub open spec fn spec_parse_meminfo(s: Seq<char>) -> Result<Seq<(Seq<char>, u64)>, ErrorView> {
    spec_parse_mem_lines(spec_lines(s))
}

/// The value of `key` among the parsed pairs: the last occurrence wins.
pub open spec fn mem_lookup(entries: Seq<(Seq<char>, u64)>, key: Seq<char>) -> Option<u64>
    decreases entries.len(),
{
    if entries.len() == 0 {
        None
    } else if entries.last().0 == key {
        Some(entries.last().1)
    } else {
        mem_lookup(entries.drop_last(), key)
    }
}

// ---------------------------------------------------------------------------
// Executable parser
// ---------------------------------------------------------------------------

/// Parse the memory-information file into `(field, value)` pairs, as
/// [`spec_parse_meminfo`] describes.
#[verifier::loop_isolation(false)]
pub fn parse_meminfo(content: &str) -> (r: Result<Vec<(String, u64)>, CollectorError>)
    ensures
        match r {
            Ok(v) => spec_parse_meminfo(content@) == Ok::<Seq<(Seq<char>, u64)>, ErrorView>(
                v.deep_view(),
            ),
            Err(e) => spec_parse_meminfo(content@) == Err::<Seq<(Seq<char>, u64)>, ErrorView>(e@),
        },
{
    let lines = split_lines(content);
    let ghost lv = spec_lines(content@);
    let n = lines.len();
    let mut entries: Vec<(String, u64)> = Vec::new();
    let mut i: usize = 0;
    proof {
        assert(lv.skip(0) =~= lv);
        assert(entries.deep_view() =~= Seq::<(Seq<char>, u64)>::empty());
        if spec_parse_mem_lines(lv) is Ok {
            assert(entries.deep_view() + spec_parse_mem_lines(lv)->Ok_0 =~= spec_parse_mem_lines(
                lv,
            )->Ok_0);
        }
    }
    while i < n
        invariant
            0 <= i <= n,
            n == lines@.len(),
            lines.deep_view() == lv,
            lv.len() == n,
            spec_parse_mem_lines(lv.skip(i as int)) is Ok ==> spec_parse_mem_lines(lv) == Ok::<
                Seq<(Seq<char>, u64)>,
                ErrorView,
            >(entries.deep_view() + spec_parse_mem_lines(lv.skip(i as int))->Ok_0),
            spec_parse_mem_lines(lv.skip(i as int)) is Err ==> spec_parse_mem_lines(lv)
                == spec_parse_mem_lines(lv.skip(i as int)),
        decreases n - i,
    {
        let ghost rem = lv.skip(i as int);
        proof {
            assert(rem[0] == lv[i as int]);
            assert(rem.drop_first() =~= lv.skip(i + 1));
            assert(lines.deep_view()[i as int] == lines@[i as int]@);
        }
        let line = &lines[i];
        let trimmed = trim(line.as_str());
        let ghost t = spec_trim(lv[i as int]);
        if trimmed.is_empty() {
            i = i + 1;
        } else {
            match split_once_colon(trimmed) {
                None => {
                    i = i + 1;
                },
                Some((key, rest)) => {
                    let ghost kv = spec_split_colon(t).unwrap();
                    proof {
                        assert(kv.0 == key@ && kv.1 == rest@);
                    }
                    let vtoks = split_tokens(rest);
                    let ghost tv = spec_tokens(kv.1);
                    proof {
                        assert(vtoks.deep_view() == tv);
                        assert(vtoks.deep_view().len() == vtoks@.len());
                    }
                    if vtoks.len() == 0 {
                        let e = CollectorError::Parse {
                            path: "/proc/meminfo".to_owned(),
                            field: key.to_owned(),
                            raw: trimmed.to_owned(),
                        };
                        proof {
                            assert(e@ == parse_error(meminfo_path(), kv.0, t));
                            assert(spec_parse_mem_lines(rem) == Err::<
                                Seq<(Seq<char>, u64)>,
                                ErrorView,
                            >(e@));
                        }
                        return Err(e);
                    }
                    proof {
                        assert(vtoks.deep_view()[0] == vtoks@[0]@);
                    }
                    let value_tok = &vtoks[0];
                    match parse_u64(value_tok.as_str()) {
                        None => {
                            let e = CollectorError::Parse {
                                path: "/proc/meminfo".to_owned(),
                                field: key.to_owned(),
                                raw: value_tok.clone(),
                            };
                            proof {
                                assert(e@ == parse_error(meminfo_path(), kv.0, tv[0]));
                                assert(spec_parse_mem_lines(rem) == Err::<
                                    Seq<(Seq<char>, u64)>,
                                    ErrorView,
                                >(e@));
                            }
                            return Err(e);
                        },
                        Some(v) => {
                            let ghost pre = entries.deep_view();
                            entries.push((key.to_owned(), v));
                            proof {
                                assert(entries.deep_view() =~= pre + seq![(kv.0, v)]);
                                if spec_parse_mem_lines(lv.skip(i + 1)) is Ok {
                                    assert(pre + (seq![(kv.0, v)] + spec_parse_mem_lines(
                                        lv.skip(i + 1),
                                    )->Ok_0) =~= entries.deep_view() + spec_parse_mem_lines(
                                        lv.skip(i + 1),
                                    )->Ok_0);
                                }
                            }
                            i = i + 1;
                        },
                    }
                },
            }
        }
    }
    proof {
        assert(lv.skip(n as int).len() == 0);
        assert(entries.deep_view() + Seq::<(Seq<char>, u64)>::empty() =~= entries.deep_view());
    }
    Ok(entries)
}

/// Look up a required field among the parsed pairs; the last occurrence
/// wins, and a missing field is a parse error naming it.
#[verifier::loop_isolation(false)]
pub fn get_field(entries: &Vec<(String, u64)>, field: &str) -> (r: Result<u64, CollectorError>)
    ensures
        match r {
            Ok(v) => mem_lookup(entries.deep_view(), field@) == Some(v),
            Err(e) => mem_lookup(entries.deep_view(), field@) is None && e@ == parse_error(
                meminfo_path(),
                field@,
                "field not found"@,
            ),
        },
{
    let ghost dv = entries.deep_view();
    let mut j: usize = entries.len();
    proof {
        assert(dv.len() == entries@.len());
        assert(dv.take(dv.len() as int) =~= dv);
    }
    while j > 0
        invariant
            0 <= j <= entries@.len(),
            dv == entries.deep_view(),
            mem_lookup(dv, field@) == mem_lookup(dv.take(j as int), field@),
        decreases j,
    {
        j = j - 1;
        proof {
            assert(dv[j as int] == (entries@[j as int].0@, entries@[j as int].1));
            assert(dv.take(j + 1).last() == dv[j as int]);
            assert(dv.take(j + 1).drop_last() =~= dv.take(j as int));
        }
        let pair = &entries[j];
        if str_eq(pair.0.as_str(), field) {
            return Ok(pair.1);
        }
    }
    proof {
        assert(dv.take(0).len() == 0);
    }
    Err(
        CollectorError::Parse {
            path: "/proc/meminfo".to_owned(),
            field: field.to_owned(),
            raw: "field not found".to_owned(),
        },
    )
}

// ---------------------------------------------------------------------------
// Parser laws
// ---------------------------------------------------------------------------

/// Duplicate keys are last-write-wins: the lookup returns the value of the
/// last occurrence of the key.
pub proof fn lemma_mem_lookup_last_wins(entries: Seq<(Seq<char>, u64)>, key: Seq<char>, j: int)
    requires
        0 <= j < entries.len(),
        entries[j].0 == key,
        forall|l: int| j < l < entries.len() ==> (#[trigger] entries[l]).0 != key,
    ensures
        mem_lookup(entries, key) == Some(entries[j].1),
    decreases entries.len(),
{
    if j == entries.len() - 1 {
        assert(entries.last() == entries[j]);
    } else {
        assert(entries.last().0 != key);
        assert(entries.drop_last()[j] == entries[j]);
        lemma_mem_lookup_last_wins(entries.drop_last(), key, j);
    }
}

/// A line that has a colon but whose value part is empty or does not start
/// with a number.
pub open spec fn mem_value_bad(line: Seq<char>) -> bool {
    let t = spec_trim(line);
    t.len() > 0 && spec_split_colon(t) is Some && {
        let vtoks = spec_tokens(spec_split_colon(t).unwrap().1);
        vtoks.len() == 0 || spec_parse_u64(vtoks[0]) is None
    }
}

/// A line with a colon whose value part is empty or not a number fails the
/// whole parse.
pub proof fn lemma_mem_bad_value_error(s: Seq<char>, i: int)
    requires
        0 <= i < spec_lines(s).len(),
        mem_value_bad(spec_lines(s)[i]),
    ensures
        spec_parse_meminfo(s) is Err,
{
    lemma_mem_bad_value_lines_error(spec_lines(s), i);
}

proof fn lemma_mem_bad_value_lines_error(lines: Seq<Seq<char>>, i: int)
    requires
        0 <= i < lines.len(),
        mem_value_bad(lines[i]),
    ensures
        spec_parse_mem_lines(lines) is Err,
    decreases lines.len(),
{
    if i > 0 {
        assert(lines.drop_first()[i - 1] == lines[i]);
        lemma_mem_bad_value_lines_error(lines.drop_first(), i - 1);
    }
}

// ---------------------------------------------------------------------------
// Collector
// ---------------------------------------------------------------------------

/// The saturating kilobyte count of used memory:
/// `total - free - buffers - cached`, clamped at zero.
pub open spec fn used_kb(total: u64, free: u64, buffers: u64, cached: u64) -> int {
    if total - free - buffers - cached >= 0 {
        total - free - buffers - cached
    } else {
        0
    }
}

/// The derived `used` value saturates instead of going negative: it is the
/// exact difference whenever that difference is non-negative, and zero —
/// never a negative value — when `free + buffers + cached` exceeds `total`.
pub proof fn lemma_used_never_negative(total: u64, free: u64, buffers: u64, cached: u64)
    ensures
        used_kb(total, free, buffers, cached) >= 0,
        free + buffers + cached <= total ==> used_kb(total, free, buffers, cached) == total - free
            - buffers - cached,
        free + buffers + cached > total ==> used_kb(total, free, buffers, cached) == 0,
{
}

/// The error for a required field that the input does not contain.
pub open spec fn mem_field_error(key: Seq<char>) -> ErrorView {
    parse_error(meminfo_path(), key, "field not found"@)
}

/// A single-sample unlabelled gauge holding `kb` kilobytes, in bytes.
pub open spec fn mem_gauge(name: Seq<char>, help: Seq<char>, kb: u64) -> MetricView {
    MetricView {
        name,
        help,
        metric_type: MetricType::Gauge,
        samples: seq![
            SampleView {
                labels: Seq::empty(),
                value: MetricValue::Finite {
                    negative: false,
                    mantissa: (kb * 1024) as u128,
                    scale: 0,
                },
            },
        ],
    }
}

/// What [`MemoryCollector::collect_from_string`] returns: eight unlabelled
/// gauges — total, free, available, buffers, cached, swap total, swap free
/// and the saturating `used` — in bytes; or the parse error; or, if one of
/// the seven required fields is absent, the error naming the first absent
/// one in that order.
pub open spec fn spec_memory_collect(s: Seq<char>) -> Result<Seq<MetricView>, ErrorView> {
    match spec_parse_meminfo(s) {
        Err(e) => Err(e),
        Ok(entries) => {
            if mem_lookup(entries, "MemTotal"@) is None {
                Err(mem_field_error("MemTotal"@))
            } else if mem_lookup(entries, "MemFree"@) is None {
                Err(mem_field_error("MemFree"@))
            } else if mem_lookup(entries, "MemAvailable"@) is None {
                Err(mem_field_error("MemAvailable"@))
            } else if mem_lookup(entries, "Buffers"@) is None {
                Err(mem_field_error("Buffers"@))
            } else if mem_lookup(entries, "Cached"@) is None {
                Err(mem_field_error("Cached"@))
            } else if mem_lookup(entries, "SwapTotal"@) is None {
                Err(mem_field_error("SwapTotal"@))
            } else if mem_lookup(entries, "SwapFree"@) is None {
                Err(mem_field_error("SwapFree"@))
            } else {
                let total = mem_lookup(entries, "MemTotal"@).unwrap();
                let free = mem_lookup(entries, "MemFree"@).unwrap();
                let available = mem_lookup(entries, "MemAvailable"@).unwrap();
                let buffers = mem_lookup(entries, "Buffers"@).unwrap();
                let cached = mem_lookup(entries, "Cached"@).unwrap();
                let swap_total = mem_lookup(entries, "SwapTotal"@).unwrap();
                let swap_free = mem_lookup(entries, "SwapFree"@).unwrap();
                let used = used_kb(total, free, buffers, cached) as u64;
                Ok(
                    seq![
                        mem_gauge("sysmetrics_memory_total_bytes"@, "Total memory in bytes."@, total),
                        mem_gauge("sysmetrics_memory_free_bytes"@, "Free memory in bytes."@, free),
                        mem_gauge(
                            "sysmetrics_memory_available_bytes"@,
                            "Available memory in bytes."@,
                            available,
                        ),
                        mem_gauge(
                            "sysmetrics_memory_buffers_bytes"@,
                            "Buffer memory in bytes."@,
                            buffers,
                        ),
                        mem_gauge(
                            "sysmetrics_memory_cached_bytes"@,
                            "Cached memory in bytes."@,
                            cached,
                        ),
                        mem_gauge(
                            "sysmetrics_memory_swap_total_bytes"@,
                            "Total swap in bytes."@,
                            swap_total,
                        ),
                        mem_gauge(
                            "sysmetrics_memory_swap_free_bytes"@,
                            "Free swap in bytes."@,
                            swap_free,
                        ),
                        mem_gauge(
                            "sysmetrics_memory_used_bytes"@,
                            "Used memory in bytes (total - free - buffers - cached)."@,
                            used,
                        ),
                    ],
                )
            }
        },
    }
}

/// Build one unlabelled byte gauge from a kilobyte count.
fn gauge_metric(name: &str, help: &str, kb: u64) -> (m: Metric)
    ensures
        m@ == mem_gauge(name@, help@, kb),
{
    let mut samples: Vec<MetricSample> = Vec::new();
    samples.push(
        MetricSample {
            labels: Vec::new(),
            value: MetricValue::Finite {
                negative: false,
                mantissa: (kb as u128) * 1024,
                scale: 0,
            },
        },
    );
    let m = Metric {
        name: name.to_owned(),
        help: help.to_owned(),
        metric_type: MetricType::Gauge,
        samples,
    };
    proof {
        assert(m@ =~~= mem_gauge(name@, help@, kb));
    }
    m
}

/// The memory collector: stateless; seven required fields, byte conversion,
/// saturating `used`.
pub struct MemoryCollector;

impl MemoryCollector {
    /// Stable identifier of this collector.
    pub fn name(&self) -> (r: &'static str)
        ensures
            r@ == "memory"@,
    {
        "memory"
    }

    /// Path of the backing file a caller must read for [`Self::collect_from_string`].
    pub fn source_path(&self) -> (r: &'static str)
        ensures
            r@ == meminfo_path(),
    {
        "/proc/meminfo"
    }

    /// Turn the memory-information file's content into metric families, as
    /// [`spec_memory_collect`] describes.
    pub fn collect_from_string(&self, content: &str) -> (r: Result<Vec<Metric>, CollectorError>)
        ensures
            match r {
                Ok(v) => spec_memory_collect(content@) == Ok::<Seq<MetricView>, ErrorView>(
                    v.deep_view(),
                ),
                Err(e) => spec_memory_collect(content@) == Err::<Seq<MetricView>, ErrorView>(e@),
            },
    {
        let entries = match parse_meminfo(content) {
            Ok(v) => v,
            Err(e) => {
                return Err(e);
            },
        };
        let total = match get_field(&entries, "MemTotal") {
            Ok(v) => v,
            Err(e) => {
                return Err(e);
            },
        };
        let free = match get_field(&entries, "MemFree") {
            Ok(v) => v,
            Err(e) => {
                return Err(e);
            },
        };
        let available = match get_field(&entries, "MemAvailable") {
            Ok(v) => v,
            Err(e) => {
                return Err(e);
            },
        };
        let buffers = match get_field(&entries, "Buffers") {
            Ok(v) => v,
            Err(e) => {
                return Err(e);
            },
        };
        let cached = match get_field(&entries, "Cached") {
            Ok(v) => v,
            Err(e) => {
                return Err(e);
            },
        };
        let swap_total = match get_field(&entries, "SwapTotal") {
            Ok(v) => v,
            Err(e) => {
                return Err(e);
            },
        };
        let swap_free = match get_field(&entries, "SwapFree") {
            Ok(v) => v,
            Err(e) => {
                return Err(e);
            },
        };
        let used: u64 = total.saturating_sub(free).saturating_sub(buffers).saturating_sub(cached);
        proof {
            assert(used == used_kb(total, free, buffers, cached) as u64);
        }
        let mut metrics: Vec<Metric> = Vec::new();
        metrics.push(gauge_metric("sysmetrics_memory_total_bytes", "Total memory in bytes.", total));
        metrics.push(gauge_metric("sysmetrics_memory_free_bytes", "Free memory in bytes.", free));
        metrics.push(
            gauge_metric(
                "sysmetrics_memory_available_bytes",
                "Available memory in bytes.",
                available,
            ),
        );
        metrics.push(
            gauge_metric("sysmetrics_memory_buffers_bytes", "Buffer memory in bytes.", buffers),
        );
        metrics.push(
            gauge_metric("sysmetrics_memory_cached_bytes", "Cached memory in bytes.", cached),
        );
        metrics.push(
            gauge_metric("sysmetrics_memory_swap_total_bytes", "Total swap in bytes.", swap_total),
        );
        metrics.push(
            gauge_metric("sysmetrics_memory_swap_free_bytes", "Free swap in bytes.", swap_free),
        );
        metrics.push(
            gauge_metric(
                "sysmetrics_memory_used_bytes",
                "Used memory in bytes (total - free - buffers - cached).",
                used,
            ),
        );
        proof {
            assert(metrics.deep_view() =~~= spec_memory_collect(content@)->Ok_0);
        }
        Ok(metrics)
    }
}

} // verus!
