//! Parser and collector for the block-device statistics file.
//!
//! Lines with fewer than 14 whitespace-separated tokens are silently skipped
//! — the file is known to carry shorter lines on some kernels — while a long
//! enough line must have eleven unsigned 64-bit counters at the fixed token
//! positions after the device name (token 2).  The collector drops devices
//! whose name matches the configured exclusion pattern, converts sectors to
//! bytes with a fixed 512-byte sector size, and milliseconds to seconds.

use vstd::prelude::*;
use crate::error::{parse_error, CollectorError, ErrorView};
use crate::metric::{Metric, MetricSample, MetricType, MetricView, SampleView};
use crate::pattern::{compile_pattern, pattern_matches, pattern_ok, regex_matches, regex_pattern};
use crate::text::{spec_lines, spec_parse_u64, spec_tokens};
use crate::text::{parse_u64, split_lines, split_tokens};
use crate::value::MetricValue;

verus! {

/// The fixed path of the block-device statistics file.
pub open spec fn diskstats_path() -> Seq<char> {
    "/proc/diskstats"@
}

/// Parsed statistics of one block device.
#[derive(Debug, Clone)]
pub struct DiskStats {
    pub device: String,
    pub reads_completed: u64,
    pub reads_merged: u64,
    pub sectors_read: u64,
    pub time_reading_ms: u64,
    pub writes_completed: u64,
    pub writes_merged: u64,
    pub sectors_written: u64,
    pub time_writing_ms: u64,
    pub ios_in_progress: u64,
    pub time_doing_ios_ms: u64,
    pub weighted_time_ms: u64,
}

/// Mathematical image of [`DiskStats`].
#[verifier::ext_equal]
pub struct DiskStatsView {
    pub device: Seq<char>,
    pub reads_completed: u64,
    pub reads_merged: u64,
    pub sectors_read: u64,
    pub time_reading_ms: u64,
    pub writes_completed: u64,
    pub writes_merged: u64,
    pub sectors_written: u64,
    pub time_writing_ms: u64,
    pub ios_in_progress: u64,
    pub time_doing_ios_ms: u64,
    pub weighted_time_ms: u64,
}

impl View for DiskStats {
    type V = DiskStatsView;

    open spec fn view(&self) -> DiskStatsView {
        DiskStatsView {
            device: self.device@,
            reads_completed: self.reads_completed,
            reads_merged: self.reads_merged,
            sectors_read: self.sectors_read,
            time_reading_ms: self.time_reading_ms,
            writes_completed: self.writes_completed,
            writes_merged: self.writes_merged,
            sectors_written: self.sectors_written,
            time_writing_ms: self.time_writing_ms,
            ios_in_progress: self.ios_in_progress,
            time_doing_ios_ms: self.time_doing_ios_ms,
            weighted_time_ms: self.weighted_time_ms,
        }
    }
}

impl DeepView for DiskStats {
    type V = DiskStatsView;

    open spec fn deep_view(&self) -> DiskStatsView {
        self.view()
    }
}

// ---------------------------------------------------------------------------
// Specification
// ---------------------------------------------------------------------------

/// Name of counter field `j` (token position `3 + j`), as used in errors.
pub open spec fn disk_field_name(j: int) -> Seq<char> {
    if j == 0 {
        "reads_completed"@
    } else if j == 1 {
        "reads_merged"@
    } else if j == 2 {
        "sectors_read"@
    } else if j == 3 {
        "time_reading_ms"@
    } else if j == 4 {
        "writes_completed"@
    } else if j == 5 {
        "writes_merged"@
    } else if j == 6 {
        "sectors_written"@
    } else if j == 7 {
        "time_writing_ms"@
    } else if j == 8 {
        "ios_in_progress"@
    } else if j == 9 {
        "time_doing_ios_ms"@
    } else {
        "weighted_time_ms"@
    }
}

/// Index of the first of the 11 counter fields that does not parse, starting
/// at `j`; 11 if all parse.
pub open spec fn first_bad_disk_field(toks: Seq<Seq<char>>, j: int) -> int
    decreases 11 - j,
{
    if j < 0 || j >= 11 {
        11
    } else if spec_parse_u64(toks[3 + j]) is None {
        j
    } else {
        first_bad_disk_field(toks, j + 1)
    }
}

proof fn lemma_first_bad_disk_field_from_witness(toks: Seq<Seq<char>>, j: int, k: int)
    requires
        0 <= j <= k <= 11,
        forall|l: int| j <= l < k ==> spec_parse_u64(#[trigger] toks[3 + l]) is Some,
        k < 11 ==> spec_parse_u64(toks[3 + k]) is None,
    ensures
        first_bad_disk_field(toks, j) == k,
    decreases k - j,
{
    if j < k {
        assert(spec_parse_u64(toks[3 + j]) is Some);
        lemma_first_bad_disk_field_from_witness(toks, j + 1, k);
    }
}

/// The record of a line whose 11 counter fields all parse.
pub open spec fn disk_record(toks: Seq<Seq<char>>) -> DiskStatsView {
    DiskStatsView {
        device: toks[2],
        reads_completed: spec_parse_u64(toks[3]).unwrap(),
        reads_merged: spec_parse_u64(toks[4]).unwrap(),
        sectors_read: spec_parse_u64(toks[5]).unwrap(),
        time_reading_ms: spec_parse_u64(toks[6]).unwrap(),
        writes_completed: spec_parse_u64(toks[7]).unwrap(),
        writes_merged: spec_parse_u64(toks[8]).unwrap(),
        sectors_written: spec_parse_u64(toks[9]).unwrap(),
        time_writing_ms: spec_parse_u64(toks[10]).unwrap(),
        ios_in_progress: spec_parse_u64(toks[11]).unwrap(),
        time_doing_ios_ms: spec_parse_u64(toks[12]).unwrap(),
        weighted_time_ms: spec_parse_u64(toks[13]).unwrap(),
    }
}

/// Scan lines for device records.  A line with fewer than 14 tokens — blank
/// and whitespace-only lines among them — is skipped silently; on a long
/// enough line every counter field must parse, else the scan stops with an
/// error naming the field and the device.
pub open spec fn spec_parse_disk_lines(lines: Seq<Seq<char>>) -> Result<
    Seq<DiskStatsView>,
    ErrorView,
>
    decreases lines.len(),
{
    if lines.len() == 0 {
        Ok(Seq::empty())
    } else {
        let toks = spec_tokens(lines[0]);
        if toks.len() < 14 {
            spec_parse_disk_lines(lines.drop_first())
        } else {
            let bad = first_bad_disk_field(toks, 0);
            if bad < 11 {
                Err(
                    parse_error(
                        diskstats_path(),
                        disk_field_name(bad) + " for "@ + toks[2],
                        toks[3 + bad],
                    ),
                )
            } else {
                match spec_parse_disk_lines(lines.drop_first()) {
                    Ok(rest) => Ok(seq![disk_record(toks)] + rest),
                    Err(e) => Err(e),
                }
            }
        }
    }
}

/// What [`parse_diskstats`] returns.
pub open spec fn spec_parse_diskstats(s: Seq<char>) -> Result<Seq<DiskStatsView>, ErrorView> {
    spec_parse_disk_lines(spec_lines(s))
}

// ---------------------------------------------------------------------------
// Executable parser
// ---------------------------------------------------------------------------

fn disk_field_str(j: usize) -> (r: &'static str)
    requires
        j < 11,
    ensures
        r@ == disk_field_name(j as int),
{
    if j == 0 {
        "reads_completed"
    } else if j == 1 {
        "reads_merged"
    } else if j == 2 {
        "sectors_read"
    } else if j == 3 {
        "time_reading_ms"
    } else if j == 4 {
        "writes_completed"
    } else if j == 5 {
        "writes_merged"
    } else if j == 6 {
        "sectors_written"
    } else if j == 7 {
        "time_writing_ms"
    } else if j == 8 {
        "ios_in_progress"
    } else if j == 9 {
        "time_doing_ios_ms"
    } else {
        "weighted_time_ms"
    }
}

/// Parse the block-device statistics file, as [`spec_parse_diskstats`]
/// describes: short lines are dropped, never an error, so input with no
/// valid line yields an empty list.
#[verifier::loop_isolation(false)]
pub fn parse_diskstats(content: &str) -> (r: Result<Vec<DiskStats>, CollectorError>)
    ensures
        match r {
            Ok(v) => spec_parse_diskstats(content@) == Ok::<Seq<DiskStatsView>, ErrorView>(
                v.deep_view(),
            ),
            Err(e) => spec_parse_diskstats(content@) == Err::<Seq<DiskStatsView>, ErrorView>(e@),
        },
{
    let lines = split_lines(content);
    let ghost lv = spec_lines(content@);
    let n = lines.len();
    let mut stats: Vec<DiskStats> = Vec::new();
    let mut i: usize = 0;
    proof {
        assert(lv.skip(0) =~= lv);
        assert(stats.deep_view() =~= Seq::<DiskStatsView>::empty());
        if spec_parse_disk_lines(lv) is Ok {
            assert(stats.deep_view() + spec_parse_disk_lines(lv)->Ok_0 =~= spec_parse_disk_lines(
                lv,
            )->Ok_0);
        }
    }
    while i < n
        invariant
            0 <= i <= n,
            n == lines@.len(),
            lines.deep_view() == lv,
            lv.len() == n,
            spec_parse_disk_lines(lv.skip(i as int)) is Ok ==> spec_parse_disk_lines(lv) == Ok::<
                Seq<DiskStatsView>,
                ErrorView,
            >(stats.deep_view() + spec_parse_disk_lines(lv.skip(i as int))->Ok_0),
            spec_parse_disk_lines(lv.skip(i as int)) is Err ==> spec_parse_disk_lines(lv)
                == spec_parse_disk_lines(lv.skip(i as int)),
        decreases n - i,
    {
        let ghost rem = lv.skip(i as int);
        proof {
            assert(rem[0] == lv[i as int]);
            assert(rem.drop_first() =~= lv.skip(i + 1));
            assert(lines.deep_view()[i as int] == lines@[i as int]@);
        }
        let line = &lines[i];
        let toks = split_tokens(line.as_str());
        let ghost tv = spec_tokens(lv[i as int]);
        proof {
            assert(toks.deep_view() == tv);
            assert(toks.deep_view().len() == toks@.len());
        }
        if toks.len() < 14 {
            i = i + 1;
        } else {
            proof {
                assert(toks.deep_view()[2] == toks@[2]@);
            }
            let device: String = toks[2].clone();
            let mut values: Vec<u64> = Vec::new();
            let mut j: usize = 0;
            while j < 11
                invariant
                    0 <= j <= 11,
                    toks@.len() >= 14,
                    toks.deep_view() == tv,
                    tv.len() == toks@.len(),
                    device@ == tv[2],
                    values@.len() == j,
                    forall|l: int| 0 <= l < j ==> spec_parse_u64(#[trigger] tv[3 + l]) is Some,
                    forall|l: int| 0 <= l < j ==> values@[l] == spec_parse_u64(tv[3 + l]).unwrap(),
                decreases 11 - j,
            {
                proof {
                    assert(toks.deep_view()[3 + j] == toks@[3 + j]@);
                }
                let col = &toks[3 + j];
                match parse_u64(col.as_str()) {
                    Some(v) => {
                        values.push(v);
                    },
                    None => {
                        proof {
                            lemma_first_bad_disk_field_from_witness(tv, 0, j as int);
                        }
                        let mut field = String::new();
                        field.append(disk_field_str(j));
                        field.append(" for ");
                        field.append(device.as_str());
                        let e = CollectorError::Parse {
                            path: "/proc/diskstats".to_owned(),
                            field,
                            raw: col.clone(),
                        };
                        proof {
                            assert(((Seq::<char>::empty() + disk_field_name(j as int)) + " for "@)
                                + tv[2] =~= disk_field_name(j as int) + " for "@ + tv[2]);
                            assert(e@ == parse_error(
                                diskstats_path(),
                                disk_field_name(j as int) + " for "@ + tv[2],
                                tv[3 + j],
                            ));
                            assert(spec_parse_disk_lines(rem) == Err::<
                                Seq<DiskStatsView>,
                                ErrorView,
                            >(e@));
                        }
                        return Err(e);
                    },
                }
                j = j + 1;
            }
            proof {
                lemma_first_bad_disk_field_from_witness(tv, 0, 11);
            }
            let rec = DiskStats {
                device,
                reads_completed: values[0],
                reads_merged: values[1],
                sectors_read: values[2],
                time_reading_ms: values[3],
                writes_completed: values[4],
                writes_merged: values[5],
                sectors_written: values[6],
                time_writing_ms: values[7],
                ios_in_progress: values[8],
                time_doing_ios_ms: values[9],
                weighted_time_ms: values[10],
            };
            let ghost pre = stats.deep_view();
            stats.push(rec);
            proof {
                assert(stats.deep_view() =~= pre + seq![disk_record(tv)]);
                if spec_parse_disk_lines(lv.skip(i + 1)) is Ok {
                    assert(pre + (seq![disk_record(tv)] + spec_parse_disk_lines(
                        lv.skip(i + 1),
                    )->Ok_0) =~= stats.deep_view() + spec_parse_disk_lines(lv.skip(i + 1))->Ok_0);
                }
            }
            i = i + 1;
        }
    }
    proof {
        assert(lv.skip(n as int).len() == 0);
        assert(stats.deep_view() + Seq::<DiskStatsView>::empty() =~= stats.deep_view());
    }
    Ok(stats)
}

// ---------------------------------------------------------------------------
// Parser laws
// ---------------------------------------------------------------------------

/// Removing a short line (fewer than 14 tokens) from the input does not
/// change the result at all: such lines are dropped silently, never an
/// error.
pub proof fn lemma_disk_short_line_dropped(lines: Seq<Seq<char>>, i: int)
    requires
        0 <= i < lines.len(),
        spec_tokens(lines[i]).len() < 14,
    ensures
        spec_parse_disk_lines(lines) == spec_parse_disk_lines(lines.remove(i)),
    decreases lines.len(),
{
    if i == 0 {
        assert(lines.remove(0) =~= lines.drop_first());
    } else {
        assert(lines.remove(i).drop_first() =~= lines.drop_first().remove(i - 1));
        assert(lines.drop_first()[i - 1] == lines[i]);
        lemma_disk_short_line_dropped(lines.drop_first(), i - 1);
        assert(lines.remove(i)[0] == lines[0]);
    }
}

/// Input in which every line is short yields the empty record list, not an
/// error.
pub proof fn lemma_disk_all_short_is_empty(s: Seq<char>)
    requires
        forall|i: int|
            0 <= i < spec_lines(s).len() ==> spec_tokens(#[trigger] spec_lines(s)[i]).len() < 14,
    ensures
        spec_parse_diskstats(s) == Ok::<Seq<DiskStatsView>, ErrorView>(Seq::empty()),
{
    lemma_disk_all_short_lines_empty(spec_lines(s));
}

proof fn lemma_disk_all_short_lines_empty(lines: Seq<Seq<char>>)
    requires
        forall|i: int| 0 <= i < lines.len() ==> spec_tokens(#[trigger] lines[i]).len() < 14,
    ensures
        spec_parse_disk_lines(lines) == Ok::<Seq<DiskStatsView>, ErrorView>(Seq::empty()),
    decreases lines.len(),
{
    if lines.len() > 0 {
        assert forall|i: int|
            0 <= i < lines.drop_first().len() implies spec_tokens(
            #[trigger] lines.drop_first()[i],
        ).len() < 14 by {
            assert(lines.drop_first()[i] == lines[i + 1]);
        }
        lemma_disk_all_short_lines_empty(lines.drop_first());
    }
}

// ---------------------------------------------------------------------------
// Collector
// ---------------------------------------------------------------------------

/// The device records whose names the exclusion pattern does not match, in
/// input order.
pub open spec fn spec_filter_disks(recs: Seq<DiskStatsView>, pat: Seq<char>) -> Seq<DiskStatsView>
    decreases recs.len(),
{
    if recs.len() == 0 {
        Seq::empty()
    } else {
        let rest = spec_filter_disks(recs.drop_first(), pat);
        if regex_matches(pat, recs[0].device) {
            rest
        } else {
            seq![recs[0]] + rest
        }
    }
}

proof fn lemma_filter_disks_snoc(recs: Seq<DiskStatsView>, pat: Seq<char>, rec: DiskStatsView)
    ensures
        regex_matches(pat, rec.device) ==> spec_filter_disks(recs.push(rec), pat)
            == spec_filter_disks(recs, pat),
        !regex_matches(pat, rec.device) ==> spec_filter_disks(recs.push(rec), pat)
            == spec_filter_disks(recs, pat).push(rec),
    decreases recs.len(),
{
    if recs.len() == 0 {
        assert(recs.push(rec)[0] == rec);
        assert(recs.push(rec).drop_first() =~= recs);
        if !regex_matches(pat, rec.device) {
            assert(spec_filter_disks(recs.push(rec), pat) =~= spec_filter_disks(recs, pat).push(
                rec,
            ));
        }
    } else {
        assert(recs.push(rec)[0] == recs[0]);
        assert(recs.push(rec).drop_first() =~= recs.drop_first().push(rec));
        lemma_filter_disks_snoc(recs.drop_first(), pat, rec);
        if !regex_matches(pat, rec.device) {
            assert(seq![recs[0]] + spec_filter_disks(recs.drop_first(), pat).push(rec) =~= (
            seq![recs[0]] + spec_filter_disks(recs.drop_first(), pat)).push(rec));
        }
    }
}

/// No filtered record matches the pattern, and every record that does not
/// match survives, in order: a device whose name matches the configured
/// pattern never reaches any emitted sample, and a pattern that matches
/// nothing preserves all devices.
pub proof fn lemma_filter_disks_excludes(recs: Seq<DiskStatsView>, pat: Seq<char>)
    ensures
        forall|k: int|
            0 <= k < spec_filter_disks(recs, pat).len() ==> !regex_matches(
                pat,
                (#[trigger] spec_filter_disks(recs, pat)[k]).device,
            ),
        (forall|k: int|
            0 <= k < recs.len() ==> !regex_matches(pat, (#[trigger] recs[k]).device))
            ==> spec_filter_disks(recs, pat) == recs,
    decreases recs.len(),
{
    if recs.len() > 0 {
        lemma_filter_disks_excludes(recs.drop_first(), pat);
        let rest = spec_filter_disks(recs.drop_first(), pat);
        if forall|k: int| 0 <= k < recs.len() ==> !regex_matches(pat, (#[trigger] recs[k]).device) {
            assert forall|k: int|
                0 <= k < recs.drop_first().len() implies !regex_matches(
                pat,
                (#[trigger] recs.drop_first()[k]).device,
            ) by {
                assert(recs.drop_first()[k] == recs[k + 1]);
            }
            assert(!regex_matches(pat, recs[0].device));
            assert(seq![recs[0]] + recs.drop_first() =~= recs);
        }
        if !regex_matches(pat, recs[0].device) {
            assert forall|k: int|
                0 <= k < spec_filter_disks(recs, pat).len() implies !regex_matches(
                pat,
                (#[trigger] spec_filter_disks(recs, pat)[k]).device,
            ) by {
                if k > 0 {
                    assert(spec_filter_disks(recs, pat)[k] == rest[k - 1]);
                }
            }
        }
    }
}

/// Which counter of a device record a metric family reports.
#[derive(Debug, Clone, Copy)]
pub enum DiskField {
    ReadsCompleted,
    WritesCompleted,
    ReadBytes,
    WrittenBytes,
    IoTimeSeconds,
    IoInProgress,
}

/// The value field `f` selects from a record: plain counts as whole numbers,
/// sectors times the 512-byte sector size, and I/O milliseconds as seconds
/// (three decimal places).
pub open spec fn disk_value(rec: DiskStatsView, f: DiskField) -> MetricValue {
    match f {
        DiskField::ReadsCompleted => MetricValue::Finite {
            negative: false,
            mantissa: rec.reads_completed as u128,
            scale: 0,
        },
        DiskField::WritesCompleted => MetricValue::Finite {
            negative: false,
            mantissa: rec.writes_completed as u128,
            scale: 0,
        },
        DiskField::ReadBytes => MetricValue::Finite {
            negative: false,
            mantissa: (rec.sectors_read * 512) as u128,
            scale: 0,
        },
        DiskField::WrittenBytes => MetricValue::Finite {
            negative: false,
            mantissa: (rec.sectors_written * 512) as u128,
            scale: 0,
        },
        DiskField::IoTimeSeconds => MetricValue::Finite {
            negative: false,
            mantissa: rec.time_doing_ios_ms as u128,
            scale: 3,
        },
        DiskField::IoInProgress => MetricValue::Finite {
            negative: false,
            mantissa: rec.ios_in_progress as u128,
            scale: 0,
        },
    }
}

fn disk_value_of(rec: &DiskStats, f: DiskField) -> (v: MetricValue)
    ensures
        v == disk_value(rec@, f),
{
    match f {
        DiskField::ReadsCompleted => MetricValue::Finite {
            negative: false,
            mantissa: rec.reads_completed as u128,
            scale: 0,
        },
        DiskField::WritesCompleted => MetricValue::Finite {
            negative: false,
            mantissa: rec.writes_completed as u128,
            scale: 0,
        },
        DiskField::ReadBytes => MetricValue::Finite {
            negative: false,
            mantissa: (rec.sectors_read as u128) * 512,
            scale: 0,
        },
        DiskField::WrittenBytes => MetricValue::Finite {
            negative: false,
            mantissa: (rec.sectors_written as u128) * 512,
            scale: 0,
        },
        DiskField::IoTimeSeconds => MetricValue::Finite {
            negative: false,
            mantissa: rec.time_doing_ios_ms as u128,
            scale: 3,
        },
        DiskField::IoInProgress => MetricValue::Finite {
            negative: false,
            mantissa: rec.ios_in_progress as u128,
            scale: 0,
        },
    }
}

/// The sample of one surviving device: a `device` label and the selected
/// counter.
pub open spec fn disk_sample(rec: DiskStatsView, f: DiskField) -> SampleView {
    SampleView { labels: seq![("device"@, rec.device)], value: disk_value(rec, f) }
}

/// One disk metric family over the surviving devices.
pub open spec fn disk_metric(
    kept: Seq<DiskStatsView>,
    name: Seq<char>,
    help: Seq<char>,
    t: MetricType,
    f: DiskField,
) -> MetricView {
    MetricView {
        name,
        help,
        metric_type: t,
        samples: Seq::new(kept.len(), |k: int| disk_sample(kept[k], f)),
    }
}

/// What [`DiskCollector::collect_from_string`] returns: six families — reads
/// and writes completed, bytes read and written, I/O seconds, and the
/// in-progress gauge — each with one sample per device that the exclusion
/// pattern does not match; or the parse error.
pub open spec fn spec_disk_collect(s: Seq<char>, pat: Seq<char>) -> Result<
    Seq<MetricView>,
    ErrorView,
> {
    match spec_parse_diskstats(s) {
        Err(e) => Err(e),
        Ok(recs) => {
            let kept = spec_filter_disks(recs, pat);
            Ok(
                seq![
                    disk_metric(
                        kept,
                        "sysmetrics_disk_reads_completed_total"@,
                        "Total number of reads completed."@,
                        MetricType::Counter,
                        DiskField::ReadsCompleted,
                    ),
                    disk_metric(
                        kept,
                        "sysmetrics_disk_writes_completed_total"@,
                        "Total number of writes completed."@,
                        MetricType::Counter,
                        DiskField::WritesCompleted,
                    ),
                    disk_metric(
                        kept,
                        "sysmetrics_disk_read_bytes_total"@,
                        "Total bytes read from disk."@,
                        MetricType::Counter,
                        DiskField::ReadBytes,
                    ),
                    disk_metric(
                        kept,
                        "sysmetrics_disk_written_bytes_total"@,
                        "Total bytes written to disk."@,
                        MetricType::Counter,
                        DiskField::WrittenBytes,
                    ),
                    disk_metric(
                        kept,
                        "sysmetrics_disk_io_time_seconds_total"@,
                        "Total time spent doing I/Os in seconds."@,
                        MetricType::Counter,
                        DiskField::IoTimeSeconds,
                    ),
                    disk_metric(
                        kept,
                        "sysmetrics_disk_io_in_progress"@,
                        "Number of I/Os currently in progress."@,
                        MetricType::Gauge,
                        DiskField::IoInProgress,
                    ),
                ],
            )
        },
    }
}

/// Build one disk metric family over the kept devices.
#[verifier::loop_isolation(false)]
fn disk_metric_exec(
    kept: &Vec<DiskStats>,
    name: &str,
    help: &str,
    t: MetricType,
    f: DiskField,
) -> (m: Metric)
    ensures
        m@ == disk_metric(kept.deep_view(), name@, help@, t, f),
{
    let ghost dv = kept.deep_view();
    let n = kept.len();
    let mut samples: Vec<MetricSample> = Vec::new();
    proof {
        assert(dv.len() == n);
        assert(samples.deep_view() =~= Seq::new(0, |k: int| disk_sample(dv[k], f)));
    }
    let mut i: usize = 0;
    while i < n
        invariant
            0 <= i <= n,
            n == kept@.len(),
            samples.deep_view() == Seq::new(i as nat, |k: int| disk_sample(dv[k], f)),
        decreases n - i,
    {
        proof {
            assert(kept.deep_view()[i as int] == kept@[i as int]@);
        }
        let rec = &kept[i];
        let mut labels: Vec<(String, String)> = Vec::new();
        labels.push(("device".to_owned(), rec.device.clone()));
        let sample = MetricSample { labels, value: disk_value_of(rec, f) };
        let ghost pre = samples.deep_view();
        samples.push(sample);
        proof {
            assert(sample@.labels =~= seq![("device"@, dv[i as int].device)]);
            assert(sample@ =~= disk_sample(dv[i as int], f));
            assert(samples.deep_view() =~= pre.push(sample@));
            assert(samples.deep_view() =~= Seq::new((i + 1) as nat, |k: int| disk_sample(dv[k], f)));
        }
        i = i + 1;
    }
    let m = Metric {
        name: name.to_owned(),
        help: help.to_owned(),
        metric_type: t,
        samples,
    };
    proof {
        assert(m@ =~~= disk_metric(dv, name@, help@, t, f));
    }
    m
}

/// The disk collector: holds the compiled exclusion pattern; its view is the
/// pattern string the collector was built from.
pub struct DiskCollector {
    exclude_pattern: regex::Regex,
}

impl View for DiskCollector {
    type V = Seq<char>;

    closed spec fn view(&self) -> Seq<char> {
        regex_pattern(self.exclude_pattern)
    }
}

impl DiskCollector {
    /// Compile the exclusion pattern once; construction succeeds exactly
    /// when the pattern is a valid regular expression, and the collector
    /// then holds that pattern for its lifetime.
    pub fn new(exclude_pattern: &str) -> (r: Result<Self, regex::Error>)
        ensures
            r is Ok <==> pattern_ok(exclude_pattern@),
            r is Ok ==> r->Ok_0@ == exclude_pattern@,
    {
        match compile_pattern(exclude_pattern) {
            Ok(re) => Ok(DiskCollector { exclude_pattern: re }),
            Err(e) => Err(e),
        }
    }

    /// Stable identifier of this collector.
    pub fn name(&self) -> (r: &'static str)
        ensures
            r@ == "disk"@,
    {
        "disk"
    }

    /// Path of the backing file a caller must read for [`Self::collect_from_string`].
    pub fn source_path(&self) -> (r: &'static str)
        ensures
            r@ == diskstats_path(),
    {
        "/proc/diskstats"
    }

    /// Turn the statistics file's content into metric families, as
    /// [`spec_disk_collect`] describes.
    #[verifier::loop_isolation(false)]
    pub fn collect_from_string(&self, content: &str) -> (r: Result<Vec<Metric>, CollectorError>)
        ensures
            match r {
                Ok(v) => spec_disk_collect(content@, self@) == Ok::<Seq<MetricView>, ErrorView>(
                    v.deep_view(),
                ),
                Err(e) => spec_disk_collect(content@, self@) == Err::<Seq<MetricView>, ErrorView>(
                    e@,
                ),
            },
    {
        let stats = match parse_diskstats(content) {
            Ok(v) => v,
            Err(e) => {
                return Err(e);
            },
        };
        let ghost recs = spec_parse_diskstats(content@)->Ok_0;
        proof {
            assert(stats.deep_view() == recs);
        }
        let n = stats.len();
        let mut kept: Vec<DiskStats> = Vec::new();
        proof {
            assert(recs.take(0) =~= Seq::<DiskStatsView>::empty());
            assert(kept.deep_view() =~= spec_filter_disks(recs.take(0), self@));
        }
        let mut i: usize = 0;
        while i < n
            invariant
                0 <= i <= n,
                n == stats@.len(),
                kept.deep_view() == spec_filter_disks(recs.take(i as int), self@),
            decreases n - i,
        {
            proof {
                assert(stats.deep_view()[i as int] == stats@[i as int]@);
                assert(recs.take(i + 1) =~= recs.take(i as int).push(recs[i as int]));
                lemma_filter_disks_snoc(recs.take(i as int), self@, recs[i as int]);
            }
            let rec = &stats[i];
            if !pattern_matches(&self.exclude_pattern, rec.device.as_str()) {
                let copy = DiskStats {
                    device: rec.device.clone(),
                    reads_completed: rec.reads_completed,
                    reads_merged: rec.reads_merged,
                    sectors_read: rec.sectors_read,
                    time_reading_ms: rec.time_reading_ms,
                    writes_completed: rec.writes_completed,
                    writes_merged: rec.writes_merged,
                    sectors_written: rec.sectors_written,
                    time_writing_ms: rec.time_writing_ms,
                    ios_in_progress: rec.ios_in_progress,
                    time_doing_ios_ms: rec.time_doing_ios_ms,
                    weighted_time_ms: rec.weighted_time_ms,
                };
                let ghost pre = kept.deep_view();
                proof {
                    assert(copy@ =~= recs[i as int]);
                }
                kept.push(copy);
                proof {
                    assert(kept.deep_view() =~= pre.push(recs[i as int]));
                }
            }
            i = i + 1;
        }
        proof {
            assert(recs.take(n as int) =~= recs);
        }
        let ghost keptv = spec_filter_disks(recs, self@);
        let mut metrics: Vec<Metric> = Vec::new();
        metrics.push(
            disk_metric_exec(
                &kept,
                "sysmetrics_disk_reads_completed_total",
                "Total number of reads completed.",
                MetricType::Counter,
                DiskField::ReadsCompleted,
            ),
        );
        metrics.push(
            disk_metric_exec(
                &kept,
                "sysmetrics_disk_writes_completed_total",
                "Total number of writes completed.",
                MetricType::Counter,
                DiskField::WritesCompleted,
            ),
        );
        metrics.push(
            disk_metric_exec(
                &kept,
                "sysmetrics_disk_read_bytes_total",
                "Total bytes read from disk.",
                MetricType::Counter,
                DiskField::ReadBytes,
            ),
        );
        metrics.push(
            disk_metric_exec(
                &kept,
                "sysmetrics_disk_written_bytes_total",
                "Total bytes written to disk.",
                MetricType::Counter,
                DiskField::WrittenBytes,
            ),
        );
        metrics.push(
            disk_metric_exec(
                &kept,
                "sysmetrics_disk_io_time_seconds_total",
                "Total time spent doing I/Os in seconds.",
                MetricType::Counter,
                DiskField::IoTimeSeconds,
            ),
        );
        metrics.push(
            disk_metric_exec(
                &kept,
                "sysmetrics_disk_io_in_progress",
                "Number of I/Os currently in progress.",
                MetricType::Gauge,
                DiskField::IoInProgress,
            ),
        );
        proof {
            assert(metrics.deep_view() =~~= spec_disk_collect(content@, self@)->Ok_0);
        }
        Ok(metrics)
    }
}

} // verus!
