//! Parser and collector for the per-interface network statistics file.
//!
//! The file opens with two header lines recognizable by their `|` character;
//! headers and blank lines are skipped.  A data line reads
//! `iface: field0 field1 ...` and must have at least 16 fields, of which the
//! receive bytes/packets/errors/drops (fields 0 to 3) and transmit
//! bytes/packets/errors/drops (fields 8 to 11) are extracted.  The collector
//! drops interfaces whose name matches the configured exclusion pattern.

use vstd::prelude::*;
use crate::error::{parse_error, CollectorError, ErrorView};
use crate::metric::{Metric, MetricSample, MetricType, MetricView, SampleView};
use crate::pattern::{compile_pattern, pattern_matches, pattern_ok, regex_matches, regex_pattern};
use crate::text::{contains_char, spec_lines, spec_parse_u64, spec_split_colon, spec_tokens, spec_trim};
use crate::text::{find_char_at, parse_u64, split_lines, split_once_colon, split_tokens, trim};
use crate::value::MetricValue;

verus! {

/// The fixed path of the per-interface network statistics file.
pub open spec fn netdev_path() -> Seq<char> {
    "/proc/net/dev"@
}

/// Parsed statistics of one network interface.
#[derive(Debug, Clone)]
pub struct NetStats {
    pub interface: String,
    pub rx_bytes: u64,
    pub rx_packets: u64,
    pub rx_errors: u64,
    pub rx_drop: u64,
    pub tx_bytes: u64,
    pub tx_packets: u64,
    pub tx_errors: u64,
    pub tx_drop: u64,
}

/// Mathematical image of [`NetStats`].
#[verifier::ext_equal]
pub struct NetStatsView {
    pub interface: Seq<char>,
    pub rx_bytes: u64,
    pub rx_packets: u64,
    pub rx_errors: u64,
    pub rx_drop: u64,
    pub tx_bytes: u64,
    pub tx_packets: u64,
    pub tx_errors: u64,
    pub tx_drop: u64,
}

impl View for NetStats {
    type V = NetStatsView;

    open spec fn view(&self) -> NetStatsView {
        NetStatsView {
            interface: self.interface@,
            rx_bytes: self.rx_bytes,
            rx_packets: self.rx_packets,
            rx_errors: self.rx_errors,
            rx_drop: self.rx_drop,
            tx_bytes: self.tx_bytes,
            tx_packets: self.tx_packets,
            tx_errors: self.tx_errors,
            tx_drop: self.tx_drop,
        }
    }
}

impl DeepView for NetStats {
    type V = NetStatsView;

    open spec fn deep_view(&self) -> NetStatsView {
        self.view()
    }
}

// ---------------------------------------------------------------------------
// Specification
// ---------------------------------------------------------------------------

/// The field position of extracted counter `j`: receive counters sit at
/// fields 0 to 3 and transmit counters at fields 8 to 11.
pub open spec fn net_field_idx(j: int) -> int {
    if j < 4 {
        j
    } else {
        j + 4
    }
}

/// Name of extracted counter `j`, as used in errors.
pub open spec fn net_field_name(j: int) -> Seq<char> {
    if j == 0 {
        "rx_bytes"@
    } else if j == 1 {
        "rx_packets"@
    } else if j == 2 {
        "rx_errors"@
    } else if j == 3 {
        "rx_drop"@
    } else if j == 4 {
        "tx_bytes"@
    } else if j == 5 {
        "tx_packets"@
    } else if j == 6 {
        "tx_errors"@
    } else {
        "tx_drop"@
    }
}

/// Index of the first of the 8 extracted counters that does not parse,
/// starting at `j`; 8 if all parse.
pub open spec fn first_bad_net_field(fields: Seq<Seq<char>>, j: int) -> int
    decreases 8 - j,
{
    if j < 0 || j >= 8 {
        8
    } else if spec_parse_u64(fields[net_field_idx(j)]) is None {
        j
    } else {
        first_bad_net_field(fields, j + 1)
    }
}

proof fn lemma_first_bad_net_field_from_witness(fields: Seq<Seq<char>>, j: int, k: int)
    requires
        0 <= j <= k <= 8,
        forall|l: int|
            j <= l < k ==> spec_parse_u64(#[trigger] fields[net_field_idx(l)]) is Some,
        k < 8 ==> spec_parse_u64(fields[net_field_idx(k)]) is None,
    ensures
        first_bad_net_field(fields, j) == k,
    decreases k - j,
{
    if j < k {
        assert(spec_parse_u64(fields[net_field_idx(j)]) is Some);
        lemma_first_bad_net_field_from_witness(fields, j + 1, k);
    }
}

/// The record of a data line whose extracted counters all parse.
pub open spec fn net_record(iface: Seq<char>, fields: Seq<Seq<char>>) -> NetStatsView {
    NetStatsView {
        interface: iface,
        rx_bytes: spec_parse_u64(fields[0]).unwrap(),
        rx_packets: spec_parse_u64(fields[1]).unwrap(),
        rx_errors: spec_parse_u64(fields[2]).unwrap(),
        rx_drop: spec_parse_u64(fields[3]).unwrap(),
        tx_bytes: spec_parse_u64(fields[8]).unwrap(),
        tx_packets: spec_parse_u64(fields[9]).unwrap(),
        tx_errors: spec_parse_u64(fields[10]).unwrap(),
        tx_drop: spec_parse_u64(fields[11]).unwrap(),
    }
}

/// A header or blank line, which the scan always skips.
pub open spec fn net_line_skipped(line: Seq<char>) -> bool {
    contains_char(line, '|') || spec_trim(line).len() == 0
}

/// A data line with too few fields, which fails the scan naming the
/// interface.
pub open spec fn net_line_short(line: Seq<char>) -> bool {
    !net_line_skipped(line) && spec_split_colon(line) is Some && spec_tokens(
        spec_split_colon(line).unwrap().1,
    ).len() < 16
}

/// Scan lines for interface records.  Header lines (those with a `|`) and
/// blank lines are skipped, as are lines without a colon; a data line needs
/// at least 16 fields and parsable extracted counters, else the scan stops
/// with an error naming the interface or the field.
pub open spec fn spec_parse_net_lines(lines: Seq<Seq<char>>) -> Result<Seq<NetStatsView>, ErrorView>
    decreases lines.len(),
{
    if lines.len() == 0 {
        Ok(Seq::empty())
    } else {
        let line = lines[0];
        if net_line_skipped(line) {
            spec_parse_net_lines(lines.drop_first())
        } else {
            match spec_split_colon(line) {
                None => spec_parse_net_lines(lines.drop_first()),
                Some(kv) => {
                    let iface = spec_trim(kv.0);
                    let fields = spec_tokens(kv.1);
                    if fields.len() < 16 {
                        Err(parse_error(netdev_path(), "interface "@ + iface, line))
                    } else {
                        let bad = first_bad_net_field(fields, 0);
                        if bad < 8 {
                            Err(
                                parse_error(
                                    netdev_path(),
                                    net_field_name(bad) + " for "@ + iface,
                                    fields[net_field_idx(bad)],
                                ),
                            )
                        } else {
                            match spec_parse_net_lines(lines.drop_first()) {
                                Ok(rest) => Ok(seq![net_record(iface, fields)] + rest),
                                Err(e) => Err(e),
                            }
                        }
                    }
                },
            }
        }
    }
}

/// What [`parse_net_dev`] returns.
pub open spec fn spec_parse_net_dev(s: Seq<char>) -> Result<Seq<NetStatsView>, ErrorView> {
    spec_parse_net_lines(spec_lines(s))
}

// ---------------------------------------------------------------------------
// Executable parser
// ---------------------------------------------------------------------------

fn net_field_str(j: usize) -> (r: &'static str)
    requires
        j < 8,
    ensures
        r@ == net_field_name(j as int),
{
    if j == 0 {
        "rx_bytes"
    } else if j == 1 {
        "rx_packets"
    } else if j == 2 {
        "rx_errors"
    } else if j == 3 {
        "rx_drop"
    } else if j == 4 {
        "tx_bytes"
    } else if j == 5 {
        "tx_packets"
    } else if j == 6 {
        "tx_errors"
    } else {
        "tx_drop"
    }
}

/// Parse the per-interface network statistics file, as
/// [`spec_parse_net_dev`] describes.
#[verifier::loop_isolation(false)]
pub fn parse_net_dev(content: &str) -> (r: Result<Vec<NetStats>, CollectorError>)
    ensures
        match r {
            Ok(v) => spec_parse_net_dev(content@) == Ok::<Seq<NetStatsView>, ErrorView>(
                v.deep_view(),
            ),
            Err(e) => spec_parse_net_dev(content@) == Err::<Seq<NetStatsView>, ErrorView>(e@),
        },
{
    let lines = split_lines(content);
    let ghost lv = spec_lines(content@);
    let n = lines.len();
    let mut stats: Vec<NetStats> = Vec::new();
    let mut i: usize = 0;
    proof {
        assert(lv.skip(0) =~= lv);
        assert(stats.deep_view() =~= Seq::<NetStatsView>::empty());
        if spec_parse_net_lines(lv) is Ok {
            assert(stats.deep_view() + spec_parse_net_lines(lv)->Ok_0 =~= spec_parse_net_lines(
                lv,
            )->Ok_0);
        }
    }
    while i < n
        invariant
            0 <= i <= n,
            n == lines@.len(),
            lines.deep_view() == lv,
            lv.len() == n,
            spec_parse_net_lines(lv.skip(i as int)) is Ok ==> spec_parse_net_lines(lv) == Ok::<
                Seq<NetStatsView>,
                ErrorView,
            >(stats.deep_view() + spec_parse_net_lines(lv.skip(i as int))->Ok_0),
            spec_parse_net_lines(lv.skip(i as int)) is Err ==> spec_parse_net_lines(lv)
                == spec_parse_net_lines(lv.skip(i as int)),
        decreases n - i,
    {
        let ghost rem = lv.skip(i as int);
        proof {
            assert(rem[0] == lv[i as int]);
            assert(rem.drop_first() =~= lv.skip(i + 1));
            assert(lines.deep_view()[i as int] == lines@[i as int]@);
        }
        let line = &lines[i];
        let line_len = line.as_str().unicode_len();
        let has_pipe = find_char_at(line.as_str(), '|') < line_len;
        let blank = trim(line.as_str()).is_empty();
        if has_pipe || blank {
            proof {
                assert(net_line_skipped(lv[i as int]));
            }
            i = i + 1;
        } else {
            proof {
                assert(!net_line_skipped(lv[i as int]));
            }
            match split_once_colon(line.as_str()) {
                None => {
                    i = i + 1;
                },
                Some((head, rest)) => {
                    let ghost kv = spec_split_colon(lv[i as int]).unwrap();
                    proof {
                        assert(kv.0 == head@ && kv.1 == rest@);
                    }
                    let iface: String = trim(head).to_owned();
                    let ghost ifv = spec_trim(kv.0);
                    let fields = split_tokens(rest);
                    let ghost fv = spec_tokens(kv.1);
                    proof {
                        assert(iface@ == ifv);
                        assert(fields.deep_view() == fv);
                        assert(fields.deep_view().len() == fields@.len());
                    }
                    if fields.len() < 16 {
                        let mut field = String::new();
                        field.append("interface ");
                        field.append(iface.as_str());
                        let e = CollectorError::Parse {
                            path: "/proc/net/dev".to_owned(),
                            field,
                            raw: line.clone(),
                        };
                        proof {
                            assert((Seq::<char>::empty() + "interface "@) + ifv =~= "interface "@
                                + ifv);
                            assert(e@ == parse_error(netdev_path(), "interface "@ + ifv, lv[i as int]));
                            assert(spec_parse_net_lines(rem) == Err::<Seq<NetStatsView>, ErrorView>(
                                e@,
                            ));
                        }
                        return Err(e);
                    }
                    let mut values: Vec<u64> = Vec::new();
                    let mut j: usize = 0;
                    while j < 8
                        invariant
                            0 <= j <= 8,
                            fields@.len() >= 16,
                            fields.deep_view() == fv,
                            fv.len() == fields@.len(),
                            iface@ == ifv,
                            values@.len() == j,
                            forall|l: int|
                                0 <= l < j ==> spec_parse_u64(
                                    #[trigger] fv[net_field_idx(l)],
                                ) is Some,
                            forall|l: int|
                                0 <= l < j ==> values@[l] == spec_parse_u64(
                                    fv[net_field_idx(l)],
                                ).unwrap(),
                        decreases 8 - j,
                    {
                        let idx: usize = if j < 4 {
                            j
                        } else {
                            j + 4
                        };
                        proof {
                            assert(idx as int == net_field_idx(j as int));
                            assert(fields.deep_view()[idx as int] == fields@[idx as int]@);
                        }
                        let col = &fields[idx];
                        match parse_u64(col.as_str()) {
                            Some(v) => {
                                values.push(v);
                            },
                            None => {
                                proof {
                                    lemma_first_bad_net_field_from_witness(fv, 0, j as int);
                                }
                                let mut field = String::new();
                                field.append(net_field_str(j));
                                field.append(" for ");
                                field.append(iface.as_str());
                                let e = CollectorError::Parse {
                                    path: "/proc/net/dev".to_owned(),
                                    field,
                                    raw: col.clone(),
                                };
                                proof {
                                    assert(((Seq::<char>::empty() + net_field_name(j as int))
                                        + " for "@) + ifv =~= net_field_name(j as int) + " for "@
                                        + ifv);
                                    assert(e@ == parse_error(
                                        netdev_path(),
                                        net_field_name(j as int) + " for "@ + ifv,
                                        fv[net_field_idx(j as int)],
                                    ));
                                    assert(spec_parse_net_lines(rem) == Err::<
                                        Seq<NetStatsView>,
                                        ErrorView,
                                    >(e@));
                                }
                                return Err(e);
                            },
                        }
                        j = j + 1;
                    }
                    proof {
                        lemma_first_bad_net_field_from_witness(fv, 0, 8);
                    }
                    let rec = NetStats {
                        interface: iface,
                        rx_bytes: values[0],
                        rx_packets: values[1],
                        rx_errors: values[2],
                        rx_drop: values[3],
                        tx_bytes: values[4],
                        tx_packets: values[5],
                        tx_errors: values[6],
                        tx_drop: values[7],
                    };
                    let ghost pre = stats.deep_view();
                    stats.push(rec);
                    proof {
                        assert(stats.deep_view() =~= pre + seq![net_record(ifv, fv)]);
                        if spec_parse_net_lines(lv.skip(i + 1)) is Ok {
                            assert(pre + (seq![net_record(ifv, fv)] + spec_parse_net_lines(
                                lv.skip(i + 1),
                            )->Ok_0) =~= stats.deep_view() + spec_parse_net_lines(
                                lv.skip(i + 1),
                            )->Ok_0);
                        }
                    }
                    i = i + 1;
                },
            }
        }
    }
    proof {
        assert(lv.skip(n as int).len() == 0);
        assert(stats.deep_view() + Seq::<NetStatsView>::empty() =~= stats.deep_view());
    }
    Ok(stats)
}

// ---------------------------------------------------------------------------
// Parser laws
// ---------------------------------------------------------------------------

/// Removing a header line (one with a `|`) or a blank line from the input
/// does not change the result: such lines are always skipped.
pub proof fn lemma_net_header_line_skipped(lines: Seq<Seq<char>>, i: int)
    requires
        0 <= i < lines.len(),
        net_line_skipped(lines[i]),
    ensures
        spec_parse_net_lines(lines) == spec_parse_net_lines(lines.remove(i)),
    decreases lines.len(),
{
    if i == 0 {
        assert(lines.remove(0) =~= lines.drop_first());
    } else {
        assert(lines.remove(i).drop_first() =~= lines.drop_first().remove(i - 1));
        assert(lines.drop_first()[i - 1] == lines[i]);
        lemma_net_header_line_skipped(lines.drop_first(), i - 1);
        assert(lines.remove(i)[0] == lines[0]);
    }
}

/// A data line with fewer than 16 fields fails the whole parse.
pub proof fn lemma_net_short_line_error(s: Seq<char>, i: int)
    requires
        0 <= i < spec_lines(s).len(),
        net_line_short(spec_lines(s)[i]),
    ensures
        spec_parse_net_dev(s) is Err,
{
    lemma_net_short_lines_error(spec_lines(s), i);
}

proof fn lemma_net_short_lines_error(lines: Seq<Seq<char>>, i: int)
    requires
        0 <= i < lines.len(),
        net_line_short(lines[i]),
    ensures
        spec_parse_net_lines(lines) is Err,
    decreases lines.len(),
{
    if i > 0 {
        assert(lines.drop_first()[i - 1] == lines[i]);
        lemma_net_short_lines_error(lines.drop_first(), i - 1);
    }
}

/// A line the scan passes over without error: a header or blank line, a
/// line without a colon, or a well-formed data line.
pub open spec fn net_line_ok(line: Seq<char>) -> bool {
    net_line_skipped(line) || spec_split_colon(line) is None || {
        let fields = spec_tokens(spec_split_colon(line).unwrap().1);
        fields.len() >= 16 && first_bad_net_field(fields, 0) == 8
    }
}

/// When the short data line is moreover the first bad line — every earlier
/// line is skipped or well-formed — the parse fails with exactly the error
/// naming that line's interface and carrying the line's text.
pub proof fn lemma_net_short_line_named_error(s: Seq<char>, i: int)
    requires
        0 <= i < spec_lines(s).len(),
        net_line_short(spec_lines(s)[i]),
        forall|j: int| 0 <= j < i ==> net_line_ok(#[trigger] spec_lines(s)[j]),
    ensures
        spec_parse_net_dev(s) == Err::<Seq<NetStatsView>, ErrorView>(
            parse_error(
                netdev_path(),
                "interface "@ + spec_trim(spec_split_colon(spec_lines(s)[i]).unwrap().0),
                spec_lines(s)[i],
            ),
        ),
{
    lemma_net_short_named_lines_error(spec_lines(s), i);
}

proof fn lemma_net_short_named_lines_error(lines: Seq<Seq<char>>, i: int)
    requires
        0 <= i < lines.len(),
        net_line_short(lines[i]),
        forall|j: int| 0 <= j < i ==> net_line_ok(#[trigger] lines[j]),
    ensures
        spec_parse_net_lines(lines) == Err::<Seq<NetStatsView>, ErrorView>(
            parse_error(
                netdev_path(),
                "interface "@ + spec_trim(spec_split_colon(lines[i]).unwrap().0),
                lines[i],
            ),
        ),
    decreases lines.len(),
{
    if i > 0 {
        assert forall|j: int|
            0 <= j < i - 1 implies net_line_ok(#[trigger] lines.drop_first()[j]) by {
            assert(lines.drop_first()[j] == lines[j + 1]);
        }
        assert(lines.drop_first()[i - 1] == lines[i]);
        lemma_net_short_named_lines_error(lines.drop_first(), i - 1);
        assert(net_line_ok(lines[0]));
    }
}

// ---------------------------------------------------------------------------
// Collector
// ---------------------------------------------------------------------------

/// The interface records whose names the exclusion pattern does not match,
/// in input order.
pub open spec fn spec_filter_nets(recs: Seq<NetStatsView>, pat: Seq<char>) -> Seq<NetStatsView>
    decreases recs.len(),
{
    if recs.len() == 0 {
        Seq::empty()
    } else {
        let rest = spec_filter_nets(recs.drop_first(), pat);
        if regex_matches(pat, recs[0].interface) {
            rest
        } else {
            seq![recs[0]] + rest
        }
    }
}

proof fn lemma_filter_nets_snoc(recs: Seq<NetStatsView>, pat: Seq<char>, rec: NetStatsView)
    ensures
        regex_matches(pat, rec.interface) ==> spec_filter_nets(recs.push(rec), pat)
            == spec_filter_nets(recs, pat),
        !regex_matches(pat, rec.interface) ==> spec_filter_nets(recs.push(rec), pat)
            == spec_filter_nets(recs, pat).push(rec),
    decreases recs.len(),
{
    if recs.len() == 0 {
        assert(recs.push(rec)[0] == rec);
        assert(recs.push(rec).drop_first() =~= recs);
        if !regex_matches(pat, rec.interface) {
            assert(spec_filter_nets(recs.push(rec), pat) =~= spec_filter_nets(recs, pat).push(rec));
        }
    } else {
        assert(recs.push(rec)[0] == recs[0]);
        assert(recs.push(rec).drop_first() =~= recs.drop_first().push(rec));
        lemma_filter_nets_snoc(recs.drop_first(), pat, rec);
        if !regex_matches(pat, rec.interface) {
            assert(seq![recs[0]] + spec_filter_nets(recs.drop_first(), pat).push(rec) =~= (
            seq![recs[0]] + spec_filter_nets(recs.drop_first(), pat)).push(rec));
        }
    }
}

/// No filtered record matches the pattern, and every record that does not
/// match survives, in order: an interface whose name matches the configured
/// pattern never reaches any emitted sample, and a pattern that matches
/// nothing preserves all interfaces.
pub proof fn lemma_filter_nets_excludes(recs: Seq<NetStatsView>, pat: Seq<char>)
    ensures
        forall|k: int|
            0 <= k < spec_filter_nets(recs, pat).len() ==> !regex_matches(
                pat,
                (#[trigger] spec_filter_nets(recs, pat)[k]).interface,
            ),
        (forall|k: int|
            0 <= k < recs.len() ==> !regex_matches(pat, (#[trigger] recs[k]).interface))
            ==> spec_filter_nets(recs, pat) == recs,
    decreases recs.len(),
{
    if recs.len() > 0 {
        lemma_filter_nets_excludes(recs.drop_first(), pat);
        let rest = spec_filter_nets(recs.drop_first(), pat);
        if forall|k: int|
            0 <= k < recs.len() ==> !regex_matches(pat, (#[trigger] recs[k]).interface) {
            assert forall|k: int|
                0 <= k < recs.drop_first().len() implies !regex_matches(
                pat,
                (#[trigger] recs.drop_first()[k]).interface,
            ) by {
                assert(recs.drop_first()[k] == recs[k + 1]);
            }
            assert(!regex_matches(pat, recs[0].interface));
            assert(seq![recs[0]] + recs.drop_first() =~= recs);
        }
        if !regex_matches(pat, recs[0].interface) {
            assert forall|k: int|
                0 <= k < spec_filter_nets(recs, pat).len() implies !regex_matches(
                pat,
                (#[trigger] spec_filter_nets(recs, pat)[k]).interface,
            ) by {
                if k > 0 {
                    assert(spec_filter_nets(recs, pat)[k] == rest[k - 1]);
                }
            }
        }
    }
}

/// Which counter of an interface record a metric family reports.
#[derive(Debug, Clone, Copy)]
pub enum NetField {
    RxBytes,
    TxBytes,
    RxPackets,
    TxPackets,
    RxErrors,
    TxErrors,
    RxDrop,
    TxDrop,
}

/// The value field `f` selects from a record, as a whole number.
pub open spec fn net_value(rec: NetStatsView, f: NetField) -> MetricValue {
    match f {
        NetField::RxBytes => MetricValue::Finite {
            negative: false,
            mantissa: rec.rx_bytes as u128,
            scale: 0,
        },
        NetField::TxBytes => MetricValue::Finite {
            negative: false,
            mantissa: rec.tx_bytes as u128,
            scale: 0,
        },
        NetField::RxPackets => MetricValue::Finite {
            negative: false,
            mantissa: rec.rx_packets as u128,
            scale: 0,
        },
        NetField::TxPackets => MetricValue::Finite {
            negative: false,
            mantissa: rec.tx_packets as u128,
            scale: 0,
        },
        NetField::RxErrors => MetricValue::Finite {
            negative: false,
            mantissa: rec.rx_errors as u128,
            scale: 0,
        },
        NetField::TxErrors => MetricValue::Finite {
            negative: false,
            mantissa: rec.tx_errors as u128,
            scale: 0,
        },
        NetField::RxDrop => MetricValue::Finite {
            negative: false,
            mantissa: rec.rx_drop as u128,
            scale: 0,
        },
        NetField::TxDrop => MetricValue::Finite {
            negative: false,
            mantissa: rec.tx_drop as u128,
            scale: 0,
        },
    }
}

fn net_value_of(rec: &NetStats, f: NetField) -> (v: MetricValue)
    ensures
        v == net_value(rec@, f),
{
    let raw: u64 = match f {
        NetField::RxBytes => rec.rx_bytes,
        NetField::TxBytes => rec.tx_bytes,
        NetField::RxPackets => rec.rx_packets,
        NetField::TxPackets => rec.tx_packets,
        NetField::RxErrors => rec.rx_errors,
        NetField::TxErrors => rec.tx_errors,
        NetField::RxDrop => rec.rx_drop,
        NetField::TxDrop => rec.tx_drop,
    };
    MetricValue::Finite { negative: false, mantissa: raw as u128, scale: 0 }
}

/// The sample of one surviving interface: an `interface` label and the
/// selected counter.
pub open spec fn net_sample(rec: NetStatsView, f: NetField) -> SampleView {
    SampleView { labels: seq![("interface"@, rec.interface)], value: net_value(rec, f) }
}

/// One network metric family over the surviving interfaces.
pub open spec fn net_metric(
    kept: Seq<NetStatsView>,
    name: Seq<char>,
    help: Seq<char>,
    f: NetField,
) -> MetricView {
    MetricView {
        name,
        help,
        metric_type: MetricType::Counter,
        samples: Seq::new(kept.len(), |k: int| net_sample(kept[k], f)),
    }
}

/// What [`NetworkCollector::collect_from_string`] returns: eight counter
/// families — receive/transmit bytes, packets, errors and drops — each with
/// one sample per interface that the exclusion pattern does not match; or
/// the parse error.
pub open spec fn spec_network_collect(s: Seq<char>, pat: Seq<char>) -> Result<
    Seq<MetricView>,
    ErrorView,
> {
    match spec_parse_net_dev(s) {
        Err(e) => Err(e),
        Ok(recs) => {
            let kept = spec_filter_nets(recs, pat);
            Ok(
                seq![
                    net_metric(
                        kept,
                        "sysmetrics_network_receive_bytes_total"@,
                        "Total bytes received."@,
                        NetField::RxBytes,
                    ),
                    net_metric(
                        kept,
                        "sysmetrics_network_transmit_bytes_total"@,
                        "Total bytes transmitted."@,
                        NetField::TxBytes,
                    ),
                    net_metric(
                        kept,
                        "sysmetrics_network_receive_packets_total"@,
                        "Total packets received."@,
                        NetField::RxPackets,
                    ),
                    net_metric(
                        kept,
                        "sysmetrics_network_transmit_packets_total"@,
                        "Total packets transmitted."@,
                        NetField::TxPackets,
                    ),
                    net_metric(
                        kept,
                        "sysmetrics_network_receive_errors_total"@,
                        "Total receive errors."@,
                        NetField::RxErrors,
                    ),
                    net_metric(
                        kept,
                        "sysmetrics_network_transmit_errors_total"@,
                        "Total transmit errors."@,
                        NetField::TxErrors,
                    ),
                    net_metric(
                        kept,
                        "sysmetrics_network_receive_drop_total"@,
                        "Total receive drops."@,
                        NetField::RxDrop,
                    ),
                    net_metric(
                        kept,
                        "sysmetrics_network_transmit_drop_total"@,
                        "Total transmit drops."@,
                        NetField::TxDrop,
                    ),
                ],
            )
        },
    }
}

/// Build one network metric family over the kept interfaces.
#[verifier::loop_isolation(false)]
fn net_metric_exec(kept: &Vec<NetStats>, name: &str, help: &str, f: NetField) -> (m: Metric)
    ensures
        m@ == net_metric(kept.deep_view(), name@, help@, f),
{
    let ghost dv = kept.deep_view();
    let n = kept.len();
    let mut samples: Vec<MetricSample> = Vec::new();
    proof {
        assert(dv.len() == n);
        assert(samples.deep_view() =~= Seq::new(0, |k: int| net_sample(dv[k], f)));
    }
    let mut i: usize = 0;
    while i < n
        invariant
            0 <= i <= n,
            n == kept@.len(),
            samples.deep_view() == Seq::new(i as nat, |k: int| net_sample(dv[k], f)),
        decreases n - i,
    {
        proof {
            assert(kept.deep_view()[i as int] == kept@[i as int]@);
        }
        let rec = &kept[i];
        let mut labels: Vec<(String, String)> = Vec::new();
        labels.push(("interface".to_owned(), rec.interface.clone()));
        let sample = MetricSample { labels, value: net_value_of(rec, f) };
        let ghost pre = samples.deep_view();
        samples.push(sample);
        proof {
            assert(sample@.labels =~= seq![("interface"@, dv[i as int].interface)]);
            assert(sample@ =~= net_sample(dv[i as int], f));
            assert(samples.deep_view() =~= pre.push(sample@));
            assert(samples.deep_view() =~= Seq::new((i + 1) as nat, |k: int| net_sample(dv[k], f)));
        }
        i = i + 1;
    }
    let m = Metric { name: name.to_owned(), help: help.to_owned(), metric_type: MetricType::Counter, samples };
    proof {
        assert(m@ =~~= net_metric(dv, name@, help@, f));
    }
    m
}

/// The network collector: holds the compiled exclusion pattern; its view is
/// the pattern string the collector was built from.
pub struct NetworkCollector {
    exclude_pattern: regex::Regex,
}

impl View for NetworkCollector {
    type V = Seq<char>;

    closed spec fn view(&self) -> Seq<char> {
        regex_pattern(self.exclude_pattern)
    }
}

impl NetworkCollector {
    /// Compile the exclusion pattern once; construction succeeds exactly
    /// when the pattern is a valid regular expression, and the collector
    /// then holds that pattern for its lifetime.
    pub fn new(exclude_pattern: &str) -> (r: Result<Self, regex::Error>)
        ensures
            r is Ok <==> pattern_ok(exclude_pattern@),
            r is Ok ==> r->Ok_0@ == exclude_pattern@,
    {
        match compile_pattern(exclude_pattern) {
            Ok(re) => Ok(NetworkCollector { exclude_pattern: re }),
            Err(e) => Err(e),
        }
    }

    /// Stable identifier of this collector.
    pub fn name(&self) -> (r: &'static str)
        ensures
            r@ == "network"@,
    {
        "network"
    }

    /// Path of the backing file a caller must read for [`Self::collect_from_string`].
    pub fn source_path(&self) -> (r: &'static str)
        ensures
            r@ == netdev_path(),
    {
        "/proc/net/dev"
    }

    /// Turn the statistics file's content into metric families, as
    /// [`spec_network_collect`] describes.
    #[verifier::loop_isolation(false)]
    pub fn collect_from_string(&self, content: &str) -> (r: Result<Vec<Metric>, CollectorError>)
        ensures
            match r {
                Ok(v) => spec_network_collect(content@, self@) == Ok::<Seq<MetricView>, ErrorView>(
                    v.deep_view(),
                ),
                Err(e) => spec_network_collect(content@, self@) == Err::<
                    Seq<MetricView>,
                    ErrorView,
                >(e@),
            },
    {
        let stats = match parse_net_dev(content) {
            Ok(v) => v,
            Err(e) => {
                return Err(e);
            },
        };
        let ghost recs = spec_parse_net_dev(content@)->Ok_0;
        proof {
            assert(stats.deep_view() == recs);
        }
        let n = stats.len();
        let mut kept: Vec<NetStats> = Vec::new();
        proof {
            assert(recs.take(0) =~= Seq::<NetStatsView>::empty());
            assert(kept.deep_view() =~= spec_filter_nets(recs.take(0), self@));
        }
        let mut i: usize = 0;
        while i < n
            invariant
                0 <= i <= n,
                n == stats@.len(),
                kept.deep_view() == spec_filter_nets(recs.take(i as int), self@),
            decreases n - i,
        {
            proof {
                assert(stats.deep_view()[i as int] == stats@[i as int]@);
                assert(recs.take(i + 1) =~= recs.take(i as int).push(recs[i as int]));
                lemma_filter_nets_snoc(recs.take(i as int), self@, recs[i as int]);
            }
            let rec = &stats[i];
            if !pattern_matches(&self.exclude_pattern, rec.interface.as_str()) {
                let copy = NetStats {
                    interface: rec.interface.clone(),
                    rx_bytes: rec.rx_bytes,
                    rx_packets: rec.rx_packets,
                    rx_errors: rec.rx_errors,
                    rx_drop: rec.rx_drop,
                    tx_bytes: rec.tx_bytes,
                    tx_packets: rec.tx_packets,
                    tx_errors: rec.tx_errors,
                    tx_drop: rec.tx_drop,
                };
                let ghost pre = kept.deep_view();
                proof {
                    assert(copy@ =~= recs[i as int]);
                }
                kept.push(copy);
                proof {
                    assert(kept.deep_view() =~= pre.push(recs[i as int]));
                }
            }
            i = i + 1;
        }
        proof {
            assert(recs.take(n as int) =~= recs);
        }
        let mut metrics: Vec<Metric> = Vec::new();
        metrics.push(
            net_metric_exec(
                &kept,
                "sysmetrics_network_receive_bytes_total",
                "Total bytes received.",
                NetField::RxBytes,
            ),
        );
        metrics.push(
            net_metric_exec(
                &kept,
                "sysmetrics_network_transmit_bytes_total",
                "Total bytes transmitted.",
                NetField::TxBytes,
            ),
        );
        metrics.push(
            net_metric_exec(
                &kept,
                "sysmetrics_network_receive_packets_total",
                "Total packets received.",
                NetField::RxPackets,
            ),
        );
        metrics.push(
            net_metric_exec(
                &kept,
                "sysmetrics_network_transmit_packets_total",
                "Total packets transmitted.",
                NetField::TxPackets,
            ),
        );
        metrics.push(
            net_metric_exec(
                &kept,
                "sysmetrics_network_receive_errors_total",
                "Total receive errors.",
                NetField::RxErrors,
            ),
        );
        metrics.push(
            net_metric_exec(
                &kept,
                "sysmetrics_network_transmit_errors_total",
                "Total transmit errors.",
                NetField::TxErrors,
            ),
        );
        metrics.push(
            net_metric_exec(
                &kept,
                "sysmetrics_network_receive_drop_total",
                "Total receive drops.",
                NetField::RxDrop,
            ),
        );
        metrics.push(
            net_metric_exec(
                &kept,
                "sysmetrics_network_transmit_drop_total",
                "Total transmit drops.",
                NetField::TxDrop,
            ),
        );
        proof {
            assert(metrics.deep_view() =~~= spec_network_collect(content@, self@)->Ok_0);
        }
        Ok(metrics)
    }
}

} // verus!
