//! Parser and collector for the aggregate scheduler statistics file.
//!
//! A per-core line is one whose first token is `cpu` followed immediately by
//! digits; the aggregate line, whose first token is exactly `cpu`, is never
//! selected.  A selected line must have at least 9 whitespace-separated
//! tokens, and its first 8 value columns must be unsigned 64-bit tick counts
//! in the fixed order user, nice, system, idle, iowait, irq, softirq, steal.
//! Finding no per-core line at all is an error.

use vstd::prelude::*;
use crate::error::{parse_error, CollectorError, ErrorView};
use crate::metric::{Metric, MetricSample, MetricType, MetricView, SampleView};
use crate::text::{all_digits, is_digit, spec_lines, spec_parse_u64, spec_tokens};
use crate::text::{digit_char, parse_u64, split_lines, split_tokens};
use crate::value::{spec_digits, u64_string, MetricValue};

verus! {

/// The fixed path of the aggregate scheduler statistics file.
pub open spec fn stat_path() -> Seq<char> {
    "/proc/stat"@
}

/// Parsed CPU statistics for a single core: the core id (the digits after
/// `cpu`) and the 8 tick counters in mode order.
#[derive(Debug, Clone)]
pub struct CpuStats {
    pub cpu_id: String,
    pub values: Vec<u64>,
}

/// Mathematical image of [`CpuStats`].
#[verifier::ext_equal]
pub struct CpuStatsView {
    pub cpu_id: Seq<char>,
    pub values: Seq<u64>,
}

impl View for CpuStats {
    type V = CpuStatsView;

    open spec fn view(&self) -> CpuStatsView {
        CpuStatsView { cpu_id: self.cpu_id@, values: self.values@ }
    }
}

impl DeepView for CpuStats {
    type V = CpuStatsView;

    open spec fn deep_view(&self) -> CpuStatsView {
        self.view()
    }
}

// ---------------------------------------------------------------------------
// Specification
// ---------------------------------------------------------------------------

/// A token of the form `cpu` followed by one or more digits.
pub open spec fn is_core_token(tok: Seq<char>) -> bool {
    tok.len() > 3 && tok.take(3) == "cpu"@ && all_digits(tok.skip(3))
}

/// Whether a line's tokens select it as a per-core line.
pub open spec fn is_core_line(toks: Seq<Seq<char>>) -> bool {
    toks.len() > 0 && is_core_token(toks[0])
}

/// Index of the first of the 8 value columns (tokens 1 through 8) that does
/// not parse as a `u64`, starting the search at column `j`; 8 if all parse.
pub open spec fn first_bad_column(toks: Seq<Seq<char>>, j: int) -> int
    decreases 8 - j,
{
    if j < 0 || j >= 8 {
        8
    } else if spec_parse_u64(toks[1 + j]) is None {
        j
    } else {
        first_bad_column(toks, j + 1)
    }
}

proof fn lemma_first_bad_column_from_witness(toks: Seq<Seq<char>>, j: int, k: int)
    requires
        0 <= j <= k <= 8,
        forall|l: int| j <= l < k ==> spec_parse_u64(#[trigger] toks[1 + l]) is Some,
        k < 8 ==> spec_parse_u64(toks[1 + k]) is None,
    ensures
        first_bad_column(toks, j) == k,
    decreases k - j,
{
    if j < k {
        assert(spec_parse_u64(toks[1 + j]) is Some);
        lemma_first_bad_column_from_witness(toks, j + 1, k);
    }
}

/// The error field text for a bad value column: `cpu<id> column <j>`.
pub open spec fn cpu_column_field(id: Seq<char>, j: int) -> Seq<char> {
    "cpu"@ + id + " column "@ + spec_digits(j as nat)
}

/// The 8 parsed value columns of a well-formed per-core line.
pub open spec fn cpu_line_values(toks: Seq<Seq<char>>) -> Seq<u64> {
    Seq::new(8, |j: int| spec_parse_u64(toks[1 + j]).unwrap())
}

/// Scan a list of lines for per-core records.  Lines that are not per-core
/// lines are skipped; a per-core line with fewer than 9 tokens or with a
/// value column that is not a `u64` stops the scan with a parse error.
pub open spec fn spec_parse_cpu_lines(lines: Seq<Seq<char>>) -> Result<Seq<CpuStatsView>, ErrorView>
    decreases lines.len(),
{
    if lines.len() == 0 {
        Ok(Seq::empty())
    } else {
        let toks = spec_tokens(lines[0]);
        if !is_core_line(toks) {
            spec_parse_cpu_lines(lines.drop_first())
        } else if toks.len() < 9 {
            Err(parse_error(stat_path(), "cpu line"@, lines[0]))
        } else {
            let id = toks[0].skip(3);
            let bad = first_bad_column(toks, 0);
            if bad < 8 {
                Err(parse_error(stat_path(), cpu_column_field(id, bad), toks[1 + bad]))
            } else {
                match spec_parse_cpu_lines(lines.drop_first()) {
                    Ok(rest) => Ok(
                        seq![CpuStatsView { cpu_id: id, values: cpu_line_values(toks) }] + rest,
                    ),
                    Err(e) => Err(e),
                }
            }
        }
    }
}

/// What [`parse_cpu_stats`] returns: the per-core records of the input, or
/// the first parse error, or — when the whole input holds no per-core line —
/// the `no per-cpu lines found` error.
pub open spec fn spec_parse_cpu_stats(s: Seq<char>) -> Result<Seq<CpuStatsView>, ErrorView> {
    match spec_parse_cpu_lines(spec_lines(s)) {
        Err(e) => Err(e),
        Ok(recs) => if recs.len() == 0 {
            Err(parse_error(stat_path(), "cpu lines"@, "no per-cpu lines found"@))
        } else {
            Ok(recs)
        },
    }
}

// ---------------------------------------------------------------------------
// Executable parser
// ---------------------------------------------------------------------------

/// Test whether a token is `cpu` followed by one or more digits.
fn is_core_tok(tok: &str) -> (r: bool)
    ensures
        r == is_core_token(tok@),
{
    let n: usize = tok.unicode_len();
    proof {
        reveal_strlit("cpu");
    }
    if n <= 3 {
        return false;
    }
    if tok.get_char(0) != 'c' || tok.get_char(1) != 'p' || tok.get_char(2) != 'u' {
        proof {
            assert(tok@.take(3)[0] == tok@[0]);
            assert(tok@.take(3)[1] == tok@[1]);
            assert(tok@.take(3)[2] == tok@[2]);
        }
        return false;
    }
    let mut j: usize = 3;
    while j < n
        invariant
            3 <= j <= n,
            n == tok@.len(),
            forall|l: int| 3 <= l < j ==> is_digit(tok@[l]),
        decreases n - j,
    {
        if !digit_char(tok.get_char(j)) {
            proof {
                assert(tok@.skip(3)[j - 3] == tok@[j as int]);
            }
            return false;
        }
        j = j + 1;
    }
    proof {
        assert(tok@.take(3) =~= "cpu"@);
        assert forall|l: int| 0 <= l < tok@.skip(3).len() implies is_digit(#[trigger] tok@.skip(3)[l]) by {
            assert(tok@.skip(3)[l] == tok@[l + 3]);
        }
    }
    true
}

/// Parse the aggregate scheduler statistics file into per-core records, as
/// [`spec_parse_cpu_stats`] describes.
#[verifier::loop_isolation(false)]
pub fn parse_cpu_stats(content: &str) -> (r: Result<Vec<CpuStats>, CollectorError>)
    ensures
        match r {
            Ok(v) => spec_parse_cpu_stats(content@) == Ok::<Seq<CpuStatsView>, ErrorView>(
                v.deep_view(),
            ),
            Err(e) => spec_parse_cpu_stats(content@) == Err::<Seq<CpuStatsView>, ErrorView>(e@),
        },
{
    let lines = split_lines(content);
    let ghost lv = spec_lines(content@);
    let n = lines.len();
    let mut stats: Vec<CpuStats> = Vec::new();
    let mut i: usize = 0;
    proof {
        assert(lv.skip(0) =~= lv);
        assert(stats.deep_view() =~= Seq::<CpuStatsView>::empty());
        if spec_parse_cpu_lines(lv) is Ok {
            assert(stats.deep_view() + spec_parse_cpu_lines(lv)->Ok_0 =~= spec_parse_cpu_lines(
                lv,
            )->Ok_0);
        }
    }
    while i < n
        invariant
            0 <= i <= n,
            n == lines@.len(),
            lines.deep_view() == lv,
            lv.len() == n,
            spec_parse_cpu_lines(lv.skip(i as int)) is Ok ==> spec_parse_cpu_lines(lv) == Ok::<
                Seq<CpuStatsView>,
                ErrorView,
            >(stats.deep_view() + spec_parse_cpu_lines(lv.skip(i as int))->Ok_0),
            spec_parse_cpu_lines(lv.skip(i as int)) is Err ==> spec_parse_cpu_lines(lv)
                == spec_parse_cpu_lines(lv.skip(i as int)),
        decreases n - i,
    {
        let ghost rem = lv.skip(i as int);
        proof {
            assert(rem[0] == lv[i as int]);
            assert(rem.drop_first() =~= lv.skip(i + 1));
            assert(lines.deep_view()[i as int] == lines@[i as int]@);
        }
        let line = &lines[i];
        let toks = split_tokens(line.as_str());
        let ghost tv = spec_tokens(lv[i as int]);
        proof {
            assert(toks.deep_view() == tv);
            assert(toks.deep_view().len() == toks@.len());
        }
        let selected = if toks.len() == 0 {
            false
        } else {
            proof {
                assert(toks.deep_view()[0] == toks@[0]@);
            }
            is_core_tok(toks[0].as_str())
        };
        if !selected {
            proof {
                assert(tv.len() == toks@.len());
                if toks@.len() > 0 {
                    assert(tv[0] == toks@[0]@);
                }
                assert(!is_core_line(tv));
                assert(spec_parse_cpu_lines(rem) == spec_parse_cpu_lines(lv.skip(i + 1)));
            }
            i = i + 1;
        } else if toks.len() < 9 {
            proof {
                assert(tv[0] == toks@[0]@);
                assert(is_core_line(tv));
            }
            let e = CollectorError::Parse {
                path: "/proc/stat".to_owned(),
                field: "cpu line".to_owned(),
                raw: line.clone(),
            };
            proof {
                assert(e@ == parse_error(stat_path(), "cpu line"@, lv[i as int]));
                assert(spec_parse_cpu_lines(rem) == Err::<Seq<CpuStatsView>, ErrorView>(e@));
            }
            return Err(e);
        } else {
            proof {
                assert(tv[0] == toks@[0]@);
                assert(is_core_line(tv));
            }
            let tok0 = &toks[0];
            let id_len: usize = tok0.as_str().unicode_len();
            let ghost id = tv[0].skip(3);
            proof {
                assert(tok0@ == tv[0]);
                assert(tv[0].len() > 3);
            }
            let cpu_id: String = tok0.as_str().substring_char(3, id_len).to_owned();
            proof {
                assert(cpu_id@ =~= id);
            }
            let mut values: Vec<u64> = Vec::new();
            let mut j: usize = 0;
            while j < 8
                invariant
                    0 <= j <= 8,
                    toks@.len() >= 9,
                    toks.deep_view() == tv,
                    tv.len() == toks@.len(),
                    cpu_id@ == id,
                    values@.len() == j,
                    forall|l: int| 0 <= l < j ==> spec_parse_u64(#[trigger] tv[1 + l]) is Some,
                    forall|l: int| 0 <= l < j ==> values@[l] == spec_parse_u64(tv[1 + l]).unwrap(),
                decreases 8 - j,
            {
                proof {
                    assert(toks.deep_view()[1 + j] == toks@[1 + j]@);
                }
                let col = &toks[1 + j];
                match parse_u64(col.as_str()) {
                    Some(v) => {
                        values.push(v);
                    },
                    None => {
                        proof {
                            lemma_first_bad_column_from_witness(tv, 0, j as int);
                        }
                        let mut field = String::new();
                        field.append("cpu");
                        field.append(cpu_id.as_str());
                        field.append(" column ");
                        let col_no = u64_string(j as u64);
                        field.append(col_no.as_str());
                        let e = CollectorError::Parse {
                            path: "/proc/stat".to_owned(),
                            field,
                            raw: col.clone(),
                        };
                        proof {
                            assert((((Seq::<char>::empty() + "cpu"@) + id) + " column "@) + spec_digits(
                                j as nat,
                            ) =~= cpu_column_field(id, j as int));
                            assert(e@ == parse_error(
                                stat_path(),
                                cpu_column_field(id, j as int),
                                tv[1 + j],
                            ));
                            assert(spec_parse_cpu_lines(rem) == Err::<Seq<CpuStatsView>, ErrorView>(
                                e@,
                            ));
                        }
                        return Err(e);
                    },
                }
                j = j + 1;
            }
            proof {
                lemma_first_bad_column_from_witness(tv, 0, 8);
                assert(values@ =~= cpu_line_values(tv));
            }
            let ghost pre = stats.deep_view();
            stats.push(CpuStats { cpu_id, values });
            proof {
                assert(stats.deep_view() =~= pre + seq![
                    CpuStatsView { cpu_id: id, values: cpu_line_values(tv) },
                ]);
                if spec_parse_cpu_lines(lv.skip(i + 1)) is Ok {
                    assert(pre + (seq![CpuStatsView { cpu_id: id, values: cpu_line_values(tv) }]
                        + spec_parse_cpu_lines(lv.skip(i + 1))->Ok_0) =~= stats.deep_view()
                        + spec_parse_cpu_lines(lv.skip(i + 1))->Ok_0);
                }
            }
            i = i + 1;
            }
    }
    proof {
        assert(lv.skip(n as int).len() == 0);
        assert(spec_parse_cpu_lines(lv.skip(n as int)) == Ok::<Seq<CpuStatsView>, ErrorView>(
            Seq::empty(),
        ));
        assert(stats.deep_view() + Seq::<CpuStatsView>::empty() =~= stats.deep_view());
    }
    if stats.len() == 0 {
        let e = CollectorError::Parse {
            path: "/proc/stat".to_owned(),
            field: "cpu lines".to_owned(),
            raw: "no per-cpu lines found".to_owned(),
        };
        proof {
            assert(stats.deep_view().len() == 0);
        }
        return Err(e);
    }
    proof {
        assert(stats.deep_view().len() == stats@.len());
    }
    Ok(stats)
}

// ---------------------------------------------------------------------------
// Parser laws
// ---------------------------------------------------------------------------

/// Number of per-core lines in a line list.
pub open spec fn count_core_lines(lines: Seq<Seq<char>>) -> nat
    decreases lines.len(),
{
    if lines.len() == 0 {
        0
    } else {
        (if is_core_line(spec_tokens(lines[0])) {
            1nat
        } else {
            0nat
        }) + count_core_lines(lines.drop_first())
    }
}

/// A well-formed per-core line: at least 9 tokens, and each of the 8 value
/// columns parses as a `u64`.
pub open spec fn core_line_ok(line: Seq<char>) -> bool {
    let toks = spec_tokens(line);
    toks.len() >= 9 && forall|j: int| 0 <= j < 8 ==> spec_parse_u64(#[trigger] toks[1 + j]) is Some
}

/// Every record a successful scan returns carries exactly 8 values.
pub proof fn lemma_cpu_records_shape(lines: Seq<Seq<char>>)
    requires
        spec_parse_cpu_lines(lines) is Ok,
    ensures
        forall|k: int|
            0 <= k < spec_parse_cpu_lines(lines)->Ok_0.len() ==> (#[trigger] spec_parse_cpu_lines(
                lines,
            )->Ok_0[k]).values.len() == 8,
    decreases lines.len(),
{
    if lines.len() > 0 {
        let toks = spec_tokens(lines[0]);
        if !is_core_line(toks) {
            lemma_cpu_records_shape(lines.drop_first());
        } else {
            lemma_cpu_records_shape(lines.drop_first());
            let rest = spec_parse_cpu_lines(lines.drop_first())->Ok_0;
            let whole = spec_parse_cpu_lines(lines)->Ok_0;
            assert forall|k: int| 0 <= k < whole.len() implies (#[trigger] whole[k]).values.len()
                == 8 by {
                if k > 0 {
                    assert(whole[k] == rest[k - 1]);
                }
            }
        }
    }
}

/// The per-core lines of a line list, in order.
pub open spec fn core_lines_of(lines: Seq<Seq<char>>) -> Seq<Seq<char>>
    decreases lines.len(),
{
    if lines.len() == 0 {
        Seq::empty()
    } else {
        (if is_core_line(spec_tokens(lines[0])) {
            seq![lines[0]]
        } else {
            Seq::empty()
        }) + core_lines_of(lines.drop_first())
    }
}

/// The record a well-formed per-core line denotes.
pub open spec fn core_line_record(line: Seq<char>) -> CpuStatsView {
    let toks = spec_tokens(line);
    CpuStatsView { cpu_id: toks[0].skip(3), values: cpu_line_values(toks) }
}

/// When every per-core line of the input is well-formed, the scan succeeds
/// and returns exactly the records of the per-core lines, in order, one per
/// line; lines that are not per-core lines — the aggregate line among them —
/// contribute nothing.
pub proof fn lemma_cpu_parser_counts(lines: Seq<Seq<char>>)
    requires
        forall|i: int|
            0 <= i < lines.len() && is_core_line(spec_tokens(#[trigger] lines[i]))
                ==> core_line_ok(lines[i]),
    ensures
        spec_parse_cpu_lines(lines) is Ok,
        spec_parse_cpu_lines(lines)->Ok_0.len() == count_core_lines(lines),
        spec_parse_cpu_lines(lines)->Ok_0 == Seq::new(
            core_lines_of(lines).len(),
            |k: int| core_line_record(core_lines_of(lines)[k]),
        ),
    decreases lines.len(),
{
    if lines.len() > 0 {
        let toks = spec_tokens(lines[0]);
        assert forall|i: int|
            0 <= i < lines.drop_first().len() && is_core_line(
                spec_tokens(#[trigger] lines.drop_first()[i]),
            ) implies core_line_ok(lines.drop_first()[i]) by {
            assert(lines.drop_first()[i] == lines[i + 1]);
        }
        lemma_cpu_parser_counts(lines.drop_first());
        let rest_lines = core_lines_of(lines.drop_first());
        let rest = Seq::new(rest_lines.len(), |k: int| core_line_record(rest_lines[k]));
        if is_core_line(toks) {
            assert(core_line_ok(lines[0]));
            lemma_first_bad_column_from_witness(toks, 0, 8);
            assert(core_lines_of(lines) =~= seq![lines[0]] + rest_lines);
            assert(spec_parse_cpu_lines(lines)->Ok_0 =~= Seq::new(
                core_lines_of(lines).len(),
                |k: int| core_line_record(core_lines_of(lines)[k]),
            )) by {
                assert forall|k: int|
                    0 <= k < core_lines_of(lines).len() implies (seq![
                    core_line_record(lines[0]),
                ] + rest)[k] == core_line_record(core_lines_of(lines)[k]) by {
                    if k > 0 {
                        assert(core_lines_of(lines)[k] == rest_lines[k - 1]);
                    }
                }
                assert(spec_parse_cpu_lines(lines)->Ok_0 =~= seq![core_line_record(lines[0])]
                    + rest);
            }
        } else {
            assert(core_lines_of(lines) =~= rest_lines);
        }
    }
}

/// For all valid aggregate-CPU input with at least one per-core line, the
/// parser returns exactly one record per per-core line, each with exactly 8
/// values in the fixed mode order, and the aggregate line is never included.
pub proof fn lemma_cpu_stats_counts(s: Seq<char>)
    requires
        forall|i: int|
            0 <= i < spec_lines(s).len() && is_core_line(spec_tokens(#[trigger] spec_lines(s)[i]))
                ==> core_line_ok(spec_lines(s)[i]),
        count_core_lines(spec_lines(s)) > 0,
    ensures
        spec_parse_cpu_stats(s) is Ok,
        spec_parse_cpu_stats(s)->Ok_0.len() == count_core_lines(spec_lines(s)),
        spec_parse_cpu_stats(s)->Ok_0 == Seq::new(
            core_lines_of(spec_lines(s)).len(),
            |k: int| core_line_record(core_lines_of(spec_lines(s))[k]),
        ),
        forall|k: int|
            0 <= k < spec_parse_cpu_stats(s)->Ok_0.len() ==> (#[trigger] spec_parse_cpu_stats(
                s,
            )->Ok_0[k]).values.len() == 8,
{
    lemma_cpu_parser_counts(spec_lines(s));
    lemma_cpu_records_shape(spec_lines(s));
}

/// Input without a single per-core line — garbage content among it — is
/// rejected with the `no per-cpu lines found` parse error.
pub proof fn lemma_cpu_no_core_lines_error(s: Seq<char>)
    requires
        count_core_lines(spec_lines(s)) == 0,
    ensures
        spec_parse_cpu_stats(s) == Err::<Seq<CpuStatsView>, ErrorView>(
            parse_error(stat_path(), "cpu lines"@, "no per-cpu lines found"@),
        ),
{
    lemma_cpu_no_core_lines_ok_empty(spec_lines(s));
}

proof fn lemma_cpu_no_core_lines_ok_empty(lines: Seq<Seq<char>>)
    requires
        count_core_lines(lines) == 0,
    ensures
        spec_parse_cpu_lines(lines) == Ok::<Seq<CpuStatsView>, ErrorView>(Seq::empty()),
    decreases lines.len(),
{
    if lines.len() > 0 {
        assert(!is_core_line(spec_tokens(lines[0])));
        lemma_cpu_no_core_lines_ok_empty(lines.drop_first());
    }
}

/// A per-core line with fewer than 9 tokens makes the whole parse fail.
pub proof fn lemma_cpu_short_core_line_error(s: Seq<char>, i: int)
    requires
        0 <= i < spec_lines(s).len(),
        is_core_line(spec_tokens(spec_lines(s)[i])),
        spec_tokens(spec_lines(s)[i]).len() < 9,
    ensures
        spec_parse_cpu_stats(s) is Err,
{
    lemma_cpu_short_core_line_lines_error(spec_lines(s), i);
}

proof fn lemma_cpu_short_core_line_lines_error(lines: Seq<Seq<char>>, i: int)
    requires
        0 <= i < lines.len(),
        is_core_line(spec_tokens(lines[i])),
        spec_tokens(lines[i]).len() < 9,
    ensures
        spec_parse_cpu_lines(lines) is Err,
    decreases lines.len(),
{
    let toks = spec_tokens(lines[0]);
    if i > 0 {
        assert(lines.drop_first()[i - 1] == lines[i]);
        lemma_cpu_short_core_line_lines_error(lines.drop_first(), i - 1);
    }
}

/// When the short per-core line is moreover the first malformed line —
/// every earlier per-core line is well-formed — the parse fails with
/// exactly the `cpu line` error carrying that line's text.
pub proof fn lemma_cpu_short_core_line_named_error(s: Seq<char>, i: int)
    requires
        0 <= i < spec_lines(s).len(),
        is_core_line(spec_tokens(spec_lines(s)[i])),
        spec_tokens(spec_lines(s)[i]).len() < 9,
        forall|j: int|
            0 <= j < i && is_core_line(spec_tokens(#[trigger] spec_lines(s)[j]))
                ==> core_line_ok(spec_lines(s)[j]),
    ensures
        spec_parse_cpu_stats(s) == Err::<Seq<CpuStatsView>, ErrorView>(
            parse_error(stat_path(), "cpu line"@, spec_lines(s)[i]),
        ),
{
    lemma_cpu_short_core_line_named_lines_error(spec_lines(s), i);
}

proof fn lemma_cpu_short_core_line_named_lines_error(lines: Seq<Seq<char>>, i: int)
    requires
        0 <= i < lines.len(),
        is_core_line(spec_tokens(lines[i])),
        spec_tokens(lines[i]).len() < 9,
        forall|j: int|
            0 <= j < i && is_core_line(spec_tokens(#[trigger] lines[j])) ==> core_line_ok(
                lines[j],
            ),
    ensures
        spec_parse_cpu_lines(lines) == Err::<Seq<CpuStatsView>, ErrorView>(
            parse_error(stat_path(), "cpu line"@, lines[i]),
        ),
    decreases lines.len(),
{
    let toks = spec_tokens(lines[0]);
    if i > 0 {
        assert forall|j: int|
            0 <= j < i - 1 && is_core_line(
                spec_tokens(#[trigger] lines.drop_first()[j]),
            ) implies core_line_ok(lines.drop_first()[j]) by {
            assert(lines.drop_first()[j] == lines[j + 1]);
        }
        assert(lines.drop_first()[i - 1] == lines[i]);
        lemma_cpu_short_core_line_named_lines_error(lines.drop_first(), i - 1);
        if is_core_line(toks) {
            assert(core_line_ok(lines[0]));
            lemma_first_bad_column_from_witness(toks, 0, 8);
        }
    }
}

// ---------------------------------------------------------------------------
// Collector
// ---------------------------------------------------------------------------

/// The CPU collector: stateless, one record per core, ticks divided by the
/// fixed clock rate of 100 ticks per second.
pub struct CpuCollector;

/// The mode label of value column `j`.
pub open spec fn mode_name(j: int) -> Seq<char> {
    if j == 0 {
        "user"@
    } else if j == 1 {
        "nice"@
    } else if j == 2 {
        "system"@
    } else if j == 3 {
        "idle"@
    } else if j == 4 {
        "iowait"@
    } else if j == 5 {
        "irq"@
    } else if j == 6 {
        "softirq"@
    } else {
        "steal"@
    }
}

fn mode_str(j: usize) -> (r: &'static str)
    requires
        j < 8,
    ensures
        r@ == mode_name(j as int),
{
    if j == 0 {
        "user"
    } else if j == 1 {
        "nice"
    } else if j == 2 {
        "system"
    } else if j == 3 {
        "idle"
    } else if j == 4 {
        "iowait"
    } else if j == 5 {
        "irq"
    } else if j == 6 {
        "softirq"
    } else {
        "steal"
    }
}

/// The 8 samples of one core: labels `cpu` and `mode`, value the tick count
/// divided by 100 (mantissa ticks, two decimal places).
pub open spec fn core_samples(rec: CpuStatsView) -> Seq<SampleView> {
    Seq::new(
        8,
        |j: int|
            SampleView {
                labels: seq![("cpu"@, rec.cpu_id), ("mode"@, mode_name(j))],
                value: MetricValue::Finite {
                    negative: false,
                    mantissa: rec.values[j] as u128,
                    scale: 2,
                },
            },
    )
}

/// All per-core samples, cores in record order, modes in column order.
pub open spec fn spec_cpu_samples(recs: Seq<CpuStatsView>) -> Seq<SampleView>
    decreases recs.len(),
{
    if recs.len() == 0 {
        Seq::empty()
    } else {
        core_samples(recs[0]) + spec_cpu_samples(recs.drop_first())
    }
}

proof fn lemma_cpu_samples_snoc(recs: Seq<CpuStatsView>, rec: CpuStatsView)
    ensures
        spec_cpu_samples(recs.push(rec)) == spec_cpu_samples(recs) + core_samples(rec),
    decreases recs.len(),
{
    if recs.len() == 0 {
        assert(recs.push(rec)[0] == rec);
        assert(recs.push(rec).drop_first() =~= recs);
        assert(spec_cpu_samples(recs.push(rec)) =~= spec_cpu_samples(recs) + core_samples(rec));
    } else {
        assert(recs.push(rec)[0] == recs[0]);
        assert(recs.push(rec).drop_first() =~= recs.drop_first().push(rec));
        lemma_cpu_samples_snoc(recs.drop_first(), rec);
        assert(core_samples(recs[0]) + (spec_cpu_samples(recs.drop_first()) + core_samples(rec))
            =~= (core_samples(recs[0]) + spec_cpu_samples(recs.drop_first())) + core_samples(rec));
    }
}

/// What [`CpuCollector::collect_from_string`] returns: the per-core counter
/// family and the core-count gauge, or the parse error.
pub open spec fn spec_cpu_collect(s: Seq<char>) -> Result<Seq<MetricView>, ErrorView> {
    match spec_parse_cpu_stats(s) {
        Err(e) => Err(e),
        Ok(recs) => Ok(
            seq![
                MetricView {
                    name: "sysmetrics_cpu_seconds_total"@,
                    help: "Total CPU time spent in each mode."@,
                    metric_type: MetricType::Counter,
                    samples: spec_cpu_samples(recs),
                },
                MetricView {
                    name: "sysmetrics_cpu_count"@,
                    help: "Number of logical CPUs."@,
                    metric_type: MetricType::Gauge,
                    samples: seq![
                        SampleView {
                            labels: Seq::empty(),
                            value: MetricValue::Finite {
                                negative: false,
                                mantissa: recs.len() as u128,
                                scale: 0,
                            },
                        },
                    ],
                },
            ],
        ),
    }
}

impl CpuCollector {
    /// Stable identifier of this collector.
    pub fn name(&self) -> (r: &'static str)
        ensures
            r@ == "cpu"@,
    {
        "cpu"
    }

    /// Path of the backing file a caller must read for [`Self::collect_from_string`].
    pub fn source_path(&self) -> (r: &'static str)
        ensures
            r@ == stat_path(),
    {
        "/proc/stat"
    }

    /// Turn the statistics file's content into metric families, as
    /// [`spec_cpu_collect`] describes.
    #[verifier::loop_isolation(false)]
    pub fn collect_from_string(&self, content: &str) -> (r: Result<Vec<Metric>, CollectorError>)
        ensures
            match r {
                Ok(v) => spec_cpu_collect(content@) == Ok::<Seq<MetricView>, ErrorView>(
                    v.deep_view(),
                ),
                Err(e) => spec_cpu_collect(content@) == Err::<Seq<MetricView>, ErrorView>(e@),
            },
    {
        let stats = match parse_cpu_stats(content) {
            Ok(s) => s,
            Err(e) => {
                return Err(e);
            },
        };
        let ghost recs = spec_parse_cpu_stats(content@)->Ok_0;
        proof {
            assert(stats.deep_view() == recs);
            lemma_cpu_records_shape(spec_lines(content@));
        }
        let cpu_count = stats.len();
        let mut samples: Vec<MetricSample> = Vec::new();
        proof {
            assert(recs.take(0) =~= Seq::<CpuStatsView>::empty());
            assert(samples.deep_view() =~= spec_cpu_samples(recs.take(0)));
        }
        let mut i: usize = 0;
        while i < cpu_count
            invariant
                0 <= i <= cpu_count,
                cpu_count == stats@.len(),
                samples.deep_view() == spec_cpu_samples(recs.take(i as int)),
            decreases cpu_count - i,
        {
            proof {
                assert(stats.deep_view()[i as int] == stats@[i as int]@);
                assert(recs[i as int].values.len() == 8);
                assert(recs.take(i + 1) =~= recs.take(i as int).push(recs[i as int]));
                lemma_cpu_samples_snoc(recs.take(i as int), recs[i as int]);
            }
            let stat = &stats[i];
            let ghost rec = recs[i as int];
            let mut j: usize = 0;
            while j < 8
                invariant
                    0 <= j <= 8,
                    i < cpu_count,
                    cpu_count == stats@.len(),
                    rec == recs[i as int],
                    stats@[i as int]@ == rec,
                    rec.values.len() == 8,
                    samples.deep_view() == spec_cpu_samples(recs.take(i as int)) + core_samples(
                        rec,
                    ).take(j as int),
                decreases 8 - j,
            {
                let mut labels: Vec<(String, String)> = Vec::new();
                labels.push(("cpu".to_owned(), stat.cpu_id.clone()));
                labels.push(("mode".to_owned(), mode_str(j).to_owned()));
                let v: u64 = stat.values[j];
                let sample = MetricSample {
                    labels,
                    value: MetricValue::Finite { negative: false, mantissa: v as u128, scale: 2 },
                };
                let ghost pre = samples.deep_view();
                samples.push(sample);
                proof {
                    assert(sample@.labels =~= seq![("cpu"@, rec.cpu_id), ("mode"@, mode_name(j as int))]);
                    assert(v == rec.values[j as int]);
                    assert(sample@ =~= core_samples(rec)[j as int]);
                    assert(samples.deep_view() =~= pre.push(sample@));
                    assert(core_samples(rec).take(j + 1) =~= core_samples(rec).take(
                        j as int,
                    ).push(core_samples(rec)[j as int]));
                    assert(samples.deep_view() =~= spec_cpu_samples(recs.take(i as int))
                        + core_samples(rec).take(j + 1));
                }
                j = j + 1;
            }
            proof {
                assert(core_samples(rec).take(8) =~= core_samples(rec));
            }
            i = i + 1;
        }
        proof {
            assert(recs.take(cpu_count as int) =~= recs);
        }
        let mut count_samples: Vec<MetricSample> = Vec::new();
        count_samples.push(
            MetricSample {
                labels: Vec::new(),
                value: MetricValue::Finite {
                    negative: false,
                    mantissa: cpu_count as u128,
                    scale: 0,
                },
            },
        );
        let mut metrics: Vec<Metric> = Vec::new();
        metrics.push(
            Metric {
                name: "sysmetrics_cpu_seconds_total".to_owned(),
                help: "Total CPU time spent in each mode.".to_owned(),
                metric_type: MetricType::Counter,
                samples,
            },
        );
        metrics.push(
            Metric {
                name: "sysmetrics_cpu_count".to_owned(),
                help: "Number of logical CPUs.".to_owned(),
                metric_type: MetricType::Gauge,
                samples: count_samples,
            },
        );
        proof {
            assert(recs.len() == stats@.len());
            assert(count_samples.deep_view() =~~= seq![
                SampleView {
                    labels: Seq::empty(),
                    value: MetricValue::Finite {
                        negative: false,
                        mantissa: recs.len() as u128,
                        scale: 0,
                    },
                },
            ]);
            assert(metrics.deep_view() =~~= spec_cpu_collect(content@)->Ok_0);
        }
        Ok(metrics)
    }
}

} // verus!
