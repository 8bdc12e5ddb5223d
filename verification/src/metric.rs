//! The metric model and the text renderer.
//!
//! A metric family has a name, a help string, a kind and a list of labelled
//! samples.  [`render_metrics`] renders a list of families into the text
//! exposition format: per family a help comment, a type comment and one line
//! per sample, with label values escaped and numbers formatted exactly as
//! [`crate::value::spec_format_value`] describes.

use vstd::prelude::*;
use crate::value::{MetricValue, format_value, spec_format_value};

verus! {

// ---------------------------------------------------------------------------
// Model types
// ---------------------------------------------------------------------------

/// Kind of a metric family: a monotonically non-decreasing cumulative
/// counter, or an instantaneous gauge.
#[derive(Debug, Clone, Copy, PartialEq, Eq, Structural)]
pub enum MetricType {
    Counter,
    Gauge,
}

/// The kind's name in the exposition format.
pub open spec fn spec_type_str(t: MetricType) -> Seq<char> {
    match t {
        MetricType::Counter => "counter"@,
        MetricType::Gauge => "gauge"@,
    }
}

impl MetricType {
    /// The kind's name as it appears on a type comment line.
    pub fn as_str(&self) -> (r: &'static str)
        ensures
            r@ == spec_type_str(*self),
    {
        match self {
            MetricType::Counter => "counter",
            MetricType::Gauge => "gauge",
        }
    }
}

/// One observation within a metric family: an ordered list of label pairs
/// (insertion order is rendering order) and a value.
#[derive(Debug, Clone)]
pub struct MetricSample {
    pub labels: Vec<(String, String)>,
    pub value: MetricValue,
}

/// Mathematical image of a sample.
#[verifier::ext_equal]
pub struct SampleView {
    pub labels: Seq<(Seq<char>, Seq<char>)>,
    pub value: MetricValue,
}

impl View for MetricSample {
    type V = SampleView;

    open spec fn view(&self) -> SampleView {
        SampleView { labels: self.labels.deep_view(), value: self.value }
    }
}

impl DeepView for MetricSample {
    type V = SampleView;

    open spec fn deep_view(&self) -> SampleView {
        self.view()
    }
}

/// A metric family: a name, a help string, a kind, and its samples.
#[derive(Debug, Clone)]
pub struct Metric {
    pub name: String,
    pub help: String,
    pub metric_type: MetricType,
    pub samples: Vec<MetricSample>,
}

/// Mathematical image of a metric family.
#[verifier::ext_equal]
pub struct MetricView {
    pub name: Seq<char>,
    pub help: Seq<char>,
    pub metric_type: MetricType,
    pub samples: Seq<SampleView>,
}

impl View for Metric {
    type V = MetricView;

    open spec fn view(&self) -> MetricView {
        MetricView {
            name: self.name@,
            help: self.help@,
            metric_type: self.metric_type,
            samples: self.samples.deep_view(),
        }
    }
}

impl DeepView for Metric {
    type V = MetricView;

    open spec fn deep_view(&self) -> MetricView {
        self.view()
    }
}

// ---------------------------------------------------------------------------
// Label-value escaping
// ---------------------------------------------------------------------------

/// How one character is escaped: backslash, double quote and newline get a
/// backslash prefix (newline becomes `\n`); everything else is unchanged.
pub open spec fn escape_char(c: char) -> Seq<char> {
    if c == '\\' {
        seq!['\\', '\\']
    } else if c == '"' {
        seq!['\\', '"']
    } else if c == '\n' {
        seq!['\\', 'n']
    } else {
        seq![c]
    }
}

/// The escaped form of a label value.
pub open spec fn spec_escape(s: Seq<char>) -> Seq<char>
    decreases s.len(),
{
    if s.len() == 0 {
        Seq::empty()
    } else {
        escape_char(s[0]) + spec_escape(s.drop_first())
    }
}

/// Escaping one more character appends its escape.
proof fn lemma_escape_snoc(s: Seq<char>, c: char)
    ensures
        spec_escape(s.push(c)) == spec_escape(s) + escape_char(c),
    decreases s.len(),
{
    if s.len() == 0 {
        assert(s.push(c)[0] == c);
        assert(s.push(c).drop_first() =~= s);
        assert(spec_escape(s.push(c)) =~= spec_escape(s) + escape_char(c));
    } else {
        assert(s.push(c)[0] == s[0]);
        assert(s.push(c).drop_first() =~= s.drop_first().push(c));
        lemma_escape_snoc(s.drop_first(), c);
        assert(escape_char(s[0]) + (spec_escape(s.drop_first()) + escape_char(c)) =~= (escape_char(
            s[0],
        ) + spec_escape(s.drop_first())) + escape_char(c));
    }
}

/// Escape a label value for the exposition format.
pub fn escape_label_value(s: &str) -> (r: String)
    ensures
        r@ == spec_escape(s@),
{
    let n: usize = s.unicode_len();
    let mut out = String::new();
    let mut run: usize = 0;
    let mut i: usize = 0;
    proof {
        assert(s@.take(0) =~= Seq::<char>::empty());
        assert(s@.subrange(0, 0) =~= Seq::<char>::empty());
        assert(out@ + s@.subrange(0, 0) =~= spec_escape(s@.take(0)));
    }
    while i < n
        invariant
            0 <= run <= i <= n,
            n == s@.len(),
            out@ + s@.subrange(run as int, i as int) == spec_escape(s@.take(i as int)),
        decreases n - i,
    {
        let c = s.get_char(i);
        proof {
            assert(s@.take(i + 1) =~= s@.take(i as int).push(s@[i as int]));
            lemma_escape_snoc(s@.take(i as int), s@[i as int]);
        }
        if c == '\\' || c == '"' || c == '\n' {
            let piece = s.substring_char(run, i);
            out.append(piece);
            if c == '\\' {
                out.append("\\\\");
                proof {
                    reveal_strlit("\\\\");
                    assert("\\\\"@ =~= escape_char(c));
                }
            } else if c == '"' {
                out.append("\\\"");
                proof {
                    reveal_strlit("\\\"");
                    assert("\\\""@ =~= escape_char(c));
                }
            } else {
                out.append("\\n");
                proof {
                    reveal_strlit("\\n");
                    assert("\\n"@ =~= escape_char(c));
                }
            }
            proof {
                assert(s@.subrange(i + 1, i + 1) =~= Seq::<char>::empty());
                assert(out@ + s@.subrange(i + 1, i + 1) =~= spec_escape(s@.take(i + 1)));
            }
            run = i + 1;
            i = i + 1;
        } else {
            proof {
                assert(escape_char(s@[i as int]) =~= seq![s@[i as int]]);
                assert(s@.subrange(run as int, i + 1) =~= s@.subrange(run as int, i as int).push(
                    s@[i as int],
                ));
                assert(out@ + s@.subrange(run as int, i + 1) =~= (out@ + s@.subrange(
                    run as int,
                    i as int,
                )) + seq![s@[i as int]]);
            }
            i = i + 1;
        }
    }
    let piece = s.substring_char(run, n);
    out.append(piece);
    proof {
        assert(s@.take(n as int) =~= s@);
        assert(out@ =~= spec_escape(s@));
    }
    out
}

// ---------------------------------------------------------------------------
// Unescaping, and reversibility
// ---------------------------------------------------------------------------

/// The character an escape pair `\x` stands for.
pub open spec fn unescape_char(c: char) -> char {
    if c == 'n' {
        '\n'
    } else {
        c
    }
}

/// Undo [`spec_escape`]: a backslash followed by another character becomes
/// that character (with `n` turning back into a newline); other characters
/// pass through.
pub open spec fn spec_unescape(s: Seq<char>) -> Seq<char>
    decreases s.len(),
{
    if s.len() == 0 {
        Seq::empty()
    } else if s[0] == '\\' && s.len() >= 2 {
        seq![unescape_char(s[1])] + spec_unescape(s.skip(2))
    } else {
        seq![s[0]] + spec_unescape(s.drop_first())
    }
}

/// Label-value escaping is reversible: unescaping the escaped form of any
/// string recovers that string exactly.
pub proof fn lemma_unescape_escape(s: Seq<char>)
    ensures
        spec_unescape(spec_escape(s)) == s,
    decreases s.len(),
{
    if s.len() == 0 {
        assert(spec_escape(s) =~= Seq::<char>::empty());
        assert(spec_unescape(spec_escape(s)) =~= s);
    } else {
        let c = s[0];
        let rest = s.drop_first();
        let e = spec_escape(s);
        lemma_unescape_escape(rest);
        if c == '\\' || c == '"' || c == '\n' {
            assert(e =~= escape_char(c) + spec_escape(rest));
            assert(e[0] == '\\');
            assert(e.len() >= 2);
            assert(e.skip(2) =~= spec_escape(rest));
            assert(unescape_char(e[1]) == c);
            assert(seq![c] + rest =~= s);
        } else {
            assert(e =~= seq![c] + spec_escape(rest));
            assert(e[0] == c);
            assert(e.drop_first() =~= spec_escape(rest));
            assert(seq![c] + rest =~= s);
        }
    }
}

// ---------------------------------------------------------------------------
// Rendering
// ---------------------------------------------------------------------------

/// One rendered label: `key="escaped value"`.
pub open spec fn spec_label(l: (Seq<char>, Seq<char>)) -> Seq<char> {
    l.0 + "=\""@ + spec_escape(l.1) + "\""@
}

/// The comma-prefixed rendering of every label in `ls`.
pub open spec fn spec_labels_tail(ls: Seq<(Seq<char>, Seq<char>)>) -> Seq<char>
    decreases ls.len(),
{
    if ls.len() == 0 {
        Seq::empty()
    } else {
        ","@ + spec_label(ls[0]) + spec_labels_tail(ls.drop_first())
    }
}

/// Comma-joined rendering of a label list, without a trailing comma.
pub open spec fn spec_labels_join(ls: Seq<(Seq<char>, Seq<char>)>) -> Seq<char> {
    if ls.len() == 0 {
        Seq::empty()
    } else {
        spec_label(ls[0]) + spec_labels_tail(ls.drop_first())
    }
}

proof fn lemma_labels_tail_snoc(ls: Seq<(Seq<char>, Seq<char>)>, l: (Seq<char>, Seq<char>))
    ensures
        spec_labels_tail(ls.push(l)) == spec_labels_tail(ls) + (","@ + spec_label(l)),
    decreases ls.len(),
{
    if ls.len() == 0 {
        assert(ls.push(l)[0] == l);
        assert(ls.push(l).drop_first() =~= ls);
        assert(spec_labels_tail(ls.push(l)) =~= spec_labels_tail(ls) + (","@ + spec_label(l)));
    } else {
        assert(ls.push(l)[0] == ls[0]);
        assert(ls.push(l).drop_first() =~= ls.drop_first().push(l));
        lemma_labels_tail_snoc(ls.drop_first(), l);
        assert(","@ + spec_label(ls[0]) + (spec_labels_tail(ls.drop_first()) + (","@ + spec_label(
            l,
        ))) =~= (","@ + spec_label(ls[0]) + spec_labels_tail(ls.drop_first())) + (","@ + spec_label(
            l,
        )));
    }
}

proof fn lemma_labels_join_snoc(ls: Seq<(Seq<char>, Seq<char>)>, l: (Seq<char>, Seq<char>))
    ensures
        ls.len() == 0 ==> spec_labels_join(ls.push(l)) == spec_label(l),
        ls.len() > 0 ==> spec_labels_join(ls.push(l)) == spec_labels_join(ls) + (","@ + spec_label(
            l,
        )),
{
    if ls.len() == 0 {
        assert(ls.push(l)[0] == l);
        assert(ls.push(l).drop_first() =~= ls);
        assert(spec_labels_join(ls.push(l)) =~= spec_label(l));
    } else {
        assert(ls.push(l)[0] == ls[0]);
        assert(ls.push(l).drop_first() =~= ls.drop_first().push(l));
        lemma_labels_tail_snoc(ls.drop_first(), l);
        assert(spec_label(ls[0]) + (spec_labels_tail(ls.drop_first()) + (","@ + spec_label(l)))
            =~= (spec_label(ls[0]) + spec_labels_tail(ls.drop_first())) + (","@ + spec_label(l)));
    }
}

/// Append the comma-joined labels of `labels` to `out`.
fn append_labels(out: &mut String, labels: &Vec<(String, String)>)
    ensures
        final(out)@ == old(out)@ + spec_labels_join(labels.deep_view()),
{
    let ghost dv = labels.deep_view();
    let ghost pre = old(out)@;
    let n = labels.len();
    proof {
        assert(dv.len() == n);
        assert(dv.take(0) =~= Seq::<(Seq<char>, Seq<char>)>::empty());
        assert(out@ == pre + spec_labels_join(dv.take(0))) by {
            assert(pre + spec_labels_join(dv.take(0)) =~= pre);
        }
    }
    let mut i: usize = 0;
    while i < n
        invariant
            0 <= i <= n,
            n == labels@.len(),
            dv == labels.deep_view(),
            dv.len() == n,
            out@ == pre + spec_labels_join(dv.take(i as int)),
        decreases n - i,
    {
        proof {
            assert(dv[i as int] == (labels@[i as int].0@, labels@[i as int].1@));
            assert(dv.take(i + 1) =~= dv.take(i as int).push(dv[i as int]));
            lemma_labels_join_snoc(dv.take(i as int), dv[i as int]);
        }
        if i > 0 {
            out.append(",");
        }
        let pair = &labels[i];
        out.append(pair.0.as_str());
        out.append("=\"");
        let escaped = escape_label_value(pair.1.as_str());
        out.append(escaped.as_str());
        out.append("\"");
        proof {
            let l = dv[i as int];
            if i == 0 {
                assert((((pre + l.0) + "=\""@) + spec_escape(l.1)) + "\""@ =~= pre + spec_label(l));
                assert(out@ == pre + spec_labels_join(dv.take(i + 1)));
            } else {
                let done = spec_labels_join(dv.take(i as int));
                assert((((((pre + done) + ","@) + l.0) + "=\""@) + spec_escape(l.1)) + "\""@
                    =~= pre + (done + (","@ + spec_label(l))));
                assert(out@ == pre + spec_labels_join(dv.take(i + 1)));
            }
        }
        i = i + 1;
    }
    proof {
        assert(dv.take(n as int) =~= dv);
    }
}

/// One rendered sample line: the family name, the label set in braces when
/// non-empty, a space, the formatted value, and a newline.
pub open spec fn spec_sample_line(name: Seq<char>, s: SampleView) -> Seq<char> {
    let labels_part = if s.labels.len() > 0 {
        "{"@ + spec_labels_join(s.labels) + "}"@
    } else {
        Seq::<char>::empty()
    };
    name + labels_part + " "@ + spec_format_value(s.value) + "\n"@
}

/// The sample lines of one family, in order.
pub open spec fn spec_samples_text(name: Seq<char>, ss: Seq<SampleView>) -> Seq<char>
    decreases ss.len(),
{
    if ss.len() == 0 {
        Seq::empty()
    } else {
        spec_sample_line(name, ss[0]) + spec_samples_text(name, ss.drop_first())
    }
}

proof fn lemma_samples_text_snoc(name: Seq<char>, ss: Seq<SampleView>, s: SampleView)
    ensures
        spec_samples_text(name, ss.push(s)) == spec_samples_text(name, ss) + spec_sample_line(
            name,
            s,
        ),
    decreases ss.len(),
{
    if ss.len() == 0 {
        assert(ss.push(s)[0] == s);
        assert(ss.push(s).drop_first() =~= ss);
        assert(spec_samples_text(name, ss.push(s)) =~= spec_samples_text(name, ss)
            + spec_sample_line(name, s));
    } else {
        assert(ss.push(s)[0] == ss[0]);
        assert(ss.push(s).drop_first() =~= ss.drop_first().push(s));
        lemma_samples_text_snoc(name, ss.drop_first(), s);
        assert(spec_sample_line(name, ss[0]) + (spec_samples_text(name, ss.drop_first())
            + spec_sample_line(name, s)) =~= (spec_sample_line(name, ss[0]) + spec_samples_text(
            name,
            ss.drop_first(),
        )) + spec_sample_line(name, s));
    }
}

/// The full rendering of one family: help comment, type comment, samples.
pub open spec fn spec_metric_text(m: MetricView) -> Seq<char> {
    "# HELP "@ + m.name + " "@ + m.help + "\n"@ + "# TYPE "@ + m.name + " "@ + spec_type_str(
        m.metric_type,
    ) + "\n"@ + spec_samples_text(m.name, m.samples)
}

/// The rendering of a list of families, in order.
pub open spec fn spec_render_metrics(ms: Seq<MetricView>) -> Seq<char>
    decreases ms.len(),
{
    if ms.len() == 0 {
        Seq::empty()
    } else {
        spec_metric_text(ms[0]) + spec_render_metrics(ms.drop_first())
    }
}

proof fn lemma_render_metrics_snoc(ms: Seq<MetricView>, m: MetricView)
    ensures
        spec_render_metrics(ms.push(m)) == spec_render_metrics(ms) + spec_metric_text(m),
    decreases ms.len(),
{
    if ms.len() == 0 {
        assert(ms.push(m)[0] == m);
        assert(ms.push(m).drop_first() =~= ms);
        assert(spec_render_metrics(ms.push(m)) =~= spec_render_metrics(ms) + spec_metric_text(m));
    } else {
        assert(ms.push(m)[0] == ms[0]);
        assert(ms.push(m).drop_first() =~= ms.drop_first().push(m));
        lemma_render_metrics_snoc(ms.drop_first(), m);
        assert(spec_metric_text(ms[0]) + (spec_render_metrics(ms.drop_first()) + spec_metric_text(
            m,
        )) =~= (spec_metric_text(ms[0]) + spec_render_metrics(ms.drop_first())) + spec_metric_text(
            m,
        ));
    }
}

/// Append one family's text to `out`.
fn append_metric(out: &mut String, m: &Metric)
    ensures
        final(out)@ == old(out)@ + spec_metric_text(m@),
{
    let ghost pre = old(out)@;
    out.append("# HELP ");
    out.append(m.name.as_str());
    out.append(" ");
    out.append(m.help.as_str());
    out.append("\n");
    out.append("# TYPE ");
    out.append(m.name.as_str());
    out.append(" ");
    out.append(m.metric_type.as_str());
    out.append("\n");
    let ghost header = out@;
    proof {
        assert(header =~= pre + ("# HELP "@ + m@.name + " "@ + m@.help + "\n"@ + "# TYPE "@
            + m@.name + " "@ + spec_type_str(m@.metric_type) + "\n"@));
    }
    let ghost samples_dv = m.samples.deep_view();
    let n = m.samples.len();
    proof {
        assert(samples_dv.len() == n);
        assert(samples_dv.take(0) =~= Seq::<SampleView>::empty());
        assert(out@ =~= header + spec_samples_text(m@.name, samples_dv.take(0)));
    }
    let mut i: usize = 0;
    while i < n
        invariant
            0 <= i <= n,
            n == m.samples@.len(),
            samples_dv == m.samples.deep_view(),
            samples_dv.len() == n,
            header == pre + ("# HELP "@ + m@.name + " "@ + m@.help + "\n"@ + "# TYPE "@ + m@.name
                + " "@ + spec_type_str(m@.metric_type) + "\n"@),
            out@ == header + spec_samples_text(m@.name, samples_dv.take(i as int)),
        decreases n - i,
    {
        proof {
            assert(samples_dv[i as int] == m.samples@[i as int]@);
            assert(samples_dv.take(i + 1) =~= samples_dv.take(i as int).push(samples_dv[i as int]));
            lemma_samples_text_snoc(m@.name, samples_dv.take(i as int), samples_dv[i as int]);
        }
        let ghost done = spec_samples_text(m@.name, samples_dv.take(i as int));
        let sample = &m.samples[i];
        out.append(m.name.as_str());
        let ghost sv = samples_dv[i as int];
        if sample.labels.len() > 0 {
            out.append("{");
            append_labels(out, &sample.labels);
            out.append("}");
            proof {
                assert(out@ =~= (header + done) + (m@.name + ("{"@ + spec_labels_join(sv.labels)
                    + "}"@)));
            }
        } else {
            proof {
                assert(sv.labels.len() == 0);
                assert(out@ =~= (header + done) + (m@.name + Seq::<char>::empty()));
            }
        }
        out.append(" ");
        let formatted = format_value(&sample.value);
        out.append(formatted.as_str());
        out.append("\n");
        proof {
            let labels_part: Seq<char> = if sv.labels.len() > 0 {
                "{"@ + spec_labels_join(sv.labels) + "}"@
            } else {
                Seq::<char>::empty()
            };
            assert(sv.value == sample.value);
            assert(out@ =~= (header + done) + (m@.name + labels_part + " "@ + spec_format_value(
                sv.value,
            ) + "\n"@));
            assert(out@ == header + spec_samples_text(m@.name, samples_dv.take(i + 1)));
        }
        i = i + 1;
    }
    proof {
        assert(samples_dv.take(n as int) =~= samples_dv);
        assert(out@ =~= pre + spec_metric_text(m@));
    }
}

/// Render a list of metric families into the text exposition format, in the
/// order given.
pub fn render_metrics(metrics: &[Metric]) -> (r: String)
    ensures
        r@ == spec_render_metrics(metrics.deep_view()),
{
    let ghost dv = metrics.deep_view();
    let mut out = String::new();
    let n = metrics.len();
    proof {
        assert(dv.len() == n);
        assert(dv.take(0) =~= Seq::<MetricView>::empty());
        assert(out@ =~= Seq::<char>::empty() + spec_render_metrics(dv.take(0)));
        assert(out@ =~= spec_render_metrics(dv.take(0)));
    }
    let mut i: usize = 0;
    while i < n
        invariant
            0 <= i <= n,
            n == metrics@.len(),
            dv == metrics.deep_view(),
            dv.len() == n,
            out@ == spec_render_metrics(dv.take(i as int)),
        decreases n - i,
    {
        proof {
            assert(dv[i as int] == metrics@[i as int]@);
            assert(dv.take(i + 1) =~= dv.take(i as int).push(dv[i as int]));
            lemma_render_metrics_snoc(dv.take(i as int), dv[i as int]);
        }
        append_metric(&mut out, &metrics[i]);
        i = i + 1;
    }
    proof {
        assert(dv.take(n as int) =~= dv);
    }
    out
}

} // verus!
