//! Metrics in the Prometheus text exposition format.

use crate::text;
use vstd::prelude::*;
use vstd::string::*;

verus! {

/// The help and type lines of a metric.
pub open spec fn header(name: Seq<char>, help: Seq<char>, kind: Seq<char>) -> Seq<char> {
    "# HELP "@ + name + " "@ + help + "\n"@ + "# TYPE "@ + name + " "@ + kind + "\n"@
}

/// One sample line: the metric with its labels, and its value.
pub open spec fn sample(series: Seq<char>, value: Seq<char>) -> Seq<char> {
    series + " "@ + value + "\n"@
}

/// A metric without labels.
pub open spec fn block(
    name: Seq<char>,
    help: Seq<char>,
    kind: Seq<char>,
    value: Seq<char>,
) -> Seq<char> {
    header(name, help, kind) + sample(name, value)
}

/// A metric with labels.
pub open spec fn labelled_block(
    name: Seq<char>,
    help: Seq<char>,
    kind: Seq<char>,
    labels: Seq<char>,
    value: Seq<char>,
) -> Seq<char> {
    header(name, help, kind) + sample(name + "{"@ + labels + "}"@, value)
}

/// Appends the help and type lines of a metric.
pub fn push_header(out: &mut String, name: &str, help: &str, kind: &str)
    ensures
        final(out)@ == old(out)@ + header(name@, help@, kind@),
{
    out.append("# HELP ");
    out.append(name);
    out.append(" ");
    out.append(help);
    out.append("\n");
    out.append("# TYPE ");
    out.append(name);
    out.append(" ");
    out.append(kind);
    out.append("\n");
    assert(out@ =~= old(out)@ + header(name@, help@, kind@));
}

/// Appends a sample line.
pub fn push_sample(out: &mut String, series: &str, value: &str)
    ensures
        final(out)@ == old(out)@ + sample(series@, value@),
{
    out.append(series);
    out.append(" ");
    out.append(value);
    out.append("\n");
    assert(out@ =~= old(out)@ + sample(series@, value@));
}

/// Appends a metric whose value is given as text.
pub fn push_block(out: &mut String, name: &str, help: &str, kind: &str, value: &str)
    ensures
        final(out)@ == old(out)@ + block(name@, help@, kind@, value@),
{
    push_header(out, name, help, kind);
    push_sample(out, name, value);
    assert(out@ =~= old(out)@ + block(name@, help@, kind@, value@));
}

/// Appends a counter.
pub fn push_counter(out: &mut String, name: &str, help: &str, value: u64)
    ensures
        final(out)@ == old(out)@ + block(name@, help@, "counter"@, text::decimal(value as nat)),
{
    let digits = text::decimal_text(value as u128);
    push_block(out, name, help, "counter", digits.as_str());
}

/// Appends a gauge.
pub fn push_gauge(out: &mut String, name: &str, help: &str, value: u64)
    ensures
        final(out)@ == old(out)@ + block(name@, help@, "gauge"@, text::decimal(value as nat)),
{
    let digits = text::decimal_text(value as u128);
    push_block(out, name, help, "gauge", digits.as_str());
}

/// Appends a metric with labels.
pub fn push_labelled(
    out: &mut String,
    name: &str,
    help: &str,
    kind: &str,
    labels: &str,
    value: u64,
)
    ensures
        final(out)@ == old(out)@ + labelled_block(
            name@,
            help@,
            kind@,
            labels@,
            text::decimal(value as nat),
        ),
{
    push_header(out, name, help, kind);
    let mut series = name.to_owned();
    series.append("{");
    series.append(labels);
    series.append("}");
    let digits = text::decimal_text(value as u128);
    push_sample(out, series.as_str(), digits.as_str());
    assert(out@ =~= old(out)@ + labelled_block(
        name@,
        help@,
        kind@,
        labels@,
        text::decimal(value as nat),
    ));
}

/// A metric is exposed in three lines: its help, its kind and its value; a
/// labelled one has its labels in curly brackets behind its name.
pub proof fn law_metric_has_three_lines(
    name: Seq<char>,
    help: Seq<char>,
    kind: Seq<char>,
    labels: Seq<char>,
    value: Seq<char>,
)
    ensures
        block(name, help, kind, value) == "# HELP "@ + name + " "@ + help + "\n"@ + "# TYPE "@
            + name + " "@ + kind + "\n"@ + name + " "@ + value + "\n"@,
        labelled_block(name, help, kind, labels, value) == "# HELP "@ + name + " "@ + help + "\n"@
            + "# TYPE "@ + name + " "@ + kind + "\n"@ + name + "{"@ + labels + "}"@ + " "@ + value
            + "\n"@,
{
    let h = "# HELP "@ + name + " "@ + help + "\n"@ + "# TYPE "@ + name + " "@ + kind + "\n"@;
    assert(h + (name + " "@ + value + "\n"@) =~= h + name + " "@ + value + "\n"@);
    assert(h + (name + "{"@ + labels + "}"@ + " "@ + value + "\n"@) =~= h + name + "{"@ + labels
        + "}"@ + " "@ + value + "\n"@);
}

} // verus!
