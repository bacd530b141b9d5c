//! A statistics record as one line of text.
//!
//! The line holds, joined by commas: the symbol, the start of the period as
//! an RFC 3339 date and time, the latest price, the relative change in per
//! cent, the period's minimum and maximum, and the latest moving average.
//! The figures arrive as text; how a price is written is not decided here.
use crate::instant::Timestamp;
use vstd::prelude::*;
use vstd::string::StringExecFns;

verus! {

/// The figures of a statistics record, each as it is to be printed.
#[derive(Debug, PartialEq, Eq)]
pub struct RecordFigures {
    pub last_price: String,
    pub relative_change_pct: String,
    pub period_min: String,
    pub period_max: String,
    pub last_moving_average: String,
}

/// The text that `chrono` writes for the UTC date and time at `secs` seconds
/// and `nanos` nanoseconds after the epoch, in RFC 3339 form; `None` where
/// `chrono` has no date and time for them.
pub uninterp spec fn rfc3339_text(secs: int, nanos: int) -> Option<Seq<char>>;

/// The line of a record, given the start of its period as text.
pub open spec fn spec_record_line(
    symbol: Seq<char>,
    from_text: Seq<char>,
    figures: RecordFigures,
) -> Seq<char> {
    symbol + seq![','] + from_text + seq![','] + figures.last_price@ + seq![',']
        + figures.relative_change_pct@ + seq![','] + figures.period_min@ + seq![',']
        + figures.period_max@ + seq![','] + figures.last_moving_average@
}

/// Calls `chrono::DateTime::from_timestamp` and, on the date and time it
/// returns, `to_rfc3339`. Trusted: the text depends on `secs` and `nanos`
/// alone, and the result is `None` exactly where `from_timestamp` returns
/// `None`. Nothing is claimed about what the text holds.
#[verifier::external_body]
fn rfc3339(secs: i64, nanos: u32) -> (text: Option<String>)
    ensures
        match text {
            Some(t) => rfc3339_text(secs as int, nanos as int) == Some(t@),
            None => rfc3339_text(secs as int, nanos as int) is None,
        },
{
    match chrono::DateTime::from_timestamp(secs, nanos) {
        Some(moment) => Some(moment.to_rfc3339()),
        None => None,
    }
}

/// Writes the line of a record whose period starts at the date and time
/// written in `from_text`.
pub fn join_record(symbol: &str, from_text: &str, figures: &RecordFigures) -> (line: String)
    ensures
        line@ == spec_record_line(symbol@, from_text@, *figures),
{
    proof {
        reveal_strlit(",");
    }
    assert(","@ =~= seq![',']);
    let mut line = String::from_str(symbol);
    line.append(",");
    line.append(from_text);
    line.append(",");
    line.append(figures.last_price.as_str());
    line.append(",");
    line.append(figures.relative_change_pct.as_str());
    line.append(",");
    line.append(figures.period_min.as_str());
    line.append(",");
    line.append(figures.period_max.as_str());
    line.append(",");
    line.append(figures.last_moving_average.as_str());
    line
}

/// Writes the line of a record whose period starts at `from`. `None` where
/// `from` is no date and time that `chrono` can write.
pub fn record_line(symbol: &str, from: Timestamp, figures: &RecordFigures) -> (line: Option<String>)
    ensures
        match rfc3339_text(from.secs as int, from.nanos as int) {
            Some(text) => line matches Some(l) && l@ == spec_record_line(symbol@, text, *figures),
            None => line is None,
        },
{
    match rfc3339(from.secs, from.nanos) {
        Some(text) => Some(join_record(symbol, text.as_str(), figures)),
        None => None,
    }
}

} // verus!
