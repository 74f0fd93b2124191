//! The measurements of a run, as they are written to the instance's output.

use crate::address::{lemma_cut, part_after, part_before};
use crate::decimal::{
    all_digits, decimal, digits_value, law_decimal_has_no_leading_zero, lemma_decimal_value,
    to_decimal,
};
use vstd::prelude::*;

verus! {

/// A measurement.
#[derive(Clone, Copy, PartialEq, Eq, Structural, Debug)]
pub enum Metric {
    /// Milliseconds from the start of a fetch to the arrival of its last byte.
    RequesterFetchDuration,
    /// Milliseconds from the start of a fetch to the arrival of its first byte.
    RequesterTtfb,
    /// How many messages were received.
    MessageReceived,
    /// How many messages were sent.
    MessageSent,
}

/// The name that a measurement is written under.
pub open spec fn metric_name(metric: Metric) -> Seq<char> {
    match metric {
        Metric::RequesterFetchDuration => "REQUESTER_FETCH_DURATION"@,
        Metric::RequesterTtfb => "REQUESTER_TTFB"@,
        Metric::MessageReceived => "MESSAGE_RECEIVED"@,
        Metric::MessageSent => "MESSAGE_SENT"@,
    }
}

/// What is written for a measurement: its name, an equals sign, its value.
pub open spec fn metric_line(metric: Metric, value: u128) -> Seq<char> {
    metric_name(metric) + "="@ + decimal(value as nat)
}

/// Writes a measurement.
pub fn metric_text(metric: Metric, value: u128) -> (text: String)
    ensures
        text@ == metric_line(metric, value),
{
    let name: String = match metric {
        Metric::RequesterFetchDuration => "REQUESTER_FETCH_DURATION".to_owned(),
        Metric::RequesterTtfb => "REQUESTER_TTFB".to_owned(),
        Metric::MessageReceived => "MESSAGE_RECEIVED".to_owned(),
        Metric::MessageSent => "MESSAGE_SENT".to_owned(),
    };
    name.concat("=").concat(to_decimal(value).as_str())
}

/// The names of the measurements hold no equals sign.
proof fn lemma_names(metric: Metric)
    ensures
        forall|i: int|
            0 <= i < metric_name(metric).len() ==> #[trigger] metric_name(metric)[i] != '=',
{
    reveal_strlit("REQUESTER_FETCH_DURATION");
    reveal_strlit("REQUESTER_TTFB");
    reveal_strlit("MESSAGE_RECEIVED");
    reveal_strlit("MESSAGE_SENT");
}

/// Before the first equals sign of what is written stands the name of the
/// measurement, and behind it the whole value in decimal, without leading
/// zeros.
pub proof fn law_measurement_reads_back(metric: Metric, value: u128)
    ensures
        ({
            let line = metric_line(metric, value);
            let number = part_after(line, '=');
            &&& part_before(line, '=') == match metric {
                Metric::RequesterFetchDuration => "REQUESTER_FETCH_DURATION"@,
                Metric::RequesterTtfb => "REQUESTER_TTFB"@,
                Metric::MessageReceived => "MESSAGE_RECEIVED"@,
                Metric::MessageSent => "MESSAGE_SENT"@,
            }
            &&& line.contains('=')
            &&& number.len() > 0
            &&& all_digits(number)
            &&& digits_value(number) == value
            &&& number[0] == '0' ==> value == 0 && number.len() == 1
        }),
{
    let line = metric_line(metric, value);
    reveal_strlit("=");
    assert("="@ =~= seq!['=']);
    assert(line[metric_name(metric).len() as int] == '=');
    lemma_names(metric);
    lemma_decimal_value(value as nat);
    law_decimal_has_no_leading_zero(value as nat);
    lemma_cut(metric_name(metric), '=', decimal(value as nat));
}

/// What is written tells measurements and values apart.
pub proof fn law_measurements_differ(metric: Metric, value: u128, other: Metric, other_value: u128)
    requires
        metric_line(metric, value) == metric_line(other, other_value),
    ensures
        metric == other,
        value == other_value,
{
    law_measurement_reads_back(metric, value);
    law_measurement_reads_back(other, other_value);
    reveal_strlit("REQUESTER_FETCH_DURATION");
    reveal_strlit("REQUESTER_TTFB");
    reveal_strlit("MESSAGE_RECEIVED");
    reveal_strlit("MESSAGE_SENT");
    assert("REQUESTER_FETCH_DURATION"@.len() == 24);
    assert("REQUESTER_TTFB"@.len() == 14);
    assert("MESSAGE_RECEIVED"@.len() == 16);
    assert("MESSAGE_SENT"@.len() == 12);
}

} // verus!
