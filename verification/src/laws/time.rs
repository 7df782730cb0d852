//! Points in time and the milliseconds that stand for them.
use crate::metric::Metric;
use crate::request_builder::WideRequestBuilderOptions;
use crate::row::{RowInsertRequest, ValueData};
use crate::timestamp::{is_instant, is_reading, unix_millis};
use crate::wide::wide_insert;
use vstd::prelude::*;

verus! {

/// A timestamp names any second of the years from 262144 BCE to 262142, and less than two
/// seconds of nanoseconds; a reading of the clock has less than one second of them.
pub proof fn law_range_of_timestamps(seconds: int, nanos: int)
    ensures
        is_instant(seconds, nanos) <==> -8_334_601_228_800 <= seconds <= 8_210_266_876_799 && 0
            <= nanos < 2_000_000_000,
        is_reading(seconds, nanos) <==> -8_334_601_228_800 <= seconds <= 8_210_266_876_799 && 0
            <= nanos < 1_000_000_000,
{
}

/// A second is a thousand milliseconds, and a million nanoseconds are one: what is left of a
/// millisecond is cut off. Later points in time never have fewer milliseconds.
pub proof fn law_milliseconds(seconds: int, nanos: int, other_seconds: int, other_nanos: int)
    ensures
        unix_millis(0, 0) == 0,
        unix_millis(seconds + 1, nanos) == unix_millis(seconds, nanos) + 1000,
        unix_millis(seconds, nanos + 1_000_000) == unix_millis(seconds, nanos) + 1,
        unix_millis(seconds, nanos) * 1_000_000 <= seconds * 1_000_000_000 + nanos < (unix_millis(
            seconds,
            nanos,
        ) + 1) * 1_000_000,
        seconds * 1_000_000_000 + nanos <= other_seconds * 1_000_000_000 + other_nanos
            ==> unix_millis(seconds, nanos) <= unix_millis(other_seconds, other_nanos),
{
}

/// The rows of two metrics stand in time as the metrics do: the one whose timestamp is not later
/// has a time index that is not later, and a second between the two is a thousand between the
/// time indexes.
pub proof fn law_rows_keep_the_order_in_time(
    first: (Metric, RowInsertRequest),
    second: (Metric, RowInsertRequest),
    options: WideRequestBuilderOptions,
    names: (Option<Seq<char>>, Option<Seq<char>>),
    nows: (int, int),
    matched: (Seq<bool>, Seq<bool>),
)
    requires
        first.1@ == wide_insert(first.0@, options@, names.0, nows.0, matched.0),
        second.1@ == wide_insert(second.0@, options@, names.1, nows.1, matched.1),
        first.0.timestamp is Some,
        second.0.timestamp is Some,
    ensures
        ({
            let before = first.0.timestamp->0;
            let after = second.0.timestamp->0;
            let early = first.1.rows->0.rows@[0].values@[0].value_data;
            let late = second.1.rows->0.rows@[0].values@[0].value_data;
            &&& early matches Some(ValueData::TimestampMillisecondValue(a))
            &&& late matches Some(ValueData::TimestampMillisecondValue(b))
            &&& before.spec_seconds() * 1_000_000_000 + before.spec_nanos() <= after.spec_seconds()
                * 1_000_000_000 + after.spec_nanos() ==> a <= b
            &&& before.spec_nanos() == after.spec_nanos() ==> b - a == (after.spec_seconds()
                - before.spec_seconds()) * 1000
        }),
{
    super::request::law_time_index_of_a_row(
        first.1,
        first.0,
        options,
        names.0,
        nows.0,
        matched.0,
    );
    super::request::law_time_index_of_a_row(
        second.1,
        second.0,
        options,
        names.1,
        nows.1,
        matched.1,
    );
}

}
