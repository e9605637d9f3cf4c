//! The field layout of Polygon's tick records: a date, then up to seven values
//! in the order `v, vw, o, c, h, l, n`. A value that is missing or did not
//! parse takes a stand-in (NaN in practice); the record still yields a tick.
use vstd::prelude::*;

use crate::data::calendar::Timestamp;
use crate::data::Tick;

verus! {

/// The value for field `i` of a record: the parsed value where there is one,
/// `missing` otherwise.
pub open spec fn field_or<V>(values: Seq<Option<V>>, i: int, missing: V) -> V {
    if 0 <= i < values.len() {
        match values[i] {
            Some(x) => x,
            None => missing,
        }
    } else {
        missing
    }
}

fn value_at<V: Copy>(values: &Vec<Option<V>>, i: usize, missing: V) -> (r: V)
    ensures
        r == field_or(values@, i as int, missing),
{
    if i < values.len() {
        match values[i] {
            Some(x) => x,
            None => missing,
        }
    } else {
        missing
    }
}

/// The tick of a record at `t` whose value cells parsed to `values` (`None`
/// for a cell that did not parse). Cells past the seventh are ignored.
pub fn polygon_tick<V: Copy>(t: Timestamp, values: &Vec<Option<V>>, missing: V) -> (r: Tick<V>)
    ensures
        r.t == t,
        r.v == field_or(values@, 0, missing),
        r.vw == field_or(values@, 1, missing),
        r.o == field_or(values@, 2, missing),
        r.c == field_or(values@, 3, missing),
        r.h == field_or(values@, 4, missing),
        r.l == field_or(values@, 5, missing),
        r.n == field_or(values@, 6, missing),
{
    Tick {
        t,
        v: value_at(values, 0, missing),
        vw: value_at(values, 1, missing),
        o: value_at(values, 2, missing),
        c: value_at(values, 3, missing),
        h: value_at(values, 4, missing),
        l: value_at(values, 5, missing),
        n: value_at(values, 6, missing),
    }
}

/// What chrono's `NaiveDateTime::parse_from_str` makes of a text in a format,
/// in whole seconds since 1970-01-01T00:00:00; `None` where it fails.
pub uninterp spec fn parsed_datetime(s: Seq<char>, format: Seq<char>) -> Option<i64>;

/// Relies on chrono's `NaiveDateTime::parse_from_str`: its result depends on
/// the text and the format alone, and every date-time it yields has a number
/// of seconds since the epoch that fits in an `i64`.
#[verifier::external_body]
fn parse_datetime(s: &str, format: &str) -> (r: Option<i64>)
    ensures
        r == parsed_datetime(s@, format@),
{
    match chrono::NaiveDateTime::parse_from_str(s, format) {
        Ok(t) => Some(t.and_utc().timestamp()),
        Err(_) => None,
    }
}

/// The tick of a record whose first cell is `date`, written in `date_format`,
/// and whose value cells parsed to `values`: `None`, and the record is
/// dropped, only where the date does not parse.
pub fn polygon_record<V: Copy>(
    date: &str,
    date_format: &str,
    values: &Vec<Option<V>>,
    missing: V,
) -> (r: Option<Tick<V>>)
    ensures
        match parsed_datetime(date@, date_format@) {
            None => r.is_none(),
            Some(secs) => {
                &&& r.is_some()
                &&& r->Some_0.t == (Timestamp { secs })
                &&& r->Some_0.v == field_or(values@, 0, missing)
                &&& r->Some_0.vw == field_or(values@, 1, missing)
                &&& r->Some_0.o == field_or(values@, 2, missing)
                &&& r->Some_0.c == field_or(values@, 3, missing)
                &&& r->Some_0.h == field_or(values@, 4, missing)
                &&& r->Some_0.l == field_or(values@, 5, missing)
                &&& r->Some_0.n == field_or(values@, 6, missing)
            },
        },
{
    match parse_datetime(date, date_format) {
        Some(secs) => Some(polygon_tick(Timestamp { secs }, values, missing)),
        None => None,
    }
}

} // verus!
