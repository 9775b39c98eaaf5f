//! Rendering optional field values as text.

use bigdecimal::BigDecimal;
use chrono::{NaiveDate, NaiveDateTime};
use serde_json::Value;
use std::fmt::Display;
use vstd::prelude::*;
use vstd::string::to_string_from_display_ensures;

verus! {

/// `bigdecimal::BigDecimal`, a decimal number of any size. Nothing inside it is
/// looked at: a value is carried to the call that renders it.
#[verifier::external_type_specification]
#[verifier::external_body]
pub struct ExBigDecimal(BigDecimal);

/// `serde_json::Value`, a JSON value. Nothing inside it is looked at: a value
/// is carried to the call that renders it.
#[verifier::external_type_specification]
#[verifier::external_body]
pub struct ExValue(Value);

/// `chrono::NaiveDate`, a calendar date. Nothing inside it is looked at: a
/// value is carried to the call that renders it.
#[verifier::external_type_specification]
#[verifier::external_body]
pub struct ExNaiveDate(NaiveDate);

/// `chrono::NaiveDateTime`, a date with the time of day. Nothing inside it is
/// looked at: a value is carried to the call that renders it.
#[verifier::external_type_specification]
#[verifier::external_body]
pub struct ExNaiveDateTime(NaiveDateTime);

/// The text that stands for a value that is absent.
pub open spec fn null_text() -> Seq<char> {
    "null"@
}

/// The rendering of a value that is present, or `default` for one that is
/// absent.
pub fn text_or(rendered: Option<String>, default: &str) -> (text: String)
    ensures
        text@ == match rendered {
            Some(rendering) => rendering@,
            None => default@,
        },
{
    match rendered {
        Some(rendering) => rendering,
        None => default.to_owned(),
    }
}

/// Renders an optional value by its `Display` form, or as `null` where it is
/// absent.
pub fn fmt_opt<T: Display>(v: &Option<T>) -> (text: String)
    ensures
        match v {
            Some(value) => to_string_from_display_ensures::<T>(value, text),
            None => text@ == null_text(),
        },
{
    match v {
        Some(value) => value.to_string(),
        None => "null".to_owned(),
    }
}

/// Renders an optional value by its `Display` form, or as `default` where it
/// is absent.
pub fn fmt_opt_or<T: Display>(v: &Option<T>, default: &str) -> (text: String)
    ensures
        match v {
            Some(value) => to_string_from_display_ensures::<T>(value, text),
            None => text@ == default@,
        },
{
    match v {
        Some(value) => value.to_string(),
        None => default.to_owned(),
    }
}

/// Renders an optional decimal number, or `null` where it is absent.
pub fn fmt_bigdecimal(v: &Option<BigDecimal>) -> (text: String)
    ensures
        match v {
            Some(value) => to_string_from_display_ensures::<BigDecimal>(value, text),
            None => text@ == null_text(),
        },
{
    fmt_opt(v)
}

/// Renders an optional JSON value as compact JSON text, or `null` where it is
/// absent.
pub fn fmt_json_value(v: &Option<Value>) -> (text: String)
    ensures
        match v {
            Some(value) => to_string_from_display_ensures::<Value>(value, text),
            None => text@ == null_text(),
        },
{
    fmt_opt(v)
}

/// The pattern of a calendar date: year, month and day.
pub open spec fn date_pattern() -> Seq<char> {
    "%Y-%m-%d"@
}

/// The pattern of a date with the time of day, to the second.
pub open spec fn datetime_pattern() -> Seq<char> {
    "%Y-%m-%d %H:%M:%S"@
}

/// The text that chrono writes for a date under the date pattern: the year,
/// the month and the day of that date.
pub uninterp spec fn date_text(date: NaiveDate) -> Seq<char>;

/// The text that chrono writes for a date and time under the pattern of date
/// and time: that date and the time of day to the second.
pub uninterp spec fn datetime_text(datetime: NaiveDateTime) -> Seq<char>;

/// `chrono::NaiveDate::format` with the result turned into a `String`. chrono
/// panics while it writes the text if the pattern is not one it knows for a
/// date, so only the date pattern is let in. Under that one pattern the text
/// depends on the date alone, and it is given that name; what it looks like
/// is left to chrono.
#[verifier::external_body]
fn format_date(date: &NaiveDate, pattern: &str) -> (text: String)
    requires
        pattern@ == date_pattern(),
    ensures
        text@ == date_text(*date),
{
    date.format(pattern).to_string()
}

/// `chrono::NaiveDateTime::format` with the result turned into a `String`.
/// chrono panics while it writes the text if the pattern is not one it knows,
/// so only the pattern of date and time is let in. Under that one pattern the
/// text depends on the date and time alone, and it is given that name; what it
/// looks like is left to chrono.
#[verifier::external_body]
fn format_datetime(datetime: &NaiveDateTime, pattern: &str) -> (text: String)
    requires
        pattern@ == datetime_pattern(),
    ensures
        text@ == datetime_text(*datetime),
{
    datetime.format(pattern).to_string()
}

/// Renders an optional date as year, month and day, or as `null` where it is
/// absent.
pub fn fmt_naive_date(v: &Option<NaiveDate>) -> (text: String)
    ensures
        text@ == match v {
            Some(date) => date_text(*date),
            None => null_text(),
        },
{
    let rendered = match v {
        Some(date) => Some(format_date(date, "%Y-%m-%d")),
        None => None,
    };
    text_or(rendered, "null")
}

/// Renders an optional date and time to the second, or as `null` where it is
/// absent.
pub fn fmt_naive_datetime(v: &Option<NaiveDateTime>) -> (text: String)
    ensures
        text@ == match v {
            Some(datetime) => datetime_text(*datetime),
            None => null_text(),
        },
{
    let rendered = match v {
        Some(datetime) => Some(format_datetime(datetime, "%Y-%m-%d %H:%M:%S")),
        None => None,
    };
    text_or(rendered, "null")
}

} // verus!
