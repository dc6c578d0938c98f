use vstd::prelude::*;

verus! {

/// How publication dates are shown and stored: "Mon,  8 Jan 2024 03:04 PM UTC+0800".
pub const CUSTOM_TIME_FORMAT: &'static str = "%a, %e %b %Y %I:%M %p UTC%z";

/// What `jiff` makes of an RFC 2822 date-time shown with a strftime format: the text, or
/// `None` when the date-time does not parse.
pub uninterp spec fn rfc2822_reformatted(datetime: Seq<char>, format: Seq<char>) -> Option<Seq<char>>;

/// The second since the Unix epoch that `jiff` reads from a text in a strftime format, or
/// `None` when the text does not parse into a zoned date-time.
pub uninterp spec fn parsed_seconds(text: Seq<char>, format: Seq<char>) -> Option<i64>;

/// Whether `jiff` accepts a second since the Unix epoch as a timestamp
/// (`Timestamp::from_second`): from `-9999-01-01T00:00:00Z` to `9999-12-30T22:00:00Z`.
pub open spec fn representable_second(second: i64) -> bool {
    -377705023201 <= second <= 253402207200
}

/// A format that names no IANA time zone (`%Q`), so that reading it needs no time zone database.
pub open spec fn names_no_zone(format: Seq<char>) -> bool {
    !format.contains('Q')
}

/// Parses an RFC 2822 date-time with `jiff::fmt::rfc2822::parse` and shows it with
/// `Zoned::strftime`. The result depends on the two texts alone (RFC 2822 zones are fixed
/// offsets), so it is named.
#[verifier::external_body]
fn jiff_rfc2822_reformat(datetime: &str, format: &str) -> (r: Option<String>)
    ensures
        match r {
            Some(s) => rfc2822_reformatted(datetime@, format@) == Some(s@),
            None => rfc2822_reformatted(datetime@, format@) is None,
        },
{
    jiff::fmt::rfc2822::parse(datetime).ok().map(|z| z.strftime(format).to_string())
}

/// Reads a date-time with `jiff::fmt::strtime::parse` and `BrokenDownTime::to_zoned`, and
/// gives its second since the Unix epoch (`Timestamp::as_second`). A format that names an IANA
/// zone reads the machine's time zone database, so the result is named only for other formats.
/// What it returns is a second of a `jiff` timestamp, which `Timestamp::from_second` accepts.
#[verifier::external_body]
fn jiff_parse_seconds(text: &str, format: &str) -> (r: Option<i64>)
    ensures
        names_no_zone(format@) ==> r == parsed_seconds(text@, format@),
        r matches Some(n) ==> representable_second(n),
{
    let tm = jiff::fmt::strtime::parse(format, text).ok()?;
    tm.to_zoned().ok().map(|z| z.timestamp().as_second())
}

/// Whether `jiff` accepts a second since the Unix epoch as a timestamp.
pub fn is_representable_second(second: i64) -> (r: bool)
    ensures
        r == representable_second(second),
{
    -377705023201 <= second && second <= 253402207200
}

/// Whether a number of seconds is an offset from UTC that `jiff` accepts
/// (`Offset::from_seconds`): `-25:59:59..=25:59:59`.
pub open spec fn valid_offset(seconds: i32) -> bool {
    -93599 <= seconds <= 93599
}

/// What `jiff` shows, with a strftime format, of a second since the Unix epoch placed at a fixed
/// offset from UTC of `offset` seconds.
pub uninterp spec fn shown_at_offset(second: i64, offset: i32, format: Seq<char>) -> Seq<char>;

/// Gives the offset from UTC, in seconds, of the machine's time zone (`TimeZone::system`,
/// `TimeZone::to_offset`, `Offset::seconds`) at a second that `Timestamp::from_second`
/// accepts. The offset depends on the machine, so of it only what `Offset::seconds` documents
/// of every offset is stated: it lies within `-93,599..=93,599`.
#[verifier::external_body]
fn system_offset_at(second: i64) -> (r: Option<i32>)
    ensures
        representable_second(second) <==> r is Some,
        r matches Some(o) ==> valid_offset(o),
{
    let timestamp = jiff::Timestamp::from_second(second).ok()?;
    Some(jiff::tz::TimeZone::system().to_offset(timestamp).seconds())
}

/// Builds a timestamp with `jiff::Timestamp::from_second`, places it at a fixed offset
/// (`Offset::from_seconds`, `TimeZone::fixed`) and shows it with `Zoned::strftime`. The text
/// depends on the three arguments alone, so it is named; it is there exactly when `jiff`
/// accepts both the second and the offset.
#[verifier::external_body]
fn jiff_format_at_offset(second: i64, offset: i32, format: &str) -> (r: Option<String>)
    ensures
        (representable_second(second) && valid_offset(offset)) <==> r is Some,
        r matches Some(s) ==> s@ == shown_at_offset(second, offset, format@),
{
    let timestamp = jiff::Timestamp::from_second(second).ok()?;
    let offset = jiff::tz::Offset::from_seconds(offset).ok()?;
    Some(timestamp.to_zoned(jiff::tz::TimeZone::fixed(offset)).strftime(format).to_string())
}

/// Shows a second since the Unix epoch at a fixed offset from UTC, in the custom format; `None`
/// when the second or the offset is out of `jiff`'s range.
pub fn custom_time_at_offset(second: i64, offset: i32) -> (r: Option<String>)
    ensures
        (representable_second(second) && valid_offset(offset)) <==> r is Some,
        r matches Some(s) ==> s@ == shown_at_offset(second, offset, CUSTOM_TIME_FORMAT@),
{
    jiff_format_at_offset(second, offset, CUSTOM_TIME_FORMAT)
}

/// Shows a second since the Unix epoch in the machine's time zone, in the custom format: the
/// second as shown at the offset the machine's time zone has at that moment.
pub fn unix_to_custom_time(iso: i64) -> (r: String)
    requires
        representable_second(iso),
    ensures
        exists|offset: i32| valid_offset(offset) && r@ == shown_at_offset(iso, offset, CUSTOM_TIME_FORMAT@),
{
    let offset = system_offset_at(iso).unwrap();
    custom_time_at_offset(iso, offset).unwrap()
}

/// The second since the Unix epoch of a date-time in the custom format.
pub fn custom_time_to_unix(custom: &str) -> (r: i64)
    requires
        parsed_seconds(custom@, CUSTOM_TIME_FORMAT@) is Some,
    ensures
        Some(r) == parsed_seconds(custom@, CUSTOM_TIME_FORMAT@),
        representable_second(r),
{
    proof {
        reveal_strlit("%a, %e %b %Y %I:%M %p UTC%z");
    }
    jiff_parse_seconds(custom, CUSTOM_TIME_FORMAT).unwrap()
}

/// The second since the Unix epoch of a date-time in the custom format, or `None` when the text
/// is not such a date-time.
pub fn try_custom_time_to_unix(custom: &str) -> (r: Option<i64>)
    ensures
        r == parsed_seconds(custom@, CUSTOM_TIME_FORMAT@),
{
    proof {
        reveal_strlit("%a, %e %b %Y %I:%M %p UTC%z");
    }
    match jiff_parse_seconds(custom, CUSTOM_TIME_FORMAT) {
        Some(_) => Some(custom_time_to_unix(custom)),
        None => None,
    }
}

/// An RFC 2822 date-time (as RSS feeds give them) shown in the custom format.
pub fn rfc2822_to_custom(datetime: String) -> (r: String)
    requires
        rfc2822_reformatted(datetime@, CUSTOM_TIME_FORMAT@) is Some,
    ensures
        Some(r@) == rfc2822_reformatted(datetime@, CUSTOM_TIME_FORMAT@),
{
    jiff_rfc2822_reformat(datetime.as_str(), CUSTOM_TIME_FORMAT).unwrap()
}

/// An RFC 2822 date-time shown in the custom format, or `None` when it does not parse.
pub fn try_rfc2822_to_custom(datetime: &String) -> (r: Option<String>)
    ensures
        match r {
            Some(s) => rfc2822_reformatted(datetime@, CUSTOM_TIME_FORMAT@) == Some(s@),
            None => rfc2822_reformatted(datetime@, CUSTOM_TIME_FORMAT@) is None,
        },
{
    match jiff_rfc2822_reformat(datetime.as_str(), CUSTOM_TIME_FORMAT) {
        Some(_) => Some(rfc2822_to_custom(datetime.clone())),
        None => None,
    }
}

} // verus!
