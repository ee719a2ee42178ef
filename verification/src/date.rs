//! The injected timestamp: a Unix timestamp (whole seconds plus
//! nanoseconds) turned into the ISO-8601-with-offset text that the
//! `date` line carries.

use vstd::prelude::*;

verus! {

/// Whether chrono can represent the given Unix timestamp as a UTC
/// date and time: the seconds must lie in its calendar range and the
/// nanoseconds must be a valid subsecond (leap seconds included).  A
/// function of the two values alone.
pub uninterp spec fn ts_representable(secs: int, nanos: int) -> bool;

/// The RFC 3339 rendering, with numeric UTC offset, of the given
/// Unix timestamp; nanoseconds render as fractional seconds.  The
/// bytes are a function of the two values alone.
pub uninterp spec fn iso_datetime_of(secs: int, nanos: int) -> Seq<u8>;

/// Relies on chrono's `DateTime::<Utc>::from_timestamp` and its `%+`
/// (RFC 3339) format: `from_timestamp` is a pure function of its two
/// arguments that returns `None` exactly when they leave its range,
/// and the formatting of a UTC value is locale-free, so both the
/// success of the call and the text depend on the timestamp alone.
#[verifier::external_body]
pub(crate) fn format_timestamp(secs: i64, nanos: u32) -> (r: Option<Vec<u8>>)
    ensures
        r is Some <==> ts_representable(secs as int, nanos as int),
        r matches Some(v) ==> v@ == iso_datetime_of(secs as int, nanos as int),
{
    chrono::DateTime::<chrono::Utc>::from_timestamp(secs, nanos).map(
        |d| format!("{}", d.format("%+")).into_bytes(),
    )
}

} // verus!
