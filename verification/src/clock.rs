//! Readings of the clock.

use std::time::{Duration, SystemTime, UNIX_EPOCH};

use chrono::Local;
use vstd::prelude::*;

verus! {

/// How the log writes a local time: date and time of day.
pub const TIMESTAMP_FORMAT: &'static str = "%Y-%m-%d %H:%M:%S";

/// `std::time::SystemTime`, a reading of the system clock.
#[verifier::external_type_specification]
#[verifier::external_body]
pub struct ExSystemTime(SystemTime);

/// The span between the epoch and a reading; none for a reading before the epoch.
pub uninterp spec fn span_since_epoch(reading: SystemTime) -> Option<Duration>;

/// The whole milliseconds of a span.
pub uninterp spec fn span_millis(span: Duration) -> u128;

/// `SystemTime::now`: the clock decides, and nothing is claimed of what it says.
#[verifier::external_body]
fn read_clock() -> (reading: SystemTime) {
    SystemTime::now()
}

/// `SystemTime::duration_since` the epoch, a function of the reading; none where the reading is
/// earlier.
#[verifier::external_body]
fn since_epoch(reading: SystemTime) -> (span: Option<Duration>)
    ensures
        span == span_since_epoch(reading),
{
    reading.duration_since(UNIX_EPOCH).ok()
}

/// `Duration::as_secs`: the whole seconds of the span, of which each has a thousand milliseconds.
#[verifier::external_body]
fn whole_seconds(span: Duration) -> (seconds: u64)
    ensures
        seconds == span_millis(span) / 1000,
{
    span.as_secs()
}

/// `Duration::as_millis`: the whole milliseconds of the span, a function of it.
#[verifier::external_body]
fn whole_millis(span: Duration) -> (millis: u128)
    ensures
        millis == span_millis(span),
{
    span.as_millis()
}

/// `chrono::Local::now`, formatted.
///
/// The clock and the time zone decide, and nothing is claimed of the text. A format that `chrono`
/// does not know makes it panic, which the precondition rules out; so does a clock that stands
/// before the epoch, which no argument can rule out.
#[verifier::external_body]
fn local_timestamp(format: &str) -> (text: String)
    requires
        format@ == TIMESTAMP_FORMAT@,
{
    Local::now().format(format).to_string()
}

/// `n` reduced to 64 bits, read as a two's complement number.
pub open spec fn as_signed(n: int) -> int {
    let low = n % 0x1_0000_0000_0000_0000;
    if low < 0x8000_0000_0000_0000 {
        low
    } else {
        low - 0x1_0000_0000_0000_0000
    }
}

/// The seconds since the epoch at a reading of the clock; zero before the epoch.
pub open spec fn seconds_at(reading: SystemTime) -> int {
    match span_since_epoch(reading) {
        Some(span) => as_signed(span_millis(span) as int / 1000),
        None => 0,
    }
}

/// The milliseconds since the epoch at a reading of the clock; zero before the epoch.
pub open spec fn millis_at(reading: SystemTime) -> int {
    match span_since_epoch(reading) {
        Some(span) => as_signed(span_millis(span) as int),
        None => 0,
    }
}

/// At any reading whose milliseconds can be told, neither count is negative and the seconds are
/// the whole thousands of the milliseconds.
pub proof fn law_seconds_and_milliseconds_agree(reading: SystemTime)
    requires
        span_since_epoch(reading) matches Some(span) ==> span_millis(span) <= i64::MAX,
    ensures
        0 <= millis_at(reading),
        seconds_at(reading) == millis_at(reading) / 1000,
        span_since_epoch(reading) matches Some(span) ==> millis_at(reading) == span_millis(span),
        span_since_epoch(reading) is None ==> millis_at(reading) == 0,
{
}

/// A count in the 64 bits of a signed number.
pub fn signed_count(n: u128) -> (r: i64)
    ensures
        r == as_signed(n as int),
{
    let low: u128 = n % 0x1_0000_0000_0000_0000u128;
    if low < 0x8000_0000_0000_0000u128 {
        low as i64
    } else {
        (low as i128 - 0x1_0000_0000_0000_0000i128) as i64
    }
}

/// The seconds since the epoch at a reading of the clock.
fn count_seconds(reading: SystemTime) -> (r: i64)
    ensures
        r == seconds_at(reading),
{
    match since_epoch(reading) {
        Some(span) => signed_count(whole_seconds(span) as u128),
        None => 0,
    }
}

/// The milliseconds since the epoch at a reading of the clock.
fn count_millis(reading: SystemTime) -> (r: i64)
    ensures
        r == millis_at(reading),
{
    match since_epoch(reading) {
        Some(span) => signed_count(whole_millis(span)),
        None => 0,
    }
}

/// The seconds since the epoch, as the clock has them now.
pub fn unix_now() -> (r: i64)
    ensures
        exists|reading: SystemTime| r == #[trigger] seconds_at(reading),
{
    count_seconds(read_clock())
}

/// The milliseconds since the epoch, as the clock has them now.
pub fn unix_now_ms() -> (r: i64)
    ensures
        exists|reading: SystemTime| r == #[trigger] millis_at(reading),
{
    count_millis(read_clock())
}

/// The moment at which something happens.
pub struct Moment {
    /// The local date and time of day.
    pub timestamp: String,
    /// The seconds since the epoch.
    pub unix_seconds: i64,
    /// The milliseconds since the epoch.
    pub unix_millis: i64,
}

/// The model of [`Moment`].
pub struct MomentModel {
    pub timestamp: Seq<char>,
    pub unix_seconds: i64,
    pub unix_millis: i64,
}

impl View for Moment {
    type V = MomentModel;

    open spec fn view(&self) -> MomentModel {
        MomentModel {
            timestamp: self.timestamp@,
            unix_seconds: self.unix_seconds,
            unix_millis: self.unix_millis,
        }
    }
}

impl Moment {
    /// The present moment, as the clock has it.
    pub fn now() -> (r: Moment)
        ensures
            exists|reading: SystemTime|
                r@.unix_seconds == #[trigger] seconds_at(reading) && r@.unix_millis == millis_at(
                    reading,
                ),
    {
        let reading = read_clock();
        Moment {
            timestamp: local_timestamp(TIMESTAMP_FORMAT),
            unix_seconds: count_seconds(reading),
            unix_millis: count_millis(reading),
        }
    }
}

/// A count that fits is itself, and any other is brought into range by whole turns of 64 bits.
pub proof fn law_counts_wrap_around(n: int)
    requires
        0 <= n,
    ensures
        i64::MIN <= as_signed(n) <= i64::MAX,
        (n - as_signed(n)) % 0x1_0000_0000_0000_0000 == 0,
        n <= i64::MAX ==> as_signed(n) == n,
{
}

/// The model of a moment holds what each field holds, under its name.
pub proof fn law_the_model_of_a_moment_is_faithful(moment: Moment)
    ensures
        moment@.timestamp == moment.timestamp@,
        moment@.unix_seconds == moment.unix_seconds,
        moment@.unix_millis == moment.unix_millis,
{
}

} // verus!
