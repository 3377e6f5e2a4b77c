//! File names that carry the UTC time of their making.

use vstd::prelude::*;
use vstd::string::StringExecFns;
use std::time::{Duration, SystemTime, SystemTimeError};
use crate::chars::ascii_digit;
use crate::detect::FileType;

verus! {

/// How a time stamp is laid out: year, month and day, then hour, minute and
/// second, each behind a hyphen.
pub const STAMP_PATTERN: &'static str = "%Y%m%d-%H-%M-%S";

/// The last second of the year 9999, in seconds since the epoch.
pub const LAST_FOUR_DIGIT_SECOND: i64 = 253_402_300_799;

/// What chrono writes for the UTC time `secs` seconds after the epoch when
/// given the layout `pattern`; `None` where it cannot represent that time.
pub uninterp spec fn utc_text(secs: i64, pattern: Seq<char>) -> Option<Seq<char>>;

/// Whether `s` reads `dddddddd-dd-dd-dd`, each `d` a decimal digit.
pub open spec fn stamp_shaped(s: Seq<char>) -> bool {
    &&& s.len() == 17
    &&& forall|i: int| 0 <= i < 17 && i != 8 && i != 11 && i != 14 ==> ascii_digit(#[trigger] s[i])
    &&& s[8] == '-'
    &&& s[11] == '-'
    &&& s[14] == '-'
}

/// `std::time::SystemTime`, a reading of the system clock; carried through
/// without a look inside.
#[verifier::external_type_specification]
#[verifier::external_body]
pub struct ExSystemTime(SystemTime);

/// `std::time::SystemTimeError`, the error of a reading that lies before
/// the instant it is measured from; carried through without a look inside.
#[verifier::external_type_specification]
#[verifier::external_body]
pub struct ExSystemTimeError(SystemTimeError);

/// `SystemTime::now` reads the system clock; nothing is known of the value.
pub assume_specification[ SystemTime::now ]() -> SystemTime;

/// `SystemTime::duration_since` gives the time elapsed since `earlier`, or
/// an error where `earlier` is the later of the two; nothing is claimed of
/// which it is.
pub assume_specification[ SystemTime::duration_since ](
    time: &SystemTime,
    earlier: SystemTime,
) -> Result<Duration, SystemTimeError>;

/// `Duration::as_secs` gives the whole seconds of the duration; nothing is
/// claimed of their number.
pub assume_specification[ Duration::as_secs ](duration: &Duration) -> u64;

/// Calls `chrono::DateTime::<Utc>::from_timestamp` on `secs` and no
/// nanoseconds, and `DateTime::format` with `pattern` on what it gives.
/// The text is a function of the two arguments, named `utc_text`; it is
/// `None` where `from_timestamp` gives no time. For the years 1970 to 9999
/// chrono's layout table gives the shape: a year of four digits, then
/// month, day, hour, minute and second of two digits each. The pattern is
/// held to the one layout, which chrono accepts: writing out a layout that
/// it cannot read would panic.
#[verifier::external_body]
fn utc_stamp(secs: i64, pattern: &str) -> (r: Option<String>)
    requires
        pattern@ == STAMP_PATTERN@,
    ensures
        match r {
            Some(text) => utc_text(secs, pattern@) == Some(text@),
            None => utc_text(secs, pattern@) is None,
        },
        0 <= secs <= LAST_FOUR_DIGIT_SECOND ==> r is Some && stamp_shaped(r->0@),
{
    match chrono::DateTime::<chrono::Utc>::from_timestamp(secs, 0) {
        Some(time) => Some(time.format(pattern).to_string()),
        None => None,
    }
}

/// Hands out `std::time::UNIX_EPOCH`, the instant from which the seconds
/// of a clock reading count. Nothing is claimed of it.
#[verifier::external_body]
fn unix_epoch() -> SystemTime {
    std::time::UNIX_EPOCH
}

/// The time stamp of the second `now`; that of the epoch where `now` is out
/// of the calendar's reach.
pub open spec fn stamp_at(now: i64) -> Seq<char> {
    match utc_text(now, STAMP_PATTERN@) {
        Some(text) => text,
        None => utc_text(0, STAMP_PATTERN@)->0,
    }
}

/// A file name: the stamp, a dot, the extension of the format.
pub open spec fn file_name(stamp: Seq<char>, file_type: FileType) -> Seq<char> {
    stamp + seq!['.'] + file_type.extension_text()
}

/// Whether `name` is a stamp of seventeen characters, a dot and the
/// extension of `file_type`.
pub open spec fn stamped_name(name: Seq<char>, file_type: FileType) -> bool {
    &&& name.len() == 21
    &&& stamp_shaped(name.take(17))
    &&& name.skip(17) == seq!['.'] + file_type.extension_text()
}

/// A well-shaped stamp makes a well-shaped name.
pub proof fn lemma_stamped_name(stamp: Seq<char>, file_type: FileType)
    requires
        stamp_shaped(stamp),
    ensures
        stamped_name(file_name(stamp, file_type), file_type),
{
    let name = file_name(stamp, file_type);
    assert(name.take(17) =~= stamp);
    assert(name.skip(17) =~= seq!['.'] + file_type.extension_text());
}

/// The seconds since the epoch that a clock reading stands for: none for a
/// clock that is behind the epoch, and those above `i64::MAX` wrapped round.
pub open spec fn timestamp_of(reading: Option<u64>) -> i64 {
    match reading {
        None => 0,
        Some(secs) => if secs <= i64::MAX {
            secs as i64
        } else {
            (secs - 0x1_0000_0000_0000_0000) as i64
        },
    }
}

/// The seconds since the epoch that a clock reading stands for.
pub fn timestamp_from(reading: Option<u64>) -> (now: i64)
    ensures
        now == timestamp_of(reading),
{
    match reading {
        None => 0,
        Some(secs) => if secs <= 0x7FFF_FFFF_FFFF_FFFF {
            secs as i64
        } else {
            let low: u64 = secs - 0x8000_0000_0000_0000;
            (low as i64) + i64::MIN
        },
    }
}

/// Reads the system clock: the whole seconds since the epoch, or `None`
/// where the clock is behind the epoch.
fn read_clock() -> (reading: Option<u64>) {
    let time = SystemTime::now();
    match time.duration_since(unix_epoch()) {
        Ok(elapsed) => Some(elapsed.as_secs()),
        Err(_) => None,
    }
}

/// The time stamp of the second `now`.
pub fn stamp_for(now: i64) -> (stamp: String)
    ensures
        stamp@ == stamp_at(now),
        0 <= now <= LAST_FOUR_DIGIT_SECOND ==> stamp_shaped(stamp@),
{
    match utc_stamp(now, STAMP_PATTERN) {
        Some(stamp) => stamp,
        None => {
            let epoch = utc_stamp(0, STAMP_PATTERN);
            epoch.unwrap()
        },
    }
}

/// Joins a stamp and the extension of `file_type` into a file name.
pub fn name_with(stamp: &str, file_type: &FileType) -> (name: String)
    ensures
        name@ == file_name(stamp@, *file_type),
{
    let mut name = String::from_str(stamp);
    proof {
        reveal_strlit(".");
    }
    name.append(".");
    name.append(file_type.extension());
    assert(name@ =~= file_name(stamp@, *file_type));
    name
}

/// The file name for a payload of the format `file_type` made at `now`.
pub fn generate_filename_at(now: i64, file_type: &FileType) -> (name: String)
    ensures
        name@ == file_name(stamp_at(now), *file_type),
        0 <= now <= LAST_FOUR_DIGIT_SECOND ==> stamped_name(name@, *file_type),
{
    let stamp = stamp_for(now);
    proof {
        if 0 <= now <= LAST_FOUR_DIGIT_SECOND {
            lemma_stamped_name(stamp@, *file_type);
        }
    }
    name_with(stamp.as_str(), file_type)
}

/// The file name for a payload of the format `file_type` made now, by the
/// system clock.
pub fn generate_filename(file_type: &FileType) -> (name: String)
    ensures
        exists|now: i64| name@ == file_name(stamp_at(now), *file_type),
{
    let now = timestamp_from(read_clock());
    generate_filename_at(now, file_type)
}

} // verus!
