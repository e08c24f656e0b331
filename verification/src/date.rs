//! Dates as the archives write them, and the instants they name.
//!
//! A date is a run of seven numeric fields: year, month, day, hour, minute,
//! second and milliseconds. Each field is closed by one character that is not
//! a digit, whatever it is, and one more such character must follow the last
//! field. `2023-07-20 13:00:26.088 UTC` is a date, and so is
//! `2023-07-20 13:00 UTC`, in which the last two fields are empty. An empty
//! field stands for zero.

use vstd::prelude::*;
use crate::error::MalformedEvent;
use crate::text::{chars_of, number};

verus! {

/// `0` to `9`.
pub open spec fn is_decimal_digit(c: char) -> bool {
    '0' <= c && c <= '9'
}

/// Where the run of digits that starts at `from` ends.
pub open spec fn digits_end(text: Seq<char>, from: int) -> int
    decreases text.len() - from,
{
    if 0 <= from < text.len() && is_decimal_digit(text[from]) {
        digits_end(text, from + 1)
    } else {
        from
    }
}

/// Where field `k` starts: after the character that closes the field
/// before it.
pub open spec fn field_start(text: Seq<char>, k: int) -> int
    decreases k + 1,
{
    if k <= 0 {
        0
    } else {
        digits_end(text, field_start(text, k - 1)) + 1
    }
}

/// Where the digits of field `k` end.
pub open spec fn field_end(text: Seq<char>, k: int) -> int {
    digits_end(text, field_start(text, k))
}

/// The most digits that field `k` may have: four for the year, three for
/// the others.
pub open spec fn field_limit(k: int) -> int {
    if k == 0 {
        4
    } else {
        3
    }
}

/// The text is a date: each of the seven fields is short enough and closed
/// inside the text, and a character that is not a digit follows the last.
pub open spec fn date_shaped(text: Seq<char>) -> bool {
    &&& forall|k: int|
        0 <= k < 7 ==> #[trigger] field_end(text, k) < text.len() && field_end(text, k)
            - field_start(text, k) <= field_limit(k)
    &&& field_start(text, 7) < text.len()
    &&& !is_decimal_digit(text[field_start(text, 7)])
}

/// The value of field `k`.
pub open spec fn date_field(text: Seq<char>, k: int) -> int {
    number(text.subrange(field_start(text, k), field_end(text, k)), 10)
}

/// The largest number that `digits` decimal digits can write, up to four.
pub open spec fn largest(digits: int) -> int {
    if digits <= 0 {
        0
    } else if digits == 1 {
        9
    } else if digits == 2 {
        99
    } else if digits == 3 {
        999
    } else {
        9999
    }
}

/// Splits a date into its seven fields.
pub fn read_date(text: &str) -> (r: Result<[u32; 7], MalformedEvent>)
    ensures
        r is Ok <==> date_shaped(text@),
        r is Ok ==> forall|k: int| 0 <= k < 7 ==> r->Ok_0@[k] == date_field(text@, k),
        r is Err ==> r->Err_0 == MalformedEvent::BadDate,
{
    let chars = chars_of(text);
    let ghost t = text@;
    let len = chars.len();
    let mut components = [0u32;7];
    let mut at: usize = 0;
    let mut k: usize = 0;
    while k < 7
        invariant
            k <= 7,
            t == chars@,
            t == text@,
            len == chars@.len(),
            at == field_start(t, k as int),
            at <= len,
            forall|j: int|
                0 <= j < k ==> #[trigger] field_end(t, j) < t.len() && field_end(t, j)
                    - field_start(t, j) <= field_limit(j),
            forall|j: int| 0 <= j < k ==> components@[j] == date_field(t, j),
        decreases 7 - k,
    {
        let start = at;
        let limit: usize = if k == 0 {
            4
        } else {
            3
        };
        let mut value: u32 = 0;
        while at < len && '0' <= chars[at] && chars[at] <= '9'
            invariant
                k < 7,
                start <= at <= len,
                t == chars@,
                t == text@,
                len == chars@.len(),
                limit == field_limit(k as int),
                start == field_start(t, k as int),
                digits_end(t, at as int) == field_end(t, k as int),
                at - start <= limit,
                value == number(t.subrange(start as int, at as int), 10),
                value <= largest(at - start),
            decreases len - at,
        {
            if at - start == limit {
                proof {
                    lemma_digits_end(t, at as int + 1);
                    assert(field_end(t, k as int) - field_start(t, k as int) > field_limit(
                        k as int,
                    ));
                }
                return Err(MalformedEvent::BadDate);
            }
            proof {
                let longer = t.subrange(start as int, at as int + 1);
                assert(longer.drop_last() =~= t.subrange(start as int, at as int));
            }
            value = value * 10 + (chars[at] as u32 - '0' as u32);
            at = at + 1;
        }
        if at >= len {
            return Err(MalformedEvent::BadDate);
        }
        components[k] = value;
        at = at + 1;
        k = k + 1;
    }
    if at < len && !('0' <= chars[at] && chars[at] <= '9') {
        Ok(components)
    } else {
        Err(MalformedEvent::BadDate)
    }
}

/// A run of digits ends at or after its start and inside the text.
pub proof fn lemma_digits_end(text: Seq<char>, from: int)
    requires
        0 <= from <= text.len(),
    ensures
        from <= digits_end(text, from) <= text.len(),
    decreases text.len() - from,
{
    if from < text.len() && is_decimal_digit(text[from]) {
        lemma_digits_end(text, from + 1);
    }
}

/// The milliseconds from the epoch to the start of the given second of the
/// proleptic Gregorian calendar in UTC, or `None` where the calendar has no
/// such second.
pub uninterp spec fn utc_epoch_millis(
    year: int,
    month: int,
    day: int,
    hour: int,
    minute: int,
    second: int,
) -> Option<i64>;

/// Asks chrono for the instant of a calendar second in UTC.
///
/// The body calls `TimeZone::with_ymd_and_hms` on `Utc`, takes the `earliest`
/// instant that the answer maps to, and reads its `timestamp_millis`. The
/// contract claims only that the answer depends on the six numbers alone. It
/// gives that answer the name [`utc_epoch_millis`] and says nothing of its
/// value.
#[verifier::external_body]
fn utc_millis(year: i32, month: u32, day: u32, hour: u32, minute: u32, second: u32) -> (r: Option<
    i64,
>)
    ensures
        r == utc_epoch_millis(
            year as int,
            month as int,
            day as int,
            hour as int,
            minute as int,
            second as int,
        ),
{
    match chrono::TimeZone::with_ymd_and_hms(&chrono::Utc, year, month, day, hour, minute, second)
        .earliest() {
        Some(moment) => Some(moment.timestamp_millis()),
        None => None,
    }
}

/// The instant `millis` milliseconds after `base`, where there is a base and
/// the sum fits.
pub open spec fn instant_after(base: Option<i64>, millis: int) -> Option<i64> {
    match base {
        Some(b) => if b + millis <= i64::MAX {
            Some((b + millis) as i64)
        } else {
            None
        },
        None => None,
    }
}

/// The instant that seven date fields name.
pub open spec fn instant_of(
    year: int,
    month: int,
    day: int,
    hour: int,
    minute: int,
    second: int,
    millis: int,
) -> Option<i64> {
    if year > i32::MAX {
        None
    } else {
        instant_after(utc_epoch_millis(year, month, day, hour, minute, second), millis)
    }
}

/// Adds the milliseconds of a date to the instant of its second.
pub fn timestamp_from_parts(base: Option<i64>, millis: u32) -> (r: Result<i64, MalformedEvent>)
    ensures
        r is Ok <==> instant_after(base, millis as int) is Some,
        r is Ok ==> Some(r->Ok_0) == instant_after(base, millis as int),
        r is Err ==> r->Err_0 == MalformedEvent::NoSuchInstant,
{
    match base {
        Some(b) => match b.checked_add(millis as i64) {
            Some(t) => Ok(t),
            None => Err(MalformedEvent::NoSuchInstant),
        },
        None => Err(MalformedEvent::NoSuchInstant),
    }
}

/// Turns seven date fields into milliseconds since the epoch.
pub fn date_components_to_timestamp(c: [u32; 7]) -> (r: Result<i64, MalformedEvent>)
    ensures
        r is Ok <==> instant_of(
            c@[0] as int,
            c@[1] as int,
            c@[2] as int,
            c@[3] as int,
            c@[4] as int,
            c@[5] as int,
            c@[6] as int,
        ) is Some,
        r is Ok ==> Some(r->Ok_0) == instant_of(
            c@[0] as int,
            c@[1] as int,
            c@[2] as int,
            c@[3] as int,
            c@[4] as int,
            c@[5] as int,
            c@[6] as int,
        ),
        r is Err ==> r->Err_0 == MalformedEvent::NoSuchInstant,
{
    if c[0] > 0x7fff_ffff {
        return Err(MalformedEvent::NoSuchInstant);
    }
    let base = utc_millis(c[0] as i32, c[1], c[2], c[3], c[4], c[5]);
    timestamp_from_parts(base, c[6])
}

/// The instant that a date names.
pub open spec fn timestamp_of(text: Seq<char>) -> Result<i64, MalformedEvent> {
    if !date_shaped(text) {
        Err(MalformedEvent::BadDate)
    } else {
        match instant_of(
            date_field(text, 0),
            date_field(text, 1),
            date_field(text, 2),
            date_field(text, 3),
            date_field(text, 4),
            date_field(text, 5),
            date_field(text, 6),
        ) {
            Some(t) => Ok(t),
            None => Err(MalformedEvent::NoSuchInstant),
        }
    }
}

/// Reads a date and turns it into milliseconds since the epoch.
pub fn date_to_timestamp(text: &str) -> (r: Result<i64, MalformedEvent>)
    ensures
        r == timestamp_of(text@),
{
    match read_date(text) {
        Ok(c) => date_components_to_timestamp(c),
        Err(e) => Err(e),
    }
}

} // verus!
