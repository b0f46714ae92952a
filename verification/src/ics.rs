//! Calendar files: the iCalendar text of one session.

use vstd::prelude::*;
use vstd::string::StringSliceAdditionalSpecFns;
use vstd::utf8::encode_utf8;
use crate::calendar::{NANOS_PER_DAY, NANOS_PER_SECOND, date_of_day, nanos_to_ymd};
use crate::text::{
    decimal, escaped, four_digits, hex_bytes, hex_encode, push_decimal, push_escaped,
    push_four_digits, push_text, push_two_digits, two_digits,
};

verus! {

/// Seconds since midnight of the day an instant lies in.
pub open spec fn second_of_day(nanos: u64) -> int {
    (nanos as int % NANOS_PER_DAY as int) / NANOS_PER_SECOND as int
}

/// An instant in the form `YYYYMMDDTHHMMSSZ`.
pub open spec fn ics_datetime(nanos: u64) -> Seq<u8> {
    let date = date_of_day(nanos as int / NANOS_PER_DAY as int);
    let s = second_of_day(nanos);
    four_digits(date.0) + two_digits(date.1) + two_digits(date.2) + seq![84u8] + two_digits(
        s / 3600,
    ) + two_digits(s % 3600 / 60) + two_digits(s % 60) + seq![90u8]
}

/// Appends an instant in the form `YYYYMMDDTHHMMSSZ`.
pub fn push_ics_datetime(out: &mut Vec<u8>, nanos: u64)
    ensures
        final(out)@ == old(out)@ + ics_datetime(nanos),
{
    let (year, month, day) = nanos_to_ymd(nanos);
    let s: u64 = (nanos % NANOS_PER_DAY) / NANOS_PER_SECOND;
    push_four_digits(out, year as u64);
    push_two_digits(out, month as u64);
    push_two_digits(out, day as u64);
    out.push(84);
    push_two_digits(out, s / 3600);
    push_two_digits(out, s % 3600 / 60);
    push_two_digits(out, s % 60);
    out.push(90);
    assert(out@ =~= old(out)@ + ics_datetime(nanos));
}

/// An instant in the form `YYYYMMDDTHHMMSSZ`, 16 bytes long.
pub fn format_ics_datetime(nanos: u64) -> (out: Vec<u8>)
    ensures
        out@ == ics_datetime(nanos),
        out@.len() == 16,
{
    let mut out: Vec<u8> = Vec::new();
    push_ics_datetime(&mut out, nanos);
    assert(out@ =~= ics_datetime(nanos));
    out
}

/// The calendar file of one session: a calendar with one event, whose
/// identifier is the session's identifier in hexadecimal digits followed
/// by `@ohscheduler.icp`. Commas, semicolons and backslashes in title and
/// notes are escaped, line feeds in the notes too.
pub open spec fn ics_text(
    instance_id: [u8; 16],
    title: Seq<char>,
    notes: Seq<char>,
    start_utc: u64,
    end_utc: u64,
    method: Seq<char>,
    sequence: u32,
    cancelled: bool,
    now: u64,
) -> Seq<u8> {
    "BEGIN:VCALENDAR\nVERSION:2.0\nPRODID:-//OHScheduler//ICP//EN\nMETHOD:".spec_bytes()
        + encode_utf8(method) + "\nBEGIN:VEVENT\nUID:".spec_bytes() + hex_bytes(instance_id@)
        + "@ohscheduler.icp\nSEQUENCE:".spec_bytes() + decimal(sequence as nat)
        + "\nDTSTAMP:".spec_bytes() + ics_datetime(now) + "\nDTSTART:".spec_bytes() + ics_datetime(
        start_utc,
    ) + "\nDTEND:".spec_bytes() + ics_datetime(end_utc) + "\nSUMMARY:".spec_bytes() + escaped(
        encode_utf8(title),
        false,
    ) + "\nDESCRIPTION:".spec_bytes() + escaped(encode_utf8(notes), true)
        + "\nSTATUS:".spec_bytes() + (if cancelled {
        "CANCELLED".spec_bytes()
    } else {
        "CONFIRMED".spec_bytes()
    }) + "\nEND:VEVENT\nEND:VCALENDAR".spec_bytes()
}

/// The calendar file of one session, stamped with `now`. `method` is
/// `REQUEST` for a new or changed session and `CANCEL` for a cancelled
/// one.
pub fn generate_ics(
    instance_id: &[u8; 16],
    title: &str,
    notes: &str,
    start_utc: u64,
    end_utc: u64,
    method: &str,
    sequence: u32,
    cancelled: bool,
    now: u64,
) -> (out: Vec<u8>)
    ensures
        out@ == ics_text(
            *instance_id,
            title@,
            notes@,
            start_utc,
            end_utc,
            method@,
            sequence,
            cancelled,
            now,
        ),
{
    let mut out: Vec<u8> = Vec::new();
    push_text(&mut out, "BEGIN:VCALENDAR\nVERSION:2.0\nPRODID:-//OHScheduler//ICP//EN\nMETHOD:");
    assert(out@ =~= "BEGIN:VCALENDAR\nVERSION:2.0\nPRODID:-//OHScheduler//ICP//EN\nMETHOD:".spec_bytes());
    push_text(&mut out, method);
    push_text(&mut out, "\nBEGIN:VEVENT\nUID:");
    let uid: Vec<u8> = hex_encode(instance_id);
    crate::text::push_bytes(&mut out, uid.as_slice());
    push_text(&mut out, "@ohscheduler.icp\nSEQUENCE:");
    push_decimal(&mut out, sequence as u64);
    push_text(&mut out, "\nDTSTAMP:");
    push_ics_datetime(&mut out, now);
    push_text(&mut out, "\nDTSTART:");
    push_ics_datetime(&mut out, start_utc);
    push_text(&mut out, "\nDTEND:");
    push_ics_datetime(&mut out, end_utc);
    push_text(&mut out, "\nSUMMARY:");
    push_escaped(&mut out, title, false);
    push_text(&mut out, "\nDESCRIPTION:");
    push_escaped(&mut out, notes, true);
    push_text(&mut out, "\nSTATUS:");
    if cancelled {
        push_text(&mut out, "CANCELLED");
    } else {
        push_text(&mut out, "CONFIRMED");
    }
    push_text(&mut out, "\nEND:VEVENT\nEND:VCALENDAR");
    out
}

} // verus!
