//! The report of a window's sessions as comma-separated values.

use vstd::prelude::*;
use vstd::string::StringSliceAdditionalSpecFns;
use vstd::utf8::encode_utf8;
use crate::api::host_name_of;
use crate::auth::{admin_caller, require_admin};
use crate::calendar::{NANOS_PER_DAY, NANOS_PER_SECOND, date_of_day, nanos_to_ymd};
use crate::ics::second_of_day;
use crate::materialize::{materialize_events, materialized};
use crate::storage::{Store, user_position};
use crate::text::{
    decimal, four_digits, push_decimal, push_four_digits, push_text, push_two_digits, two_digits,
};
use crate::types::{ApiError, ApiResult, EventInstance, EventStatus, Principal, User};

verus! {

/// `s` with every double quote written twice.
pub open spec fn doubled_quotes(s: Seq<u8>) -> Seq<u8>
    decreases s.len(),
{
    if s.len() == 0 {
        Seq::empty()
    } else {
        doubled_quotes(s.drop_last()) + (if s.last() == 34 {
            seq![34u8, 34u8]
        } else {
            seq![s.last()]
        })
    }
}

/// A field is quoted where it holds a comma or a double quote.
pub open spec fn needs_quotes(s: Seq<u8>) -> bool {
    exists|i: int| 0 <= i < s.len() && (#[trigger] s[i] == 44 || s[i] == 34)
}

/// A field as it stands in a line: in double quotes, with its own double
/// quotes doubled, where it needs them.
pub open spec fn csv_field(s: Seq<u8>) -> Seq<u8> {
    if needs_quotes(s) {
        seq![34u8] + doubled_quotes(s) + seq![34u8]
    } else {
        s
    }
}

/// The day an instant lies in, as `YYYY-MM-DD`.
pub open spec fn csv_date(nanos: u64) -> Seq<u8> {
    let date = date_of_day(nanos as int / NANOS_PER_DAY as int);
    four_digits(date.0) + seq![45u8] + two_digits(date.1) + seq![45u8] + two_digits(date.2)
}

/// The time of day of an instant, as `HH:MM`.
pub open spec fn csv_time(nanos: u64) -> Seq<u8> {
    let s = second_of_day(nanos);
    two_digits(s / 3600) + seq![58u8] + two_digits(s % 3600 / 60)
}

/// Whole minutes from start to end, and 0 where the end is not later.
pub open spec fn duration_minutes(e: EventInstance) -> nat {
    let span: int = if e.end_utc >= e.start_utc {
        e.end_utc - e.start_utc
    } else {
        0
    };
    (span / NANOS_PER_SECOND as int / 60) as nat
}

/// The name of the host, or `Unassigned`.
pub open spec fn host_label(users: Seq<User>, host: Option<Principal>) -> Seq<u8> {
    match host_name_of(users, host) {
        Some(name) => encode_utf8(name@),
        None => "Unassigned".spec_bytes(),
    }
}

/// The line of one session: date, time, title, host, status, whether it
/// belongs to a rule, and its length in minutes.
pub open spec fn csv_row(e: EventInstance, users: Seq<User>) -> Seq<u8> {
    csv_date(e.start_utc) + seq![44u8] + csv_time(e.start_utc) + seq![44u8] + csv_field(
        encode_utf8(e.title@),
    ) + seq![44u8] + host_label(users, e.host_principal) + seq![44u8] + (if e.status
        == EventStatus::Active {
        "Active".spec_bytes()
    } else {
        "Cancelled".spec_bytes()
    }) + seq![44u8] + (if e.series_id is Some {
        "Yes".spec_bytes()
    } else {
        "No".spec_bytes()
    }) + seq![44u8] + decimal(duration_minutes(e)) + seq![10u8]
}

/// The header line and the lines of the first `n` sessions.
pub open spec fn csv_text(events: Seq<EventInstance>, users: Seq<User>, n: int) -> Seq<u8>
    decreases n,
{
    if n <= 0 {
        "Date,Time (UTC),Title,Host,Status,Series,Duration (min)\n".spec_bytes()
    } else {
        csv_text(events, users, n - 1) + csv_row(events[n - 1], users)
    }
}

fn has_comma_or_quote(bytes: &[u8]) -> (r: bool)
    ensures
        r == needs_quotes(bytes@),
{
    let mut i: usize = 0;
    while i < bytes.len()
        invariant
            0 <= i <= bytes@.len(),
            forall|j: int| 0 <= j < i ==> !(#[trigger] bytes@[j] == 44 || bytes@[j] == 34),
        decreases bytes@.len() - i,
    {
        if bytes[i] == 44 || bytes[i] == 34 {
            return true;
        }
        i += 1;
    }
    false
}

/// Appends a field, quoted where it holds a comma or a double quote.
pub fn push_csv_field(out: &mut Vec<u8>, text: &str)
    ensures
        final(out)@ == old(out)@ + csv_field(text.spec_bytes()),
{
    let bytes: &[u8] = text.as_bytes();
    if !has_comma_or_quote(bytes) {
        crate::text::push_bytes(out, bytes);
        return ;
    }
    out.push(34);
    let ghost opened = out@;
    let mut i: usize = 0;
    while i < bytes.len()
        invariant
            0 <= i <= bytes@.len(),
            out@ == opened + doubled_quotes(bytes@.subrange(0, i as int)),
        decreases bytes@.len() - i,
    {
        let b: u8 = bytes[i];
        let ghost before = out@;
        if b == 34 {
            out.push(34);
        }
        out.push(b);
        proof {
            let next = bytes@.subrange(0, i + 1);
            assert(next.drop_last() =~= bytes@.subrange(0, i as int));
            assert(next.last() == b);
            assert(out@ =~= opened + doubled_quotes(next));
        }
        i += 1;
    }
    assert(bytes@.subrange(0, bytes@.len() as int) =~= bytes@);
    out.push(34);
    assert(out@ =~= old(out)@ + csv_field(text.spec_bytes()));
}

fn push_csv_date(out: &mut Vec<u8>, nanos: u64)
    ensures
        final(out)@ == old(out)@ + csv_date(nanos),
{
    let (year, month, day) = nanos_to_ymd(nanos);
    push_four_digits(out, year as u64);
    out.push(45);
    push_two_digits(out, month as u64);
    out.push(45);
    push_two_digits(out, day as u64);
    assert(out@ =~= old(out)@ + csv_date(nanos));
}

fn push_csv_time(out: &mut Vec<u8>, nanos: u64)
    ensures
        final(out)@ == old(out)@ + csv_time(nanos),
{
    let s: u64 = (nanos % NANOS_PER_DAY) / NANOS_PER_SECOND;
    push_two_digits(out, s / 3600);
    out.push(58);
    push_two_digits(out, s % 3600 / 60);
    assert(out@ =~= old(out)@ + csv_time(nanos));
}

fn push_host_label(out: &mut Vec<u8>, users: &Vec<User>, host: Option<Principal>)
    ensures
        final(out)@ == old(out)@ + host_label(users@, host),
{
    match host {
        Some(p) => {
            let h: usize = user_position(users, &p);
            if h < users.len() {
                push_text(out, users[h].name.as_str());
            } else {
                push_text(out, "Unassigned");
            }
        },
        None => {
            push_text(out, "Unassigned");
        },
    }
}

fn push_csv_row(out: &mut Vec<u8>, e: &EventInstance, users: &Vec<User>)
    ensures
        final(out)@ == old(out)@ + csv_row(*e, users@),
{
    let ghost start = out@;
    push_csv_date(out, e.start_utc);
    out.push(44);
    let ghost row = csv_date(e.start_utc) + seq![44u8];
    assert(out@ =~= start + row);
    push_csv_time(out, e.start_utc);
    out.push(44);
    let ghost row = row + csv_time(e.start_utc) + seq![44u8];
    assert(out@ =~= start + row);
    push_csv_field(out, e.title.as_str());
    out.push(44);
    let ghost row = row + csv_field(encode_utf8(e.title@)) + seq![44u8];
    assert(out@ =~= start + row);
    push_host_label(out, users, e.host_principal);
    out.push(44);
    let ghost row = row + host_label(users@, e.host_principal) + seq![44u8];
    assert(out@ =~= start + row);
    if e.status == EventStatus::Active {
        push_text(out, "Active");
    } else {
        push_text(out, "Cancelled");
    }
    out.push(44);
    let ghost row = row + (if e.status == EventStatus::Active {
        "Active".spec_bytes()
    } else {
        "Cancelled".spec_bytes()
    }) + seq![44u8];
    assert(out@ =~= start + row);
    if e.series_id.is_some() {
        push_text(out, "Yes");
    } else {
        push_text(out, "No");
    }
    out.push(44);
    let ghost row = row + (if e.series_id is Some {
        "Yes".spec_bytes()
    } else {
        "No".spec_bytes()
    }) + seq![44u8];
    assert(out@ =~= start + row);
    let span: u64 = if e.end_utc >= e.start_utc {
        e.end_utc - e.start_utc
    } else {
        0
    };
    push_decimal(out, span / NANOS_PER_SECOND / 60);
    out.push(10);
    let ghost row = row + decimal(duration_minutes(*e)) + seq![10u8];
    assert(out@ =~= start + row);
    assert(row == csv_row(*e, users@));
}

/// The sessions of a window as comma-separated values, one line for each
/// under a header line, for an administrator.
pub fn export_events_csv(store: &Store, caller: Principal, window_start: u64, window_end: u64) -> (r:
    ApiResult<Vec<u8>>)
    ensures
        !admin_caller(store.users@, caller) ==> r == Err::<Vec<u8>, ApiError>(
            ApiError::Unauthorized,
        ),
        admin_caller(store.users@, caller) ==> r is Ok && r.unwrap()@ == csv_text(
            materialized(store, window_start, window_end),
            store.users@,
            materialized(store, window_start, window_end).len() as int,
        ),
{
    match require_admin(store, caller) {
        Err(e) => {
            return Err(e);
        },
        Ok(_) => {},
    }
    let events: Vec<EventInstance> = materialize_events(store, window_start, window_end);
    let mut out: Vec<u8> = Vec::new();
    push_text(&mut out, "Date,Time (UTC),Title,Host,Status,Series,Duration (min)\n");
    assert(out@ =~= csv_text(events@, store.users@, 0));
    let mut i: usize = 0;
    while i < events.len()
        invariant
            0 <= i <= events@.len(),
            out@ == csv_text(events@, store.users@, i as int),
        decreases events@.len() - i,
    {
        push_csv_row(&mut out, &events[i], &store.users);
        i += 1;
    }
    Ok(out)
}

} // verus!
