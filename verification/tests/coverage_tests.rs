use office_hours::auth::{can_be_assigned_host, is_admin};
use office_hours::calendar::NANOS_PER_DAY;
use office_hours::coverage::{assign_host, get_event_instance, get_event_timing, unassign_host};
use office_hours::ids::generate_instance_id;
use office_hours::materialize::materialize_events;
use office_hours::storage::{
    get_instance, get_override, insert_instance, insert_override, insert_series, insert_user, Store,
};
use office_hours::types::{
    ErrorKind, EventInstance, EventSeries, EventStatus, Frequency, InstanceOverride,
    NotificationSettings, NotificationType, OOOBlock, OverrideKey, Principal, Role, User,
    UserStatus, Weekday,
};

const T0: u64 = 1_704_240_000_000_000_000;

const HOUR: u64 = 3_600_000_000_000;

const SERIES: [u8; 16] = [1, 2, 3, 4, 5, 6, 7, 8, 9, 10, 11, 12, 13, 14, 15, 16];

const ADMIN: u8 = 7;

const MEMBER: u8 = 3;

const HOST: u8 = 5;

fn person(tag: u8) -> Principal {
    let mut bytes = [0u8; 29];
    bytes[0] = tag;
    Principal { len: 1, bytes }
}

fn user(tag: u8, role: Role) -> User {
    User {
        principal: person(tag),
        name: format!("user {}", tag),
        email: format!("user{}@example.org", tag),
        role,
        status: UserStatus::Active,
        out_of_office: vec![],
        notification_settings: NotificationSettings::default(),
        last_active: 0,
        sessions_hosted_count: 0,
        created_at: 0,
        updated_at: 0,
    }
}

fn wednesday_rule() -> EventSeries {
    EventSeries {
        series_id: SERIES,
        title: String::from("Office hours"),
        notes: String::from("Bring questions"),
        link: None,
        frequency: Frequency::Weekly,
        weekday: Weekday::Wed,
        weekday_ordinal: None,
        start_date: T0,
        end_date: None,
        default_duration_minutes: 60,
        color: None,
        paused: false,
        created_at: 5,
        created_by: person(ADMIN),
    }
}

fn one_off(tag: u8, start: u64, end: u64) -> EventInstance {
    EventInstance {
        instance_id: [tag; 16],
        series_id: None,
        start_utc: start,
        end_utc: end,
        title: String::from("Workshop"),
        notes: String::new(),
        link: None,
        host_principal: None,
        status: EventStatus::Active,
        color: None,
        created_at: 1,
    }
}

fn store() -> Store {
    let mut s = Store::new();
    insert_user(&mut s, user(ADMIN, Role::Admin));
    insert_user(&mut s, user(MEMBER, Role::User));
    insert_user(&mut s, user(HOST, Role::User));
    insert_series(&mut s, wednesday_rule());
    insert_instance(&mut s, one_off(9, T0 + HOUR, T0 + 2 * HOUR));
    s
}

fn key(base: u64) -> OverrideKey {
    OverrideKey { series_id: SERIES, occurrence_start_utc: base }
}

#[test]
fn assign_to_an_occurrence_creates_the_exception() {
    let mut s = store();
    let id = generate_instance_id(&SERIES, T0);
    let r = assign_host(&mut s, Some(SERIES), Some(T0), id, person(HOST), person(MEMBER), false, 77)
        .unwrap();
    assert_eq!(r.host_principal, Some(person(HOST)));
    assert_eq!(r.start_utc, T0);
    assert_eq!(r.end_utc, T0 + HOUR);
    assert_eq!(r.instance_id, id);
    let exc = get_override(&s, &key(T0)).unwrap();
    assert_eq!(
        exc,
        InstanceOverride {
            series_id: SERIES,
            occurrence_start_utc: T0,
            start_utc: None,
            end_utc: None,
            notes: None,
            host_principal: Some(person(HOST)),
            host_cleared: false,
            cancelled: false,
            updated_at: 77,
            updated_by: person(MEMBER),
        }
    );
    let sessions = materialize_events(&s, T0, T0 + NANOS_PER_DAY);
    assert_eq!(sessions[0], r);
    assert_eq!(s.outbox.len(), 1);
    assert_eq!(s.outbox[0].kind, NotificationType::HostAssigned);
    assert_eq!(s.outbox[0].recipient, person(HOST));
    assert_eq!(s.outbox[0].recipient_email, "user5@example.org");
    assert_eq!(s.outbox[0].instance_id, id);
    assert_eq!((s.outbox[0].start_utc, s.outbox[0].end_utc), (T0, T0 + HOUR));
}

#[test]
fn assign_keeps_the_rest_of_an_exception() {
    let mut s = store();
    insert_override(
        &mut s,
        InstanceOverride {
            series_id: SERIES,
            occurrence_start_utc: T0,
            start_utc: Some(T0 + HOUR),
            end_utc: None,
            notes: Some(String::from("late")),
            host_principal: None,
            host_cleared: true,
            cancelled: false,
            updated_at: 1,
            updated_by: person(ADMIN),
        },
    );
    let r = assign_host(
        &mut s,
        Some(SERIES),
        Some(T0),
        [0; 16],
        person(HOST),
        person(MEMBER),
        false,
        77,
    )
    .unwrap();
    assert_eq!(r.host_principal, Some(person(HOST)));
    assert_eq!(r.start_utc, T0 + HOUR);
    assert_eq!(r.end_utc, T0 + HOUR);
    assert_eq!(r.notes, "late");
    let exc = get_override(&s, &key(T0)).unwrap();
    assert_eq!(exc.start_utc, Some(T0 + HOUR));
    assert!(!exc.host_cleared);
    assert_eq!(exc.updated_at, 77);
    assert_eq!(s.overrides.len(), 1);
}

#[test]
fn assign_to_a_one_off_session_writes_the_session() {
    let mut s = store();
    let r = assign_host(&mut s, None, None, [9; 16], person(HOST), person(MEMBER), false, 77)
        .unwrap();
    assert_eq!(r.host_principal, Some(person(HOST)));
    assert_eq!(get_instance(&s, &[9; 16]).unwrap(), r);
    assert_eq!(s.overrides.len(), 0);
}

#[test]
fn disabled_host_is_a_conflict_unless_overridden() {
    let mut s = store();
    let mut h = user(HOST, Role::User);
    h.status = UserStatus::Disabled;
    insert_user(&mut s, h);
    let r = assign_host(
        &mut s,
        Some(SERIES),
        Some(T0),
        [0; 16],
        person(HOST),
        person(ADMIN),
        false,
        77,
    );
    assert_eq!(r.unwrap_err().kind(), ErrorKind::Conflict);
    assert_eq!(s.overrides.len(), 0);
    assert_eq!(s.outbox.len(), 0);
    let r = assign_host(
        &mut s,
        Some(SERIES),
        Some(T0),
        [0; 16],
        person(HOST),
        person(ADMIN),
        true,
        77,
    );
    assert_eq!(r.unwrap().host_principal, Some(person(HOST)));
}

#[test]
fn out_of_office_for_exactly_the_session_is_a_conflict() {
    let mut s = store();
    let mut h = user(HOST, Role::User);
    h.out_of_office = vec![OOOBlock { start_utc: T0, end_utc: T0 + HOUR }];
    insert_user(&mut s, h);
    let r = assign_host(
        &mut s,
        Some(SERIES),
        Some(T0),
        [0; 16],
        person(HOST),
        person(MEMBER),
        false,
        77,
    );
    assert_eq!(r.unwrap_err().kind(), ErrorKind::Conflict);
    let r = assign_host(
        &mut s,
        Some(SERIES),
        Some(T0),
        [0; 16],
        person(HOST),
        person(MEMBER),
        true,
        77,
    );
    assert!(r.is_ok());
}

#[test]
fn session_that_ends_when_the_absence_begins_can_be_assigned() {
    let mut s = store();
    let mut h = user(HOST, Role::User);
    h.out_of_office = vec![OOOBlock { start_utc: T0 + HOUR, end_utc: T0 + 5 * HOUR }];
    insert_user(&mut s, h);
    let r = assign_host(
        &mut s,
        Some(SERIES),
        Some(T0),
        [0; 16],
        person(HOST),
        person(MEMBER),
        false,
        77,
    );
    assert_eq!(r.unwrap().host_principal, Some(person(HOST)));
    let r = assign_host(&mut s, None, None, [9; 16], person(HOST), person(MEMBER), false, 77);
    assert_eq!(r.unwrap_err().kind(), ErrorKind::Conflict);
}

#[test]
fn availability_is_half_open() {
    let mut h = user(HOST, Role::User);
    h.out_of_office = vec![OOOBlock { start_utc: 100, end_utc: 200 }];
    assert!(!can_be_assigned_host(&h, 100, 200));
    assert!(!can_be_assigned_host(&h, 199, 300));
    assert!(!can_be_assigned_host(&h, 0, 101));
    assert!(!can_be_assigned_host(&h, 120, 130));
    assert!(can_be_assigned_host(&h, 0, 100));
    assert!(can_be_assigned_host(&h, 200, 300));
    h.status = UserStatus::Disabled;
    assert!(!can_be_assigned_host(&h, 200, 300));
}

#[test]
fn paused_claims_stop_everyone_but_an_administrator() {
    let mut s = store();
    s.settings.claims_paused = true;
    let r = assign_host(
        &mut s,
        Some(SERIES),
        Some(T0),
        [0; 16],
        person(HOST),
        person(MEMBER),
        true,
        77,
    );
    assert_eq!(r.unwrap_err().kind(), ErrorKind::Conflict);
    let r = unassign_host(&mut s, Some(SERIES), Some(T0), [0; 16], person(MEMBER), 77);
    assert_eq!(r.unwrap_err().kind(), ErrorKind::Conflict);
    assert_eq!(s.overrides.len(), 0);
    let r = assign_host(
        &mut s,
        Some(SERIES),
        Some(T0),
        [0; 16],
        person(HOST),
        person(ADMIN),
        false,
        77,
    );
    assert_eq!(r.unwrap().host_principal, Some(person(HOST)));
    let r = unassign_host(&mut s, Some(SERIES), Some(T0), [0; 16], person(ADMIN), 78);
    assert_eq!(r.unwrap().host_principal, None);
}

#[test]
fn disabled_administrator_is_no_administrator() {
    let mut s = store();
    let mut a = user(ADMIN, Role::Admin);
    a.status = UserStatus::Disabled;
    insert_user(&mut s, a);
    assert!(!is_admin(&s, &person(ADMIN)));
    assert!(!is_admin(&s, &person(MEMBER)));
    assert!(!is_admin(&s, &person(99)));
    insert_user(&mut s, user(ADMIN, Role::Admin));
    assert!(is_admin(&s, &person(ADMIN)));
}

#[test]
fn unassign_marks_the_exception_as_cleared() {
    let mut s = store();
    assign_host(&mut s, Some(SERIES), Some(T0), [0; 16], person(HOST), person(MEMBER), false, 77)
        .unwrap();
    let r = unassign_host(&mut s, Some(SERIES), Some(T0), [4; 16], person(MEMBER), 88).unwrap();
    assert_eq!(r.host_principal, None);
    let exc = get_override(&s, &key(T0)).unwrap();
    assert_eq!(exc.host_principal, None);
    assert!(exc.host_cleared);
    assert_eq!(exc.updated_at, 88);
    assert_eq!(s.outbox.len(), 2);
    assert_eq!(s.outbox[1].kind, NotificationType::HostRemoved);
    assert_eq!(s.outbox[1].recipient, person(HOST));
    assert_eq!(s.outbox[1].instance_id, [4; 16]);
    let sessions = materialize_events(&s, T0, T0 + NANOS_PER_DAY);
    assert_eq!(sessions[0].host_principal, None);
}

#[test]
fn unassign_without_a_host_tells_nobody() {
    let mut s = store();
    let r = unassign_host(&mut s, Some(SERIES), Some(T0), [0; 16], person(MEMBER), 88).unwrap();
    assert_eq!(r.host_principal, None);
    assert!(get_override(&s, &key(T0)).unwrap().host_cleared);
    assert_eq!(s.outbox.len(), 0);
    let r = unassign_host(&mut s, None, None, [9; 16], person(MEMBER), 88).unwrap();
    assert_eq!(r.host_principal, None);
}

#[test]
fn host_who_does_not_want_mail_is_not_told() {
    let mut s = store();
    let mut h = user(HOST, Role::User);
    h.notification_settings.email_on_assigned = false;
    insert_user(&mut s, h);
    assign_host(&mut s, Some(SERIES), Some(T0), [0; 16], person(HOST), person(MEMBER), false, 77)
        .unwrap();
    assert_eq!(s.outbox.len(), 0);
}

#[test]
fn missing_things_are_not_found() {
    let mut s = store();
    let r = assign_host(
        &mut s,
        Some(SERIES),
        Some(T0),
        [0; 16],
        person(99),
        person(MEMBER),
        false,
        77,
    );
    assert_eq!(r.unwrap_err().kind(), ErrorKind::NotFound);
    let r = assign_host(
        &mut s,
        Some([8; 16]),
        Some(T0),
        [0; 16],
        person(HOST),
        person(MEMBER),
        false,
        77,
    );
    assert_eq!(r.unwrap_err().kind(), ErrorKind::NotFound);
    let r = assign_host(&mut s, None, None, [8; 16], person(HOST), person(MEMBER), false, 77);
    assert_eq!(r.unwrap_err().kind(), ErrorKind::NotFound);
    let r = unassign_host(&mut s, None, Some(T0), [8; 16], person(MEMBER), 77);
    assert_eq!(r.unwrap_err().kind(), ErrorKind::NotFound);
}

#[test]
fn instant_without_an_occurrence_is_not_found() {
    let mut s = store();
    for base in [T0 + 1, T0 + NANOS_PER_DAY, T0 - 7 * NANOS_PER_DAY] {
        let r = assign_host(
            &mut s,
            Some(SERIES),
            Some(base),
            [0; 16],
            person(HOST),
            person(MEMBER),
            false,
            77,
        );
        assert_eq!(r.unwrap_err().kind(), ErrorKind::NotFound);
        let r = unassign_host(&mut s, Some(SERIES), Some(base), [0; 16], person(MEMBER), 77);
        assert_eq!(r.unwrap_err().kind(), ErrorKind::NotFound);
    }
    assert_eq!(s.overrides.len(), 0);
    let r = assign_host(
        &mut s,
        Some(SERIES),
        Some(T0 + 7 * NANOS_PER_DAY),
        [0; 16],
        person(HOST),
        person(MEMBER),
        false,
        77,
    );
    assert!(r.is_ok());
}

#[test]
fn rule_without_occurrence_is_invalid_input() {
    let mut s = store();
    let r =
        assign_host(&mut s, Some(SERIES), None, [0; 16], person(HOST), person(MEMBER), false, 77);
    assert_eq!(r.unwrap_err().kind(), ErrorKind::InvalidInput);
    let r = unassign_host(&mut s, Some(SERIES), None, [0; 16], person(MEMBER), 77);
    assert_eq!(r.unwrap_err().kind(), ErrorKind::InvalidInput);
    assert_eq!(
        get_event_timing(&s, Some(SERIES), None, &[0; 16]).unwrap_err().kind(),
        ErrorKind::InvalidInput
    );
}

#[test]
fn cancelled_sessions_are_not_found_and_stay_untouched() {
    let mut s = store();
    let mut exc = InstanceOverride {
        series_id: SERIES,
        occurrence_start_utc: T0,
        start_utc: None,
        end_utc: None,
        notes: None,
        host_principal: None,
        host_cleared: false,
        cancelled: true,
        updated_at: 1,
        updated_by: person(ADMIN),
    };
    insert_override(&mut s, exc.clone());
    let r = assign_host(
        &mut s,
        Some(SERIES),
        Some(T0),
        [0; 16],
        person(HOST),
        person(MEMBER),
        false,
        77,
    );
    assert_eq!(r.unwrap_err().kind(), ErrorKind::NotFound);
    assert_eq!(get_override(&s, &key(T0)).unwrap(), exc);
    exc.cancelled = false;
    let mut gone = one_off(6, T0, T0 + HOUR);
    gone.status = EventStatus::Cancelled;
    insert_instance(&mut s, gone);
    let r = assign_host(&mut s, None, None, [6; 16], person(HOST), person(MEMBER), false, 77);
    assert_eq!(r.unwrap_err().kind(), ErrorKind::NotFound);
    assert_eq!(
        get_event_instance(&s, None, None, &[6; 16]).unwrap_err().kind(),
        ErrorKind::NotFound
    );
}

#[test]
fn timing_follows_the_overlay() {
    let mut s = store();
    assert_eq!(get_event_timing(&s, Some(SERIES), Some(T0), &[0; 16]).unwrap(), (T0, T0 + HOUR));
    insert_override(
        &mut s,
        InstanceOverride {
            series_id: SERIES,
            occurrence_start_utc: T0,
            start_utc: Some(T0 + 2 * HOUR),
            end_utc: None,
            notes: None,
            host_principal: None,
            host_cleared: false,
            cancelled: false,
            updated_at: 1,
            updated_by: person(ADMIN),
        },
    );
    assert_eq!(
        get_event_timing(&s, Some(SERIES), Some(T0), &[0; 16]).unwrap(),
        (T0 + 2 * HOUR, T0 + HOUR)
    );
    assert_eq!(get_event_timing(&s, None, None, &[9; 16]).unwrap(), (T0 + HOUR, T0 + 2 * HOUR));
}
