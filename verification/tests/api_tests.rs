use office_hours::api;
use office_hours::calendar::{checked_window_end, month_window, NANOS_PER_DAY};
use office_hours::ids::{generate_instance_id, generate_uuid};
use office_hours::storage::{
    get_instance, get_notification, get_series, get_user, insert_notification, insert_series,
    insert_user, Store,
};
use office_hours::types::{
    ApiError, CreateEventInput, CreateSeriesInput, ErrorKind, EventSeries, EventStatus,
    Frequency, GlobalSettings, NotificationJob, NotificationSettings, NotificationStatus,
    NotificationType, OOOBlock, Principal, Role, UpdateSeriesInput, User, UserStatus, Weekday,
    WeekdayOrdinal,
};

const T0: u64 = 1_704_240_000_000_000_000;

const HOUR: u64 = 3_600_000_000_000;

const SERIES: [u8; 16] = [1, 2, 3, 4, 5, 6, 7, 8, 9, 10, 11, 12, 13, 14, 15, 16];

const ADMIN: u8 = 7;

const MEMBER: u8 = 3;

fn person(tag: u8) -> Principal {
    let mut bytes = [0u8; 29];
    bytes[0] = tag;
    Principal { len: 1, bytes }
}

fn user(tag: u8, role: Role) -> User {
    User {
        principal: person(tag),
        name: format!("user {}", tag),
        email: format!("user{}@example.org", tag),
        role,
        status: UserStatus::Active,
        out_of_office: vec![],
        notification_settings: NotificationSettings::default(),
        last_active: 0,
        sessions_hosted_count: 0,
        created_at: 0,
        updated_at: 0,
    }
}

fn wednesday_rule() -> EventSeries {
    EventSeries {
        series_id: SERIES,
        title: String::from("Office hours"),
        notes: String::from("Bring questions"),
        link: None,
        frequency: Frequency::Weekly,
        weekday: Weekday::Wed,
        weekday_ordinal: None,
        start_date: T0,
        end_date: None,
        default_duration_minutes: 60,
        color: None,
        paused: false,
        created_at: 5,
        created_by: person(ADMIN),
    }
}

fn store() -> Store {
    let mut s = Store::new();
    insert_user(&mut s, user(ADMIN, Role::Admin));
    insert_user(&mut s, user(MEMBER, Role::User));
    insert_series(&mut s, wednesday_rule());
    s
}

fn series_input(frequency: Frequency, ordinal: Option<WeekdayOrdinal>) -> CreateSeriesInput {
    CreateSeriesInput {
        title: String::from("Planning"),
        notes: String::from("n"),
        link: None,
        frequency,
        weekday: Weekday::Tue,
        weekday_ordinal: ordinal,
        start_date: T0,
        end_date: None,
        default_duration_minutes: None,
        color: Some(String::from("red")),
    }
}

#[test]
fn identifiers_must_have_sixteen_bytes() {
    assert_eq!(api::parse_id(&SERIES.to_vec()), Ok(SERIES));
    assert_eq!(api::parse_id(&vec![1, 2, 3]).unwrap_err().kind(), ErrorKind::InvalidInput);
    assert_eq!(api::parse_id(&vec![0; 17]).unwrap_err().kind(), ErrorKind::InvalidInput);
    assert_eq!(api::parse_id(&vec![]).unwrap_err().kind(), ErrorKind::InvalidInput);
}

#[test]
fn own_settings_and_absences() {
    let mut s = store();
    let mut settings = NotificationSettings::default();
    settings.email_on_assigned = false;
    assert_eq!(api::update_notification_settings(&mut s, person(MEMBER), settings, 40), Ok(()));
    let blocks = vec![OOOBlock { start_utc: 1, end_utc: 2 }];
    assert_eq!(api::set_out_of_office(&mut s, person(MEMBER), blocks.clone(), 41), Ok(()));
    let u = get_user(&s, &person(MEMBER)).unwrap();
    assert_eq!(u.notification_settings, settings);
    assert_eq!(u.out_of_office, blocks);
    assert_eq!(u.updated_at, 41);
    assert_eq!(
        api::set_out_of_office(&mut s, person(99), vec![], 42),
        Err(ApiError::Unauthorized)
    );
    assert_eq!(
        api::update_notification_settings(&mut s, Principal::anonymous(), settings, 40),
        Err(ApiError::Unauthorized)
    );
}

#[test]
fn user_administration() {
    let mut s = store();
    assert_eq!(api::list_users(&s, person(MEMBER)), Err(ApiError::Unauthorized));
    assert_eq!(api::list_users(&s, person(ADMIN)).unwrap().len(), 2);
    let made = api::authorize_user(
        &mut s,
        person(ADMIN),
        person(20),
        String::from("New"),
        String::from("new@example.org"),
        Role::User,
        50,
    )
    .unwrap();
    assert_eq!(made.name, "New");
    assert_eq!(made.status, UserStatus::Active);
    assert_eq!((made.created_at, made.updated_at, made.last_active), (50, 50, 50));
    assert_eq!(get_user(&s, &person(20)), Some(made));
    let again = api::authorize_user(
        &mut s,
        person(ADMIN),
        person(20),
        String::from("New"),
        String::from("new@example.org"),
        Role::User,
        51,
    );
    assert_eq!(again.unwrap_err().kind(), ErrorKind::Conflict);
    let denied = api::authorize_user(
        &mut s,
        person(MEMBER),
        person(21),
        String::from("x"),
        String::from("y"),
        Role::Admin,
        51,
    );
    assert_eq!(denied, Err(ApiError::Unauthorized));
    assert_eq!(api::disable_user(&mut s, person(ADMIN), person(20), 60), Ok(()));
    let u = get_user(&s, &person(20)).unwrap();
    assert_eq!((u.status, u.updated_at), (UserStatus::Disabled, 60));
    assert_eq!(api::enable_user(&mut s, person(ADMIN), person(20), 61), Ok(()));
    assert_eq!(get_user(&s, &person(20)).unwrap().status, UserStatus::Active);
    assert_eq!(api::disable_user(&mut s, person(ADMIN), person(99), 60), Err(ApiError::NotFound));
    assert_eq!(
        api::enable_user(&mut s, person(MEMBER), person(20), 60),
        Err(ApiError::Unauthorized)
    );
    let changed = api::update_user(
        &mut s,
        person(ADMIN),
        person(20),
        String::from("Renamed"),
        String::from("r@example.org"),
        Role::Admin,
        70,
    )
    .unwrap();
    assert_eq!((changed.name.as_str(), changed.role, changed.updated_at), ("Renamed", Role::Admin, 70));
    assert_eq!(changed.created_at, 50);
    assert_eq!(get_user(&s, &person(20)), Some(changed));
    assert_eq!(
        api::delete_user(&mut s, person(ADMIN), person(ADMIN)).unwrap_err().kind(),
        ErrorKind::InvalidInput
    );
    assert_eq!(api::delete_user(&mut s, person(ADMIN), person(99)), Err(ApiError::NotFound));
    assert_eq!(api::delete_user(&mut s, person(ADMIN), person(20)), Ok(()));
    assert_eq!(get_user(&s, &person(20)), None);
}

#[test]
fn one_off_session_must_end_after_it_starts() {
    let mut s = store();
    let input = CreateEventInput {
        title: String::from("Workshop"),
        notes: String::from("n"),
        link: Some(String::from("l")),
        start_utc: T0,
        end_utc: T0 + HOUR,
        host_principal: Some(person(MEMBER)),
    };
    let mut empty = input.clone();
    empty.end_utc = T0;
    assert_eq!(
        api::create_one_off_event(&mut s, person(MEMBER), empty, 5, 1).unwrap_err().kind(),
        ErrorKind::InvalidInput
    );
    assert_eq!(
        api::create_one_off_event(&mut s, person(99), input.clone(), 5, 1),
        Err(ApiError::Unauthorized)
    );
    let made = api::create_one_off_event(&mut s, person(MEMBER), input, 5, 1).unwrap();
    assert_eq!(made.instance_id, generate_uuid(5, 1));
    assert_eq!(made.series_id, None);
    assert_eq!((made.start_utc, made.end_utc), (T0, T0 + HOUR));
    assert_eq!(made.host_principal, Some(person(MEMBER)));
    assert_eq!(made.status, EventStatus::Active);
    assert_eq!(made.color, None);
    assert_eq!(made.created_at, 5);
    assert_eq!(get_instance(&s, &made.instance_id), Some(made));
}

#[test]
fn monthly_rule_needs_an_ordinal() {
    let mut s = store();
    let r = api::create_event_series(
        &mut s,
        person(ADMIN),
        series_input(Frequency::Monthly, None),
        9,
        2,
    );
    assert_eq!(r.unwrap_err().kind(), ErrorKind::InvalidInput);
    let r = api::create_event_series(
        &mut s,
        person(MEMBER),
        series_input(Frequency::Weekly, None),
        9,
        2,
    );
    assert_eq!(r, Err(ApiError::Unauthorized));
    let made = api::create_event_series(
        &mut s,
        person(ADMIN),
        series_input(Frequency::Monthly, Some(WeekdayOrdinal::Last)),
        9,
        2,
    )
    .unwrap();
    assert_eq!(made.series_id, generate_uuid(9, 2));
    assert_eq!(made.default_duration_minutes, 60);
    assert_eq!(made.weekday_ordinal, Some(WeekdayOrdinal::Last));
    assert!(!made.paused);
    assert_eq!(made.created_by, person(ADMIN));
    assert_eq!(made.created_at, 9);
    assert_eq!(get_series(&s, &made.series_id), Some(made));
    let mut with_duration = series_input(Frequency::Weekly, None);
    with_duration.default_duration_minutes = Some(25);
    let made = api::create_event_series(&mut s, person(ADMIN), with_duration, 9, 3).unwrap();
    assert_eq!(made.default_duration_minutes, 25);
    assert_eq!(api::list_event_series(&s, person(ADMIN)).unwrap().len(), 3);
    assert_eq!(api::list_event_series(&s, person(MEMBER)), Err(ApiError::Unauthorized));
}

#[test]
fn rule_updates_change_only_what_they_name() {
    let mut s = store();
    let input = UpdateSeriesInput {
        title: Some(String::from("Renamed")),
        notes: None,
        end_date: Some(Some(T0 + 8 * NANOS_PER_DAY)),
        default_duration_minutes: None,
        color: Some(None),
        paused: Some(true),
    };
    let r = api::update_event_series(&mut s, person(ADMIN), SERIES.to_vec(), input.clone()).unwrap();
    let mut expected = wednesday_rule();
    expected.title = String::from("Renamed");
    expected.end_date = Some(T0 + 8 * NANOS_PER_DAY);
    expected.paused = true;
    assert_eq!(r, expected);
    assert_eq!(get_series(&s, &SERIES), Some(expected));
    let r = api::update_event_series(&mut s, person(ADMIN), vec![1, 2], input.clone());
    assert_eq!(r.unwrap_err().kind(), ErrorKind::InvalidInput);
    let r = api::update_event_series(&mut s, person(ADMIN), vec![9; 16], input.clone());
    assert_eq!(r, Err(ApiError::NotFound));
    let r = api::update_event_series(&mut s, person(MEMBER), SERIES.to_vec(), input);
    assert_eq!(r, Err(ApiError::Unauthorized));
}

#[test]
fn pause_toggles_and_delete_removes() {
    let mut s = store();
    assert!(api::toggle_series_pause(&mut s, person(ADMIN), SERIES.to_vec()).unwrap().paused);
    assert!(get_series(&s, &SERIES).unwrap().paused);
    assert!(!api::toggle_series_pause(&mut s, person(ADMIN), SERIES.to_vec()).unwrap().paused);
    assert_eq!(
        api::toggle_series_pause(&mut s, person(MEMBER), SERIES.to_vec()),
        Err(ApiError::Unauthorized)
    );
    assert_eq!(
        api::delete_event_series(&mut s, person(ADMIN), vec![0; 3]).unwrap_err().kind(),
        ErrorKind::InvalidInput
    );
    assert_eq!(api::delete_event_series(&mut s, person(ADMIN), vec![0; 16]), Err(ApiError::NotFound));
    assert_eq!(api::delete_event_series(&mut s, person(ADMIN), SERIES.to_vec()), Ok(()));
    assert_eq!(get_series(&s, &SERIES), None);
}

#[test]
fn settings_are_for_administrators_to_change() {
    let mut s = store();
    let mut new = GlobalSettings::default();
    new.claims_paused = true;
    assert_eq!(
        api::update_global_settings(&mut s, person(MEMBER), new.clone()),
        Err(ApiError::Unauthorized)
    );
    assert_eq!(api::update_global_settings(&mut s, person(ADMIN), new.clone()), Ok(()));
    assert_eq!(api::get_global_settings(&s, person(MEMBER)), Ok(new.clone()));
    assert_eq!(api::get_global_settings(&s, person(99)), Err(ApiError::Unauthorized));
    assert_eq!(api::get_org_settings(&s), new);
}

#[test]
fn assigning_through_the_interface() {
    let mut s = store();
    let id = generate_instance_id(&SERIES, T0).to_vec();
    let r = api::assign_host(
        &mut s,
        person(MEMBER),
        Some(SERIES.to_vec()),
        Some(T0),
        id.clone(),
        person(MEMBER),
        90,
    )
    .unwrap();
    assert_eq!(r.host_principal, Some(person(MEMBER)));
    assert_eq!(get_user(&s, &person(MEMBER)).unwrap().last_active, 90);
    assert_eq!(s.outbox.len(), 1);
    let r = api::assign_host(
        &mut s,
        person(MEMBER),
        Some(vec![1, 2, 3]),
        Some(T0),
        id.clone(),
        person(MEMBER),
        91,
    );
    assert_eq!(r.unwrap_err().kind(), ErrorKind::InvalidInput);
    assert_eq!(get_user(&s, &person(MEMBER)).unwrap().last_active, 90);
    let r = api::assign_host(&mut s, person(MEMBER), None, None, vec![], person(MEMBER), 91);
    assert_eq!(r.unwrap_err().kind(), ErrorKind::InvalidInput);
    let r = api::assign_host(
        &mut s,
        person(99),
        Some(SERIES.to_vec()),
        Some(T0),
        id.clone(),
        person(MEMBER),
        91,
    );
    assert_eq!(r, Err(ApiError::Unauthorized));
    let r = api::unassign_host(&mut s, person(MEMBER), Some(SERIES.to_vec()), Some(T0), id, 92)
        .unwrap();
    assert_eq!(r.host_principal, None);
    let r = api::unassign_host(&mut s, person(MEMBER), None, None, vec![1], 92);
    assert_eq!(r.unwrap_err().kind(), ErrorKind::InvalidInput);
}

#[test]
fn administrator_overrides_availability_and_member_does_not() {
    let mut s = store();
    let mut away = user(30, Role::User);
    away.out_of_office = vec![OOOBlock { start_utc: T0, end_utc: T0 + HOUR }];
    insert_user(&mut s, away);
    let r = api::assign_host(
        &mut s,
        person(MEMBER),
        Some(SERIES.to_vec()),
        Some(T0),
        vec![0; 16],
        person(30),
        90,
    );
    assert_eq!(r.unwrap_err().kind(), ErrorKind::Conflict);
    assert_eq!(get_user(&s, &person(MEMBER)).unwrap().last_active, 90);
    let r = api::assign_host(
        &mut s,
        person(ADMIN),
        Some(SERIES.to_vec()),
        Some(T0),
        vec![0; 16],
        person(30),
        91,
    );
    assert_eq!(r.unwrap().host_principal, Some(person(30)));
}

#[test]
fn public_calendar_shows_host_names() {
    let mut s = store();
    api::assign_host(
        &mut s,
        person(ADMIN),
        Some(SERIES.to_vec()),
        Some(T0),
        vec![0; 16],
        person(MEMBER),
        90,
    )
    .unwrap();
    let views = api::list_events_public(&s, T0, T0 + 14 * NANOS_PER_DAY);
    assert_eq!(views.len(), 2);
    assert_eq!(views[0].host_name, Some(String::from("user 3")));
    assert_eq!(views[0].instance_id, generate_instance_id(&SERIES, T0).to_vec());
    assert_eq!(views[0].title, "Office hours");
    assert_eq!((views[0].start_utc, views[0].end_utc), (T0, T0 + HOUR));
    assert_eq!(views[1].host_name, None);
    assert_eq!(api::list_events(&s, person(MEMBER), T0, T0 + 14 * NANOS_PER_DAY).unwrap().len(), 2);
    assert_eq!(
        api::list_events(&s, person(99), T0, T0 + 14 * NANOS_PER_DAY),
        Err(ApiError::Unauthorized)
    );
    s.settings.forward_window_months = 0;
    assert!(checked_window_end(T0, 0).is_some());
    let open = api::list_unclaimed_events(&s, person(MEMBER), T0).unwrap();
    assert_eq!(open.len(), 4);
    assert_eq!(api::list_unclaimed_events(&s, person(99), T0), Err(ApiError::Unauthorized));
}

#[test]
fn month_windows_going_back() {
    assert_eq!(
        month_window(T0, 0),
        Some((1_704_067_200_000_000_000, 1_706_745_600_000_000_000, 2024, 1))
    );
    assert_eq!(
        month_window(T0, 1),
        Some((1_701_388_800_000_000_000, 1_704_067_200_000_000_000, 2023, 12))
    );
    assert_eq!(month_window(5, 0), Some((0, 31 * NANOS_PER_DAY, 1970, 1)));
    assert_eq!(month_window(5, 1), None);
    assert_eq!(month_window(u64::MAX, 0), None);
    assert_eq!(checked_window_end(u64::MAX, 0), None);
    assert_eq!(checked_window_end(T0, 255).map(|e| e % NANOS_PER_DAY), Some(NANOS_PER_DAY - 1));
}

#[test]
fn coverage_history_is_oldest_first() {
    let mut s = store();
    api::assign_host(
        &mut s,
        person(ADMIN),
        Some(SERIES.to_vec()),
        Some(T0),
        vec![0; 16],
        person(MEMBER),
        90,
    )
    .unwrap();
    let now = T0 + 40 * NANOS_PER_DAY;
    let h = api::get_coverage_history(&s, person(ADMIN), 3, now).unwrap();
    let labels: Vec<&str> = h.iter().map(|c| c.period_label.as_str()).collect();
    assert_eq!(labels, vec!["2023-12", "2024-01", "2024-02"]);
    assert_eq!((h[0].total_sessions, h[0].assigned, h[0].coverage_pct), (0, 0, 0));
    assert_eq!((h[1].total_sessions, h[1].assigned, h[1].unassigned), (5, 1, 4));
    assert_eq!(h[1].coverage_pct, 20);
    assert_eq!((h[2].total_sessions, h[2].assigned), (4, 0));
    assert_eq!(api::get_coverage_history(&s, person(MEMBER), 3, now), Err(ApiError::Unauthorized));
    assert_eq!(api::get_coverage_history(&s, person(ADMIN), 0, now), Ok(vec![]));
    assert_eq!(api::get_coverage_history(&s, person(ADMIN), 5, 3).unwrap().len(), 1);
}

#[test]
fn jobs_are_marked_as_sent() {
    let mut s = store();
    let job = NotificationJob {
        job_id: [4; 16],
        created_at: 1,
        notification_type: NotificationType::HostAssigned,
        recipient_principal: person(MEMBER),
        recipient_email: String::from("m@example.org"),
        subject: String::from("s"),
        body_text: String::from("b"),
        ics_payload: None,
        status: NotificationStatus::Pending,
        sent_at: None,
        error_message: None,
    };
    insert_notification(&mut s, job.clone());
    assert_eq!(
        api::mark_notification_sent(&mut s, person(MEMBER), vec![4; 16], 9),
        Err(ApiError::Unauthorized)
    );
    assert_eq!(
        api::mark_notification_sent(&mut s, person(ADMIN), vec![4; 15], 9).unwrap_err().kind(),
        ErrorKind::InvalidInput
    );
    assert_eq!(
        api::mark_notification_sent(&mut s, person(ADMIN), vec![5; 16], 9),
        Err(ApiError::NotFound)
    );
    assert_eq!(api::mark_notification_sent(&mut s, person(ADMIN), vec![4; 16], 9), Ok(()));
    let stored = get_notification(&s, &[4; 16]).unwrap();
    assert_eq!(stored.status, NotificationStatus::Sent);
    assert_eq!(stored.sent_at, Some(9));
    assert_eq!(stored.subject, job.subject);
}

#[test]
fn calendar_file_of_a_stored_session() {
    let mut s = store();
    s.settings.forward_window_months = 1;
    let id = generate_instance_id(&SERIES, T0 + 7 * NANOS_PER_DAY);
    let text = String::from_utf8(api::get_event_ics(&s, person(MEMBER), id.to_vec(), T0).unwrap())
        .unwrap();
    assert!(text.contains("METHOD:REQUEST\n"));
    assert!(text.contains("DTSTAMP:20240103T000000Z\n"));
    assert!(text.contains("DTSTART:20240110T000000Z\n"));
    assert!(text.contains("DTEND:20240110T010000Z\n"));
    assert!(text.contains("SUMMARY:Office hours\n"));
    assert!(text.contains("STATUS:CONFIRMED\n"));
    assert_eq!(api::get_event_ics(&s, person(MEMBER), vec![0; 16], T0), Err(ApiError::NotFound));
    assert_eq!(
        api::get_event_ics(&s, person(MEMBER), vec![0; 2], T0).unwrap_err().kind(),
        ErrorKind::InvalidInput
    );
    assert_eq!(api::get_event_ics(&s, person(99), id.to_vec(), T0), Err(ApiError::Unauthorized));
}
