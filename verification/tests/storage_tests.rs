use office_hours::auth::{
    initialize_admin, require_admin, require_authenticated, require_authorized, touch_last_active,
};
use office_hours::notifications::{
    create_host_assigned_notification, create_host_removed_notification,
    create_instance_cancelled_notification, create_instance_time_changed_notification,
};
use office_hours::storage::{
    delete_instance, delete_series, delete_user, get_instance, get_notification, get_override,
    get_series, get_settings, get_user, insert_instance, insert_notification, insert_override,
    insert_series, insert_user, list_all_instances, list_all_series, list_all_users,
    list_overrides_for_series, list_pending_notifications, update_notification, update_settings,
    update_user, user_exists, Store,
};
use office_hours::types::{
    ApiError, EventInstance, EventSeries, EventStatus, Frequency, GlobalSettings,
    InstanceOverride, NotificationJob, NotificationSettings, NotificationStatus,
    NotificationType, OverrideKey, Principal, Role, User, UserStatus, Weekday,
};

fn person(tag: u8) -> Principal {
    let mut bytes = [0u8; 29];
    bytes[0] = tag;
    Principal { len: 1, bytes }
}

fn user(tag: u8, role: Role) -> User {
    User {
        principal: person(tag),
        name: format!("user {}", tag),
        email: format!("user{}@example.org", tag),
        role,
        status: UserStatus::Active,
        out_of_office: vec![],
        notification_settings: NotificationSettings::default(),
        last_active: 0,
        sessions_hosted_count: 0,
        created_at: 0,
        updated_at: 0,
    }
}

fn rule(tag: u8) -> EventSeries {
    EventSeries {
        series_id: [tag; 16],
        title: format!("rule {}", tag),
        notes: String::new(),
        link: None,
        frequency: Frequency::Weekly,
        weekday: Weekday::Mon,
        weekday_ordinal: None,
        start_date: 0,
        end_date: None,
        default_duration_minutes: 30,
        color: None,
        paused: false,
        created_at: 0,
        created_by: person(1),
    }
}

fn exception(tag: u8, base: u64) -> InstanceOverride {
    InstanceOverride {
        series_id: [tag; 16],
        occurrence_start_utc: base,
        start_utc: None,
        end_utc: None,
        notes: None,
        host_principal: None,
        host_cleared: false,
        cancelled: false,
        updated_at: 0,
        updated_by: person(1),
    }
}

fn session(tag: u8) -> EventInstance {
    EventInstance {
        instance_id: [tag; 16],
        series_id: None,
        start_utc: 10,
        end_utc: 20,
        title: format!("session {}", tag),
        notes: String::new(),
        link: None,
        host_principal: None,
        status: EventStatus::Active,
        color: None,
        created_at: 0,
    }
}

fn job(tag: u8, status: NotificationStatus) -> NotificationJob {
    NotificationJob {
        job_id: [tag; 16],
        created_at: 0,
        notification_type: NotificationType::HostAssigned,
        recipient_principal: person(1),
        recipient_email: String::from("a@example.org"),
        subject: String::from("subject"),
        body_text: String::from("body"),
        ics_payload: None,
        status,
        sent_at: None,
        error_message: None,
    }
}

#[test]
fn new_store_is_empty_with_default_settings() {
    let s = Store::new();
    assert_eq!(list_all_users(&s).len(), 0);
    assert_eq!(list_all_series(&s).len(), 0);
    assert_eq!(list_all_instances(&s).len(), 0);
    assert_eq!(get_settings(&s), GlobalSettings::default());
    assert_eq!(get_settings(&s).forward_window_months, 2);
    assert!(!get_settings(&s).claims_paused);
    assert_eq!(get_settings(&s).default_event_duration_minutes, 60);
}

#[test]
fn users_are_kept_by_principal() {
    let mut s = Store::new();
    assert_eq!(get_user(&s, &person(1)), None);
    assert!(!user_exists(&s, &person(1)));
    insert_user(&mut s, user(1, Role::Admin));
    insert_user(&mut s, user(2, Role::User));
    assert!(user_exists(&s, &person(2)));
    assert_eq!(get_user(&s, &person(2)), Some(user(2, Role::User)));
    let mut changed = user(2, Role::Admin);
    changed.name = String::from("renamed");
    update_user(&mut s, changed.clone());
    assert_eq!(get_user(&s, &person(2)), Some(changed.clone()));
    assert_eq!(list_all_users(&s), vec![user(1, Role::Admin), changed]);
    assert!(delete_user(&mut s, &person(1)));
    assert!(!delete_user(&mut s, &person(1)));
    assert_eq!(get_user(&s, &person(1)), None);
    assert_eq!(list_all_users(&s).len(), 1);
}

#[test]
fn rules_are_kept_by_identifier() {
    let mut s = Store::new();
    insert_series(&mut s, rule(1));
    insert_series(&mut s, rule(2));
    let mut changed = rule(1);
    changed.paused = true;
    insert_series(&mut s, changed.clone());
    assert_eq!(get_series(&s, &[1; 16]), Some(changed.clone()));
    assert_eq!(get_series(&s, &[3; 16]), None);
    assert_eq!(list_all_series(&s), vec![changed, rule(2)]);
    assert!(delete_series(&mut s, &[1; 16]));
    assert!(!delete_series(&mut s, &[1; 16]));
    assert_eq!(list_all_series(&s), vec![rule(2)]);
}

#[test]
fn exceptions_are_kept_by_occurrence_key() {
    let mut s = Store::new();
    insert_override(&mut s, exception(1, 100));
    insert_override(&mut s, exception(2, 100));
    insert_override(&mut s, exception(1, 200));
    let mut changed = exception(1, 100);
    changed.cancelled = true;
    insert_override(&mut s, changed.clone());
    let key = OverrideKey { series_id: [1; 16], occurrence_start_utc: 100 };
    assert_eq!(get_override(&s, &key), Some(changed.clone()));
    let other = OverrideKey { series_id: [1; 16], occurrence_start_utc: 300 };
    assert_eq!(get_override(&s, &other), None);
    assert_eq!(list_overrides_for_series(&s, &[1; 16]), vec![changed, exception(1, 200)]);
    assert_eq!(list_overrides_for_series(&s, &[9; 16]), vec![]);
}

#[test]
fn one_off_sessions_are_kept_by_identifier() {
    let mut s = Store::new();
    insert_instance(&mut s, session(1));
    insert_instance(&mut s, session(2));
    let mut changed = session(2);
    changed.host_principal = Some(person(4));
    insert_instance(&mut s, changed.clone());
    assert_eq!(get_instance(&s, &[2; 16]), Some(changed.clone()));
    assert_eq!(list_all_instances(&s), vec![session(1), changed]);
    assert!(delete_instance(&mut s, &[1; 16]));
    assert!(!delete_instance(&mut s, &[1; 16]));
    assert_eq!(get_instance(&s, &[1; 16]), None);
}

#[test]
fn settings_are_replaced_whole() {
    let mut s = Store::new();
    let new = GlobalSettings {
        forward_window_months: 6,
        claims_paused: true,
        default_event_duration_minutes: 45,
        org_name: Some(String::from("Org")),
        org_tagline: None,
        org_logo_url: None,
    };
    update_settings(&mut s, new.clone());
    assert_eq!(get_settings(&s), new);
}

#[test]
fn pending_jobs_are_listed_in_order() {
    let mut s = Store::new();
    insert_notification(&mut s, job(1, NotificationStatus::Pending));
    insert_notification(&mut s, job(2, NotificationStatus::Sent));
    insert_notification(&mut s, job(3, NotificationStatus::Pending));
    insert_notification(&mut s, job(4, NotificationStatus::Failed));
    assert_eq!(
        list_pending_notifications(&s),
        vec![job(1, NotificationStatus::Pending), job(3, NotificationStatus::Pending)]
    );
    update_notification(&mut s, job(1, NotificationStatus::Sent));
    assert_eq!(get_notification(&s, &[1; 16]), Some(job(1, NotificationStatus::Sent)));
    assert_eq!(get_notification(&s, &[8; 16]), None);
    assert_eq!(list_pending_notifications(&s), vec![job(3, NotificationStatus::Pending)]);
}

#[test]
fn anonymous_caller_is_unauthorized() {
    assert_eq!(require_authenticated(Principal::anonymous()), Err(ApiError::Unauthorized));
    assert_eq!(require_authenticated(person(9)), Ok(person(9)));
    let mut two = person(4);
    two.len = 2;
    assert_eq!(require_authenticated(two), Ok(two));
    assert_eq!(Principal::anonymous(), person(4));
}

#[test]
fn only_stored_active_users_are_authorized() {
    let mut s = Store::new();
    insert_user(&mut s, user(1, Role::Admin));
    insert_user(&mut s, user(2, Role::User));
    let mut off = user(3, Role::Admin);
    off.status = UserStatus::Disabled;
    insert_user(&mut s, off);
    insert_user(&mut s, user(4, Role::Admin));
    assert_eq!(require_authorized(&s, person(2)), Ok(user(2, Role::User)));
    assert_eq!(require_authorized(&s, person(3)), Err(ApiError::Unauthorized));
    assert_eq!(require_authorized(&s, person(9)), Err(ApiError::Unauthorized));
    assert_eq!(require_authorized(&s, Principal::anonymous()), Err(ApiError::Unauthorized));
    assert_eq!(require_admin(&s, person(1)), Ok(user(1, Role::Admin)));
    assert_eq!(require_admin(&s, person(2)), Err(ApiError::Unauthorized));
    assert_eq!(require_admin(&s, person(3)), Err(ApiError::Unauthorized));
}

#[test]
fn first_administrator_and_last_active() {
    let mut s = Store::new();
    initialize_admin(&mut s, person(1), String::from("Root"), String::from("r@example.org"), 50);
    let a = get_user(&s, &person(1)).unwrap();
    assert_eq!(a.role, Role::Admin);
    assert_eq!(a.status, UserStatus::Active);
    assert_eq!(a.name, "Root");
    assert_eq!((a.created_at, a.updated_at, a.last_active), (50, 50, 50));
    assert_eq!(a.notification_settings.reminder_hours_before, Some(24));
    touch_last_active(&mut s, &person(1), 60);
    touch_last_active(&mut s, &person(2), 60);
    let a = get_user(&s, &person(1)).unwrap();
    assert_eq!((a.created_at, a.updated_at, a.last_active), (50, 50, 60));
    assert_eq!(list_all_users(&s).len(), 1);
}

#[test]
fn events_are_queued_only_where_wanted() {
    let mut s = Store::new();
    let mut u = user(1, Role::User);
    u.notification_settings.email_on_removed = false;
    u.notification_settings.email_on_time_changed = false;
    create_host_assigned_notification(&mut s, &u, &[1; 16], 10, 20);
    create_host_removed_notification(&mut s, &u, &[2; 16], 10, 20);
    create_instance_cancelled_notification(&mut s, &u, &[3; 16], 30, 40);
    create_instance_time_changed_notification(&mut s, &u, &[4; 16], 10, 20);
    let kinds: Vec<NotificationType> = s.outbox.iter().map(|e| e.kind).collect();
    assert_eq!(kinds, vec![NotificationType::HostAssigned, NotificationType::InstanceCancelled]);
    assert_eq!(s.outbox[1].instance_id, [3; 16]);
    assert_eq!((s.outbox[1].start_utc, s.outbox[1].end_utc), (30, 40));
    assert_eq!(s.outbox[1].recipient, person(1));
}
