//! The operations offered to callers: each checks who calls, then reads
//! or writes the state. The caller's identity and the current time are
//! handed in.

use vstd::prelude::*;
use crate::auth::{admin_caller, authorized, require_admin, require_authorized};
use crate::ids::{array16, generate_uuid};
use crate::coverage::{assign_check, host_recorded, host_stored, unassign_check};
use crate::materialize::{materialize_events, materialized, without_host};
use crate::notifications::outbox_after;
use crate::storage::{
    Store, clone_series, insert_instance, insert_series, insert_user, instance_is,
    job_is, job_position, lemma_position, lookup, position, series_is, series_position, upsert,
    user_is, user_position, without,
};
use crate::types::{
    ApiError, ApiResult, CreateEventInput, CreateSeriesInput, ErrorKind, EventInstance,
    EventSeries, EventStatus, Frequency, GlobalSettings, NotificationJob, NotificationSettings,
    CoverageStats, NotificationStatus, NotificationType, OOOBlock, Principal, PublicEventView,
    Role, UpdateSeriesInput, User, UserStatus, clone_opt_string,
};

verus! {

/// A 16-byte identifier from the bytes a caller sent: `InvalidInput`
/// unless there are exactly 16.
pub fn parse_id(bytes: &Vec<u8>) -> (r: ApiResult<[u8; 16]>)
    ensures
        bytes@.len() == 16 ==> r is Ok && r.unwrap()@ == bytes@ && r.unwrap() == array16(bytes@),
        bytes@.len() != 16 ==> r is Err && r.unwrap_err().kind() == ErrorKind::InvalidInput,
{
    if bytes.len() != 16 {
        return Err(ApiError::InvalidInput("Invalid identifier".to_string()));
    }
    assert(bytes@.subrange(0, 16) =~= bytes@);
    Ok(crate::ids::first_16(bytes))
}

/// Everything but the users is as it was.
pub open spec fn all_but_users_kept(before: &Store, after: &Store) -> bool {
    &&& after.series == before.series
    &&& after.overrides == before.overrides
    &&& after.instances == before.instances
    &&& after.settings == before.settings
    &&& after.notifications == before.notifications
    &&& after.outbox == before.outbox
}

/// Everything but the rules is as it was.
pub open spec fn all_but_series_kept(before: &Store, after: &Store) -> bool {
    &&& after.users == before.users
    &&& after.overrides == before.overrides
    &&& after.instances == before.instances
    &&& after.settings == before.settings
    &&& after.notifications == before.notifications
    &&& after.outbox == before.outbox
}

/// Everything but the one-off sessions is as it was.
pub open spec fn all_but_instances_kept(before: &Store, after: &Store) -> bool {
    &&& after.users == before.users
    &&& after.series == before.series
    &&& after.overrides == before.overrides
    &&& after.settings == before.settings
    &&& after.notifications == before.notifications
    &&& after.outbox == before.outbox
}

/// Everything but the notification jobs is as it was.
pub open spec fn all_but_notifications_kept(before: &Store, after: &Store) -> bool {
    &&& after.users == before.users
    &&& after.series == before.series
    &&& after.overrides == before.overrides
    &&& after.instances == before.instances
    &&& after.settings == before.settings
    &&& after.outbox == before.outbox
}

/// Sets how the caller wants to be notified.
pub fn update_notification_settings(
    store: &mut Store,
    caller: Principal,
    settings: NotificationSettings,
    now: u64,
) -> (r: ApiResult<()>)
    ensures
        all_but_users_kept(old(store), final(store)),
        old(store).wf() ==> final(store).wf(),
        !authorized(old(store).users@, caller) ==> r == Err::<(), ApiError>(
            ApiError::Unauthorized,
        ) && final(store).users == old(store).users,
        authorized(old(store).users@, caller) ==> r == Ok::<(), ApiError>(())
            && final(store).users@ == old(store).users@.update(
            position(old(store).users@, user_is(caller)),
            User {
                notification_settings: settings,
                updated_at: now,
                ..old(store).users@[position(old(store).users@, user_is(caller))]
            },
        ),
{
    match require_authorized(store, caller) {
        Err(e) => Err(e),
        Ok(_) => {
            let i: usize = user_position(&store.users, &caller);
            store.users[i].notification_settings = settings;
            store.users[i].updated_at = now;
            Ok(())
        },
    }
}

/// Sets the caller's out-of-office blocks.
pub fn set_out_of_office(store: &mut Store, caller: Principal, blocks: Vec<OOOBlock>, now: u64) -> (r:
    ApiResult<()>)
    ensures
        all_but_users_kept(old(store), final(store)),
        old(store).wf() ==> final(store).wf(),
        !authorized(old(store).users@, caller) ==> r == Err::<(), ApiError>(
            ApiError::Unauthorized,
        ) && final(store).users == old(store).users,
        authorized(old(store).users@, caller) ==> r == Ok::<(), ApiError>(())
            && final(store).users@ == old(store).users@.update(
            position(old(store).users@, user_is(caller)),
            User {
                out_of_office: blocks,
                updated_at: now,
                ..old(store).users@[position(old(store).users@, user_is(caller))]
            },
        ),
{
    match require_authorized(store, caller) {
        Err(e) => Err(e),
        Ok(_) => {
            let i: usize = user_position(&store.users, &caller);
            store.users[i].out_of_office = blocks;
            store.users[i].updated_at = now;
            Ok(())
        },
    }
}

/// Every user, for an administrator.
pub fn list_users(store: &Store, caller: Principal) -> (r: ApiResult<Vec<User>>)
    ensures
        !admin_caller(store.users@, caller) ==> r == Err::<Vec<User>, ApiError>(
            ApiError::Unauthorized,
        ),
        admin_caller(store.users@, caller) ==> r is Ok && r.unwrap()@.len() == store.users@.len()
            && forall|i: int|
            0 <= i < store.users@.len() ==> (#[trigger] r.unwrap()@[i]).same_as(&store.users@[i]),
{
    match require_admin(store, caller) {
        Err(e) => Err(e),
        Ok(_) => Ok(crate::storage::list_all_users(store)),
    }
}

/// A user as first stored: active, never out of office, with the default
/// notification settings.
pub open spec fn is_new_user(
    u: User,
    principal: Principal,
    name: String,
    email: String,
    role: Role,
    now: u64,
) -> bool {
    &&& u.principal == principal
    &&& u.name == name
    &&& u.email == email
    &&& u.role == role
    &&& u.status == UserStatus::Active
    &&& u.out_of_office@.len() == 0
    &&& u.notification_settings == (NotificationSettings {
        email_on_assigned: true,
        email_on_removed: true,
        email_on_cancelled: true,
        email_on_time_changed: true,
        email_unclaimed_reminder: false,
        reminder_hours_before: Some(24u32),
    })
    &&& u.last_active == now
    &&& u.sessions_hosted_count == 0
    &&& u.created_at == now
    &&& u.updated_at == now
}

/// Stores a new user, for an administrator. `Conflict` where the
/// principal is stored already.
pub fn authorize_user(
    store: &mut Store,
    caller: Principal,
    principal: Principal,
    name: String,
    email: String,
    role: Role,
    now: u64,
) -> (r: ApiResult<User>)
    ensures
        all_but_users_kept(old(store), final(store)),
        old(store).wf() ==> final(store).wf(),
        !admin_caller(old(store).users@, caller) ==> r == Err::<User, ApiError>(
            ApiError::Unauthorized,
        ) && final(store).users == old(store).users,
        admin_caller(old(store).users@, caller) && lookup(old(store).users@, user_is(principal))
            is Some ==> r is Err && r.unwrap_err().kind() == ErrorKind::Conflict && final(store).users
            == old(store).users,
        admin_caller(old(store).users@, caller) && lookup(old(store).users@, user_is(principal))
            is None ==> {
            &&& r is Ok
            &&& is_new_user(r.unwrap(), principal, name, email, role, now)
            &&& final(store).users@.len() == old(store).users@.len() + 1
            &&& final(store).users@.drop_last() == old(store).users@
            &&& is_new_user(final(store).users@.last(), principal, name, email, role, now)
        },
{
    match require_admin(store, caller) {
        Err(e) => {
            return Err(e);
        },
        Ok(_) => {},
    }
    if crate::storage::user_exists(store, &principal) {
        return Err(ApiError::Conflict("User already exists".to_string()));
    }
    let user = User {
        principal,
        name: name.clone(),
        email: email.clone(),
        role,
        status: UserStatus::Active,
        out_of_office: Vec::new(),
        notification_settings: NotificationSettings::default(),
        last_active: now,
        sessions_hosted_count: 0,
        created_at: now,
        updated_at: now,
    };
    let stored = User {
        principal,
        name,
        email,
        role,
        status: UserStatus::Active,
        out_of_office: Vec::new(),
        notification_settings: NotificationSettings::default(),
        last_active: now,
        sessions_hosted_count: 0,
        created_at: now,
        updated_at: now,
    };
    proof {
        lemma_position(store.users@, user_is(principal));
    }
    insert_user(store, stored);
    assert(final(store).users@.drop_last() =~= old(store).users@);
    Ok(user)
}

fn set_user_status(
    store: &mut Store,
    caller: Principal,
    principal: Principal,
    status: UserStatus,
    now: u64,
) -> (r: ApiResult<()>)
    ensures
        all_but_users_kept(old(store), final(store)),
        old(store).wf() ==> final(store).wf(),
        !admin_caller(old(store).users@, caller) ==> r == Err::<(), ApiError>(
            ApiError::Unauthorized,
        ) && final(store).users == old(store).users,
        admin_caller(old(store).users@, caller) && lookup(old(store).users@, user_is(principal))
            is None ==> r == Err::<(), ApiError>(ApiError::NotFound) && final(store).users == old(
            store,
        ).users,
        admin_caller(old(store).users@, caller) && lookup(old(store).users@, user_is(principal))
            is Some ==> r == Ok::<(), ApiError>(()) && final(store).users@ == old(
            store,
        ).users@.update(
            position(old(store).users@, user_is(principal)),
            User {
                status,
                updated_at: now,
                ..old(store).users@[position(old(store).users@, user_is(principal))]
            },
        ),
{
    match require_admin(store, caller) {
        Err(e) => {
            return Err(e);
        },
        Ok(_) => {},
    }
    let i: usize = user_position(&store.users, &principal);
    if i >= store.users.len() {
        return Err(ApiError::NotFound);
    }
    store.users[i].status = status;
    store.users[i].updated_at = now;
    Ok(())
}

/// Disables a user, for an administrator. `NotFound` where the principal
/// is not stored.
pub fn disable_user(store: &mut Store, caller: Principal, principal: Principal, now: u64) -> (r:
    ApiResult<()>)
    ensures
        all_but_users_kept(old(store), final(store)),
        old(store).wf() ==> final(store).wf(),
        !admin_caller(old(store).users@, caller) ==> r == Err::<(), ApiError>(
            ApiError::Unauthorized,
        ) && final(store).users == old(store).users,
        admin_caller(old(store).users@, caller) && lookup(old(store).users@, user_is(principal))
            is None ==> r == Err::<(), ApiError>(ApiError::NotFound) && final(store).users == old(
            store,
        ).users,
        admin_caller(old(store).users@, caller) && lookup(old(store).users@, user_is(principal))
            is Some ==> r == Ok::<(), ApiError>(()) && final(store).users@ == old(
            store,
        ).users@.update(
            position(old(store).users@, user_is(principal)),
            User {
                status: UserStatus::Disabled,
                updated_at: now,
                ..old(store).users@[position(old(store).users@, user_is(principal))]
            },
        ),
{
    set_user_status(store, caller, principal, UserStatus::Disabled, now)
}

/// Enables a user, for an administrator. `NotFound` where the principal
/// is not stored.
pub fn enable_user(store: &mut Store, caller: Principal, principal: Principal, now: u64) -> (r:
    ApiResult<()>)
    ensures
        all_but_users_kept(old(store), final(store)),
        old(store).wf() ==> final(store).wf(),
        !admin_caller(old(store).users@, caller) ==> r == Err::<(), ApiError>(
            ApiError::Unauthorized,
        ) && final(store).users == old(store).users,
        admin_caller(old(store).users@, caller) && lookup(old(store).users@, user_is(principal))
            is None ==> r == Err::<(), ApiError>(ApiError::NotFound) && final(store).users == old(
            store,
        ).users,
        admin_caller(old(store).users@, caller) && lookup(old(store).users@, user_is(principal))
            is Some ==> r == Ok::<(), ApiError>(()) && final(store).users@ == old(
            store,
        ).users@.update(
            position(old(store).users@, user_is(principal)),
            User {
                status: UserStatus::Active,
                updated_at: now,
                ..old(store).users@[position(old(store).users@, user_is(principal))]
            },
        ),
{
    set_user_status(store, caller, principal, UserStatus::Active, now)
}

/// Changes name, e-mail address and role of a user, for an administrator.
pub fn update_user(
    store: &mut Store,
    caller: Principal,
    principal: Principal,
    name: String,
    email: String,
    role: Role,
    now: u64,
) -> (r: ApiResult<User>)
    ensures
        all_but_users_kept(old(store), final(store)),
        old(store).wf() ==> final(store).wf(),
        !admin_caller(old(store).users@, caller) ==> r == Err::<User, ApiError>(
            ApiError::Unauthorized,
        ) && final(store).users == old(store).users,
        admin_caller(old(store).users@, caller) && lookup(old(store).users@, user_is(principal))
            is None ==> r == Err::<User, ApiError>(ApiError::NotFound) && final(store).users
            == old(store).users,
        admin_caller(old(store).users@, caller) && lookup(old(store).users@, user_is(principal))
            is Some ==> {
            let i = position(old(store).users@, user_is(principal));
            let changed = User { name, email, role, updated_at: now, ..old(store).users@[i] };
            &&& final(store).users@ == old(store).users@.update(i, changed)
            &&& r is Ok
            &&& r.unwrap().same_as(&changed)
        },
{
    match require_admin(store, caller) {
        Err(e) => {
            return Err(e);
        },
        Ok(_) => {},
    }
    let i: usize = user_position(&store.users, &principal);
    if i >= store.users.len() {
        return Err(ApiError::NotFound);
    }
    store.users[i].name = name;
    store.users[i].email = email;
    store.users[i].role = role;
    store.users[i].updated_at = now;
    Ok(crate::storage::clone_user(&store.users[i]))
}

/// Removes a user, for an administrator, who cannot remove themself
/// (`InvalidInput`).
pub fn delete_user(store: &mut Store, caller: Principal, principal: Principal) -> (r: ApiResult<()>)
    ensures
        all_but_users_kept(old(store), final(store)),
        old(store).wf() ==> final(store).wf(),
        !admin_caller(old(store).users@, caller) ==> r == Err::<(), ApiError>(
            ApiError::Unauthorized,
        ) && final(store).users == old(store).users,
        admin_caller(old(store).users@, caller) && caller == principal ==> r is Err
            && r.unwrap_err().kind() == ErrorKind::InvalidInput && final(store).users == old(
            store,
        ).users,
        admin_caller(old(store).users@, caller) && caller != principal && lookup(
            old(store).users@,
            user_is(principal),
        ) is None ==> r == Err::<(), ApiError>(ApiError::NotFound) && final(store).users == old(
            store,
        ).users,
        admin_caller(old(store).users@, caller) && caller != principal && lookup(
            old(store).users@,
            user_is(principal),
        ) is Some ==> r == Ok::<(), ApiError>(()) && final(store).users@ == without(
            old(store).users@,
            user_is(principal),
        ),
{
    match require_admin(store, caller) {
        Err(e) => {
            return Err(e);
        },
        Ok(_) => {},
    }
    if caller.same(&principal) {
        return Err(ApiError::InvalidInput("Cannot delete yourself".to_string()));
    }
    if !crate::storage::delete_user(store, &principal) {
        return Err(ApiError::NotFound);
    }
    Ok(())
}

/// The one-off session that a request describes, under the identifier
/// `id`, created at `now`.
pub open spec fn new_one_off(input: CreateEventInput, id: [u8; 16], now: u64) -> EventInstance {
    EventInstance {
        instance_id: id,
        series_id: None,
        start_utc: input.start_utc,
        end_utc: input.end_utc,
        title: input.title,
        notes: input.notes,
        link: input.link,
        host_principal: input.host_principal,
        status: EventStatus::Active,
        color: None,
        created_at: now,
    }
}

/// Stores a one-off session. `InvalidInput` unless it ends after it
/// starts. Its identifier is made from `now` and `counter`.
pub fn create_one_off_event(
    store: &mut Store,
    caller: Principal,
    input: CreateEventInput,
    now: u64,
    counter: u64,
) -> (r: ApiResult<EventInstance>)
    ensures
        all_but_instances_kept(old(store), final(store)),
        old(store).wf() ==> final(store).wf(),
        !authorized(old(store).users@, caller) ==> r == Err::<EventInstance, ApiError>(
            ApiError::Unauthorized,
        ) && final(store).instances == old(store).instances,
        authorized(old(store).users@, caller) && input.start_utc >= input.end_utc ==> r is Err
            && r.unwrap_err().kind() == ErrorKind::InvalidInput && final(store).instances == old(
            store,
        ).instances,
        authorized(old(store).users@, caller) && input.start_utc < input.end_utc ==> {
            &&& r is Ok
            &&& r.unwrap() == new_one_off(input, r.unwrap().instance_id, now)
            &&& r.unwrap().instance_id@ == crate::ids::sha256_digest(
                crate::ids::be_bytes(now) + crate::ids::be_bytes(counter),
            ).subrange(0, 16)
            &&& final(store).instances@ == upsert(
                old(store).instances@,
                instance_is(r.unwrap().instance_id),
                r.unwrap(),
            )
        },
{
    match require_authorized(store, caller) {
        Err(e) => {
            return Err(e);
        },
        Ok(_) => {},
    }
    if input.start_utc >= input.end_utc {
        return Err(ApiError::InvalidInput("End time must be after start time".to_string()));
    }
    let id: [u8; 16] = generate_uuid(now, counter);
    let instance = EventInstance {
        instance_id: id,
        series_id: None,
        start_utc: input.start_utc,
        end_utc: input.end_utc,
        title: input.title,
        notes: input.notes,
        link: input.link,
        host_principal: input.host_principal,
        status: EventStatus::Active,
        color: None,
        created_at: now,
    };
    let stored: EventInstance = crate::storage::clone_instance(&instance);
    insert_instance(store, stored);
    Ok(instance)
}

/// The rule that a request describes, under the identifier `id`, created
/// at `now` by `by`; a request that names no duration takes `fallback`.
pub open spec fn new_series(
    input: CreateSeriesInput,
    id: [u8; 16],
    fallback: u32,
    now: u64,
    by: Principal,
) -> EventSeries {
    EventSeries {
        series_id: id,
        title: input.title,
        notes: input.notes,
        link: input.link,
        frequency: input.frequency,
        weekday: input.weekday,
        weekday_ordinal: input.weekday_ordinal,
        start_date: input.start_date,
        end_date: input.end_date,
        default_duration_minutes: match input.default_duration_minutes {
            Some(d) => d,
            None => fallback,
        },
        color: input.color,
        paused: false,
        created_at: now,
        created_by: by,
    }
}

/// Stores a new rule, for an administrator. `InvalidInput` where a
/// monthly rule names no ordinal. The rule's identifier is made from `now`
/// and `counter`.
pub fn create_event_series(
    store: &mut Store,
    caller: Principal,
    input: CreateSeriesInput,
    now: u64,
    counter: u64,
) -> (r: ApiResult<EventSeries>)
    ensures
        all_but_series_kept(old(store), final(store)),
        old(store).wf() ==> final(store).wf(),
        !admin_caller(old(store).users@, caller) ==> r == Err::<EventSeries, ApiError>(
            ApiError::Unauthorized,
        ) && final(store).series == old(store).series,
        admin_caller(old(store).users@, caller) && input.frequency == Frequency::Monthly
            && input.weekday_ordinal is None ==> r is Err && r.unwrap_err().kind()
            == ErrorKind::InvalidInput && final(store).series == old(store).series,
        admin_caller(old(store).users@, caller) && !(input.frequency == Frequency::Monthly
            && input.weekday_ordinal is None) ==> {
            &&& r is Ok
            &&& r.unwrap().well_formed()
            &&& r.unwrap() == new_series(
                input,
                r.unwrap().series_id,
                old(store).settings.default_event_duration_minutes,
                now,
                caller,
            )
            &&& r.unwrap().series_id@ == crate::ids::sha256_digest(
                crate::ids::be_bytes(now) + crate::ids::be_bytes(counter),
            ).subrange(0, 16)
            &&& final(store).series@ == upsert(
                old(store).series@,
                series_is(r.unwrap().series_id),
                r.unwrap(),
            )
        },
{
    let admin: User = match require_admin(store, caller) {
        Err(e) => {
            return Err(e);
        },
        Ok(u) => u,
    };
    proof {
        lemma_position(store.users@, user_is(caller));
    }
    if input.frequency == Frequency::Monthly && input.weekday_ordinal.is_none() {
        return Err(ApiError::InvalidInput("Monthly frequency requires weekday_ordinal".to_string()));
    }
    let duration: u32 = match input.default_duration_minutes {
        Some(d) => d,
        None => store.settings.default_event_duration_minutes,
    };
    let series = EventSeries {
        series_id: generate_uuid(now, counter),
        title: input.title,
        notes: input.notes,
        link: input.link,
        frequency: input.frequency,
        weekday: input.weekday,
        weekday_ordinal: input.weekday_ordinal,
        start_date: input.start_date,
        end_date: input.end_date,
        default_duration_minutes: duration,
        color: input.color,
        paused: false,
        created_at: now,
        created_by: admin.principal,
    };
    let stored: EventSeries = clone_series(&series);
    insert_series(store, stored);
    Ok(series)
}

/// A rule after a partial update: each field that the update names takes
/// the update's value.
pub open spec fn series_updated(s: EventSeries, input: UpdateSeriesInput) -> EventSeries {
    EventSeries {
        title: match input.title {
            Some(t) => t,
            None => s.title,
        },
        notes: match input.notes {
            Some(n) => n,
            None => s.notes,
        },
        end_date: match input.end_date {
            Some(e) => e,
            None => s.end_date,
        },
        default_duration_minutes: match input.default_duration_minutes {
            Some(d) => d,
            None => s.default_duration_minutes,
        },
        color: match input.color {
            Some(c) => c,
            None => s.color,
        },
        paused: match input.paused {
            Some(p) => p,
            None => s.paused,
        },
        ..s
    }
}

/// What a change of one stored rule comes to: `Unauthorized` unless an
/// administrator calls, `InvalidInput` unless the identifier has 16
/// bytes, `NotFound` unless a rule is stored under it; else the position
/// of the rule.
pub open spec fn series_target(store: &Store, caller: Principal, series_id: Seq<u8>) -> Result<
    int,
    ErrorKind,
> {
    if !admin_caller(store.users@, caller) {
        Err(ErrorKind::Unauthorized)
    } else if series_id.len() != 16 {
        Err(ErrorKind::InvalidInput)
    } else {
        let i = position(store.series@, series_is(array16(series_id)));
        if i < store.series@.len() {
            Ok(i)
        } else {
            Err(ErrorKind::NotFound)
        }
    }
}

fn find_series_target(store: &Store, caller: Principal, series_id: &Vec<u8>) -> (r: ApiResult<usize>)
    ensures
        match series_target(store, caller, series_id@) {
            Ok(i) => r is Ok && r.unwrap() as int == i && 0 <= i < store.series@.len(),
            Err(k) => r is Err && r.unwrap_err().kind() == k,
        },
{
    match require_admin(store, caller) {
        Err(e) => {
            return Err(e);
        },
        Ok(_) => {},
    }
    let sid: [u8; 16] = match parse_id(series_id) {
        Err(e) => {
            return Err(e);
        },
        Ok(id) => id,
    };
    let i: usize = series_position(&store.series, &sid);
    if i >= store.series.len() {
        return Err(ApiError::NotFound);
    }
    Ok(i)
}

/// A partial update leaves frequency and ordinal as they are, so a rule
/// that named its ordinal still does.
pub proof fn lemma_update_keeps_well_formed(s: EventSeries, input: UpdateSeriesInput)
    requires
        s.well_formed(),
    ensures
        series_updated(s, input).well_formed(),
        series_updated(s, input).series_id == s.series_id,
{
}

/// Changes a rule, for an administrator.
pub fn update_event_series(
    store: &mut Store,
    caller: Principal,
    series_id: Vec<u8>,
    input: UpdateSeriesInput,
) -> (r: ApiResult<EventSeries>)
    ensures
        all_but_series_kept(old(store), final(store)),
        old(store).wf() ==> final(store).wf(),
        match series_target(old(store), caller, series_id@) {
            Ok(i) => {
                &&& r == Ok::<EventSeries, ApiError>(series_updated(old(store).series@[i], input))
                &&& final(store).series@ == old(store).series@.update(
                    i,
                    series_updated(old(store).series@[i], input),
                )
            },
            Err(k) => r is Err && r.unwrap_err().kind() == k && final(store).series == old(
                store,
            ).series,
        },
{
    let i: usize = match find_series_target(store, caller, &series_id) {
        Err(e) => {
            return Err(e);
        },
        Ok(i) => i,
    };
    let current: EventSeries = clone_series(&store.series[i]);
    let updated = EventSeries {
        series_id: current.series_id,
        title: match input.title {
            Some(t) => t,
            None => current.title,
        },
        notes: match input.notes {
            Some(n) => n,
            None => current.notes,
        },
        link: current.link,
        frequency: current.frequency,
        weekday: current.weekday,
        weekday_ordinal: current.weekday_ordinal,
        start_date: current.start_date,
        end_date: match input.end_date {
            Some(e) => e,
            None => current.end_date,
        },
        default_duration_minutes: match input.default_duration_minutes {
            Some(d) => d,
            None => current.default_duration_minutes,
        },
        color: match input.color {
            Some(c) => c,
            None => current.color,
        },
        paused: match input.paused {
            Some(p) => p,
            None => current.paused,
        },
        created_at: current.created_at,
        created_by: current.created_by,
    };
    let stored: EventSeries = clone_series(&updated);
    store.series[i] = stored;
    Ok(updated)
}

/// Removes a rule, for an administrator. The rule's exceptions stay.
pub fn delete_event_series(store: &mut Store, caller: Principal, series_id: Vec<u8>) -> (r:
    ApiResult<()>)
    ensures
        all_but_series_kept(old(store), final(store)),
        old(store).wf() ==> final(store).wf(),
        match series_target(old(store), caller, series_id@) {
            Ok(i) => r == Ok::<(), ApiError>(()) && final(store).series@ == old(
                store,
            ).series@.remove(i),
            Err(k) => r is Err && r.unwrap_err().kind() == k && final(store).series == old(
                store,
            ).series,
        },
{
    let i: usize = match find_series_target(store, caller, &series_id) {
        Err(e) => {
            return Err(e);
        },
        Ok(i) => i,
    };
    store.series.remove(i);
    Ok(())
}

/// Every rule, for an administrator.
pub fn list_event_series(store: &Store, caller: Principal) -> (r: ApiResult<Vec<EventSeries>>)
    ensures
        !admin_caller(store.users@, caller) ==> r == Err::<Vec<EventSeries>, ApiError>(
            ApiError::Unauthorized,
        ),
        admin_caller(store.users@, caller) ==> r is Ok && r.unwrap()@ == store.series@,
{
    match require_admin(store, caller) {
        Err(e) => Err(e),
        Ok(_) => Ok(crate::storage::list_all_series(store)),
    }
}

/// Pauses a running rule and resumes a paused one, for an administrator.
pub fn toggle_series_pause(store: &mut Store, caller: Principal, series_id: Vec<u8>) -> (r:
    ApiResult<EventSeries>)
    ensures
        all_but_series_kept(old(store), final(store)),
        old(store).wf() ==> final(store).wf(),
        match series_target(old(store), caller, series_id@) {
            Ok(i) => {
                let toggled = EventSeries {
                    paused: !old(store).series@[i].paused,
                    ..old(store).series@[i]
                };
                &&& r == Ok::<EventSeries, ApiError>(toggled)
                &&& final(store).series@ == old(store).series@.update(i, toggled)
            },
            Err(k) => r is Err && r.unwrap_err().kind() == k && final(store).series == old(
                store,
            ).series,
        },
{
    let i: usize = match find_series_target(store, caller, &series_id) {
        Err(e) => {
            return Err(e);
        },
        Ok(i) => i,
    };
    let current: EventSeries = clone_series(&store.series[i]);
    let toggled = EventSeries { paused: !current.paused, ..current };
    let stored: EventSeries = clone_series(&toggled);
    store.series[i] = stored;
    Ok(toggled)
}

/// Replaces the settings, for an administrator.
pub fn update_global_settings(store: &mut Store, caller: Principal, settings: GlobalSettings) -> (r:
    ApiResult<()>)
    ensures
        final(store).users == old(store).users,
        final(store).series == old(store).series,
        final(store).overrides == old(store).overrides,
        final(store).instances == old(store).instances,
        final(store).notifications == old(store).notifications,
        final(store).outbox == old(store).outbox,
        old(store).wf() ==> final(store).wf(),
        !admin_caller(old(store).users@, caller) ==> r == Err::<(), ApiError>(
            ApiError::Unauthorized,
        ) && final(store).settings == old(store).settings,
        admin_caller(old(store).users@, caller) ==> r == Ok::<(), ApiError>(())
            && final(store).settings == settings,
{
    match require_admin(store, caller) {
        Err(e) => Err(e),
        Ok(_) => {
            crate::storage::update_settings(store, settings);
            Ok(())
        },
    }
}

/// The settings, for a user who may act.
pub fn get_global_settings(store: &Store, caller: Principal) -> (r: ApiResult<GlobalSettings>)
    ensures
        !authorized(store.users@, caller) ==> r == Err::<GlobalSettings, ApiError>(
            ApiError::Unauthorized,
        ),
        authorized(store.users@, caller) ==> r == Ok::<GlobalSettings, ApiError>(store.settings),
{
    match require_authorized(store, caller) {
        Err(e) => Err(e),
        Ok(_) => Ok(crate::storage::get_settings(store)),
    }
}

/// Marks a notification job as sent at `now`, for an administrator.
pub fn mark_notification_sent(store: &mut Store, caller: Principal, job_id: Vec<u8>, now: u64) -> (r:
    ApiResult<()>)
    ensures
        all_but_notifications_kept(old(store), final(store)),
        old(store).wf() ==> final(store).wf(),
        !admin_caller(old(store).users@, caller) ==> r == Err::<(), ApiError>(
            ApiError::Unauthorized,
        ) && final(store).notifications == old(store).notifications,
        admin_caller(old(store).users@, caller) && job_id@.len() != 16 ==> r is Err
            && r.unwrap_err().kind() == ErrorKind::InvalidInput && final(store).notifications
            == old(store).notifications,
        admin_caller(old(store).users@, caller) && job_id@.len() == 16 ==> {
            let i = position(old(store).notifications@, job_is(array16(job_id@)));
            if i < old(store).notifications@.len() {
                &&& r == Ok::<(), ApiError>(())
                &&& final(store).notifications@ == old(store).notifications@.update(
                    i,
                    NotificationJob {
                        status: NotificationStatus::Sent,
                        sent_at: Some(now),
                        ..old(store).notifications@[i]
                    },
                )
            } else {
                r == Err::<(), ApiError>(ApiError::NotFound) && final(store).notifications == old(
                    store,
                ).notifications
            }
        },
{
    match require_admin(store, caller) {
        Err(e) => {
            return Err(e);
        },
        Ok(_) => {},
    }
    let jid: [u8; 16] = match parse_id(&job_id) {
        Err(e) => {
            return Err(e);
        },
        Ok(id) => id,
    };
    let i: usize = job_position(&store.notifications, &jid);
    if i >= store.notifications.len() {
        return Err(ApiError::NotFound);
    }
    store.notifications[i].status = NotificationStatus::Sent;
    store.notifications[i].sent_at = Some(now);
    Ok(())
}


/// The settings, for everyone: the public calendar shows the
/// organisation's name.
pub fn get_org_settings(store: &Store) -> (r: GlobalSettings)
    ensures
        r == store.settings,
{
    crate::storage::get_settings(store)
}

/// The name of the stored user `host`, if a host is given and stored.
pub open spec fn host_name_of(users: Seq<User>, host: Option<Principal>) -> Option<String> {
    match host {
        Some(p) => match lookup(users, user_is(p)) {
            Some(u) => Some(u.name),
            None => None,
        },
        None => None,
    }
}

/// The public view of a session: the session without its host's
/// identity, with the host's name instead.
pub open spec fn is_public_view(v: PublicEventView, e: EventInstance, users: Seq<User>) -> bool {
    &&& v.instance_id@ == e.instance_id@
    &&& v.title == e.title
    &&& v.notes == e.notes
    &&& v.link == e.link
    &&& v.start_utc == e.start_utc
    &&& v.end_utc == e.end_utc
    &&& v.host_name == host_name_of(users, e.host_principal)
    &&& v.status == e.status
    &&& v.color == e.color
}

/// The sessions of a window for the public calendar, for everyone.
pub fn list_events_public(store: &Store, window_start: u64, window_end: u64) -> (out: Vec<
    PublicEventView,
>)
    ensures
        out@.len() == materialized(store, window_start, window_end).len(),
        forall|i: int|
            0 <= i < out@.len() ==> is_public_view(
                #[trigger] out@[i],
                materialized(store, window_start, window_end)[i],
                store.users@,
            ),
{
    let events: Vec<EventInstance> = materialize_events(store, window_start, window_end);
    let mut out: Vec<PublicEventView> = Vec::new();
    let mut i: usize = 0;
    while i < events.len()
        invariant
            0 <= i <= events@.len(),
            out@.len() == i,
            forall|j: int|
                0 <= j < i ==> is_public_view(#[trigger] out@[j], events@[j], store.users@),
        decreases events@.len() - i,
    {
        let e: &EventInstance = &events[i];
        let host_name: Option<String> = match e.host_principal {
            Some(p) => {
                let h: usize = user_position(&store.users, &p);
                if h < store.users.len() {
                    Some(store.users[h].name.clone())
                } else {
                    None
                }
            },
            None => None,
        };
        out.push(
            PublicEventView {
                instance_id: crate::types::Uuid(e.instance_id).to_bytes(),
                title: e.title.clone(),
                notes: e.notes.clone(),
                link: clone_opt_string(&e.link),
                start_utc: e.start_utc,
                end_utc: e.end_utc,
                host_name,
                status: e.status,
                color: clone_opt_string(&e.color),
            },
        );
        i += 1;
    }
    out
}

/// The sessions of a window, for a user who may act.
pub fn list_events(store: &Store, caller: Principal, window_start: u64, window_end: u64) -> (r:
    ApiResult<Vec<EventInstance>>)
    ensures
        !authorized(store.users@, caller) ==> r == Err::<Vec<EventInstance>, ApiError>(
            ApiError::Unauthorized,
        ),
        authorized(store.users@, caller) ==> r is Ok && r.unwrap()@ == materialized(
            store,
            window_start,
            window_end,
        ),
{
    match require_authorized(store, caller) {
        Err(e) => Err(e),
        Ok(_) => Ok(materialize_events(store, window_start, window_end)),
    }
}

/// The sessions without a host in the forward window that begins at
/// `now`, for a user who may act.
pub fn list_unclaimed_events(store: &Store, caller: Principal, now: u64) -> (r: ApiResult<
    Vec<EventInstance>,
>)
    requires
        crate::calendar::window_end(now, store.settings.forward_window_months as int) <= u64::MAX,
    ensures
        !authorized(store.users@, caller) ==> r == Err::<Vec<EventInstance>, ApiError>(
            ApiError::Unauthorized,
        ),
        authorized(store.users@, caller) ==> r is Ok && r.unwrap()@ == without_host(
            materialized(
                store,
                now,
                crate::calendar::window_end(now, store.settings.forward_window_months as int) as u64,
            ),
            materialized(
                store,
                now,
                crate::calendar::window_end(now, store.settings.forward_window_months as int) as u64,
            ).len() as int,
        ),
{
    match require_authorized(store, caller) {
        Err(e) => Err(e),
        Ok(_) => Ok(crate::materialize::list_unclaimed_events(store, now)),
    }
}

/// The identifier that the bytes of a request stand for, where a rule is
/// named at all.
pub open spec fn optional_id(bytes: Option<Vec<u8>>) -> Option<[u8; 16]> {
    match bytes {
        Some(v) => Some(array16(v@)),
        None => None,
    }
}

/// The session identifier has 16 bytes, and so has the rule identifier
/// where one is given.
pub open spec fn ids_well_formed(series_id: Option<Vec<u8>>, instance_id: Vec<u8>) -> bool {
    &&& instance_id@.len() == 16
    &&& series_id matches Some(v) ==> v@.len() == 16
}

fn parse_ids(series_id: &Option<Vec<u8>>, instance_id: &Vec<u8>) -> (r: ApiResult<
    (Option<[u8; 16]>, [u8; 16]),
>)
    ensures
        ids_well_formed(*series_id, *instance_id) ==> r == Ok::<
            (Option<[u8; 16]>, [u8; 16]),
            ApiError,
        >((optional_id(*series_id), array16(instance_id@))),
        !ids_well_formed(*series_id, *instance_id) ==> r is Err && r.unwrap_err().kind()
            == ErrorKind::InvalidInput,
{
    let sid: Option<[u8; 16]> = match series_id {
        Some(v) => match parse_id(v) {
            Ok(id) => Some(id),
            Err(e) => {
                return Err(e);
            },
        },
        None => None,
    };
    match parse_id(instance_id) {
        Ok(iid) => Ok((sid, iid)),
        Err(e) => Err(e),
    }
}

/// Makes `host_principal` the host of a session, for a user who may act;
/// an administrator's call overrides the host's availability. The caller
/// is noted as active at `now` once the request is well formed.
pub fn assign_host(
    store: &mut Store,
    caller: Principal,
    series_id: Option<Vec<u8>>,
    occurrence_start: Option<u64>,
    instance_id: Vec<u8>,
    host_principal: Principal,
    now: u64,
) -> (r: ApiResult<EventInstance>)
    ensures
        old(store).wf() ==> final(store).wf(),
        final(store).series == old(store).series,
        final(store).settings == old(store).settings,
        final(store).notifications == old(store).notifications,
        !authorized(old(store).users@, caller) ==> r == Err::<EventInstance, ApiError>(
            ApiError::Unauthorized,
        ) && *final(store) == *old(store),
        authorized(old(store).users@, caller) && !ids_well_formed(series_id, instance_id) ==> r
            is Err && r.unwrap_err().kind() == ErrorKind::InvalidInput && *final(store) == *old(
            store,
        ),
        authorized(old(store).users@, caller) && ids_well_formed(series_id, instance_id) ==> {
            let at = position(old(store).users@, user_is(caller));
            let sid = optional_id(series_id);
            let iid = array16(instance_id@);
            &&& final(store).users@ == old(store).users@.update(
                at,
                User { last_active: now, ..old(store).users@[at] },
            )
            &&& match assign_check(
                old(store),
                sid,
                occurrence_start,
                iid,
                host_principal,
                caller,
                old(store).users@[at].role == Role::Admin,
            ) {
                Err(k) => {
                    &&& r is Err
                    &&& r.unwrap_err().kind() == k
                    &&& final(store).overrides == old(store).overrides
                    &&& final(store).instances == old(store).instances
                    &&& final(store).outbox == old(store).outbox
                },
                Ok(session) => {
                    &&& r == Ok::<EventInstance, ApiError>(
                        EventInstance { host_principal: Some(host_principal), ..session },
                    )
                    &&& host_stored(
                        old(store),
                        final(store),
                        sid,
                        occurrence_start,
                        session,
                        Some(host_principal),
                        caller,
                        now,
                    )
                    &&& final(store).outbox@ == outbox_after(
                        old(store).outbox@,
                        &lookup(old(store).users@, user_is(host_principal)).unwrap(),
                        NotificationType::HostAssigned,
                        iid,
                        session.start_utc,
                        session.end_utc,
                    )
                },
            }
        },
{
    let user: User = match require_authorized(store, caller) {
        Err(e) => {
            return Err(e);
        },
        Ok(u) => u,
    };
    let (sid, iid) = match parse_ids(&series_id, &instance_id) {
        Err(e) => {
            return Err(e);
        },
        Ok(ids) => ids,
    };
    proof {
        lemma_position(store.users@, user_is(caller));
    }
    let admin: bool = user.role == Role::Admin;
    let r = crate::coverage::assign_host(
        store,
        sid,
        occurrence_start,
        iid,
        host_principal,
        caller,
        admin,
        now,
    );
    let at: usize = user_position(&store.users, &caller);
    store.users[at].last_active = now;
    r
}

/// Removes the host of a session, for a user who may act.
pub fn unassign_host(
    store: &mut Store,
    caller: Principal,
    series_id: Option<Vec<u8>>,
    occurrence_start: Option<u64>,
    instance_id: Vec<u8>,
    now: u64,
) -> (r: ApiResult<EventInstance>)
    ensures
        old(store).wf() ==> final(store).wf(),
        !authorized(old(store).users@, caller) ==> r == Err::<EventInstance, ApiError>(
            ApiError::Unauthorized,
        ) && *final(store) == *old(store),
        authorized(old(store).users@, caller) && !ids_well_formed(series_id, instance_id) ==> r
            is Err && r.unwrap_err().kind() == ErrorKind::InvalidInput && *final(store) == *old(
            store,
        ),
        authorized(old(store).users@, caller) && ids_well_formed(series_id, instance_id) ==> {
            let sid = optional_id(series_id);
            let iid = array16(instance_id@);
            match unassign_check(old(store), sid, occurrence_start, iid, caller) {
                Err(k) => {
                    &&& r is Err
                    &&& r.unwrap_err().kind() == k
                    &&& *final(store) == *old(store)
                },
                Ok(session) => {
                    &&& r == Ok::<EventInstance, ApiError>(
                        EventInstance { host_principal: None, ..session },
                    )
                    &&& host_recorded(
                        old(store),
                        final(store),
                        sid,
                        occurrence_start,
                        session,
                        None,
                        caller,
                        now,
                    )
                    &&& final(store).outbox@ == crate::coverage::outbox_after_removal(
                        old(store),
                        session,
                        iid,
                    )
                },
            }
        },
{
    match require_authorized(store, caller) {
        Err(e) => {
            return Err(e);
        },
        Ok(_) => {},
    }
    let (sid, iid) = match parse_ids(&series_id, &instance_id) {
        Err(e) => {
            return Err(e);
        },
        Ok(ids) => ids,
    };
    crate::coverage::unassign_host(store, sid, occurrence_start, iid, caller, now)
}

/// The label of a month: `YYYY-MM`.
pub open spec fn month_label(year: int, month: int) -> Seq<char> {
    let bytes = crate::text::four_digits(year) + seq![45u8] + crate::text::two_digits(month);
    Seq::new(bytes.len(), |i: int| bytes[i] as char)
}

fn make_month_label(year: i32, month: u32) -> (s: String)
    requires
        0 <= year < 10000,
        month < 100,
    ensures
        s@ == month_label(year as int, month as int),
{
    let mut bytes: Vec<u8> = Vec::new();
    crate::text::push_four_digits(&mut bytes, year as u64);
    bytes.push(45);
    crate::text::push_two_digits(&mut bytes, month as u64);
    assert(bytes@ =~= crate::text::four_digits(year as int) + seq![45u8] + crate::text::two_digits(
        month as int,
    ));
    crate::text::ascii_string(bytes)
}

/// What the history holds for the month `back` months before the month
/// of `now`, if that month can be told.
pub open spec fn is_month_stats(s: CoverageStats, store: &Store, now: u64, back: int) -> bool {
    match crate::calendar::month_window_of(now, back) {
        Some(w) => {
            let sessions = materialized(store, w.0, w.1);
            &&& s.period_label@ == month_label(w.2, w.3)
            &&& s.total_sessions == crate::materialize::clamped(sessions.len() as int)
            &&& s.assigned == crate::materialize::clamped(
                crate::materialize::hosted_count(sessions, sessions.len() as int),
            )
            &&& s.unassigned == s.total_sessions - s.assigned
            &&& s.coverage_pct == crate::materialize::percent(
                s.assigned as int,
                s.total_sessions as int,
            )
        },
        None => false,
    }
}

/// Those of the months `n - 1`, `n - 2`, ... down to `from` months before
/// the month of `now` that can be told, in that order.
pub open spec fn months_told(now: u64, n: int, from: int) -> Seq<int>
    decreases n - from,
{
    if from >= n {
        Seq::empty()
    } else {
        let earlier = months_told(now, n, from + 1);
        if crate::calendar::month_window_of(now, from) is Some {
            earlier.push(from)
        } else {
            earlier
        }
    }
}

/// Session counts for the month of `now` and the months before it,
/// `months_back` months in all, oldest first, for an administrator.
/// Months before 1970 are left out.
pub fn get_coverage_history(store: &Store, caller: Principal, months_back: u8, now: u64) -> (r:
    ApiResult<Vec<CoverageStats>>)
    ensures
        !admin_caller(store.users@, caller) ==> r == Err::<Vec<CoverageStats>, ApiError>(
            ApiError::Unauthorized,
        ),
        admin_caller(store.users@, caller) ==> {
            &&& r is Ok
            &&& r.unwrap()@.len() == months_told(now, months_back as int, 0).len()
            &&& forall|j: int|
                0 <= j < r.unwrap()@.len() ==> is_month_stats(
                    #[trigger] r.unwrap()@[j],
                    store,
                    now,
                    months_told(now, months_back as int, 0)[j],
                )
        },
{
    match require_admin(store, caller) {
        Err(e) => {
            return Err(e);
        },
        Ok(_) => {},
    }
    let mut stats: Vec<CoverageStats> = Vec::new();
    let mut i: u8 = months_back;
    while i > 0
        invariant
            0 <= i <= months_back,
            stats@.len() == months_told(now, months_back as int, i as int).len(),
            forall|j: int|
                0 <= j < stats@.len() ==> is_month_stats(
                    #[trigger] stats@[j],
                    store,
                    now,
                    months_told(now, months_back as int, i as int)[j],
                ),
        decreases i,
    {
        let ghost earlier = months_told(now, months_back as int, i as int);
        i -= 1;
        match crate::calendar::month_window(now, i) {
            Some((start, end, year, month)) => {
                let label: String = make_month_label(year, month);
                let s: CoverageStats = crate::materialize::coverage_stats(store, start, end, label);
                assert(is_month_stats(s, store, now, i as int));
                stats.push(s);
                assert(months_told(now, months_back as int, i as int) == earlier.push(i as int));
            },
            None => {
                assert(months_told(now, months_back as int, i as int) == earlier);
            },
        }
    }
    Ok(stats)
}

/// The calendar file of a session of the window from the epoch to the
/// end of the forward window, for a user who may act.
pub fn get_event_ics(store: &Store, caller: Principal, instance_id: Vec<u8>, now: u64) -> (r:
    ApiResult<Vec<u8>>)
    requires
        crate::calendar::window_end(now, store.settings.forward_window_months as int) <= u64::MAX,
    ensures
        !authorized(store.users@, caller) ==> r == Err::<Vec<u8>, ApiError>(
            ApiError::Unauthorized,
        ),
        authorized(store.users@, caller) && instance_id@.len() != 16 ==> r is Err
            && r.unwrap_err().kind() == ErrorKind::InvalidInput,
        authorized(store.users@, caller) && instance_id@.len() == 16 ==> {
            let sessions = materialized(
                store,
                0,
                crate::calendar::window_end(now, store.settings.forward_window_months as int) as u64,
            );
            match lookup(sessions, instance_is(array16(instance_id@))) {
                Some(e) => r is Ok && r.unwrap()@ == crate::ics::ics_text(
                    e.instance_id,
                    e.title@,
                    e.notes@,
                    e.start_utc,
                    e.end_utc,
                    "REQUEST"@,
                    1,
                    e.status == EventStatus::Cancelled,
                    now,
                ),
                None => r == Err::<Vec<u8>, ApiError>(ApiError::NotFound),
            }
        },
{
    match require_authorized(store, caller) {
        Err(e) => {
            return Err(e);
        },
        Ok(_) => {},
    }
    let iid: [u8; 16] = match parse_id(&instance_id) {
        Err(e) => {
            return Err(e);
        },
        Ok(id) => id,
    };
    let end: u64 = crate::calendar::calculate_window_end(now, store.settings.forward_window_months);
    let events: Vec<EventInstance> = materialize_events(store, 0, end);
    let i: usize = crate::storage::instance_position(&events, &iid);
    if i >= events.len() {
        return Err(ApiError::NotFound);
    }
    let e: &EventInstance = &events[i];
    Ok(
        crate::ics::generate_ics(
            &e.instance_id,
            e.title.as_str(),
            e.notes.as_str(),
            e.start_utc,
            e.end_utc,
            "REQUEST",
            1,
            e.status == EventStatus::Cancelled,
            now,
        ),
    )
}


} // verus!
