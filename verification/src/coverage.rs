//! Coverage: assigning a host to a session and removing one.
//!
//! The host of an occurrence of a rule lives in the occurrence's
//! exception, which is created on the first write; the host of a one-off
//! session lives in the session itself.

use vstd::prelude::*;
use crate::auth::{admin_in, assignable, can_be_assigned_host, is_admin};
use crate::materialize::{resolve_occurrence, resolved};
use crate::occurrences::{is_occurrence, is_occurrence_of};
use crate::notifications::{
    create_host_assigned_notification, create_host_removed_notification, outbox_after,
};
use crate::storage::{
    Store, clone_instance, clone_override, clone_user, insert_instance, insert_override,
    instance_is, instance_position, lemma_position, lookup, override_is, override_position,
    series_is, series_position, upsert, user_is, user_position,
};
use crate::types::{
    ApiError, ApiResult, ErrorKind, EventInstance, EventStatus, InstanceOverride,
    NotificationType, OverrideKey, Principal, User,
};

verus! {

/// The session that a reference names as the state holds it: the resolved
/// occurrence of a stored rule, or a stored, active one-off session.
///
/// With a rule's identifier the occurrence's base instant must be given
/// too (`InvalidInput` otherwise). A rule or one-off session that is not
/// stored, an instant at which the rule has no occurrence, and an
/// occurrence or one-off session that is cancelled, is `NotFound`.
pub open spec fn current_session(
    store: &Store,
    series_id: Option<[u8; 16]>,
    occurrence_start: Option<u64>,
    instance_id: [u8; 16],
) -> Result<EventInstance, ErrorKind> {
    match series_id {
        Some(sid) => match occurrence_start {
            None => Err(ErrorKind::InvalidInput),
            Some(base) => match lookup(store.series@, series_is(sid)) {
                None => Err(ErrorKind::NotFound),
                Some(rule) => if !is_occurrence(&rule, base) {
                    Err(ErrorKind::NotFound)
                } else {
                    match resolved(rule, base, lookup(store.overrides@, override_is(sid, base))) {
                        Some(e) => Ok(e),
                        None => Err(ErrorKind::NotFound),
                    }
                },
            },
        },
        None => match lookup(store.instances@, instance_is(instance_id)) {
            Some(e) => if e.status == EventStatus::Active {
                Ok(e)
            } else {
                Err(ErrorKind::NotFound)
            },
            None => Err(ErrorKind::NotFound),
        },
    }
}

/// While claims are paused only an administrator may change hosts.
pub open spec fn pause_gate_closed(store: &Store, caller: Principal) -> bool {
    store.settings.claims_paused && !admin_in(store.users@, caller)
}

/// What decides an assignment once the pause gate is passed: the host
/// must be a stored user, the session must exist, and the host must be
/// able to take it unless an administrator overrides that.
pub open spec fn assign_check_open(
    store: &Store,
    series_id: Option<[u8; 16]>,
    occurrence_start: Option<u64>,
    instance_id: [u8; 16],
    host_principal: Principal,
    admin_override: bool,
) -> Result<EventInstance, ErrorKind> {
    match lookup(store.users@, user_is(host_principal)) {
        None => Err(ErrorKind::NotFound),
        Some(host) => match current_session(store, series_id, occurrence_start, instance_id) {
            Err(k) => Err(k),
            Ok(e) => if !admin_override && !assignable(&host, e.start_utc, e.end_utc) {
                Err(ErrorKind::Conflict)
            } else {
                Ok(e)
            },
        },
    }
}

/// Whether an assignment goes through, and on which session as it stands
/// before the write. The override of an administrator lifts the
/// availability check only, never the pause gate.
pub open spec fn assign_check(
    store: &Store,
    series_id: Option<[u8; 16]>,
    occurrence_start: Option<u64>,
    instance_id: [u8; 16],
    host_principal: Principal,
    caller: Principal,
    admin_override: bool,
) -> Result<EventInstance, ErrorKind> {
    if pause_gate_closed(store, caller) {
        Err(ErrorKind::Conflict)
    } else {
        assign_check_open(
            store,
            series_id,
            occurrence_start,
            instance_id,
            host_principal,
            admin_override,
        )
    }
}

/// Whether a removal goes through: past the pause gate it needs only that
/// the session exists.
pub open spec fn unassign_check(
    store: &Store,
    series_id: Option<[u8; 16]>,
    occurrence_start: Option<u64>,
    instance_id: [u8; 16],
    caller: Principal,
) -> Result<EventInstance, ErrorKind> {
    if pause_gate_closed(store, caller) {
        Err(ErrorKind::Conflict)
    } else {
        current_session(store, series_id, occurrence_start, instance_id)
    }
}

/// The exception of an occurrence after a write of its host at `now` by
/// `caller`: the stored exception, or an empty one where none is stored,
/// with the new host state.
pub open spec fn host_written(
    existing: Option<InstanceOverride>,
    series_id: [u8; 16],
    occurrence_start: u64,
    host: Option<Principal>,
    caller: Principal,
    now: u64,
) -> InstanceOverride {
    match existing {
        Some(o) => InstanceOverride {
            host_principal: host,
            host_cleared: host is None,
            updated_at: now,
            updated_by: caller,
            ..o
        },
        None => InstanceOverride {
            series_id,
            occurrence_start_utc: occurrence_start,
            start_utc: None,
            end_utc: None,
            notes: None,
            host_principal: host,
            host_cleared: host is None,
            cancelled: false,
            updated_at: now,
            updated_by: caller,
        },
    }
}

/// Where the host of `session` was written: for an occurrence of a rule
/// into its exception, for a one-off session into the session itself.
pub open spec fn host_stored(
    before: &Store,
    after: &Store,
    series_id: Option<[u8; 16]>,
    occurrence_start: Option<u64>,
    session: EventInstance,
    host: Option<Principal>,
    caller: Principal,
    now: u64,
) -> bool {
    match series_id {
        Some(sid) => {
            let base = occurrence_start.unwrap();
            &&& after.instances == before.instances
            &&& after.overrides@ == upsert(
                before.overrides@,
                override_is(sid, base),
                host_written(
                    lookup(before.overrides@, override_is(sid, base)),
                    sid,
                    base,
                    host,
                    caller,
                    now,
                ),
            )
        },
        None => {
            &&& after.overrides == before.overrides
            &&& after.instances@ == upsert(
                before.instances@,
                instance_is(session.instance_id),
                EventInstance { host_principal: host, ..session },
            )
        },
    }
}

/// The state after the host of `session` was set to `host`: the host is
/// stored, and users, rules, settings and jobs stay.
pub open spec fn host_recorded(
    before: &Store,
    after: &Store,
    series_id: Option<[u8; 16]>,
    occurrence_start: Option<u64>,
    session: EventInstance,
    host: Option<Principal>,
    caller: Principal,
    now: u64,
) -> bool {
    &&& after.users == before.users
    &&& after.series == before.series
    &&& after.settings == before.settings
    &&& after.notifications == before.notifications
    &&& host_stored(before, after, series_id, occurrence_start, session, host, caller, now)
}

/// An occurrence whose host was written resolves to the session it
/// resolved to before, with the new host: after a removal it has none.
pub proof fn lemma_host_written_resolves(
    rule: crate::types::EventSeries,
    base: u64,
    existing: Option<InstanceOverride>,
    host: Option<Principal>,
    caller: Principal,
    now: u64,
)
    requires
        resolved(rule, base, existing) is Some,
    ensures
        resolved(
            rule,
            base,
            Some(host_written(existing, rule.series_id, base, host, caller, now)),
        ) == Some(EventInstance { host_principal: host, ..resolved(rule, base, existing).unwrap() }),
{
}

/// The outbox after a host was removed from `session`: the former host,
/// where there was one and that user is stored and wants such events, is
/// told.
pub open spec fn outbox_after_removal(
    before: &Store,
    session: EventInstance,
    instance_id: [u8; 16],
) -> Seq<crate::storage::NotificationEvent> {
    match session.host_principal {
        Some(h) => match lookup(before.users@, user_is(h)) {
            Some(u) => outbox_after(
                before.outbox@,
                &u,
                NotificationType::HostRemoved,
                instance_id,
                session.start_utc,
                session.end_utc,
            ),
            None => before.outbox@,
        },
        None => before.outbox@,
    }
}

/// A disabled user cannot be assigned unless an administrator overrides
/// it. A user who is out of office for exactly the span of a session that
/// is not empty cannot be assigned either, while a session that ends at
/// the instant at which the user's absence begins does not overlap it.
pub proof fn lemma_eligibility(
    store: &Store,
    series_id: Option<[u8; 16]>,
    occurrence_start: Option<u64>,
    instance_id: [u8; 16],
    host_principal: Principal,
    caller: Principal,
    t1: u64,
    t2: u64,
    i: int,
)
    requires
        !pause_gate_closed(store, caller),
        lookup(store.users@, user_is(host_principal)) is Some,
        current_session(store, series_id, occurrence_start, instance_id) is Ok,
    ensures
        ({
            let host = lookup(store.users@, user_is(host_principal)).unwrap();
            let session = current_session(store, series_id, occurrence_start, instance_id).unwrap();
            &&& host.status == crate::types::UserStatus::Disabled ==> assign_check(
                store,
                series_id,
                occurrence_start,
                instance_id,
                host_principal,
                caller,
                false,
            ) == Err::<EventInstance, ErrorKind>(ErrorKind::Conflict)
            &&& assign_check(
                store,
                series_id,
                occurrence_start,
                instance_id,
                host_principal,
                caller,
                true,
            ) == Ok::<EventInstance, ErrorKind>(session)
            &&& (0 <= i < host.out_of_office@.len() && host.out_of_office@[i]
                == crate::types::OOOBlock { start_utc: t1, end_utc: t2 } && session.start_utc
                == t1 && session.end_utc == t2 && t1 < t2) ==> assign_check(
                store,
                series_id,
                occurrence_start,
                instance_id,
                host_principal,
                caller,
                false,
            ) == Err::<EventInstance, ErrorKind>(ErrorKind::Conflict)
            &&& (host.status != crate::types::UserStatus::Disabled && host.out_of_office@
                =~= seq![crate::types::OOOBlock { start_utc: t1, end_utc: t2 }]
                && session.end_utc == t1) ==> assign_check(
                store,
                series_id,
                occurrence_start,
                instance_id,
                host_principal,
                caller,
                false,
            ) == Ok::<EventInstance, ErrorKind>(session)
        }),
{
    let host = lookup(store.users@, user_is(host_principal)).unwrap();
    let session = current_session(store, series_id, occurrence_start, instance_id).unwrap();
    if 0 <= i < host.out_of_office@.len() && host.out_of_office@[i] == (crate::types::OOOBlock {
        start_utc: t1,
        end_utc: t2,
    }) && session.start_utc == t1 && session.end_utc == t2 && t1 < t2 {
        assert(crate::auth::overlaps(host.out_of_office@[i], session.start_utc, session.end_utc));
    }
}

/// While claims are paused, assigning and removing a host fail with
/// `Conflict` for everyone but an administrator. For an administrator they
/// go through exactly where they would with claims running.
pub proof fn lemma_pause_gate(
    store: &Store,
    series_id: Option<[u8; 16]>,
    occurrence_start: Option<u64>,
    instance_id: [u8; 16],
    host_principal: Principal,
    caller: Principal,
    admin_override: bool,
)
    requires
        store.settings.claims_paused,
    ensures
        !admin_in(store.users@, caller) ==> {
            &&& assign_check(
                store,
                series_id,
                occurrence_start,
                instance_id,
                host_principal,
                caller,
                admin_override,
            ) == Err::<EventInstance, ErrorKind>(ErrorKind::Conflict)
            &&& unassign_check(store, series_id, occurrence_start, instance_id, caller) == Err::<
                EventInstance,
                ErrorKind,
            >(ErrorKind::Conflict)
        },
        admin_in(store.users@, caller) ==> {
            &&& assign_check(
                store,
                series_id,
                occurrence_start,
                instance_id,
                host_principal,
                caller,
                admin_override,
            ) == assign_check_open(
                store,
                series_id,
                occurrence_start,
                instance_id,
                host_principal,
                admin_override,
            )
            &&& unassign_check(store, series_id, occurrence_start, instance_id, caller)
                == current_session(store, series_id, occurrence_start, instance_id)
        },
{
}

/// The session that a reference names, as materializing would give it.
pub fn get_event_instance(
    store: &Store,
    series_id: Option<[u8; 16]>,
    occurrence_start: Option<u64>,
    instance_id: &[u8; 16],
) -> (r: ApiResult<EventInstance>)
    ensures
        match current_session(store, series_id, occurrence_start, *instance_id) {
            Ok(e) => r == Ok::<EventInstance, ApiError>(e),
            Err(k) => r is Err && r.unwrap_err().kind() == k,
        },
{
    match series_id {
        Some(sid) => {
            let base: u64 = match occurrence_start {
                Some(b) => b,
                None => {
                    return Err(ApiError::InvalidInput("occurrence_start required".to_string()));
                },
            };
            let i: usize = series_position(&store.series, &sid);
            if i >= store.series.len() {
                return Err(ApiError::NotFound);
            }
            if !is_occurrence_of(&store.series[i], base) {
                return Err(ApiError::NotFound);
            }
            let key = OverrideKey { series_id: sid, occurrence_start_utc: base };
            let k: usize = override_position(&store.overrides, &key);
            let exc: Option<InstanceOverride> = if k < store.overrides.len() {
                Some(clone_override(&store.overrides[k]))
            } else {
                None
            };
            match resolve_occurrence(&store.series[i], base, &exc) {
                Some(e) => Ok(e),
                None => Err(ApiError::NotFound),
            }
        },
        None => {
            let i: usize = instance_position(&store.instances, instance_id);
            if i < store.instances.len() && store.instances[i].status == EventStatus::Active {
                Ok(clone_instance(&store.instances[i]))
            } else {
                Err(ApiError::NotFound)
            }
        },
    }
}

/// Start and end of the session that a reference names, as resolved.
pub fn get_event_timing(
    store: &Store,
    series_id: Option<[u8; 16]>,
    occurrence_start: Option<u64>,
    instance_id: &[u8; 16],
) -> (r: ApiResult<(u64, u64)>)
    ensures
        match current_session(store, series_id, occurrence_start, *instance_id) {
            Ok(e) => r == Ok::<(u64, u64), ApiError>((e.start_utc, e.end_utc)),
            Err(k) => r is Err && r.unwrap_err().kind() == k,
        },
{
    match get_event_instance(store, series_id, occurrence_start, instance_id) {
        Ok(e) => Ok((e.start_utc, e.end_utc)),
        Err(e) => Err(e),
    }
}

/// Writes the host state of a session that exists.
fn record_host(
    store: &mut Store,
    series_id: Option<[u8; 16]>,
    occurrence_start: Option<u64>,
    instance_id: &[u8; 16],
    session: &EventInstance,
    host: Option<Principal>,
    caller: Principal,
    now: u64,
) -> (updated: EventInstance)
    requires
        current_session(old(store), series_id, occurrence_start, *instance_id) == Ok::<
            EventInstance,
            ErrorKind,
        >(*session),
    ensures
        host_recorded(
            old(store),
            final(store),
            series_id,
            occurrence_start,
            *session,
            host,
            caller,
            now,
        ),
        final(store).outbox == old(store).outbox,
        updated == (EventInstance { host_principal: host, ..*session }),
        old(store).wf() ==> final(store).wf(),
{
    match series_id {
        Some(sid) => {
            let base: u64 = occurrence_start.unwrap();
            let key = OverrideKey { series_id: sid, occurrence_start_utc: base };
            let k: usize = override_position(&store.overrides, &key);
            let mut ovr: InstanceOverride = if k < store.overrides.len() {
                clone_override(&store.overrides[k])
            } else {
                InstanceOverride {
                    series_id: sid,
                    occurrence_start_utc: base,
                    start_utc: None,
                    end_utc: None,
                    notes: None,
                    host_principal: None,
                    host_cleared: false,
                    cancelled: false,
                    updated_at: now,
                    updated_by: caller,
                }
            };
            proof {
                lemma_position(store.overrides@, override_is(sid, base));
            }
            ovr.host_principal = host;
            ovr.host_cleared = host.is_none();
            ovr.updated_at = now;
            ovr.updated_by = caller;
            insert_override(store, ovr);
        },
        None => {
            proof {
                lemma_position(store.instances@, instance_is(*instance_id));
            }
            let mut inst: EventInstance = clone_instance(session);
            inst.host_principal = host;
            insert_instance(store, inst);
        },
    }
    let mut updated: EventInstance = clone_instance(session);
    updated.host_principal = host;
    updated
}

/// Makes `host_principal` the host of a session.
///
/// Fails with `Conflict` while claims are paused and `caller` is no
/// administrator; with `NotFound` where the host is no stored user or the
/// session does not exist; with `InvalidInput` where a rule is named
/// without an occurrence; and with `Conflict` where the host is disabled
/// or out of office during the session and `admin_override` is not set. A
/// call that fails changes nothing. Otherwise the host is written, the
/// host is told if they want to be, and the session is returned as it now
/// resolves.
pub fn assign_host(
    store: &mut Store,
    series_id: Option<[u8; 16]>,
    occurrence_start: Option<u64>,
    instance_id: [u8; 16],
    host_principal: Principal,
    caller: Principal,
    admin_override: bool,
    now: u64,
) -> (r: ApiResult<EventInstance>)
    ensures
        match assign_check(
            old(store),
            series_id,
            occurrence_start,
            instance_id,
            host_principal,
            caller,
            admin_override,
        ) {
            Err(k) => {
                &&& r is Err
                &&& r.unwrap_err().kind() == k
                &&& *final(store) == *old(store)
            },
            Ok(session) => {
                &&& r == Ok::<EventInstance, ApiError>(
                    EventInstance { host_principal: Some(host_principal), ..session },
                )
                &&& host_recorded(
                    old(store),
                    final(store),
                    series_id,
                    occurrence_start,
                    session,
                    Some(host_principal),
                    caller,
                    now,
                )
                &&& final(store).outbox@ == outbox_after(
                    old(store).outbox@,
                    &lookup(old(store).users@, user_is(host_principal)).unwrap(),
                    NotificationType::HostAssigned,
                    instance_id,
                    session.start_utc,
                    session.end_utc,
                )
            },
        },
        old(store).wf() ==> final(store).wf(),
{
    if store.settings.claims_paused && !is_admin(store, &caller) {
        return Err(ApiError::Conflict("Claims are currently paused".to_string()));
    }
    let h: usize = user_position(&store.users, &host_principal);
    if h >= store.users.len() {
        return Err(ApiError::NotFound);
    }
    let host_user: User = clone_user(&store.users[h]);
    let session: EventInstance = match get_event_instance(
        store,
        series_id,
        occurrence_start,
        &instance_id,
    ) {
        Ok(e) => e,
        Err(e) => {
            return Err(e);
        },
    };
    if !admin_override && !can_be_assigned_host(&host_user, session.start_utc, session.end_utc) {
        return Err(
            ApiError::Conflict("User cannot be assigned (disabled or on out-of-office)".to_string()),
        );
    }
    let updated: EventInstance = record_host(
        store,
        series_id,
        occurrence_start,
        &instance_id,
        &session,
        Some(host_principal),
        caller,
        now,
    );
    create_host_assigned_notification(
        store,
        &host_user,
        &instance_id,
        session.start_utc,
        session.end_utc,
    );
    Ok(updated)
}

/// Removes the host of a session.
///
/// Fails with `Conflict` while claims are paused and `caller` is no
/// administrator; with `NotFound` where the session does not exist; and
/// with `InvalidInput` where a rule is named without an occurrence. A call
/// that fails changes nothing. Otherwise the occurrence's exception is
/// marked as cleared of its host (a one-off session loses its host), the
/// former host is told if there was one who wants to be, and the session
/// is returned as it now resolves.
pub fn unassign_host(
    store: &mut Store,
    series_id: Option<[u8; 16]>,
    occurrence_start: Option<u64>,
    instance_id: [u8; 16],
    caller: Principal,
    now: u64,
) -> (r: ApiResult<EventInstance>)
    ensures
        match unassign_check(old(store), series_id, occurrence_start, instance_id, caller) {
            Err(k) => {
                &&& r is Err
                &&& r.unwrap_err().kind() == k
                &&& *final(store) == *old(store)
            },
            Ok(session) => {
                &&& r == Ok::<EventInstance, ApiError>(
                    EventInstance { host_principal: None, ..session },
                )
                &&& host_recorded(
                    old(store),
                    final(store),
                    series_id,
                    occurrence_start,
                    session,
                    None,
                    caller,
                    now,
                )
                &&& final(store).outbox@ == outbox_after_removal(old(store), session, instance_id)
            },
        },
        old(store).wf() ==> final(store).wf(),
{
    if store.settings.claims_paused && !is_admin(store, &caller) {
        return Err(ApiError::Conflict("Claims are currently paused".to_string()));
    }
    let session: EventInstance = match get_event_instance(
        store,
        series_id,
        occurrence_start,
        &instance_id,
    ) {
        Ok(e) => e,
        Err(e) => {
            return Err(e);
        },
    };
    let former: Option<User> = match session.host_principal {
        Some(p) => {
            let h: usize = user_position(&store.users, &p);
            if h < store.users.len() {
                Some(clone_user(&store.users[h]))
            } else {
                None
            }
        },
        None => None,
    };
    let updated: EventInstance = record_host(
        store,
        series_id,
        occurrence_start,
        &instance_id,
        &session,
        None,
        caller,
        now,
    );
    match former {
        Some(user) => {
            create_host_removed_notification(
                store,
                &user,
                &instance_id,
                session.start_utc,
                session.end_utc,
            );
        },
        None => {},
    }
    Ok(updated)
}

} // verus!
