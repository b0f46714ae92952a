//! Who may act: the checks on the caller's identity, role and status, and
//! on a user's availability as host.

use vstd::prelude::*;
use crate::storage::{Store, clone_user, lookup, position, upsert, user_is, user_position};
use crate::types::{
    ApiError, ApiResult, NotificationSettings, OOOBlock, Principal, Role, User, UserStatus,
};

verus! {

impl Principal {
    /// The identity of a caller that did not authenticate: the single
    /// byte 4.
    pub open spec fn is_anonymous(&self) -> bool {
        self.len == 1 && self.bytes@[0] == 4
    }

    /// The anonymous identity.
    pub fn anonymous() -> (p: Principal)
        ensures
            p.is_anonymous(),
            p.len == 1,
            forall|i: int| 1 <= i < 29 ==> p.bytes@[i] == 0,
    {
        let mut bytes: [u8; 29] = [0u8;29];
        bytes[0] = 4;
        Principal { len: 1, bytes }
    }
}

/// Half-open spans overlap where each starts before the other ends.
pub open spec fn overlaps(block: OOOBlock, event_start: u64, event_end: u64) -> bool {
    event_start < block.end_utc && event_end > block.start_utc
}

/// A user can host the span `[event_start, event_end)` unless the user is
/// disabled or one of the user's out-of-office blocks overlaps the span.
pub open spec fn assignable(user: &User, event_start: u64, event_end: u64) -> bool {
    &&& user.status != UserStatus::Disabled
    &&& forall|i: int|
        0 <= i < user.out_of_office@.len() ==> !overlaps(
            #[trigger] user.out_of_office@[i],
            event_start,
            event_end,
        )
}

/// An administrator is an active user with the role `Admin`.
pub open spec fn admin_in(users: Seq<User>, principal: Principal) -> bool {
    match lookup(users, user_is(principal)) {
        Some(u) => u.role == Role::Admin && u.status == UserStatus::Active,
        None => false,
    }
}

/// A caller may act who is not anonymous and is stored as an active user.
pub open spec fn authorized(users: Seq<User>, caller: Principal) -> bool {
    match lookup(users, user_is(caller)) {
        Some(u) => !caller.is_anonymous() && u.status == UserStatus::Active,
        None => false,
    }
}

/// A caller acts as administrator who may act and has the role `Admin`.
pub open spec fn admin_caller(users: Seq<User>, caller: Principal) -> bool {
    authorized(users, caller) && admin_in(users, caller)
}

/// The caller's identity, unless the caller is anonymous.
pub fn require_authenticated(caller: Principal) -> (r: ApiResult<Principal>)
    ensures
        caller.is_anonymous() ==> r == Err::<Principal, ApiError>(ApiError::Unauthorized),
        !caller.is_anonymous() ==> r == Ok::<Principal, ApiError>(caller),
{
    if caller.len == 1 && caller.bytes[0] == 4 {
        return Err(ApiError::Unauthorized);
    }
    Ok(caller)
}

/// The caller's user record, where the caller is a stored, active user.
pub fn require_authorized(store: &Store, caller: Principal) -> (r: ApiResult<User>)
    ensures
        r is Ok == authorized(store.users@, caller),
        match lookup(store.users@, user_is(caller)) {
            Some(u) => if !caller.is_anonymous() && u.status == UserStatus::Active {
                r is Ok && r.unwrap().same_as(&u)
            } else {
                r == Err::<User, ApiError>(ApiError::Unauthorized)
            },
            None => r == Err::<User, ApiError>(ApiError::Unauthorized),
        },
{
    match require_authenticated(caller) {
        Err(e) => Err(e),
        Ok(principal) => {
            let i: usize = user_position(&store.users, &principal);
            if i < store.users.len() && store.users[i].status == UserStatus::Active {
                Ok(clone_user(&store.users[i]))
            } else {
                Err(ApiError::Unauthorized)
            }
        },
    }
}

/// The caller's user record, where the caller is an active administrator.
pub fn require_admin(store: &Store, caller: Principal) -> (r: ApiResult<User>)
    ensures
        r is Ok == admin_caller(store.users@, caller),
        match lookup(store.users@, user_is(caller)) {
            Some(u) => if !caller.is_anonymous() && u.status == UserStatus::Active && u.role
                == Role::Admin {
                r is Ok && r.unwrap().same_as(&u)
            } else {
                r == Err::<User, ApiError>(ApiError::Unauthorized)
            },
            None => r == Err::<User, ApiError>(ApiError::Unauthorized),
        },
{
    match require_authorized(store, caller) {
        Err(e) => Err(e),
        Ok(user) => {
            if user.role != Role::Admin {
                return Err(ApiError::Unauthorized);
            }
            Ok(user)
        },
    }
}

/// The user as it is after an action at `now`.
pub open spec fn touched(u: User, now: u64) -> User {
    User { last_active: now, ..u }
}

/// Notes that the user stored under `principal`, if any, was active at
/// `now`.
pub fn touch_last_active(store: &mut Store, principal: &Principal, now: u64)
    ensures
        match lookup(old(store).users@, user_is(*principal)) {
            Some(u) => final(store).users@ == old(store).users@.update(
                position(old(store).users@, user_is(*principal)),
                touched(u, now),
            ),
            None => final(store).users == old(store).users,
        },
        final(store).series == old(store).series,
        final(store).overrides == old(store).overrides,
        final(store).instances == old(store).instances,
        final(store).settings == old(store).settings,
        final(store).notifications == old(store).notifications,
        final(store).outbox == old(store).outbox,
        old(store).wf() ==> final(store).wf(),
{
    let i: usize = user_position(&store.users, principal);
    if i < store.users.len() {
        store.users[i].last_active = now;
    }
}

/// Whether `user` can host a session that runs from `event_start` to
/// `event_end`.
pub fn can_be_assigned_host(user: &User, event_start: u64, event_end: u64) -> (r: bool)
    ensures
        r == assignable(user, event_start, event_end),
{
    if user.status == UserStatus::Disabled {
        return false;
    }
    let mut i: usize = 0;
    while i < user.out_of_office.len()
        invariant
            0 <= i <= user.out_of_office@.len(),
            user.status != UserStatus::Disabled,
            forall|j: int|
                0 <= j < i ==> !overlaps(#[trigger] user.out_of_office@[j], event_start, event_end),
        decreases user.out_of_office@.len() - i,
    {
        let block: OOOBlock = user.out_of_office[i];
        if event_start < block.end_utc && event_end > block.start_utc {
            return false;
        }
        i += 1;
    }
    true
}

/// Whether `principal` is stored as an active administrator.
pub fn is_admin(store: &Store, principal: &Principal) -> (r: bool)
    ensures
        r == admin_in(store.users@, *principal),
{
    let i: usize = user_position(&store.users, principal);
    if i < store.users.len() {
        store.users[i].role == Role::Admin && store.users[i].status == UserStatus::Active
    } else {
        false
    }
}

/// Stores the first administrator, active from `now` on, with the default
/// notification settings.
pub fn initialize_admin(store: &mut Store, principal: Principal, name: String, email: String, now: u64)
    ensures
        lookup(final(store).users@, user_is(principal)) is Some,
        final(store).users@ == upsert(
            old(store).users@,
            user_is(principal),
            lookup(final(store).users@, user_is(principal)).unwrap(),
        ),
        lookup(final(store).users@, user_is(principal)) matches Some(u) && {
            &&& u.principal == principal
            &&& u.name == name
            &&& u.email == email
            &&& u.role == Role::Admin
            &&& u.status == UserStatus::Active
            &&& u.out_of_office@.len() == 0
            &&& u.notification_settings == (NotificationSettings {
                email_on_assigned: true,
                email_on_removed: true,
                email_on_cancelled: true,
                email_on_time_changed: true,
                email_unclaimed_reminder: false,
                reminder_hours_before: Some(24u32),
            })
            &&& u.last_active == now
            &&& u.sessions_hosted_count == 0
            &&& u.created_at == now
            &&& u.updated_at == now
        },
        admin_in(final(store).users@, principal),
        final(store).series == old(store).series,
        final(store).overrides == old(store).overrides,
        final(store).instances == old(store).instances,
        final(store).settings == old(store).settings,
        final(store).notifications == old(store).notifications,
        final(store).outbox == old(store).outbox,
        old(store).wf() ==> final(store).wf(),
{
    let user = User {
        principal,
        name,
        email,
        role: Role::Admin,
        status: UserStatus::Active,
        out_of_office: Vec::new(),
        notification_settings: NotificationSettings::default(),
        last_active: now,
        sessions_hosted_count: 0,
        created_at: now,
        updated_at: now,
    };
    proof {
        crate::storage::lemma_position(store.users@, user_is(principal));
        let i = crate::storage::position(store.users@, user_is(principal));
        crate::storage::lemma_position_is(upsert(store.users@, user_is(principal), user), user_is(principal), i);
    }
    crate::storage::insert_user(store, user);
}

} // verus!
