//! The scheduler's state: users, rules, exceptions, one-off sessions,
//! settings and notification jobs, each collection keyed by an identifier.
//!
//! A collection is a sequence in which an entry is found by the first
//! position whose key matches. Writing under a key replaces the entry at
//! that position, or appends one where the key is new, so a collection that
//! starts without a repeated key never gets one.

use vstd::prelude::*;
use crate::types::{
    EventInstance, EventSeries, GlobalSettings, InstanceOverride, NotificationJob,
    NotificationStatus, NotificationType, OOOBlock, OverrideKey, Principal, User, bytes_equal,
    clone_opt_string,
};

verus! {

/// What the notification collaborator is told: who is concerned, what
/// happened, and the timing of the session it happened to.
#[derive(Clone, Debug, PartialEq, Eq)]
pub struct NotificationEvent {
    pub kind: NotificationType,
    pub recipient: Principal,
    pub recipient_email: String,
    pub instance_id: [u8; 16],
    pub start_utc: u64,
    pub end_utc: u64,
}

/// The whole state of the scheduler.
pub struct Store {
    pub users: Vec<User>,
    pub series: Vec<EventSeries>,
    pub overrides: Vec<InstanceOverride>,
    pub instances: Vec<EventInstance>,
    pub settings: GlobalSettings,
    pub notifications: Vec<NotificationJob>,
    /// Notification events not yet handed to the collaborator, oldest first.
    pub outbox: Vec<NotificationEvent>,
}

/// The first position of `s` whose entry satisfies `p`, or the length of
/// `s` where none does.
pub open spec fn position<T>(s: Seq<T>, p: spec_fn(T) -> bool) -> int
    decreases s.len(),
{
    if s.len() == 0 {
        0
    } else if p(s[0]) {
        0
    } else {
        1 + position(s.drop_first(), p)
    }
}

/// The first entry of `s` that satisfies `p`, if there is one.
pub open spec fn lookup<T>(s: Seq<T>, p: spec_fn(T) -> bool) -> Option<T> {
    let i = position(s, p);
    if i < s.len() {
        Some(s[i])
    } else {
        None
    }
}

/// `s` with `v` in place of the first entry that satisfies `p`, or at the
/// end where none does.
pub open spec fn upsert<T>(s: Seq<T>, p: spec_fn(T) -> bool, v: T) -> Seq<T> {
    let i = position(s, p);
    if i < s.len() {
        s.update(i, v)
    } else {
        s.push(v)
    }
}

/// `s` without the first entry that satisfies `p`.
pub open spec fn without<T>(s: Seq<T>, p: spec_fn(T) -> bool) -> Seq<T> {
    let i = position(s, p);
    if i < s.len() {
        s.remove(i)
    } else {
        s
    }
}

/// The position found lies in the sequence or at its end, its entry
/// satisfies `p`, and no entry before it does.
pub proof fn lemma_position<T>(s: Seq<T>, p: spec_fn(T) -> bool)
    ensures
        0 <= position(s, p) <= s.len(),
        position(s, p) < s.len() ==> p(s[position(s, p)]),
        forall|j: int| 0 <= j < position(s, p) ==> !p(#[trigger] s[j]),
    decreases s.len(),
{
    if s.len() > 0 && !p(s[0]) {
        let t = s.drop_first();
        lemma_position(t, p);
        assert forall|j: int| 0 <= j < position(s, p) implies !p(#[trigger] s[j]) by {
            if j > 0 {
                assert(s[j] == t[j - 1]);
            }
        }
    }
}

/// A place before which no entry satisfies `p`, and which is the end or
/// holds an entry that does, is the position found.
pub proof fn lemma_position_is<T>(s: Seq<T>, p: spec_fn(T) -> bool, i: int)
    requires
        0 <= i <= s.len(),
        forall|j: int| 0 <= j < i ==> !p(#[trigger] s[j]),
        i < s.len() ==> p(s[i]),
    ensures
        position(s, p) == i,
    decreases s.len(),
{
    if s.len() > 0 && i > 0 {
        let t = s.drop_first();
        assert(!p(s[0]));
        assert forall|j: int| 0 <= j < i - 1 implies !p(#[trigger] t[j]) by {
            assert(t[j] == s[j + 1]);
        }
        lemma_position_is(t, p, i - 1);
    }
}

/// What was written under a key is what is read under it, and the
/// collection grows by one entry where the key was new.
pub proof fn lemma_lookup_written<T>(s: Seq<T>, p: spec_fn(T) -> bool, v: T)
    requires
        p(v),
    ensures
        lookup(upsert(s, p, v), p) == Some(v),
        lookup(s, p) is Some ==> upsert(s, p, v).len() == s.len(),
        lookup(s, p) is None ==> upsert(s, p, v).len() == s.len() + 1,
{
    lemma_position(s, p);
    lemma_position_is(upsert(s, p, v), p, position(s, p));
}

/// A write under one key leaves what is read under every other key.
pub proof fn lemma_lookup_other<T>(s: Seq<T>, p: spec_fn(T) -> bool, q: spec_fn(T) -> bool, v: T)
    requires
        !q(v),
        forall|x: T| #[trigger] p(x) ==> !q(x),
    ensures
        lookup(upsert(s, p, v), q) == lookup(s, q),
{
    lemma_position(s, p);
    lemma_position(s, q);
    let t = upsert(s, p, v);
    let k = position(s, q);
    if k < s.len() {
        assert(!p(s[k]));
        lemma_position_is(t, q, k);
    } else {
        lemma_position_is(t, q, t.len() as int);
    }
}

/// After a removal nothing is read under the key, where nothing was
/// stored under it twice.
pub proof fn lemma_lookup_removed<T>(s: Seq<T>, p: spec_fn(T) -> bool)
    requires
        forall|i: int, j: int| 0 <= i < j < s.len() ==> !(p(#[trigger] s[i]) && p(#[trigger] s[j])),
    ensures
        lookup(without(s, p), p) is None,
        lookup(s, p) is Some ==> without(s, p).len() == s.len() - 1,
{
    lemma_position(s, p);
    let i = position(s, p);
    let t = without(s, p);
    if i < s.len() {
        assert forall|j: int| 0 <= j < t.len() implies !p(#[trigger] t[j]) by {
            if j >= i {
                assert(t[j] == s[j + 1]);
                assert(!(p(s[i]) && p(s[j + 1])));
            }
        }
    }
    lemma_position_is(t, p, t.len() as int);
}

/// The users with this principal.
pub open spec fn user_is(principal: Principal) -> spec_fn(User) -> bool {
    |u: User| u.principal == principal
}

/// The rules with this identifier.
pub open spec fn series_is(id: [u8; 16]) -> spec_fn(EventSeries) -> bool {
    |s: EventSeries| s.series_id == id
}

/// The exceptions of this occurrence.
pub open spec fn override_is(series_id: [u8; 16], occurrence_start: u64) -> spec_fn(
    InstanceOverride,
) -> bool {
    |o: InstanceOverride| o.series_id == series_id && o.occurrence_start_utc == occurrence_start
}

/// The sessions with this identifier.
pub open spec fn instance_is(id: [u8; 16]) -> spec_fn(EventInstance) -> bool {
    |e: EventInstance| e.instance_id == id
}

/// The jobs with this identifier.
pub open spec fn job_is(id: [u8; 16]) -> spec_fn(NotificationJob) -> bool {
    |j: NotificationJob| j.job_id == id
}

impl Store {
    /// No collection holds two entries under one key.
    pub open spec fn wf(&self) -> bool {
        &&& forall|i: int, j: int|
            0 <= i < j < self.users@.len() ==> (#[trigger] self.users@[i]).principal != (
            #[trigger] self.users@[j]).principal
        &&& forall|i: int, j: int|
            0 <= i < j < self.series@.len() ==> (#[trigger] self.series@[i]).series_id != (
            #[trigger] self.series@[j]).series_id
        &&& forall|i: int, j: int|
            0 <= i < j < self.overrides@.len() ==> !({
                &&& (#[trigger] self.overrides@[i]).series_id == (
                #[trigger] self.overrides@[j]).series_id
                &&& self.overrides@[i].occurrence_start_utc
                    == self.overrides@[j].occurrence_start_utc
            })
        &&& forall|i: int, j: int|
            0 <= i < j < self.instances@.len() ==> (#[trigger] self.instances@[i]).instance_id
                != (#[trigger] self.instances@[j]).instance_id
        &&& forall|i: int, j: int|
            0 <= i < j < self.notifications@.len() ==> (#[trigger] self.notifications@[i]).job_id
                != (#[trigger] self.notifications@[j]).job_id
    }

    /// A state without users, rules or sessions, with the default settings.
    pub fn new() -> (store: Store)
        ensures
            store.wf(),
            store.users@.len() == 0,
            store.series@.len() == 0,
            store.overrides@.len() == 0,
            store.instances@.len() == 0,
            store.notifications@.len() == 0,
            store.outbox@.len() == 0,
            store.settings == (GlobalSettings {
                forward_window_months: 2u8,
                claims_paused: false,
                default_event_duration_minutes: 60u32,
                org_name: None,
                org_tagline: None,
                org_logo_url: None,
            }),
    {
        Store {
            users: Vec::new(),
            series: Vec::new(),
            overrides: Vec::new(),
            instances: Vec::new(),
            settings: GlobalSettings {
                forward_window_months: 2,
                claims_paused: false,
                default_event_duration_minutes: 60,
                org_name: None,
                org_tagline: None,
                org_logo_url: None,
            },
            notifications: Vec::new(),
            outbox: Vec::new(),
        }
    }
}

/// A copy of a list of out-of-office blocks.
pub fn clone_blocks(blocks: &Vec<OOOBlock>) -> (out: Vec<OOOBlock>)
    ensures
        out@ == blocks@,
{
    let mut out: Vec<OOOBlock> = Vec::new();
    let mut i: usize = 0;
    while i < blocks.len()
        invariant
            0 <= i <= blocks@.len(),
            out@ == blocks@.subrange(0, i as int),
        decreases blocks@.len() - i,
    {
        out.push(blocks[i]);
        i += 1;
        assert(out@ =~= blocks@.subrange(0, i as int));
    }
    assert(out@ =~= blocks@);
    out
}

/// A copy of a user.
pub fn clone_user(u: &User) -> (r: User)
    ensures
        r.same_as(u),
{
    User {
        principal: u.principal,
        name: u.name.clone(),
        email: u.email.clone(),
        role: u.role,
        status: u.status,
        out_of_office: clone_blocks(&u.out_of_office),
        notification_settings: u.notification_settings,
        last_active: u.last_active,
        sessions_hosted_count: u.sessions_hosted_count,
        created_at: u.created_at,
        updated_at: u.updated_at,
    }
}

/// A copy of a rule.
pub fn clone_series(s: &EventSeries) -> (r: EventSeries)
    ensures
        r == *s,
{
    EventSeries {
        series_id: s.series_id,
        title: s.title.clone(),
        notes: s.notes.clone(),
        link: clone_opt_string(&s.link),
        frequency: s.frequency,
        weekday: s.weekday,
        weekday_ordinal: s.weekday_ordinal,
        start_date: s.start_date,
        end_date: s.end_date,
        default_duration_minutes: s.default_duration_minutes,
        color: clone_opt_string(&s.color),
        paused: s.paused,
        created_at: s.created_at,
        created_by: s.created_by,
    }
}

/// A copy of a session.
pub fn clone_instance(e: &EventInstance) -> (r: EventInstance)
    ensures
        r == *e,
{
    EventInstance {
        instance_id: e.instance_id,
        series_id: e.series_id,
        start_utc: e.start_utc,
        end_utc: e.end_utc,
        title: e.title.clone(),
        notes: e.notes.clone(),
        link: clone_opt_string(&e.link),
        host_principal: e.host_principal,
        status: e.status,
        color: clone_opt_string(&e.color),
        created_at: e.created_at,
    }
}

/// A copy of an exception.
pub fn clone_override(o: &InstanceOverride) -> (r: InstanceOverride)
    ensures
        r == *o,
{
    InstanceOverride {
        series_id: o.series_id,
        occurrence_start_utc: o.occurrence_start_utc,
        start_utc: o.start_utc,
        end_utc: o.end_utc,
        notes: clone_opt_string(&o.notes),
        host_principal: o.host_principal,
        host_cleared: o.host_cleared,
        cancelled: o.cancelled,
        updated_at: o.updated_at,
        updated_by: o.updated_by,
    }
}

/// A copy of the settings.
pub fn clone_settings(s: &GlobalSettings) -> (r: GlobalSettings)
    ensures
        r == *s,
{
    GlobalSettings {
        forward_window_months: s.forward_window_months,
        claims_paused: s.claims_paused,
        default_event_duration_minutes: s.default_event_duration_minutes,
        org_name: clone_opt_string(&s.org_name),
        org_tagline: clone_opt_string(&s.org_tagline),
        org_logo_url: clone_opt_string(&s.org_logo_url),
    }
}

/// A copy of a notification job.
pub fn clone_job(j: &NotificationJob) -> (r: NotificationJob)
    ensures
        r == *j,
{
    NotificationJob {
        job_id: j.job_id,
        created_at: j.created_at,
        notification_type: j.notification_type,
        recipient_principal: j.recipient_principal,
        recipient_email: j.recipient_email.clone(),
        subject: j.subject.clone(),
        body_text: j.body_text.clone(),
        ics_payload: clone_opt_string(&j.ics_payload),
        status: j.status,
        sent_at: j.sent_at,
        error_message: clone_opt_string(&j.error_message),
    }
}

/// Where the user with this principal stands, or the number of users
/// where there is none.
pub fn user_position(users: &Vec<User>, principal: &Principal) -> (i: usize)
    ensures
        i == position(users@, user_is(*principal)),
        i <= users@.len(),
{
    let mut i: usize = 0;
    while i < users.len()
        invariant
            0 <= i <= users@.len(),
            forall|j: int| 0 <= j < i ==> !user_is(*principal)(#[trigger] users@[j]),
        decreases users@.len() - i,
    {
        if users[i].principal.same(principal) {
            proof {
                lemma_position_is(users@, user_is(*principal), i as int);
            }
            return i;
        }
        i += 1;
    }
    proof {
        lemma_position_is(users@, user_is(*principal), i as int);
    }
    i
}

/// Where the rule with this identifier stands, or the number of rules
/// where there is none.
pub fn series_position(series: &Vec<EventSeries>, id: &[u8; 16]) -> (i: usize)
    ensures
        i == position(series@, series_is(*id)),
        i <= series@.len(),
{
    let mut i: usize = 0;
    while i < series.len()
        invariant
            0 <= i <= series@.len(),
            forall|j: int| 0 <= j < i ==> !series_is(*id)(#[trigger] series@[j]),
        decreases series@.len() - i,
    {
        if bytes_equal(&series[i].series_id, id) {
            proof {
                lemma_position_is(series@, series_is(*id), i as int);
            }
            return i;
        }
        i += 1;
    }
    proof {
        lemma_position_is(series@, series_is(*id), i as int);
    }
    i
}

/// Where the exception of this occurrence stands, or the number of
/// exceptions where there is none.
pub fn override_position(overrides: &Vec<InstanceOverride>, key: &OverrideKey) -> (i: usize)
    ensures
        i == position(overrides@, override_is(key.series_id, key.occurrence_start_utc)),
        i <= overrides@.len(),
{
    let ghost p = override_is(key.series_id, key.occurrence_start_utc);
    let mut i: usize = 0;
    while i < overrides.len()
        invariant
            0 <= i <= overrides@.len(),
            p == override_is(key.series_id, key.occurrence_start_utc),
            forall|j: int| 0 <= j < i ==> !p(#[trigger] overrides@[j]),
        decreases overrides@.len() - i,
    {
        if overrides[i].occurrence_start_utc == key.occurrence_start_utc && bytes_equal(
            &overrides[i].series_id,
            &key.series_id,
        ) {
            proof {
                lemma_position_is(overrides@, p, i as int);
            }
            return i;
        }
        i += 1;
    }
    proof {
        lemma_position_is(overrides@, p, i as int);
    }
    i
}

/// Where the session with this identifier stands, or the number of
/// sessions where there is none.
pub fn instance_position(instances: &Vec<EventInstance>, id: &[u8; 16]) -> (i: usize)
    ensures
        i == position(instances@, instance_is(*id)),
        i <= instances@.len(),
{
    let mut i: usize = 0;
    while i < instances.len()
        invariant
            0 <= i <= instances@.len(),
            forall|j: int| 0 <= j < i ==> !instance_is(*id)(#[trigger] instances@[j]),
        decreases instances@.len() - i,
    {
        if bytes_equal(&instances[i].instance_id, id) {
            proof {
                lemma_position_is(instances@, instance_is(*id), i as int);
            }
            return i;
        }
        i += 1;
    }
    proof {
        lemma_position_is(instances@, instance_is(*id), i as int);
    }
    i
}

/// Where the job with this identifier stands, or the number of jobs where
/// there is none.
pub fn job_position(jobs: &Vec<NotificationJob>, id: &[u8; 16]) -> (i: usize)
    ensures
        i == position(jobs@, job_is(*id)),
        i <= jobs@.len(),
{
    let mut i: usize = 0;
    while i < jobs.len()
        invariant
            0 <= i <= jobs@.len(),
            forall|j: int| 0 <= j < i ==> !job_is(*id)(#[trigger] jobs@[j]),
        decreases jobs@.len() - i,
    {
        if bytes_equal(&jobs[i].job_id, id) {
            proof {
                lemma_position_is(jobs@, job_is(*id), i as int);
            }
            return i;
        }
        i += 1;
    }
    proof {
        lemma_position_is(jobs@, job_is(*id), i as int);
    }
    i
}

/// The user stored under `principal`, if there is one.
pub fn get_user(store: &Store, principal: &Principal) -> (r: Option<User>)
    ensures
        r is Some == lookup(store.users@, user_is(*principal)) is Some,
        r matches Some(u) ==> u.same_as(&lookup(store.users@, user_is(*principal)).unwrap()),
{
    let i: usize = user_position(&store.users, principal);
    if i < store.users.len() {
        Some(clone_user(&store.users[i]))
    } else {
        None
    }
}

/// Stores `user` under its principal, in place of any user stored there.
pub fn insert_user(store: &mut Store, user: User)
    ensures
        final(store).users@ == upsert(old(store).users@, user_is(user.principal), user),
        final(store).series == old(store).series,
        final(store).overrides == old(store).overrides,
        final(store).instances == old(store).instances,
        final(store).settings == old(store).settings,
        final(store).notifications == old(store).notifications,
        final(store).outbox == old(store).outbox,
        old(store).wf() ==> final(store).wf(),
{
    let i: usize = user_position(&store.users, &user.principal);
    proof {
        lemma_position(store.users@, user_is(user.principal));
    }
    if i < store.users.len() {
        store.users[i] = user;
    } else {
        store.users.push(user);
    }
}

/// Stores `user` under its principal, as `insert_user` does.
pub fn update_user(store: &mut Store, user: User)
    ensures
        final(store).users@ == upsert(old(store).users@, user_is(user.principal), user),
        final(store).series == old(store).series,
        final(store).overrides == old(store).overrides,
        final(store).instances == old(store).instances,
        final(store).settings == old(store).settings,
        final(store).notifications == old(store).notifications,
        final(store).outbox == old(store).outbox,
        old(store).wf() ==> final(store).wf(),
{
    insert_user(store, user)
}

/// Every stored user, in the order of the store.
pub fn list_all_users(store: &Store) -> (out: Vec<User>)
    ensures
        out@.len() == store.users@.len(),
        forall|i: int| 0 <= i < out@.len() ==> (#[trigger] out@[i]).same_as(&store.users@[i]),
{
    let mut out: Vec<User> = Vec::new();
    let mut i: usize = 0;
    while i < store.users.len()
        invariant
            0 <= i <= store.users@.len(),
            out@.len() == i,
            forall|j: int| 0 <= j < i ==> (#[trigger] out@[j]).same_as(&store.users@[j]),
        decreases store.users@.len() - i,
    {
        out.push(clone_user(&store.users[i]));
        i += 1;
    }
    out
}

/// Whether a user is stored under `principal`.
pub fn user_exists(store: &Store, principal: &Principal) -> (r: bool)
    ensures
        r == lookup(store.users@, user_is(*principal)) is Some,
{
    user_position(&store.users, principal) < store.users.len()
}

/// Removes the user stored under `principal`; `true` where there was one.
pub fn delete_user(store: &mut Store, principal: &Principal) -> (r: bool)
    ensures
        r == lookup(old(store).users@, user_is(*principal)) is Some,
        final(store).users@ == without(old(store).users@, user_is(*principal)),
        !r ==> final(store).users == old(store).users,
        final(store).series == old(store).series,
        final(store).overrides == old(store).overrides,
        final(store).instances == old(store).instances,
        final(store).settings == old(store).settings,
        final(store).notifications == old(store).notifications,
        final(store).outbox == old(store).outbox,
        old(store).wf() ==> final(store).wf(),
{
    let i: usize = user_position(&store.users, principal);
    if i < store.users.len() {
        store.users.remove(i);
        true
    } else {
        false
    }
}

/// The rule stored under `series_id`, if there is one.
pub fn get_series(store: &Store, series_id: &[u8; 16]) -> (r: Option<EventSeries>)
    ensures
        r == lookup(store.series@, series_is(*series_id)),
{
    let i: usize = series_position(&store.series, series_id);
    if i < store.series.len() {
        Some(clone_series(&store.series[i]))
    } else {
        None
    }
}

/// Stores `series` under its identifier, in place of any rule stored there.
pub fn insert_series(store: &mut Store, series: EventSeries)
    ensures
        final(store).series@ == upsert(old(store).series@, series_is(series.series_id), series),
        final(store).users == old(store).users,
        final(store).overrides == old(store).overrides,
        final(store).instances == old(store).instances,
        final(store).settings == old(store).settings,
        final(store).notifications == old(store).notifications,
        final(store).outbox == old(store).outbox,
        old(store).wf() ==> final(store).wf(),
{
    let i: usize = series_position(&store.series, &series.series_id);
    proof {
        lemma_position(store.series@, series_is(series.series_id));
    }
    if i < store.series.len() {
        store.series[i] = series;
    } else {
        store.series.push(series);
    }
}

/// Removes the rule stored under `series_id`; `true` where there was one.
/// Its exceptions stay, and are never read again.
pub fn delete_series(store: &mut Store, series_id: &[u8; 16]) -> (r: bool)
    ensures
        r == lookup(old(store).series@, series_is(*series_id)) is Some,
        final(store).series@ == without(old(store).series@, series_is(*series_id)),
        !r ==> final(store).series == old(store).series,
        final(store).users == old(store).users,
        final(store).overrides == old(store).overrides,
        final(store).instances == old(store).instances,
        final(store).settings == old(store).settings,
        final(store).notifications == old(store).notifications,
        final(store).outbox == old(store).outbox,
        old(store).wf() ==> final(store).wf(),
{
    let i: usize = series_position(&store.series, series_id);
    if i < store.series.len() {
        store.series.remove(i);
        true
    } else {
        false
    }
}

/// Every stored rule, in the order of the store.
pub fn list_all_series(store: &Store) -> (out: Vec<EventSeries>)
    ensures
        out@ == store.series@,
{
    let mut out: Vec<EventSeries> = Vec::new();
    let mut i: usize = 0;
    while i < store.series.len()
        invariant
            0 <= i <= store.series@.len(),
            out@ == store.series@.subrange(0, i as int),
        decreases store.series@.len() - i,
    {
        out.push(clone_series(&store.series[i]));
        i += 1;
        assert(out@ =~= store.series@.subrange(0, i as int));
    }
    assert(out@ =~= store.series@);
    out
}

/// The exception stored under an occurrence key, if there is one.
pub fn get_override(store: &Store, key: &OverrideKey) -> (r: Option<InstanceOverride>)
    ensures
        r == lookup(store.overrides@, override_is(key.series_id, key.occurrence_start_utc)),
{
    let i: usize = override_position(&store.overrides, key);
    if i < store.overrides.len() {
        Some(clone_override(&store.overrides[i]))
    } else {
        None
    }
}

/// Stores `ovr` under its occurrence key, in place of any exception stored
/// there.
pub fn insert_override(store: &mut Store, ovr: InstanceOverride)
    ensures
        final(store).overrides@ == upsert(
            old(store).overrides@,
            override_is(ovr.series_id, ovr.occurrence_start_utc),
            ovr,
        ),
        final(store).users == old(store).users,
        final(store).series == old(store).series,
        final(store).instances == old(store).instances,
        final(store).settings == old(store).settings,
        final(store).notifications == old(store).notifications,
        final(store).outbox == old(store).outbox,
        old(store).wf() ==> final(store).wf(),
{
    let key = OverrideKey {
        series_id: ovr.series_id,
        occurrence_start_utc: ovr.occurrence_start_utc,
    };
    let i: usize = override_position(&store.overrides, &key);
    proof {
        lemma_position(store.overrides@, override_is(ovr.series_id, ovr.occurrence_start_utc));
    }
    if i < store.overrides.len() {
        store.overrides[i] = ovr;
    } else {
        store.overrides.push(ovr);
    }
}

/// The first `n` exceptions of `overrides` that belong to rule `series_id`.
pub open spec fn overrides_of(overrides: Seq<InstanceOverride>, series_id: [u8; 16], n: int) -> Seq<
    InstanceOverride,
>
    decreases n,
{
    if n <= 0 {
        Seq::empty()
    } else if overrides[n - 1].series_id == series_id {
        overrides_of(overrides, series_id, n - 1).push(overrides[n - 1])
    } else {
        overrides_of(overrides, series_id, n - 1)
    }
}

/// The exceptions of one rule, in the order of the store.
pub fn list_overrides_for_series(store: &Store, series_id: &[u8; 16]) -> (out: Vec<
    InstanceOverride,
>)
    ensures
        out@ == overrides_of(store.overrides@, *series_id, store.overrides@.len() as int),
{
    let mut out: Vec<InstanceOverride> = Vec::new();
    let mut i: usize = 0;
    while i < store.overrides.len()
        invariant
            0 <= i <= store.overrides@.len(),
            out@ == overrides_of(store.overrides@, *series_id, i as int),
        decreases store.overrides@.len() - i,
    {
        if bytes_equal(&store.overrides[i].series_id, series_id) {
            out.push(clone_override(&store.overrides[i]));
        }
        i += 1;
    }
    out
}

/// The one-off session stored under `instance_id`, if there is one.
pub fn get_instance(store: &Store, instance_id: &[u8; 16]) -> (r: Option<EventInstance>)
    ensures
        r == lookup(store.instances@, instance_is(*instance_id)),
{
    let i: usize = instance_position(&store.instances, instance_id);
    if i < store.instances.len() {
        Some(clone_instance(&store.instances[i]))
    } else {
        None
    }
}

/// Stores `inst` under its identifier, in place of any session stored
/// there.
pub fn insert_instance(store: &mut Store, inst: EventInstance)
    ensures
        final(store).instances@ == upsert(
            old(store).instances@,
            instance_is(inst.instance_id),
            inst,
        ),
        final(store).users == old(store).users,
        final(store).series == old(store).series,
        final(store).overrides == old(store).overrides,
        final(store).settings == old(store).settings,
        final(store).notifications == old(store).notifications,
        final(store).outbox == old(store).outbox,
        old(store).wf() ==> final(store).wf(),
{
    let i: usize = instance_position(&store.instances, &inst.instance_id);
    proof {
        lemma_position(store.instances@, instance_is(inst.instance_id));
    }
    if i < store.instances.len() {
        store.instances[i] = inst;
    } else {
        store.instances.push(inst);
    }
}

/// Removes the one-off session stored under `instance_id`; `true` where
/// there was one.
pub fn delete_instance(store: &mut Store, instance_id: &[u8; 16]) -> (r: bool)
    ensures
        r == lookup(old(store).instances@, instance_is(*instance_id)) is Some,
        final(store).instances@ == without(old(store).instances@, instance_is(*instance_id)),
        !r ==> final(store).instances == old(store).instances,
        final(store).users == old(store).users,
        final(store).series == old(store).series,
        final(store).overrides == old(store).overrides,
        final(store).settings == old(store).settings,
        final(store).notifications == old(store).notifications,
        final(store).outbox == old(store).outbox,
        old(store).wf() ==> final(store).wf(),
{
    let i: usize = instance_position(&store.instances, instance_id);
    if i < store.instances.len() {
        store.instances.remove(i);
        true
    } else {
        false
    }
}

/// Every stored one-off session, in the order of the store.
pub fn list_all_instances(store: &Store) -> (out: Vec<EventInstance>)
    ensures
        out@ == store.instances@,
{
    let mut out: Vec<EventInstance> = Vec::new();
    let mut i: usize = 0;
    while i < store.instances.len()
        invariant
            0 <= i <= store.instances@.len(),
            out@ == store.instances@.subrange(0, i as int),
        decreases store.instances@.len() - i,
    {
        out.push(clone_instance(&store.instances[i]));
        i += 1;
        assert(out@ =~= store.instances@.subrange(0, i as int));
    }
    assert(out@ =~= store.instances@);
    out
}

/// The settings.
pub fn get_settings(store: &Store) -> (r: GlobalSettings)
    ensures
        r == store.settings,
{
    clone_settings(&store.settings)
}

/// Replaces the settings.
pub fn update_settings(store: &mut Store, settings: GlobalSettings)
    ensures
        final(store).settings == settings,
        final(store).users == old(store).users,
        final(store).series == old(store).series,
        final(store).overrides == old(store).overrides,
        final(store).instances == old(store).instances,
        final(store).notifications == old(store).notifications,
        final(store).outbox == old(store).outbox,
        old(store).wf() ==> final(store).wf(),
{
    store.settings = settings;
}

/// The notification job stored under `job_id`, if there is one.
pub fn get_notification(store: &Store, job_id: &[u8; 16]) -> (r: Option<NotificationJob>)
    ensures
        r == lookup(store.notifications@, job_is(*job_id)),
{
    let i: usize = job_position(&store.notifications, job_id);
    if i < store.notifications.len() {
        Some(clone_job(&store.notifications[i]))
    } else {
        None
    }
}

/// Stores `job` under its identifier, in place of any job stored there.
pub fn insert_notification(store: &mut Store, job: NotificationJob)
    ensures
        final(store).notifications@ == upsert(
            old(store).notifications@,
            job_is(job.job_id),
            job,
        ),
        final(store).users == old(store).users,
        final(store).series == old(store).series,
        final(store).overrides == old(store).overrides,
        final(store).instances == old(store).instances,
        final(store).settings == old(store).settings,
        final(store).outbox == old(store).outbox,
        old(store).wf() ==> final(store).wf(),
{
    let i: usize = job_position(&store.notifications, &job.job_id);
    proof {
        lemma_position(store.notifications@, job_is(job.job_id));
    }
    if i < store.notifications.len() {
        store.notifications[i] = job;
    } else {
        store.notifications.push(job);
    }
}

/// Stores `job` under its identifier, as `insert_notification` does.
pub fn update_notification(store: &mut Store, job: NotificationJob)
    ensures
        final(store).notifications@ == upsert(
            old(store).notifications@,
            job_is(job.job_id),
            job,
        ),
        final(store).users == old(store).users,
        final(store).series == old(store).series,
        final(store).overrides == old(store).overrides,
        final(store).instances == old(store).instances,
        final(store).settings == old(store).settings,
        final(store).outbox == old(store).outbox,
        old(store).wf() ==> final(store).wf(),
{
    insert_notification(store, job)
}

/// The first `n` jobs of `jobs` that are still pending.
pub open spec fn pending_of(jobs: Seq<NotificationJob>, n: int) -> Seq<NotificationJob>
    decreases n,
{
    if n <= 0 {
        Seq::empty()
    } else if jobs[n - 1].status == NotificationStatus::Pending {
        pending_of(jobs, n - 1).push(jobs[n - 1])
    } else {
        pending_of(jobs, n - 1)
    }
}

/// The jobs that have not been sent and have not failed, in the order of
/// the store.
pub fn list_pending_notifications(store: &Store) -> (out: Vec<NotificationJob>)
    ensures
        out@ == pending_of(store.notifications@, store.notifications@.len() as int),
{
    let mut out: Vec<NotificationJob> = Vec::new();
    let mut i: usize = 0;
    while i < store.notifications.len()
        invariant
            0 <= i <= store.notifications@.len(),
            out@ == pending_of(store.notifications@, i as int),
        decreases store.notifications@.len() - i,
    {
        if store.notifications[i].status == NotificationStatus::Pending {
            out.push(clone_job(&store.notifications[i]));
        }
        i += 1;
    }
    out
}

} // verus!
