//! Resolution of occurrences into sessions: the overlay of an exception on
//! a base occurrence, and the merged, sorted view of a window.

use vstd::prelude::*;
use crate::calendar::{NANOS_PER_MINUTE, calculate_window_end, window_end};
use crate::ids::{generate_instance_id, instance_id};
use crate::occurrences::{
    generate_occurrences, is_occurrence, lemma_occurrence_member, occurrences,
};
use crate::storage::{Store, clone_instance, lookup, override_is, override_position};
use crate::types::{
    CoverageStats, EventInstance, EventSeries, EventStatus, InstanceOverride, OverrideKey,
    Principal, clone_opt_string,
};

verus! {

/// A span of whole minutes, in nanoseconds.
pub open spec fn duration_nanos(minutes: u32) -> int {
    minutes as int * NANOS_PER_MINUTE as int
}

/// The end of an occurrence that no exception moves: the base instant plus
/// the rule's duration, and the largest instant where that is past it.
pub open spec fn default_end(base: u64, minutes: u32) -> u64 {
    if base + duration_nanos(minutes) > u64::MAX {
        u64::MAX
    } else {
        (base + duration_nanos(minutes)) as u64
    }
}

/// The host of an occurrence: none without an exception, none where the
/// exception says that the host was cleared, else the host it names.
pub open spec fn effective_host(exc: Option<InstanceOverride>) -> Option<Principal> {
    match exc {
        Some(o) => if o.host_cleared {
            None
        } else {
            o.host_principal
        },
        None => None,
    }
}

/// The start that the exception gives, else the base instant.
pub open spec fn effective_start_utc(base: u64, exc: Option<InstanceOverride>) -> u64 {
    match exc {
        Some(o) => match o.start_utc {
            Some(t) => t,
            None => base,
        },
        None => base,
    }
}

/// The end that the exception gives, else the end reckoned from the base
/// instant, also where the exception moves the start.
pub open spec fn effective_end_utc(base: u64, minutes: u32, exc: Option<InstanceOverride>) -> u64 {
    match exc {
        Some(o) => match o.end_utc {
            Some(t) => t,
            None => default_end(base, minutes),
        },
        None => default_end(base, minutes),
    }
}

/// The notes that the exception gives, else those of the rule.
pub open spec fn effective_notes(rule: EventSeries, exc: Option<InstanceOverride>) -> String {
    match exc {
        Some(o) => match o.notes {
            Some(n) => n,
            None => rule.notes,
        },
        None => rule.notes,
    }
}

/// Whether an exception is there and cancels the occurrence.
pub open spec fn is_cancelled(exc: Option<InstanceOverride>) -> bool {
    match exc {
        Some(o) => o.cancelled,
        None => false,
    }
}

/// The session that the occurrence of `rule` with base instant `base`
/// resolves to under the exception `exc`, or `None` where the exception
/// cancels it. Title, link and colour always come from the rule.
pub open spec fn resolved(rule: EventSeries, base: u64, exc: Option<InstanceOverride>) -> Option<
    EventInstance,
> {
    if is_cancelled(exc) {
        None
    } else {
        Some(
            EventInstance {
                instance_id: instance_id(rule.series_id, base),
                series_id: Some(rule.series_id),
                start_utc: effective_start_utc(base, exc),
                end_utc: effective_end_utc(base, rule.default_duration_minutes, exc),
                title: rule.title,
                notes: effective_notes(rule, exc),
                link: rule.link,
                host_principal: effective_host(exc),
                status: EventStatus::Active,
                color: rule.color,
                created_at: rule.created_at,
            },
        )
    }
}

/// Moving only the start of an occurrence leaves its end where the rule
/// put it: at the base instant plus the rule's duration.
pub proof fn lemma_start_override_keeps_end(rule: EventSeries, base: u64, exc: InstanceOverride)
    requires
        exc.start_utc is Some,
        exc.end_utc is None,
        !exc.cancelled,
        base + duration_nanos(rule.default_duration_minutes) <= u64::MAX,
    ensures
        resolved(rule, base, Some(exc)) is Some,
        resolved(rule, base, Some(exc)).unwrap().start_utc == exc.start_utc.unwrap(),
        resolved(rule, base, Some(exc)).unwrap().end_utc == base + duration_nanos(
            rule.default_duration_minutes,
        ),
{
}

/// The host has three states: without an exception there is none; an
/// exception that names a host and is not cleared gives that host; a
/// cleared exception gives none, whatever host it still names.
pub proof fn lemma_host_tristate(rule: EventSeries, base: u64, exc: InstanceOverride)
    requires
        !exc.cancelled,
    ensures
        resolved(rule, base, None) is Some,
        resolved(rule, base, None).unwrap().host_principal is None,
        !exc.host_cleared ==> resolved(rule, base, Some(exc)).unwrap().host_principal
            == exc.host_principal,
        exc.host_cleared ==> resolved(rule, base, Some(exc)).unwrap().host_principal is None,
{
}

/// The end of an occurrence that starts at `base` and lasts `minutes`
/// minutes, no later than the largest instant.
pub fn occurrence_end(base: u64, minutes: u32) -> (end: u64)
    ensures
        end == default_end(base, minutes),
{
    let minutes_left: u64 = (u64::MAX - base) / NANOS_PER_MINUTE;
    if minutes as u64 > minutes_left {
        u64::MAX
    } else {
        base + minutes as u64 * NANOS_PER_MINUTE
    }
}

/// Lays the exception `exc`, if any, over the occurrence of `rule` with
/// base instant `base`.
pub fn resolve_occurrence(rule: &EventSeries, base: u64, exc: &Option<InstanceOverride>) -> (r:
    Option<EventInstance>)
    ensures
        r == resolved(*rule, base, *exc),
{
    let id: [u8; 16] = generate_instance_id(&rule.series_id, base);
    match exc {
        Some(o) => {
            if o.cancelled {
                return None;
            }
            let start_utc: u64 = match o.start_utc {
                Some(t) => t,
                None => base,
            };
            let end_utc: u64 = match o.end_utc {
                Some(t) => t,
                None => occurrence_end(base, rule.default_duration_minutes),
            };
            let notes: String = match &o.notes {
                Some(n) => n.clone(),
                None => rule.notes.clone(),
            };
            let host_principal: Option<Principal> = if o.host_cleared {
                None
            } else {
                o.host_principal
            };
            Some(
                EventInstance {
                    instance_id: id,
                    series_id: Some(rule.series_id),
                    start_utc,
                    end_utc,
                    title: rule.title.clone(),
                    notes,
                    link: clone_opt_string(&rule.link),
                    host_principal,
                    status: EventStatus::Active,
                    color: clone_opt_string(&rule.color),
                    created_at: rule.created_at,
                },
            )
        },
        None => Some(
            EventInstance {
                instance_id: id,
                series_id: Some(rule.series_id),
                start_utc: base,
                end_utc: occurrence_end(base, rule.default_duration_minutes),
                title: rule.title.clone(),
                notes: rule.notes.clone(),
                link: clone_opt_string(&rule.link),
                host_principal: None,
                status: EventStatus::Active,
                color: clone_opt_string(&rule.color),
                created_at: rule.created_at,
            },
        ),
    }
}

/// The sessions of the first `n` base instants in `occ`, in that order,
/// without the cancelled ones.
pub open spec fn rule_sessions(
    rule: EventSeries,
    overrides: Seq<InstanceOverride>,
    occ: Seq<u64>,
    n: int,
) -> Seq<EventInstance>
    decreases n,
{
    if n <= 0 {
        Seq::empty()
    } else {
        let prev = rule_sessions(rule, overrides, occ, n - 1);
        let base = occ[n - 1];
        match resolved(rule, base, lookup(overrides, override_is(rule.series_id, base))) {
            Some(e) => prev.push(e),
            None => prev,
        }
    }
}

/// The sessions of the first `n` rules in the window, rule after rule.
pub open spec fn series_sessions(
    series: Seq<EventSeries>,
    overrides: Seq<InstanceOverride>,
    window_start: u64,
    window_end: u64,
    n: int,
) -> Seq<EventInstance>
    decreases n,
{
    if n <= 0 {
        Seq::empty()
    } else {
        let occ = occurrences(&series[n - 1], window_start, window_end);
        series_sessions(series, overrides, window_start, window_end, n - 1) + rule_sessions(
            series[n - 1],
            overrides,
            occ,
            occ.len() as int,
        )
    }
}

/// Those of the first `n` one-off sessions that are active and start in
/// the window.
pub open spec fn one_off_sessions(
    instances: Seq<EventInstance>,
    window_start: u64,
    window_end: u64,
    n: int,
) -> Seq<EventInstance>
    decreases n,
{
    if n <= 0 {
        Seq::empty()
    } else {
        let prev = one_off_sessions(instances, window_start, window_end, n - 1);
        let e = instances[n - 1];
        if window_start <= e.start_utc < window_end && e.status == EventStatus::Active {
            prev.push(e)
        } else {
            prev
        }
    }
}

/// `s`, sorted by start, with `e` put behind every session that does not
/// start after it.
pub open spec fn insert_by_start(s: Seq<EventInstance>, e: EventInstance) -> Seq<EventInstance>
    decreases s.len(),
{
    if s.len() == 0 {
        seq![e]
    } else if s.last().start_utc <= e.start_utc {
        s.push(e)
    } else {
        insert_by_start(s.drop_last(), e).push(s.last())
    }
}

/// The sessions of `s` in ascending order of start; sessions that start
/// together keep the order they have in `s`.
pub open spec fn sorted_by_start(s: Seq<EventInstance>) -> Seq<EventInstance>
    decreases s.len(),
{
    if s.len() == 0 {
        Seq::empty()
    } else {
        insert_by_start(sorted_by_start(s.drop_last()), s.last())
    }
}

/// No session starts before one that stands before it.
pub open spec fn ascending(s: Seq<EventInstance>) -> bool {
    forall|i: int, j: int| 0 <= i < j < s.len() ==> s[i].start_utc <= s[j].start_utc
}

/// Inserting by start puts the session at the first place behind which
/// every session starts later.
pub proof fn lemma_insert_at(s: Seq<EventInstance>, e: EventInstance, at: int)
    requires
        0 <= at <= s.len(),
        forall|j: int| at <= j < s.len() ==> (#[trigger] s[j]).start_utc > e.start_utc,
        at > 0 ==> s[at - 1].start_utc <= e.start_utc,
    ensures
        insert_by_start(s, e) == s.insert(at, e),
    decreases s.len(),
{
    if s.len() == 0 {
        assert(s.insert(at, e) =~= seq![e]);
    } else if at == s.len() {
        assert(s.insert(at, e) =~= s.push(e));
    } else {
        let t = s.drop_last();
        assert forall|j: int| at <= j < t.len() implies (#[trigger] t[j]).start_utc
            > e.start_utc by {
            assert(t[j] == s[j]);
        }
        lemma_insert_at(t, e, at);
        assert(t.insert(at, e).push(s.last()) =~= s.insert(at, e));
    }
}

/// Inserting into an ascending sequence gives an ascending sequence with
/// the same sessions and the new one.
pub proof fn lemma_insert_by_start(s: Seq<EventInstance>, e: EventInstance)
    requires
        ascending(s),
    ensures
        ascending(insert_by_start(s, e)),
        insert_by_start(s, e).len() == s.len() + 1,
        insert_by_start(s, e).to_multiset() == s.to_multiset().insert(e),
    decreases s.len(),
{
    broadcast use vstd::seq_lib::group_to_multiset_ensures;

    if s.len() == 0 {
        assert(insert_by_start(s, e) =~= s.push(e));
    } else if s.last().start_utc <= e.start_utc {
    } else {
        let t = s.drop_last();
        lemma_insert_by_start(t, e);
        let u = insert_by_start(t, e);
        assert(s =~= t.push(s.last()));
        assert forall|i: int| 0 <= i < u.len() implies (#[trigger] u[i]).start_utc
            <= s.last().start_utc by {
            assert(u.to_multiset().contains(u[i]));
            if u[i] != e {
                assert(t.to_multiset().contains(u[i]));
                let k = choose|k: int| 0 <= k < t.len() && t[k] == u[i];
                assert(s[k] == t[k]);
            }
        }
        assert(u.push(s.last()).to_multiset() =~= s.to_multiset().insert(e));
    }
}

/// Sorting keeps every session, as often as it occurs, and puts them in
/// ascending order of start.
pub proof fn lemma_sorted_by_start(s: Seq<EventInstance>)
    ensures
        ascending(sorted_by_start(s)),
        sorted_by_start(s).len() == s.len(),
        sorted_by_start(s).to_multiset() == s.to_multiset(),
    decreases s.len(),
{
    broadcast use vstd::seq_lib::group_to_multiset_ensures;

    if s.len() > 0 {
        let t = s.drop_last();
        lemma_sorted_by_start(t);
        lemma_insert_by_start(sorted_by_start(t), s.last());
        assert(s =~= t.push(s.last()));
    }
}

/// The sessions of `v` in ascending order of start; sessions that start
/// together keep their order.
pub fn sort_by_start(v: &Vec<EventInstance>) -> (out: Vec<EventInstance>)
    ensures
        out@ == sorted_by_start(v@),
{
    let mut out: Vec<EventInstance> = Vec::new();
    let mut i: usize = 0;
    while i < v.len()
        invariant
            0 <= i <= v@.len(),
            out@ == sorted_by_start(v@.subrange(0, i as int)),
            out@.len() == i,
        decreases v@.len() - i,
    {
        let e: EventInstance = clone_instance(&v[i]);
        let mut at: usize = out.len();
        while at > 0 && out[at - 1].start_utc > e.start_utc
            invariant
                0 <= at <= out@.len(),
                forall|j: int| at <= j < out@.len() ==> (#[trigger] out@[j]).start_utc
                    > e.start_utc,
            decreases at,
        {
            at -= 1;
        }
        proof {
            lemma_insert_at(out@, e, at as int);
            let next = v@.subrange(0, i + 1);
            assert(next.drop_last() =~= v@.subrange(0, i as int));
            assert(next.last() == v@[i as int]);
        }
        out.insert(at, e);
        i += 1;
    }
    assert(v@.subrange(0, v@.len() as int) =~= v@);
    out
}

/// The sessions of a window: for every rule its occurrences with the
/// exceptions laid over them, and the active one-off sessions that start
/// in the window, all in ascending order of start. Sessions that start
/// together stand rule by rule in the order of the rules, then the one-off
/// sessions.
pub open spec fn materialized_from(
    series: Seq<EventSeries>,
    overrides: Seq<InstanceOverride>,
    instances: Seq<EventInstance>,
    window_start: u64,
    window_end: u64,
) -> Seq<EventInstance> {
    sorted_by_start(
        series_sessions(series, overrides, window_start, window_end, series.len() as int)
            + one_off_sessions(instances, window_start, window_end, instances.len() as int),
    )
}

/// The sessions of a window as the state holds them.
pub open spec fn materialized(store: &Store, window_start: u64, window_end: u64) -> Seq<
    EventInstance,
> {
    materialized_from(store.series@, store.overrides@, store.instances@, window_start, window_end)
}

/// Reading a window depends on the rules, the exceptions and the one-off
/// sessions alone: two states that agree in them give the same sessions,
/// so reading twice without a write between gives the same result.
pub proof fn lemma_materialize_repeatable(
    a: &Store,
    b: &Store,
    window_start: u64,
    window_end: u64,
)
    requires
        a.series@ == b.series@,
        a.overrides@ == b.overrides@,
        a.instances@ == b.instances@,
    ensures
        materialized(a, window_start, window_end) == materialized(b, window_start, window_end),
{
}

/// The session of the occurrence of `rule` with base instant `t`, if it
/// is not cancelled.
pub open spec fn session_of(rule: EventSeries, overrides: Seq<InstanceOverride>, t: u64) -> Option<
    EventInstance,
> {
    resolved(rule, t, lookup(overrides, override_is(rule.series_id, t)))
}

/// `e` is the session of an occurrence of a stored rule whose base
/// instant lies in the window.
pub open spec fn from_rule(
    series: Seq<EventSeries>,
    overrides: Seq<InstanceOverride>,
    window_start: u64,
    window_end: u64,
    e: EventInstance,
) -> bool {
    exists|i: int, t: u64|
        0 <= i < series.len() && window_start <= t < window_end && is_occurrence(&series[i], t)
            && #[trigger] session_of(series[i], overrides, t) == Some(e)
}

/// `e` is a stored one-off session that is active and starts in the
/// window.
pub open spec fn from_one_off(
    instances: Seq<EventInstance>,
    window_start: u64,
    window_end: u64,
    e: EventInstance,
) -> bool {
    exists|n: int|
        0 <= n < instances.len() && #[trigger] instances[n] == e && window_start <= e.start_utc
            < window_end && e.status == EventStatus::Active
}

/// The sessions of a rule are the sessions of its occurrences that are not
/// cancelled.
pub proof fn lemma_rule_sessions_member(
    rule: EventSeries,
    overrides: Seq<InstanceOverride>,
    occ: Seq<u64>,
    n: int,
    e: EventInstance,
)
    requires
        0 <= n <= occ.len(),
    ensures
        rule_sessions(rule, overrides, occ, n).contains(e) <==> exists|j: int|
            0 <= j < n && #[trigger] session_of(rule, overrides, occ[j]) == Some(e),
    decreases n,
{
    if n > 0 {
        lemma_rule_sessions_member(rule, overrides, occ, n - 1, e);
        let prev = rule_sessions(rule, overrides, occ, n - 1);
        let run = rule_sessions(rule, overrides, occ, n);
        let last = session_of(rule, overrides, occ[n - 1]);
        if run.contains(e) {
            let k = choose|k: int| 0 <= k < run.len() && run[k] == e;
            if k < prev.len() {
                assert(prev[k] == e);
                assert(prev.contains(e));
            } else {
                assert(last == Some(e));
            }
        }
        if exists|j: int| 0 <= j < n && #[trigger] session_of(rule, overrides, occ[j]) == Some(e) {
            let j = choose|j: int|
                0 <= j < n && #[trigger] session_of(rule, overrides, occ[j]) == Some(e);
            if j < n - 1 {
                assert(prev.contains(e));
                let k = choose|k: int| 0 <= k < prev.len() && prev[k] == e;
                assert(run[k] == e);
            } else {
                assert(run[run.len() - 1] == e);
            }
        }
    }
}

/// The sessions of the rules are the sessions of their occurrences in the
/// window.
pub proof fn lemma_series_sessions_member(
    series: Seq<EventSeries>,
    overrides: Seq<InstanceOverride>,
    window_start: u64,
    window_end: u64,
    n: int,
    e: EventInstance,
)
    requires
        0 <= n <= series.len(),
    ensures
        series_sessions(series, overrides, window_start, window_end, n).contains(e) <==> from_rule(
            series.subrange(0, n),
            overrides,
            window_start,
            window_end,
            e,
        ),
    decreases n,
{
    let head = series.subrange(0, n);
    if n > 0 {
        lemma_series_sessions_member(series, overrides, window_start, window_end, n - 1, e);
        let before = series.subrange(0, n - 1);
        let prev = series_sessions(series, overrides, window_start, window_end, n - 1);
        let rule = series[n - 1];
        let occ = occurrences(&rule, window_start, window_end);
        let own = rule_sessions(rule, overrides, occ, occ.len() as int);
        let all = series_sessions(series, overrides, window_start, window_end, n);
        lemma_rule_sessions_member(rule, overrides, occ, occ.len() as int, e);
        assert(all == prev + own);
        if all.contains(e) {
            let k = choose|k: int| 0 <= k < all.len() && all[k] == e;
            if k < prev.len() {
                assert(prev[k] == e);
                assert(prev.contains(e));
                let (i, t) = choose|i: int, t: u64|
                    0 <= i < before.len() && window_start <= t < window_end && is_occurrence(
                        &before[i],
                        t,
                    ) && #[trigger] session_of(before[i], overrides, t) == Some(e);
                assert(head[i] == before[i]);
                assert(session_of(head[i], overrides, t) == Some(e));
            } else {
                assert(own[k - prev.len()] == e);
                assert(own.contains(e));
                let j = choose|j: int|
                    0 <= j < occ.len() && #[trigger] session_of(rule, overrides, occ[j]) == Some(e);
                assert(occ.contains(occ[j]));
                lemma_occurrence_member(&rule, window_start, window_end, occ[j]);
                assert(head[n - 1] == rule);
                assert(session_of(head[n - 1], overrides, occ[j]) == Some(e));
            }
        }
        if from_rule(head, overrides, window_start, window_end, e) {
            let (i, t) = choose|i: int, t: u64|
                0 <= i < head.len() && window_start <= t < window_end && is_occurrence(
                    &head[i],
                    t,
                ) && #[trigger] session_of(head[i], overrides, t) == Some(e);
            if i < n - 1 {
                assert(before[i] == head[i]);
                assert(session_of(before[i], overrides, t) == Some(e));
                assert(prev.contains(e));
                let k = choose|k: int| 0 <= k < prev.len() && prev[k] == e;
                assert(all[k] == e);
            } else {
                assert(head[i] == rule);
                lemma_occurrence_member(&rule, window_start, window_end, t);
                let j = choose|j: int| 0 <= j < occ.len() && occ[j] == t;
                assert(session_of(rule, overrides, occ[j]) == Some(e));
                assert(own.contains(e));
                let k = choose|k: int| 0 <= k < own.len() && own[k] == e;
                assert(all[prev.len() + k] == e);
            }
        }
    }
}

/// The one-off sessions of a window are the stored ones that are active
/// and start in it.
pub proof fn lemma_one_off_sessions_member(
    instances: Seq<EventInstance>,
    window_start: u64,
    window_end: u64,
    n: int,
    e: EventInstance,
)
    requires
        0 <= n <= instances.len(),
    ensures
        one_off_sessions(instances, window_start, window_end, n).contains(e) <==> from_one_off(
            instances.subrange(0, n),
            window_start,
            window_end,
            e,
        ),
    decreases n,
{
    let head = instances.subrange(0, n);
    if n > 0 {
        lemma_one_off_sessions_member(instances, window_start, window_end, n - 1, e);
        let before = instances.subrange(0, n - 1);
        let prev = one_off_sessions(instances, window_start, window_end, n - 1);
        let run = one_off_sessions(instances, window_start, window_end, n);
        let last = instances[n - 1];
        if run.contains(e) {
            let k = choose|k: int| 0 <= k < run.len() && run[k] == e;
            if k < prev.len() {
                assert(prev[k] == e);
                assert(prev.contains(e));
                let m = choose|m: int|
                    0 <= m < before.len() && #[trigger] before[m] == e && window_start
                        <= e.start_utc < window_end && e.status == EventStatus::Active;
                assert(head[m] == e);
            } else {
                assert(head[n - 1] == e);
            }
        }
        if from_one_off(head, window_start, window_end, e) {
            let m = choose|m: int|
                0 <= m < head.len() && #[trigger] head[m] == e && window_start <= e.start_utc
                    < window_end && e.status == EventStatus::Active;
            if m < n - 1 {
                assert(before[m] == e);
                assert(prev.contains(e));
                let k = choose|k: int| 0 <= k < prev.len() && prev[k] == e;
                assert(run[k] == e);
            } else {
                assert(run[run.len() - 1] == e);
            }
        }
    }
}

/// What a window holds: a session is among the sessions of a window
/// exactly if it is the session of an occurrence, not cancelled, of a
/// stored rule whose base instant lies in the window, or an active stored
/// one-off session that starts in the window.
pub proof fn lemma_materialized_member(
    store: &Store,
    window_start: u64,
    window_end: u64,
    e: EventInstance,
)
    ensures
        materialized(store, window_start, window_end).contains(e) <==> (from_rule(
            store.series@,
            store.overrides@,
            window_start,
            window_end,
            e,
        ) || from_one_off(store.instances@, window_start, window_end, e)),
{
    broadcast use vstd::seq_lib::group_to_multiset_ensures;

    let a = series_sessions(
        store.series@,
        store.overrides@,
        window_start,
        window_end,
        store.series@.len() as int,
    );
    let b = one_off_sessions(
        store.instances@,
        window_start,
        window_end,
        store.instances@.len() as int,
    );
    lemma_series_sessions_member(
        store.series@,
        store.overrides@,
        window_start,
        window_end,
        store.series@.len() as int,
        e,
    );
    lemma_one_off_sessions_member(
        store.instances@,
        window_start,
        window_end,
        store.instances@.len() as int,
        e,
    );
    assert(store.series@.subrange(0, store.series@.len() as int) =~= store.series@);
    assert(store.instances@.subrange(0, store.instances@.len() as int) =~= store.instances@);
    lemma_sorted_by_start(a + b);
    let sorted = sorted_by_start(a + b);
    assert(sorted.contains(e) <==> (a + b).contains(e)) by {
        assert(sorted.to_multiset().count(e) == (a + b).to_multiset().count(e));
    }
    if (a + b).contains(e) {
        let k = choose|k: int| 0 <= k < (a + b).len() && (a + b)[k] == e;
        if k < a.len() {
            assert(a[k] == e);
        } else {
            assert(b[k - a.len()] == e);
        }
    }
    if a.contains(e) {
        let k = choose|k: int| 0 <= k < a.len() && a[k] == e;
        assert((a + b)[k] == e);
    }
    if b.contains(e) {
        let k = choose|k: int| 0 <= k < b.len() && b[k] == e;
        assert((a + b)[a.len() + k] == e);
    }
}

/// The sessions of the window `[window_start, window_end)`. A paused rule
/// generates its occurrences like any other. The state is only read.
pub fn materialize_events(store: &Store, window_start: u64, window_end: u64) -> (out: Vec<
    EventInstance,
>)
    ensures
        out@ == materialized(store, window_start, window_end),
        ascending(out@),
{
    let mut results: Vec<EventInstance> = Vec::new();
    let mut i: usize = 0;
    while i < store.series.len()
        invariant
            0 <= i <= store.series@.len(),
            results@ == series_sessions(
                store.series@,
                store.overrides@,
                window_start,
                window_end,
                i as int,
            ),
        decreases store.series@.len() - i,
    {
        let rule: &EventSeries = &store.series[i];
        let occ: Vec<u64> = generate_occurrences(rule, window_start, window_end);
        let ghost before = results@;
        let mut j: usize = 0;
        while j < occ.len()
            invariant
                0 <= j <= occ@.len(),
                i < store.series@.len(),
                *rule == store.series@[i as int],
                results@ == before + rule_sessions(*rule, store.overrides@, occ@, j as int),
            decreases occ@.len() - j,
        {
            let base: u64 = occ[j];
            let key = OverrideKey { series_id: rule.series_id, occurrence_start_utc: base };
            let k: usize = override_position(&store.overrides, &key);
            let session: Option<EventInstance> = if k < store.overrides.len() {
                let exc: Option<InstanceOverride> = Some(
                    crate::storage::clone_override(&store.overrides[k]),
                );
                resolve_occurrence(rule, base, &exc)
            } else {
                resolve_occurrence(rule, base, &None)
            };
            let ghost prev = rule_sessions(*rule, store.overrides@, occ@, j as int);
            match session {
                Some(e) => {
                    results.push(e);
                    assert(results@ =~= before + prev.push(e));
                },
                None => {},
            }
            j += 1;
        }
        i += 1;
    }
    let ghost from_rules = results@;
    let mut n: usize = 0;
    while n < store.instances.len()
        invariant
            0 <= n <= store.instances@.len(),
            results@ == from_rules + one_off_sessions(
                store.instances@,
                window_start,
                window_end,
                n as int,
            ),
        decreases store.instances@.len() - n,
    {
        let inst: &EventInstance = &store.instances[n];
        let ghost prev = one_off_sessions(store.instances@, window_start, window_end, n as int);
        if inst.start_utc >= window_start && inst.start_utc < window_end && inst.status
            == EventStatus::Active {
            results.push(clone_instance(inst));
            assert(results@ =~= from_rules + prev.push(*inst));
        }
        n += 1;
    }
    proof {
        lemma_sorted_by_start(results@);
    }
    sort_by_start(&results)
}

/// Those of the first `n` sessions of `s` that have no host.
pub open spec fn without_host(s: Seq<EventInstance>, n: int) -> Seq<EventInstance>
    decreases n,
{
    if n <= 0 {
        Seq::empty()
    } else if s[n - 1].host_principal is None {
        without_host(s, n - 1).push(s[n - 1])
    } else {
        without_host(s, n - 1)
    }
}

/// How many of the first `n` sessions of `s` have a host.
pub open spec fn hosted_count(s: Seq<EventInstance>, n: int) -> int
    decreases n,
{
    if n <= 0 {
        0
    } else if s[n - 1].host_principal is Some {
        hosted_count(s, n - 1) + 1
    } else {
        hosted_count(s, n - 1)
    }
}

/// The sessions without a host from `now` to the end of the forward
/// window: the end of the month that lies as many months after the month
/// of `now` as the settings say.
pub fn list_unclaimed_events(store: &Store, now: u64) -> (out: Vec<EventInstance>)
    requires
        window_end(now, store.settings.forward_window_months as int) <= u64::MAX,
    ensures
        out@ == without_host(
            materialized(
                store,
                now,
                window_end(now, store.settings.forward_window_months as int) as u64,
            ),
            materialized(
                store,
                now,
                window_end(now, store.settings.forward_window_months as int) as u64,
            ).len() as int,
        ),
{
    let end: u64 = calculate_window_end(now, store.settings.forward_window_months);
    let all: Vec<EventInstance> = materialize_events(store, now, end);
    let mut out: Vec<EventInstance> = Vec::new();
    let mut i: usize = 0;
    while i < all.len()
        invariant
            0 <= i <= all@.len(),
            out@ == without_host(all@, i as int),
        decreases all@.len() - i,
    {
        if all[i].host_principal.is_none() {
            out.push(clone_instance(&all[i]));
        }
        i += 1;
    }
    out
}

/// The share of `assigned` in `total`, in whole percent rounded down, and
/// 0 where `total` is 0.
pub open spec fn percent(assigned: int, total: int) -> int {
    if total <= 0 {
        0
    } else {
        assigned * 100 / total
    }
}

/// `n`, or the largest `u32` where `n` is past it.
pub open spec fn clamped(n: int) -> u32 {
    if n > u32::MAX {
        u32::MAX
    } else {
        n as u32
    }
}

/// How many sessions a window holds and how many of them have a host.
/// A count past the largest `u32` is given as the largest `u32`.
pub fn coverage_stats(store: &Store, window_start: u64, window_end: u64, period_label: String) -> (r:
    CoverageStats)
    ensures
        r.period_label == period_label,
        r.total_sessions == clamped(materialized(store, window_start, window_end).len() as int),
        r.assigned == clamped(
            hosted_count(
                materialized(store, window_start, window_end),
                materialized(store, window_start, window_end).len() as int,
            ),
        ),
        r.unassigned == r.total_sessions - r.assigned,
        r.coverage_pct == percent(r.assigned as int, r.total_sessions as int),
{
    let events: Vec<EventInstance> = materialize_events(store, window_start, window_end);
    let total: u32 = if events.len() > u32::MAX as usize {
        u32::MAX
    } else {
        events.len() as u32
    };
    let mut assigned: u32 = 0;
    let mut i: usize = 0;
    while i < events.len()
        invariant
            0 <= i <= events@.len(),
            assigned == clamped(hosted_count(events@, i as int)),
            0 <= hosted_count(events@, i as int) <= i,
        decreases events@.len() - i,
    {
        if events[i].host_principal.is_some() && assigned < u32::MAX {
            assigned += 1;
        }
        i += 1;
    }
    assert(assigned <= total);
    let coverage_pct: u32 = if total > 0 {
        let scaled: u64 = assigned as u64 * 100;
        let share: u64 = scaled / (total as u64);
        assert(share <= 100) by {
            vstd::arithmetic::div_mod::lemma_div_is_ordered(
                scaled as int,
                total as int * 100,
                total as int,
            );
            vstd::arithmetic::div_mod::lemma_div_multiples_vanish(100, total as int);
            assert(total as int * 100 == 100 * total as int);
        }
        share as u32
    } else {
        0
    };
    CoverageStats {
        period_label,
        total_sessions: total,
        assigned,
        unassigned: total - assigned,
        coverage_pct,
    }
}

} // verus!
