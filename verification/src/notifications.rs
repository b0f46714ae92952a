//! Notification events: what the notification collaborator is told when a
//! host is assigned or removed, or a session is moved or cancelled. An
//! event is queued only where the user concerned asked for that kind.

use vstd::prelude::*;
use crate::storage::{NotificationEvent, Store};
use crate::types::{NotificationSettings, NotificationType, User};

verus! {

/// Whether a user with these settings is told of events of this kind.
pub open spec fn wants(settings: NotificationSettings, kind: NotificationType) -> bool {
    match kind {
        NotificationType::HostAssigned => settings.email_on_assigned,
        NotificationType::HostRemoved => settings.email_on_removed,
        NotificationType::InstanceCancelled => settings.email_on_cancelled,
        NotificationType::InstanceTimeChanged => settings.email_on_time_changed,
        _ => false,
    }
}

/// The event of `kind` for `host` about a session.
pub open spec fn event_for(
    host: &User,
    kind: NotificationType,
    instance_id: [u8; 16],
    start_utc: u64,
    end_utc: u64,
) -> NotificationEvent {
    NotificationEvent {
        kind,
        recipient: host.principal,
        recipient_email: host.email,
        instance_id,
        start_utc,
        end_utc,
    }
}

/// The outbox after an event of `kind` for `host`: one event longer where
/// the host wants such events, else unchanged.
pub open spec fn outbox_after(
    outbox: Seq<NotificationEvent>,
    host: &User,
    kind: NotificationType,
    instance_id: [u8; 16],
    start_utc: u64,
    end_utc: u64,
) -> Seq<NotificationEvent> {
    if wants(host.notification_settings, kind) {
        outbox.push(event_for(host, kind, instance_id, start_utc, end_utc))
    } else {
        outbox
    }
}

/// Everything but the outbox is as it was.
pub open spec fn only_outbox_changed(before: &Store, after: &Store) -> bool {
    &&& after.users == before.users
    &&& after.series == before.series
    &&& after.overrides == before.overrides
    &&& after.instances == before.instances
    &&& after.settings == before.settings
    &&& after.notifications == before.notifications
}

fn queue(
    store: &mut Store,
    host: &User,
    kind: NotificationType,
    instance_id: &[u8; 16],
    start_utc: u64,
    end_utc: u64,
)
    ensures
        final(store).outbox@ == old(store).outbox@.push(
            event_for(host, kind, *instance_id, start_utc, end_utc),
        ),
        only_outbox_changed(old(store), final(store)),
{
    store.outbox.push(
        NotificationEvent {
            kind,
            recipient: host.principal,
            recipient_email: host.email.clone(),
            instance_id: *instance_id,
            start_utc,
            end_utc,
        },
    );
}

/// Queues a "host assigned" event for `host`, where the host wants them.
pub fn create_host_assigned_notification(
    store: &mut Store,
    host: &User,
    instance_id: &[u8; 16],
    start_utc: u64,
    end_utc: u64,
)
    ensures
        final(store).outbox@ == outbox_after(
            old(store).outbox@,
            host,
            NotificationType::HostAssigned,
            *instance_id,
            start_utc,
            end_utc,
        ),
        only_outbox_changed(old(store), final(store)),
{
    if !host.notification_settings.email_on_assigned {
        return ;
    }
    queue(store, host, NotificationType::HostAssigned, instance_id, start_utc, end_utc);
}

/// Queues a "host removed" event for `host`, where the host wants them.
pub fn create_host_removed_notification(
    store: &mut Store,
    host: &User,
    instance_id: &[u8; 16],
    start_utc: u64,
    end_utc: u64,
)
    ensures
        final(store).outbox@ == outbox_after(
            old(store).outbox@,
            host,
            NotificationType::HostRemoved,
            *instance_id,
            start_utc,
            end_utc,
        ),
        only_outbox_changed(old(store), final(store)),
{
    if !host.notification_settings.email_on_removed {
        return ;
    }
    queue(store, host, NotificationType::HostRemoved, instance_id, start_utc, end_utc);
}

/// Queues a "session cancelled" event for `host`, where the host wants
/// them.
pub fn create_instance_cancelled_notification(
    store: &mut Store,
    host: &User,
    instance_id: &[u8; 16],
    start_utc: u64,
    end_utc: u64,
)
    ensures
        final(store).outbox@ == outbox_after(
            old(store).outbox@,
            host,
            NotificationType::InstanceCancelled,
            *instance_id,
            start_utc,
            end_utc,
        ),
        only_outbox_changed(old(store), final(store)),
{
    if !host.notification_settings.email_on_cancelled {
        return ;
    }
    queue(store, host, NotificationType::InstanceCancelled, instance_id, start_utc, end_utc);
}

/// Queues a "session moved" event for `host`, where the host wants them.
pub fn create_instance_time_changed_notification(
    store: &mut Store,
    host: &User,
    instance_id: &[u8; 16],
    start_utc: u64,
    end_utc: u64,
)
    ensures
        final(store).outbox@ == outbox_after(
            old(store).outbox@,
            host,
            NotificationType::InstanceTimeChanged,
            *instance_id,
            start_utc,
            end_utc,
        ),
        only_outbox_changed(old(store), final(store)),
{
    if !host.notification_settings.email_on_time_changed {
        return ;
    }
    queue(store, host, NotificationType::InstanceTimeChanged, instance_id, start_utc, end_utc);
}

} // verus!
