//! Data definitions shared by the scheduler: rules, exceptions, sessions,
//! users and settings. Every instant is a count of nanoseconds since the
//! start of 1970, in UTC.

use vstd::prelude::*;

verus! {

/// What a user may do.
#[derive(Clone, Copy, Debug, PartialEq, Eq, Structural)]
pub enum Role {
    Admin,
    User,
}

/// Whether a user may act and host.
#[derive(Clone, Copy, Debug, PartialEq, Eq, Structural)]
pub enum UserStatus {
    Active,
    Disabled,
}

/// How often a rule recurs.
#[derive(Clone, Copy, Debug, PartialEq, Eq, Structural)]
pub enum Frequency {
    Weekly,
    Biweekly,
    Monthly,
}

/// A day of the week.
#[derive(Clone, Copy, Debug, PartialEq, Eq, Structural)]
pub enum Weekday {
    Mon,
    Tue,
    Wed,
    Thu,
    Fri,
    Sat,
    Sun,
}

impl Weekday {
    /// Position in the week, Monday being 0 and Sunday 6.
    pub open spec fn ordinal(self) -> int {
        match self {
            Weekday::Mon => 0,
            Weekday::Tue => 1,
            Weekday::Wed => 2,
            Weekday::Thu => 3,
            Weekday::Fri => 4,
            Weekday::Sat => 5,
            Weekday::Sun => 6,
        }
    }

    /// Position in the week, Monday being 0 and Sunday 6.
    pub fn index(self) -> (r: u32)
        ensures
            r == self.ordinal(),
            r < 7,
    {
        match self {
            Weekday::Mon => 0,
            Weekday::Tue => 1,
            Weekday::Wed => 2,
            Weekday::Thu => 3,
            Weekday::Fri => 4,
            Weekday::Sat => 5,
            Weekday::Sun => 6,
        }
    }
}

/// Which occurrence of a weekday in a month a monthly rule means.
#[derive(Clone, Copy, Debug, PartialEq, Eq, Structural)]
pub enum WeekdayOrdinal {
    First,
    Second,
    Third,
    Fourth,
    Last,
}

impl WeekdayOrdinal {
    /// 1 to 4 for `First` to `Fourth`, and 5 for `Last`.
    pub open spec fn rank(self) -> int {
        match self {
            WeekdayOrdinal::First => 1,
            WeekdayOrdinal::Second => 2,
            WeekdayOrdinal::Third => 3,
            WeekdayOrdinal::Fourth => 4,
            WeekdayOrdinal::Last => 5,
        }
    }

    /// 1 to 4 for `First` to `Fourth`, and 5 for `Last`.
    pub fn number(self) -> (r: u32)
        ensures
            r == self.rank(),
            1 <= r <= 5,
    {
        match self {
            WeekdayOrdinal::First => 1,
            WeekdayOrdinal::Second => 2,
            WeekdayOrdinal::Third => 3,
            WeekdayOrdinal::Fourth => 4,
            WeekdayOrdinal::Last => 5,
        }
    }
}

/// Whether a session takes place.
#[derive(Clone, Copy, Debug, PartialEq, Eq, Structural)]
pub enum EventStatus {
    Active,
    Cancelled,
}

/// What a notification tells.
#[derive(Clone, Copy, Debug, PartialEq, Eq, Structural)]
pub enum NotificationType {
    HostAssigned,
    HostRemoved,
    InstanceTimeChanged,
    InstanceCancelled,
    UnclaimedReminder,
    CoverageNeededSoon,
    DailyDigest,
    WeeklyDigest,
}

/// How far the delivery of a notification has come.
#[derive(Clone, Copy, Debug, PartialEq, Eq, Structural)]
pub enum NotificationStatus {
    Pending,
    Sent,
    Failed,
}

/// Identity of a person or service: up to 29 bytes, of which the first
/// `len` count and the rest are zero.
#[derive(Clone, Copy, Debug, PartialEq, Eq)]
pub struct Principal {
    pub len: u8,
    pub bytes: [u8; 29],
}

/// A half-open span `[start_utc, end_utc)` during which a user cannot host.
#[derive(Clone, Copy, Debug, PartialEq, Eq, Structural)]
pub struct OOOBlock {
    pub start_utc: u64,
    pub end_utc: u64,
}

/// Which events a user wants to be told of.
#[derive(Clone, Copy, Debug, PartialEq, Eq, Structural)]
pub struct NotificationSettings {
    pub email_on_assigned: bool,
    pub email_on_removed: bool,
    pub email_on_cancelled: bool,
    pub email_on_time_changed: bool,
    pub email_unclaimed_reminder: bool,
    pub reminder_hours_before: Option<u32>,
}

impl Default for NotificationSettings {
    fn default() -> (r: Self)
        ensures
            r == (NotificationSettings {
                email_on_assigned: true,
                email_on_removed: true,
                email_on_cancelled: true,
                email_on_time_changed: true,
                email_unclaimed_reminder: false,
                reminder_hours_before: Some(24u32),
            }),
    {
        NotificationSettings {
            email_on_assigned: true,
            email_on_removed: true,
            email_on_cancelled: true,
            email_on_time_changed: true,
            email_unclaimed_reminder: false,
            reminder_hours_before: Some(24),
        }
    }
}

/// A person who may act, and host sessions.
#[derive(Clone, Debug, PartialEq, Eq)]
pub struct User {
    pub principal: Principal,
    pub name: String,
    pub email: String,
    pub role: Role,
    pub status: UserStatus,
    pub out_of_office: Vec<OOOBlock>,
    pub notification_settings: NotificationSettings,
    pub last_active: u64,
    pub sessions_hosted_count: u32,
    pub created_at: u64,
    pub updated_at: u64,
}

impl User {
    /// Two user records that agree in every field, the out-of-office blocks
    /// taken as a sequence.
    pub open spec fn same_as(&self, other: &User) -> bool {
        &&& self.principal == other.principal
        &&& self.name == other.name
        &&& self.email == other.email
        &&& self.role == other.role
        &&& self.status == other.status
        &&& self.out_of_office@ == other.out_of_office@
        &&& self.notification_settings == other.notification_settings
        &&& self.last_active == other.last_active
        &&& self.sessions_hosted_count == other.sessions_hosted_count
        &&& self.created_at == other.created_at
        &&& self.updated_at == other.updated_at
    }
}

/// A user as the directory shows them.
#[derive(Clone, Debug, PartialEq, Eq)]
pub struct UserDirectoryEntry {
    pub principal: Principal,
    pub name: String,
    pub role: Role,
    pub status: UserStatus,
}

/// A recurrence rule ("series") from which occurrences are generated.
#[derive(Clone, Debug, PartialEq, Eq)]
pub struct EventSeries {
    pub series_id: [u8; 16],
    pub title: String,
    pub notes: String,
    pub link: Option<String>,
    pub frequency: Frequency,
    pub weekday: Weekday,
    pub weekday_ordinal: Option<WeekdayOrdinal>,
    pub start_date: u64,
    pub end_date: Option<u64>,
    pub default_duration_minutes: u32,
    pub color: Option<String>,
    pub paused: bool,
    pub created_at: u64,
    pub created_by: Principal,
}

impl EventSeries {
    /// A monthly rule names the ordinal of its weekday in the month.
    pub open spec fn well_formed(&self) -> bool {
        self.frequency == Frequency::Monthly ==> self.weekday_ordinal is Some
    }
}

/// A resolved session: either one occurrence of a rule with its exception
/// applied, or a stored one-off session.
#[derive(Clone, Debug, PartialEq, Eq)]
pub struct EventInstance {
    pub instance_id: [u8; 16],
    pub series_id: Option<[u8; 16]>,
    pub start_utc: u64,
    pub end_utc: u64,
    pub title: String,
    pub notes: String,
    pub link: Option<String>,
    pub host_principal: Option<Principal>,
    pub status: EventStatus,
    pub color: Option<String>,
    pub created_at: u64,
}

/// Identifies one occurrence of a rule by the instant the rule generated,
/// which never shifts when the occurrence is rescheduled.
#[derive(Clone, Copy, Debug, PartialEq, Eq, PartialOrd, Ord)]
pub struct OverrideKey {
    pub series_id: [u8; 16],
    pub occurrence_start_utc: u64,
}

/// A sparse per-occurrence exception to a rule.
#[derive(Clone, Debug, PartialEq, Eq)]
pub struct InstanceOverride {
    pub series_id: [u8; 16],
    pub occurrence_start_utc: u64,
    pub start_utc: Option<u64>,
    pub end_utc: Option<u64>,
    pub notes: Option<String>,
    pub host_principal: Option<Principal>,
    pub host_cleared: bool,
    pub cancelled: bool,
    pub updated_at: u64,
    pub updated_by: Principal,
}

/// Settings that hold for everyone.
#[derive(Clone, Debug, PartialEq, Eq)]
pub struct GlobalSettings {
    pub forward_window_months: u8,
    pub claims_paused: bool,
    pub default_event_duration_minutes: u32,
    pub org_name: Option<String>,
    pub org_tagline: Option<String>,
    pub org_logo_url: Option<String>,
}

impl Default for GlobalSettings {
    fn default() -> (r: Self)
        ensures
            r == (GlobalSettings {
                forward_window_months: 2u8,
                claims_paused: false,
                default_event_duration_minutes: 60u32,
                org_name: None,
                org_tagline: None,
                org_logo_url: None,
            }),
    {
        GlobalSettings {
            forward_window_months: 2,
            claims_paused: false,
            default_event_duration_minutes: 60,
            org_name: None,
            org_tagline: None,
            org_logo_url: None,
        }
    }
}

/// A notification waiting to be sent, or sent.
#[derive(Clone, Debug, PartialEq, Eq)]
pub struct NotificationJob {
    pub job_id: [u8; 16],
    pub created_at: u64,
    pub notification_type: NotificationType,
    pub recipient_principal: Principal,
    pub recipient_email: String,
    pub subject: String,
    pub body_text: String,
    pub ics_payload: Option<String>,
    pub status: NotificationStatus,
    pub sent_at: Option<u64>,
    pub error_message: Option<String>,
}

/// What a request for a new one-off session gives.
#[derive(Clone, Debug, PartialEq, Eq)]
pub struct CreateEventInput {
    pub title: String,
    pub notes: String,
    pub link: Option<String>,
    pub start_utc: u64,
    pub end_utc: u64,
    pub host_principal: Option<Principal>,
}

/// What a request for a new rule gives.
#[derive(Clone, Debug, PartialEq, Eq)]
pub struct CreateSeriesInput {
    pub title: String,
    pub notes: String,
    pub link: Option<String>,
    pub frequency: Frequency,
    pub weekday: Weekday,
    pub weekday_ordinal: Option<WeekdayOrdinal>,
    pub start_date: u64,
    pub end_date: Option<u64>,
    pub default_duration_minutes: Option<u32>,
    pub color: Option<String>,
}

/// A partial update of a rule: `None` leaves a field as it is; for
/// `end_date` and `color`, `Some(None)` clears it.
#[derive(Clone, Debug, PartialEq, Eq)]
pub struct UpdateSeriesInput {
    pub title: Option<String>,
    pub notes: Option<String>,
    pub end_date: Option<Option<u64>>,
    pub default_duration_minutes: Option<u32>,
    pub color: Option<Option<String>>,
    pub paused: Option<bool>,
}

/// A change of one occurrence: `None` leaves a field as it is.
#[derive(Clone, Debug, PartialEq, Eq)]
pub struct UpdateInstanceInput {
    pub start_utc: Option<u64>,
    pub end_utc: Option<u64>,
    pub notes: Option<String>,
}

/// Session counts of one period. `coverage_pct` is the share of sessions
/// with a host, in whole percent rounded down, and 0 for an empty period.
#[derive(Clone, Debug, PartialEq, Eq)]
pub struct CoverageStats {
    pub period_label: String,
    pub total_sessions: u32,
    pub assigned: u32,
    pub unassigned: u32,
    pub coverage_pct: u32,
}

/// A session as the public calendar shows it.
#[derive(Clone, Debug, PartialEq, Eq)]
pub struct PublicEventView {
    pub instance_id: Vec<u8>,
    pub title: String,
    pub notes: String,
    pub link: Option<String>,
    pub start_utc: u64,
    pub end_utc: u64,
    pub host_name: Option<String>,
    pub status: EventStatus,
    pub color: Option<String>,
}

/// Why an operation failed.
#[derive(Clone, Debug, PartialEq, Eq)]
pub enum ApiError {
    Unauthorized,
    NotFound,
    InvalidInput(String),
    Conflict(String),
    InternalError(String),
}

/// The kind of an `ApiError`, without its message.
#[derive(Clone, Copy, Debug, PartialEq, Eq, Structural)]
pub enum ErrorKind {
    Unauthorized,
    NotFound,
    InvalidInput,
    Conflict,
    InternalError,
}

impl ApiError {
    /// The kind of the error.
    pub open spec fn spec_kind(&self) -> ErrorKind {
        match self {
            ApiError::Unauthorized => ErrorKind::Unauthorized,
            ApiError::NotFound => ErrorKind::NotFound,
            ApiError::InvalidInput(_) => ErrorKind::InvalidInput,
            ApiError::Conflict(_) => ErrorKind::Conflict,
            ApiError::InternalError(_) => ErrorKind::InternalError,
        }
    }

    /// The kind of the error.
    #[verifier::when_used_as_spec(spec_kind)]
    pub fn kind(&self) -> (k: ErrorKind)
        ensures
            k == self.spec_kind(),
    {
        match self {
            ApiError::Unauthorized => ErrorKind::Unauthorized,
            ApiError::NotFound => ErrorKind::NotFound,
            ApiError::InvalidInput(_) => ErrorKind::InvalidInput,
            ApiError::Conflict(_) => ErrorKind::Conflict,
            ApiError::InternalError(_) => ErrorKind::InternalError,
        }
    }
}

pub type ApiResult<T> = Result<T, ApiError>;

/// A code that lets its bearer become a user.
#[derive(Clone, Debug, PartialEq, Eq)]
pub struct InviteCode {
    pub code: String,
    pub role: Role,
    pub created_at: u64,
    pub created_by: Principal,
    pub expires_at: u64,
    pub redeemed: bool,
    pub redeemed_by: Option<Principal>,
    pub redeemed_at: Option<u64>,
}

/// The text of an invite code, as a storage key.
#[derive(Clone, Debug, PartialEq, Eq, PartialOrd, Ord)]
pub struct InviteCodeKey(pub String);

/// A 16-byte identifier used as a storage key.
#[derive(Clone, Copy, Debug, PartialEq, Eq, PartialOrd, Ord)]
pub struct Uuid(pub [u8; 16]);

impl Uuid {
    /// The identifier with these bytes.
    pub fn new(bytes: [u8; 16]) -> (r: Self)
        ensures
            r.0 == bytes,
    {
        Uuid(bytes)
    }

    /// The bytes of the identifier.
    pub fn as_bytes(&self) -> (r: &[u8; 16])
        ensures
            *r == self.0,
    {
        &self.0
    }
}

/// Whether two byte arrays of one length hold the same bytes.
pub fn bytes_equal<const N: usize>(a: &[u8; N], b: &[u8; N]) -> (r: bool)
    ensures
        r == (*a == *b),
{
    let mut i: usize = 0;
    while i < N
        invariant
            0 <= i <= N,
            forall|j: int| 0 <= j < i ==> a[j] == b[j],
        decreases N - i,
    {
        if a[i] != b[i] {
            return false;
        }
        i += 1;
    }
    assert(*a =~= *b);
    true
}

impl Principal {
    /// Whether two principals are the same.
    pub fn same(&self, other: &Principal) -> (r: bool)
        ensures
            r == (*self == *other),
    {
        self.len == other.len && bytes_equal(&self.bytes, &other.bytes)
    }
}

/// A copy of a string that may be absent.
pub fn clone_opt_string(s: &Option<String>) -> (r: Option<String>)
    ensures
        r == *s,
{
    match s {
        Some(x) => Some(x.clone()),
        None => None,
    }
}

} // verus!
