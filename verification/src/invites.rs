//! Invite codes: a code that an administrator hands out lets its bearer
//! become a user with the role the code carries.

use vstd::prelude::*;
use vstd::utf8::encode_utf8;
use crate::auth::{admin_caller, require_admin, require_authenticated};
use crate::storage::{
    Store, insert_user, lemma_position, lemma_position_is, lookup, position, upsert, user_is,
    user_position,
};
use crate::text::ascii_string;
use crate::types::{
    ApiError, ApiResult, ErrorKind, InviteCode, NotificationSettings, Principal, Role, User,
    UserStatus,
};

verus! {

/// How long a code can be redeemed: seven days.
pub const INVITE_LIFETIME: u64 = 604_800_000_000_000;

/// A string without the white space at its two ends.
pub uninterp spec fn trimmed(s: Seq<char>) -> Seq<char>;

/// A string in upper case.
pub uninterp spec fn uppercased(s: Seq<char>) -> Seq<char>;

/// Calls `str::trim` of std. Nothing is proved of it: the contract names
/// what it returns.
#[verifier::external_body]
fn trim(s: &str) -> (r: String)
    ensures
        r@ == trimmed(s@),
{
    s.trim().to_string()
}

/// Calls `str::to_uppercase` of std. Nothing is proved of it: the
/// contract names what it returns.
#[verifier::external_body]
fn to_uppercase(s: &str) -> (r: String)
    ensures
        r@ == uppercased(s@),
{
    s.to_uppercase()
}

/// The 31 characters of a code: capital letters and digits without those
/// that are easily mistaken for one another (0, O, 1, I, L).
pub open spec fn charset() -> Seq<u8> {
    seq![
        65u8, 66u8, 67u8, 68u8, 69u8, 70u8, 71u8, 72u8, 74u8, 75u8, 77u8, 78u8, 80u8, 81u8, 82u8,
        83u8, 84u8, 85u8, 86u8, 87u8, 88u8, 89u8, 90u8, 50u8, 51u8, 52u8, 53u8, 54u8, 55u8, 56u8,
        57u8,
    ]
}

/// The character that a random byte chooses.
pub open spec fn symbol(b: u8) -> u8 {
    charset()[b as int % 31]
}

/// `YS-XXXX-XXXX`, each `X` chosen by one of the first eight bytes.
pub open spec fn code_bytes(random: Seq<u8>) -> Seq<u8> {
    seq![
        89u8,
        83u8,
        45u8,
        symbol(random[0]),
        symbol(random[1]),
        symbol(random[2]),
        symbol(random[3]),
        45u8,
        symbol(random[4]),
        symbol(random[5]),
        symbol(random[6]),
        symbol(random[7]),
    ]
}

fn pick_symbol(b: u8) -> (r: u8)
    ensures
        r == symbol(b),
        r < 128,
{
    let table: [u8; 31] = [
        65, 66, 67, 68, 69, 70, 71, 72, 74, 75, 77, 78, 80, 81, 82, 83, 84, 85, 86, 87, 88, 89, 90,
        50, 51, 52, 53, 54, 55, 56, 57,
    ];
    let i: usize = (b % 31) as usize;
    assert(table@ =~= charset());
    table[i]
}

/// The text of a code, from at least eight random bytes.
pub fn invite_code_text(random: &Vec<u8>) -> (code: String)
    requires
        random@.len() >= 8,
    ensures
        code@ == Seq::new(12, |i: int| code_bytes(random@)[i] as char),
{
    let mut bytes: Vec<u8> = Vec::new();
    bytes.push(89);
    bytes.push(83);
    bytes.push(45);
    bytes.push(pick_symbol(random[0]));
    bytes.push(pick_symbol(random[1]));
    bytes.push(pick_symbol(random[2]));
    bytes.push(pick_symbol(random[3]));
    bytes.push(45);
    bytes.push(pick_symbol(random[4]));
    bytes.push(pick_symbol(random[5]));
    bytes.push(pick_symbol(random[6]));
    bytes.push(pick_symbol(random[7]));
    assert(bytes@ =~= code_bytes(random@));
    let code: String = ascii_string(bytes);
    assert(code@ =~= Seq::new(12, |i: int| code_bytes(random@)[i] as char));
    code
}

/// The codes with the text `code`.
pub open spec fn code_is(code: Seq<char>) -> spec_fn(InviteCode) -> bool {
    |c: InviteCode| c.code@ == code
}

/// A copy of a code.
pub fn clone_invite(c: &InviteCode) -> (r: InviteCode)
    ensures
        r == *c,
{
    InviteCode {
        code: c.code.clone(),
        role: c.role,
        created_at: c.created_at,
        created_by: c.created_by,
        expires_at: c.expires_at,
        redeemed: c.redeemed,
        redeemed_by: c.redeemed_by,
        redeemed_at: c.redeemed_at,
    }
}

fn code_position(codes: &Vec<InviteCode>, code: &String) -> (i: usize)
    ensures
        i == position(codes@, code_is(code@)),
        i <= codes@.len(),
{
    let mut i: usize = 0;
    while i < codes.len()
        invariant
            0 <= i <= codes@.len(),
            forall|j: int| 0 <= j < i ==> !code_is(code@)(#[trigger] codes@[j]),
        decreases codes@.len() - i,
    {
        if codes[i].code == *code {
            proof {
                lemma_position_is(codes@, code_is(code@), i as int);
            }
            return i;
        }
        i += 1;
    }
    proof {
        lemma_position_is(codes@, code_is(code@), i as int);
    }
    i
}

/// A fresh code for `role`, made at `now` by `by`: not redeemed, and good
/// for seven days.
pub open spec fn new_invite(code: String, role: Role, by: Principal, now: u64) -> InviteCode {
    InviteCode {
        code,
        role,
        created_at: now,
        created_by: by,
        expires_at: (now + INVITE_LIFETIME) as u64,
        redeemed: false,
        redeemed_by: None,
        redeemed_at: None,
    }
}

/// Makes and stores a code for `role` from random bytes, for an
/// administrator.
pub fn generate_invite_code(
    store: &Store,
    codes: &mut Vec<InviteCode>,
    caller: Principal,
    role: Role,
    random: &Vec<u8>,
    now: u64,
) -> (r: ApiResult<InviteCode>)
    requires
        random@.len() >= 8,
        now + INVITE_LIFETIME <= u64::MAX,
    ensures
        !admin_caller(store.users@, caller) ==> r == Err::<InviteCode, ApiError>(
            ApiError::Unauthorized,
        ) && final(codes)@ == old(codes)@,
        admin_caller(store.users@, caller) ==> {
            &&& r is Ok
            &&& r.unwrap().code@ == Seq::new(12, |i: int| code_bytes(random@)[i] as char)
            &&& r.unwrap() == new_invite(r.unwrap().code, role, caller, now)
            &&& final(codes)@ == upsert(old(codes)@, code_is(r.unwrap().code@), r.unwrap())
        },
{
    match require_admin(store, caller) {
        Err(e) => {
            return Err(e);
        },
        Ok(_) => {},
    }
    let invite = InviteCode {
        code: invite_code_text(random),
        role,
        created_at: now,
        created_by: caller,
        expires_at: now + INVITE_LIFETIME,
        redeemed: false,
        redeemed_by: None,
        redeemed_at: None,
    };
    let i: usize = code_position(codes, &invite.code);
    let stored: InviteCode = clone_invite(&invite);
    if i < codes.len() {
        codes[i] = stored;
    } else {
        codes.push(stored);
    }
    Ok(invite)
}

/// Every code, for an administrator.
pub fn list_invite_codes(store: &Store, codes: &Vec<InviteCode>, caller: Principal) -> (r:
    ApiResult<Vec<InviteCode>>)
    ensures
        !admin_caller(store.users@, caller) ==> r == Err::<Vec<InviteCode>, ApiError>(
            ApiError::Unauthorized,
        ),
        admin_caller(store.users@, caller) ==> r is Ok && r.unwrap()@ == codes@,
{
    match require_admin(store, caller) {
        Err(e) => {
            return Err(e);
        },
        Ok(_) => {},
    }
    let mut out: Vec<InviteCode> = Vec::new();
    let mut i: usize = 0;
    while i < codes.len()
        invariant
            0 <= i <= codes@.len(),
            out@ == codes@.subrange(0, i as int),
        decreases codes@.len() - i,
    {
        out.push(clone_invite(&codes[i]));
        i += 1;
        assert(out@ =~= codes@.subrange(0, i as int));
    }
    assert(out@ =~= codes@);
    Ok(out)
}

/// An e-mail address must hold an `@`.
pub open spec fn holds_at(email: Seq<char>) -> bool {
    exists|i: int| 0 <= i < encode_utf8(email).len() && #[trigger] encode_utf8(email)[i] == 64
}

fn has_at(email: &str) -> (r: bool)
    ensures
        r == holds_at(email@),
{
    let bytes: &[u8] = email.as_bytes();
    let mut i: usize = 0;
    while i < bytes.len()
        invariant
            0 <= i <= bytes@.len(),
            bytes@ == encode_utf8(email@),
            forall|j: int| 0 <= j < i ==> #[trigger] bytes@[j] != 64,
        decreases bytes@.len() - i,
    {
        if bytes[i] == 64 {
            return true;
        }
        i += 1;
    }
    false
}

/// What a redemption comes to, name and address trimmed and the code
/// trimmed and in upper case: `Unauthorized` for an anonymous caller,
/// `Conflict` for a caller who is a user already, `InvalidInput` for an
/// empty name, an address that is empty or holds no `@`, a code that is
/// not stored, was redeemed or has run out; else the position of the
/// code.
pub open spec fn redeem_check(
    users: Seq<User>,
    codes: Seq<InviteCode>,
    caller: Principal,
    code: Seq<char>,
    name: Seq<char>,
    email: Seq<char>,
    now: u64,
) -> Result<int, ErrorKind> {
    let i = position(codes, code_is(code));
    if caller.is_anonymous() {
        Err(ErrorKind::Unauthorized)
    } else if lookup(users, user_is(caller)) is Some {
        Err(ErrorKind::Conflict)
    } else if name.len() == 0 || email.len() == 0 || !holds_at(email) {
        Err(ErrorKind::InvalidInput)
    } else if i >= codes.len() || codes[i].redeemed || codes[i].expires_at < now {
        Err(ErrorKind::InvalidInput)
    } else {
        Ok(i)
    }
}

/// The user that a redeemed code makes of `caller`.
pub open spec fn is_redeemed_user(
    u: User,
    caller: Principal,
    name: Seq<char>,
    email: Seq<char>,
    role: Role,
    now: u64,
) -> bool {
    &&& u.principal == caller
    &&& u.name@ == name
    &&& u.email@ == email
    &&& u.role == role
    &&& u.status == UserStatus::Active
    &&& u.out_of_office@.len() == 0
    &&& u.notification_settings == (NotificationSettings {
        email_on_assigned: true,
        email_on_removed: true,
        email_on_cancelled: true,
        email_on_time_changed: true,
        email_unclaimed_reminder: false,
        reminder_hours_before: Some(24u32),
    })
    &&& u.last_active == now
    &&& u.sessions_hosted_count == 0
    &&& u.created_at == now
    &&& u.updated_at == now
}

/// Redeems a code whose text, like the name and the address, is trimmed
/// already, the code in upper case too: the caller becomes an active
/// user with the code's role, and the code is marked as redeemed by the
/// caller at `now`.
pub fn redeem_prepared(
    store: &mut Store,
    codes: &mut Vec<InviteCode>,
    caller: Principal,
    code: String,
    name: String,
    email: String,
    now: u64,
) -> (r: ApiResult<User>)
    ensures
        final(store).series == old(store).series,
        final(store).overrides == old(store).overrides,
        final(store).instances == old(store).instances,
        final(store).settings == old(store).settings,
        final(store).notifications == old(store).notifications,
        final(store).outbox == old(store).outbox,
        old(store).wf() ==> final(store).wf(),
        match redeem_check(old(store).users@, old(codes)@, caller, code@, name@, email@, now) {
            Err(k) => {
                &&& r is Err
                &&& r.unwrap_err().kind() == k
                &&& final(store).users == old(store).users
                &&& final(codes)@ == old(codes)@
            },
            Ok(i) => {
                &&& r is Ok
                &&& is_redeemed_user(r.unwrap(), caller, name@, email@, old(codes)@[i].role, now)
                &&& final(store).users@.len() == old(store).users@.len() + 1
                &&& final(store).users@.drop_last() == old(store).users@
                &&& is_redeemed_user(
                    final(store).users@.last(),
                    caller,
                    name@,
                    email@,
                    old(codes)@[i].role,
                    now,
                )
                &&& final(codes)@ == old(codes)@.update(
                    i,
                    InviteCode {
                        redeemed: true,
                        redeemed_by: Some(caller),
                        redeemed_at: Some(now),
                        ..old(codes)@[i]
                    },
                )
            },
        },
{
    match require_authenticated(caller) {
        Err(e) => {
            return Err(e);
        },
        Ok(_) => {},
    }
    let at: usize = user_position(&store.users, &caller);
    if at < store.users.len() {
        return Err(ApiError::Conflict("You are already an authorized user.".to_string()));
    }
    if name.as_str().is_empty() {
        return Err(ApiError::InvalidInput("Name is required.".to_string()));
    }
    if email.as_str().is_empty() || !has_at(email.as_str()) {
        return Err(ApiError::InvalidInput("A valid email is required.".to_string()));
    }
    let i: usize = code_position(codes, &code);
    if i >= codes.len() {
        return Err(ApiError::InvalidInput("Invalid invite code.".to_string()));
    }
    if codes[i].redeemed {
        return Err(ApiError::InvalidInput("This invite code has already been used.".to_string()));
    }
    if codes[i].expires_at < now {
        return Err(ApiError::InvalidInput("This invite code has expired.".to_string()));
    }
    let role: Role = codes[i].role;
    let user = User {
        principal: caller,
        name: name.clone(),
        email: email.clone(),
        role,
        status: UserStatus::Active,
        out_of_office: Vec::new(),
        notification_settings: NotificationSettings::default(),
        last_active: now,
        sessions_hosted_count: 0,
        created_at: now,
        updated_at: now,
    };
    let stored = User {
        principal: caller,
        name,
        email,
        role,
        status: UserStatus::Active,
        out_of_office: Vec::new(),
        notification_settings: NotificationSettings::default(),
        last_active: now,
        sessions_hosted_count: 0,
        created_at: now,
        updated_at: now,
    };
    proof {
        lemma_position(store.users@, user_is(caller));
    }
    insert_user(store, stored);
    assert(final(store).users@.drop_last() =~= old(store).users@);
    codes[i].redeemed = true;
    codes[i].redeemed_by = Some(caller);
    codes[i].redeemed_at = Some(now);
    Ok(user)
}

/// Redeems a code: trims the name, the address and the code, puts the
/// code in upper case, and goes on as `redeem_prepared` does.
pub fn redeem_invite_code(
    store: &mut Store,
    codes: &mut Vec<InviteCode>,
    caller: Principal,
    code: String,
    name: String,
    email: String,
    now: u64,
) -> (r: ApiResult<User>)
    ensures
        final(store).series == old(store).series,
        final(store).overrides == old(store).overrides,
        final(store).instances == old(store).instances,
        final(store).settings == old(store).settings,
        final(store).notifications == old(store).notifications,
        final(store).outbox == old(store).outbox,
        old(store).wf() ==> final(store).wf(),
        match redeem_check(
            old(store).users@,
            old(codes)@,
            caller,
            uppercased(trimmed(code@)),
            trimmed(name@),
            trimmed(email@),
            now,
        ) {
            Err(k) => {
                &&& r is Err
                &&& r.unwrap_err().kind() == k
                &&& final(store).users == old(store).users
                &&& final(codes)@ == old(codes)@
            },
            Ok(i) => {
                &&& r is Ok
                &&& is_redeemed_user(
                    r.unwrap(),
                    caller,
                    trimmed(name@),
                    trimmed(email@),
                    old(codes)@[i].role,
                    now,
                )
                &&& final(store).users@.len() == old(store).users@.len() + 1
                &&& final(store).users@.drop_last() == old(store).users@
                &&& final(codes)@ == old(codes)@.update(
                    i,
                    InviteCode {
                        redeemed: true,
                        redeemed_by: Some(caller),
                        redeemed_at: Some(now),
                        ..old(codes)@[i]
                    },
                )
            },
        },
{
    let name: String = trim(name.as_str());
    let email: String = trim(email.as_str());
    let code: String = trim(code.as_str());
    let code: String = to_uppercase(code.as_str());
    redeem_prepared(store, codes, caller, code, name, email, now)
}

} // verus!
