//! Accounts: Microsoft sign-in decisions, offline accounts with Mojang's
//! offline UUIDs, and the account list kept in the settings.
use vstd::prelude::*;
use vstd::utf8::{encode_utf8, is_char_boundary, valid_utf8};
use crate::digest::{hyphenated, lemma_hyphenated_digits, md5_digest, md5_of, uuid_string};
use crate::paths::{Account, Settings};
use crate::text::{
    concat, contains, lemma_encode_concat, lemma_prefix_boundary, push_all, str_contains,
    trim, trim_str,
};

verus! {

/// The reply to a device-code request, shown to the user while signing in.
#[derive(Debug, Clone)]
pub struct DeviceCodeResponse {
    pub user_code: String,
    pub device_code: String,
    pub verification_uri: String,
    pub expires_in: u64,
    pub interval: u64,
    pub message: String,
}

// ---------------------------------------------------------------------------
// UUID text
// ---------------------------------------------------------------------------

/// A 32-byte undashed id with dashes inserted after bytes 8, 12, 16 and 20.
pub open spec fn dashed_bytes(b: Seq<u8>) -> Seq<u8> {
    b.subrange(0, 8) + seq![45u8] + b.subrange(8, 12) + seq![45u8] + b.subrange(12, 16)
        + seq![45u8] + b.subrange(16, 20) + seq![45u8] + b.subrange(20, b.len() as int)
}

/// Dashes are inserted only into a 32-byte id that has none.
pub open spec fn needs_dashes(id: &str) -> bool {
    !contains(id@, "-"@) && (encode_utf8(id@).len() as usize) == 32
}

/// The byte slices the dashed form is cut from fall on character boundaries.
pub open spec fn dash_slices_valid(id: &str) -> bool {
    let b = encode_utf8(id@);
    is_char_boundary(b, 8) && is_char_boundary(b, 12) && is_char_boundary(b, 16)
        && is_char_boundary(b, 20)
}

/// Inserts the dashes of the canonical UUID form into an undashed 32-byte
/// id; any other id is returned unchanged.
pub fn insert_uuid_dashes(id: &str) -> (r: String)
    requires
        needs_dashes(id) ==> dash_slices_valid(id),
    ensures
        !needs_dashes(id) ==> r@ == id@,
        needs_dashes(id) ==> encode_utf8(r@) == dashed_bytes(encode_utf8(id@)),
{
    proof {
        reveal_strlit("-");
    }
    if str_contains(id, "-") || id.len() != 32 {
        return String::from_str(id);
    }
    let ghost b = encode_utf8(id@);
    proof {
        assert(dash_slices_valid(id));
        assert(is_char_boundary(b, 20));
        assert(is_char_boundary(b, 16));
        vstd::utf8::encode_utf8_valid_utf8(id@);
        vstd::utf8::is_char_boundary_start_end_of_seq(b);
        lemma_prefix_boundary(b, 20, 16);
        lemma_prefix_boundary(b, 16, 12);
        lemma_prefix_boundary(b, 12, 8);
    }
    let (x, e) = id.split_at(20);
    assert(encode_utf8(x@) =~= b.subrange(0, 20));
    assert(b.subrange(0, 20).subrange(0, 16) =~= b.subrange(0, 16));
    let (y, d) = x.split_at(16);
    assert(encode_utf8(y@) =~= b.subrange(0, 16));
    assert(b.subrange(0, 16).subrange(0, 12) =~= b.subrange(0, 12));
    let (z, c) = y.split_at(12);
    assert(encode_utf8(z@) =~= b.subrange(0, 12));
    assert(b.subrange(0, 12).subrange(0, 8) =~= b.subrange(0, 8));
    let (a, bb) = z.split_at(8);
    let mut r = String::from_str(a);
    push_all(&mut r, "-");
    push_all(&mut r, bb);
    push_all(&mut r, "-");
    push_all(&mut r, c);
    push_all(&mut r, "-");
    push_all(&mut r, d);
    push_all(&mut r, "-");
    push_all(&mut r, e);
    proof {
        let dash: Seq<char> = "-"@;
        assert(encode_utf8(dash) =~= seq![45u8]) by {
            assert(dash =~= seq!['-']);
            assert(dash.drop_first() =~= Seq::<char>::empty());
            assert(encode_utf8(Seq::<char>::empty()) =~= Seq::<u8>::empty());
            assert(encode_utf8(dash) == vstd::utf8::encode_scalar(dash[0] as u32) + encode_utf8(dash.drop_first()));
            assert(('-' as u32) == 45);
            assert((45u32 & 0x7Fu32) as u8 == 45u8) by (bit_vector);
            assert(vstd::utf8::encode_scalar(45u32) =~= seq![45u8]);
        }
        lemma_encode_concat(a@, dash);
        lemma_encode_concat(a@ + dash, bb@);
        lemma_encode_concat(a@ + dash + bb@, dash);
        lemma_encode_concat(a@ + dash + bb@ + dash, c@);
        lemma_encode_concat(a@ + dash + bb@ + dash + c@, dash);
        lemma_encode_concat(a@ + dash + bb@ + dash + c@ + dash, d@);
        lemma_encode_concat(a@ + dash + bb@ + dash + c@ + dash + d@, dash);
        lemma_encode_concat(a@ + dash + bb@ + dash + c@ + dash + d@ + dash, e@);
        assert(encode_utf8(a@) =~= b.subrange(0, 8));
        assert(encode_utf8(bb@) =~= b.subrange(8, 12));
        assert(encode_utf8(c@) =~= b.subrange(12, 16));
        assert(encode_utf8(d@) =~= b.subrange(16, 20));
        assert(encode_utf8(e@) =~= b.subrange(20, b.len() as int));
        assert(encode_utf8(r@) =~= dashed_bytes(b));
    }
    r
}

// ---------------------------------------------------------------------------
// Offline accounts
// ---------------------------------------------------------------------------

/// The bytes of Mojang's offline-player UUID for a name (a name-based UUID of
/// version 3): the MD5 of `OfflinePlayer:<name>`, with the version nibble set
/// to 3 and the variant bits set to `10`.
pub open spec fn offline_uuid_bytes(name: Seq<char>) -> Seq<u8> {
    let d = md5_of(encode_utf8("OfflinePlayer:"@ + name));
    d.update(6, (d[6] & 0x0fu8) | 0x30u8).update(8, (d[8] & 0x3fu8) | 0x80u8)
}

/// Mojang's offline-player UUID for a name, in hyphenated form. It is a
/// version-3 UUID of the standard variant: its version digit is `3` and its
/// variant digit one of `8`, `9`, `a`, `b`.
pub fn offline_uuid(name: &str) -> (r: String)
    ensures
        r@ == hyphenated(offline_uuid_bytes(name@)),
        r@.len() == 36,
        r@[14] == '3',
        r@[19] == '8' || r@[19] == '9' || r@[19] == 'a' || r@[19] == 'b',
{
    proof {
        reveal_strlit("OfflinePlayer:");
    }
    let data = concat("OfflinePlayer:", name);
    let mut bytes = md5_digest(data.as_str().as_bytes());
    let x6 = bytes[6];
    let b6 = (x6 & 0x0f) | 0x30;
    bytes.set(6, b6);
    let x8 = bytes[8];
    let b8 = (x8 & 0x3f) | 0x80;
    bytes.set(8, b8);
    proof {
        assert(b6 / 16 == 3) by (bit_vector)
            requires b6 == (x6 & 0x0f) | 0x30;
        assert(8 <= b8 / 16 <= 11) by (bit_vector)
            requires b8 == (x8 & 0x3f) | 0x80;
        lemma_hyphenated_digits(bytes@);
    }
    uuid_string(&bytes)
}

/// An offline name is acceptable when, trimmed, it is 1 to 16 bytes long.
pub open spec fn offline_name_ok(name: Seq<char>) -> bool {
    let t = trim(name);
    t.len() > 0 && (encode_utf8(t).len() as usize) <= 16
}

/// The offline account for a player name: the trimmed name, its offline
/// UUID and the placeholder access token `0`; a name that is empty or longer
/// than 16 bytes after trimming is refused.
pub fn offline_account(name: &str) -> (r: Result<Account, String>)
    ensures
        r is Ok <==> offline_name_ok(name@),
        r matches Ok(a) ==> a.name@ == trim(name@) && a.uuid@ == hyphenated(offline_uuid_bytes(trim(name@)))
            && a.access_token@ == "0"@ && a.refresh_token is None && a.offline,
        r matches Err(e) ==> e@ == "Username must be 1–16 characters"@,
{
    let t = trim_str(name);
    if t.as_str().is_empty() || t.as_str().len() > 16 {
        return Err(String::from_str("Username must be 1–16 characters"));
    }
    let uuid = offline_uuid(t.as_str());
    Ok(Account {
        uuid,
        name: t,
        access_token: String::from_str("0"),
        refresh_token: None,
        offline: true,
    })
}

// ---------------------------------------------------------------------------
// The account list
// ---------------------------------------------------------------------------

/// The accounts whose UUID differs from `uuid`, in order.
pub open spec fn without_uuid(accs: Seq<Account>, uuid: Seq<char>) -> Seq<Account>
    decreases accs.len(),
{
    if accs.len() == 0 {
        Seq::empty()
    } else {
        let before = without_uuid(accs.drop_last(), uuid);
        if accs.last().uuid@ == uuid {
            before
        } else {
            before.push(accs.last())
        }
    }
}

/// Index of the first account with the given UUID.
pub open spec fn first_with_uuid(accs: Seq<Account>, uuid: Seq<char>) -> Option<int>
    decreases accs.len(),
{
    if accs.len() == 0 {
        None
    } else {
        match first_with_uuid(accs.drop_last(), uuid) {
            Some(i) => Some(i),
            None => if accs.last().uuid@ == uuid {
                Some(accs.len() - 1)
            } else {
                None
            },
        }
    }
}

/// The account used to play: the first one with the active UUID, or else
/// the most recently added one.
pub open spec fn active_index(accs: Seq<Account>, active: Option<Seq<char>>) -> Option<int> {
    match active {
        Some(id) => match first_with_uuid(accs, id) {
            Some(i) => Some(i),
            None => if accs.len() > 0 { Some(accs.len() - 1) } else { None },
        },
        None => if accs.len() > 0 { Some(accs.len() - 1) } else { None },
    }
}

/// No account in `without_uuid(accs, uuid)` has that UUID.
pub proof fn lemma_without_uuid(accs: Seq<Account>, uuid: Seq<char>)
    ensures
        forall|i: int| 0 <= i < without_uuid(accs, uuid).len() ==> without_uuid(accs, uuid)[i].uuid@ != uuid,
        forall|i: int| 0 <= i < without_uuid(accs, uuid).len() ==> accs.contains(without_uuid(accs, uuid)[i]),
    decreases accs.len(),
{
    if accs.len() > 0 {
        lemma_without_uuid(accs.drop_last(), uuid);
        let before = without_uuid(accs.drop_last(), uuid);
        assert forall|i: int| 0 <= i < before.len() implies accs.contains(before[i]) by {
            let j = choose|j: int| 0 <= j < accs.drop_last().len() && accs.drop_last()[j] == before[i];
            assert(accs[j] == before[i]);
        }
        assert(accs[accs.len() - 1] == accs.last());
    }
}

/// Law: dropping the accounts of one UUID keeps every other account, in
/// order: it is exactly the accounts whose UUID differs, and each account
/// with another UUID is still there. So registering an account replaces only
/// the accounts with its UUID, and removing a UUID removes only those.
pub proof fn lemma_without_uuid_keeps_others(accs: Seq<Account>, uuid: Seq<char>)
    ensures
        without_uuid(accs, uuid) == accs.filter(|a: Account| a.uuid@ != uuid),
        forall|i: int| 0 <= i < accs.len() && accs[i].uuid@ != uuid ==> #[trigger] without_uuid(accs, uuid).contains(accs[i]),
    decreases accs.len(),
{
    reveal(Seq::filter);
    if accs.len() > 0 {
        lemma_without_uuid_keeps_others(accs.drop_last(), uuid);
        let pred = |a: Account| a.uuid@ != uuid;
        assert(accs.filter(pred) == {
            let sub = accs.drop_last().filter(pred);
            if pred(accs.last()) { sub.push(accs.last()) } else { sub }
        });
        assert forall|i: int| 0 <= i < accs.len() && accs[i].uuid@ != uuid implies #[trigger] without_uuid(accs, uuid).contains(accs[i]) by {
            if i < accs.len() - 1 {
                assert(accs.drop_last()[i] == accs[i]);
                let w = without_uuid(accs.drop_last(), uuid);
                assert(w.contains(accs[i]));
                let j = choose|j: int| 0 <= j < w.len() && w[j] == accs[i];
                if accs.last().uuid@ != uuid {
                    assert(w.push(accs.last())[j] == accs[i]);
                }
            } else {
                assert(without_uuid(accs, uuid).last() == accs[i]);
            }
        }
    }
}

/// `first_with_uuid` finds the first account with that UUID.
pub proof fn lemma_first_with_uuid(accs: Seq<Account>, uuid: Seq<char>)
    ensures
        match first_with_uuid(accs, uuid) {
            Some(i) => 0 <= i < accs.len() && accs[i].uuid@ == uuid
                && forall|j: int| 0 <= j < i ==> accs[j].uuid@ != uuid,
            None => forall|j: int| 0 <= j < accs.len() ==> accs[j].uuid@ != uuid,
        },
    decreases accs.len(),
{
    if accs.len() > 0 {
        let init = accs.drop_last();
        lemma_first_with_uuid(init, uuid);
        match first_with_uuid(init, uuid) {
            Some(i) => {
                assert(accs[i] == init[i]);
                assert forall|j: int| 0 <= j < i implies accs[j].uuid@ != uuid by {
                    assert(accs[j] == init[j]);
                }
            },
            None => {
                assert forall|j: int| 0 <= j < accs.len() - 1 implies accs[j].uuid@ != uuid by {
                    assert(accs[j] == init[j]);
                }
            },
        }
    }
}

/// The accounts whose UUID differs from `uuid`.
fn accounts_without(accs: &Vec<Account>, uuid: &String) -> (r: Vec<Account>)
    ensures
        r@ == without_uuid(accs@, uuid@),
{
    let mut r: Vec<Account> = Vec::new();
    let mut i: usize = 0;
    while i < accs.len()
        invariant
            i <= accs.len(),
            r@ == without_uuid(accs@.take(i as int), uuid@),
        decreases accs.len() - i,
    {
        assert(accs@.take(i + 1).drop_last() =~= accs@.take(i as int));
        assert(accs@.take(i + 1).last() == accs@[i as int]);
        if accs[i].uuid != *uuid {
            r.push(accs[i].copy());
        }
        i = i + 1;
    }
    assert(accs@.take(accs.len() as int) =~= accs@);
    r
}

/// Index of the first account with the given UUID.
fn find_account(accs: &Vec<Account>, uuid: &String) -> (r: Option<usize>)
    ensures
        r matches Some(i) ==> first_with_uuid(accs@, uuid@) == Some(i as int),
        r is None ==> first_with_uuid(accs@, uuid@) is None,
{
    proof {
        lemma_first_with_uuid(accs@, uuid@);
    }
    let mut i: usize = 0;
    while i < accs.len()
        invariant
            i <= accs.len(),
            forall|j: int| 0 <= j < i ==> accs@[j].uuid@ != uuid@,
        decreases accs.len() - i,
    {
        if accs[i].uuid == *uuid {
            proof {
                lemma_first_with_uuid(accs@, uuid@);
            }
            return Some(i);
        }
        i = i + 1;
    }
    None
}

/// Makes `account` the active one: any account with the same UUID is
/// replaced, and the new one is added last.
pub fn register_account(settings: &mut Settings, account: Account)
    ensures
        final(settings).accounts@ == without_uuid(old(settings).accounts@, account.uuid@).push(account),
        final(settings).active_account == Some(account.uuid),
        crate::paths::same_but_accounts(*final(settings), *old(settings)),
{
    let mut kept = accounts_without(&settings.accounts, &account.uuid);
    settings.active_account = Some(account.uuid.clone());
    kept.push(account);
    settings.accounts = kept;
}

/// Selects the account with the given UUID; refused when there is none.
pub fn set_active_account(settings: &mut Settings, uuid: String) -> (r: Result<(), String>)
    ensures
        r is Ok <==> first_with_uuid(old(settings).accounts@, uuid@) is Some,
        r is Ok ==> final(settings).active_account == Some(uuid),
        r matches Err(e) ==> e@ == "Account not found"@ && *final(settings) == *old(settings),
        final(settings).accounts == old(settings).accounts,
        crate::paths::same_but_accounts(*final(settings), *old(settings)),
{
    match find_account(&settings.accounts, &uuid) {
        None => Err(String::from_str("Account not found")),
        Some(_) => {
            settings.active_account = Some(uuid);
            Ok(())
        },
    }
}

/// Removes every account with the given UUID; when it was the active one,
/// the most recently added remaining account becomes active (none if no
/// account is left).
pub fn remove_account(settings: &mut Settings, uuid: String)
    ensures
        final(settings).accounts@ == without_uuid(old(settings).accounts@, uuid@),
        crate::paths::opt_view(old(settings).active_account) == Some(uuid@) ==> final(settings).active_account == (
            if final(settings).accounts@.len() > 0 {
                Some(final(settings).accounts@.last().uuid)
            } else {
                None
            }),
        crate::paths::opt_view(old(settings).active_account) != Some(uuid@) ==> final(settings).active_account == old(settings).active_account,
        crate::paths::same_but_accounts(*final(settings), *old(settings)),
{
    let kept = accounts_without(&settings.accounts, &uuid);
    settings.accounts = kept;
    let was_active = match &settings.active_account {
        Some(a) => *a == uuid,
        None => false,
    };
    if was_active {
        let n = settings.accounts.len();
        settings.active_account = if n > 0 {
            Some(settings.accounts[n - 1].uuid.clone())
        } else {
            None
        };
    }
}

/// The account used to play: the first one with the active UUID, or else
/// the most recently added one (none when there are no accounts).
pub fn active_account(accounts: &Vec<Account>, active: &Option<String>) -> (r: Option<Account>)
    ensures
        r matches Some(a) ==> exists|i: int| active_index(accounts@, crate::paths::opt_view(*active)) == Some(i) && a == accounts@[i],
        r is None ==> active_index(accounts@, crate::paths::opt_view(*active)) is None,
{
    if let Some(id) = active {
        proof {
            lemma_first_with_uuid(accounts@, id@);
        }
        if let Some(i) = find_account(accounts, id) {
            return Some(accounts[i].copy());
        }
    }
    let n = accounts.len();
    if n > 0 {
        Some(accounts[n - 1].copy())
    } else {
        None
    }
}

/// Law: right after an account is registered, it is the one used to play.
pub proof fn lemma_registered_account_is_active(accs: Seq<Account>, account: Account)
    ensures
        active_index(without_uuid(accs, account.uuid@).push(account), Some(account.uuid@))
            == Some(without_uuid(accs, account.uuid@).len() as int),
{
    let kept = without_uuid(accs, account.uuid@);
    let all = kept.push(account);
    lemma_without_uuid(accs, account.uuid@);
    lemma_first_with_uuid(all, account.uuid@);
    assert(all.drop_last() =~= kept);
    lemma_first_with_uuid(kept, account.uuid@);
}

/// Law: after an account is selected successfully, it is the one used to play.
pub proof fn lemma_selected_account_is_active(accs: Seq<Account>, uuid: Seq<char>)
    requires
        first_with_uuid(accs, uuid) is Some,
    ensures
        active_index(accs, Some(uuid)) matches Some(i) && accs[i].uuid@ == uuid,
{
    lemma_first_with_uuid(accs, uuid);
}

/// Law: after an account is removed, no account with its UUID is left.
pub proof fn lemma_removed_account_is_gone(accs: Seq<Account>, uuid: Seq<char>)
    ensures
        first_with_uuid(without_uuid(accs, uuid), uuid) is None,
{
    lemma_without_uuid(accs, uuid);
    lemma_first_with_uuid(without_uuid(accs, uuid), uuid);
}

// ---------------------------------------------------------------------------
// Microsoft sign-in decisions
// ---------------------------------------------------------------------------

/// What to do after one poll of the device-code token endpoint.
#[derive(Debug, Clone)]
pub enum PollStep {
    /// The user has not finished yet: wait one interval and poll again.
    Wait,
    /// The server asks to slow down: wait two intervals and poll again.
    WaitLonger,
    /// Sign-in failed with this message.
    Fail(String),
    /// A Microsoft access token was issued (with an optional refresh token).
    Proceed(String, Option<String>),
}

/// The decision for one token reply: its `error` field (if any), its
/// `error_description`, its tokens, and the raw reply text.
pub fn poll_step(
    error: Option<String>,
    error_description: Option<String>,
    access_token: Option<String>,
    refresh_token: Option<String>,
    raw: &str,
) -> (r: PollStep)
    ensures
        error matches Some(e) ==> (
            if e@ == "authorization_pending"@ {
                r is Wait
            } else if e@ == "slow_down"@ {
                r is WaitLonger
            } else if e@ == "expired_token"@ {
                r matches PollStep::Fail(m) && m@ == "Login expired. Please try again."@
            } else if e@ == "access_denied"@ {
                r matches PollStep::Fail(m) && m@ == "Login cancelled."@
            } else {
                r matches PollStep::Fail(m) && m@ == "Microsoft error ("@ + e@ + "): "@
                    + match error_description { Some(d) => d@, None => Seq::empty() }
            }),
        error is None ==> match access_token {
            Some(t) => r == PollStep::Proceed(t, refresh_token),
            None => r matches PollStep::Fail(m) && m@ == "No access token received: "@ + raw@,
        },
{
    if let Some(e) = error {
        if crate::text::str_eq(e.as_str(), "authorization_pending") {
            return PollStep::Wait;
        }
        if crate::text::str_eq(e.as_str(), "slow_down") {
            return PollStep::WaitLonger;
        }
        if crate::text::str_eq(e.as_str(), "expired_token") {
            return PollStep::Fail(String::from_str("Login expired. Please try again."));
        }
        if crate::text::str_eq(e.as_str(), "access_denied") {
            return PollStep::Fail(String::from_str("Login cancelled."));
        }
        let detail = match error_description {
            Some(d) => d,
            None => String::new(),
        };
        let mut m = concat("Microsoft error (", e.as_str());
        push_all(&mut m, "): ");
        push_all(&mut m, detail.as_str());
        return PollStep::Fail(m);
    }
    match access_token {
        Some(t) => PollStep::Proceed(t, refresh_token),
        None => PollStep::Fail(concat("No access token received: ", raw)),
    }
}

/// The explanation added when Xbox security-token service refuses: known
/// `XErr` codes get a fixed hint, other replies their own message.
pub fn xsts_hint(xerr: Option<u64>, message: Option<String>) -> (r: String)
    ensures
        xerr == Some(2148916233u64) ==> r@ == " This Microsoft account has no Xbox profile. Create one at xbox.com."@,
        xerr == Some(2148916238u64) ==> r@ == " This is a child account — add it to a Microsoft Family."@,
        xerr != Some(2148916233u64) && xerr != Some(2148916238u64) ==> r@ == match message {
            Some(m) => m@,
            None => Seq::<char>::empty(),
        },
{
    match xerr {
        Some(2148916233u64) => String::from_str(" This Microsoft account has no Xbox profile. Create one at xbox.com."),
        Some(2148916238u64) => String::from_str(" This is a child account — add it to a Microsoft Family."),
        _ => match message {
            Some(m) => m,
            None => String::new(),
        },
    }
}

/// The `RpsTicket` sent to Xbox Live for a Microsoft access token.
pub fn rps_ticket(msa_token: &str) -> (r: String)
    ensures
        r@ == "d="@ + msa_token@,
{
    concat("d=", msa_token)
}

/// The identity token sent to Minecraft services: `XBL3.0 x=<uhs>;<token>`.
pub fn xbox_identity_token(user_hash: &str, xsts_token: &str) -> (r: String)
    ensures
        r@ == "XBL3.0 x="@ + user_hash@ + ";"@ + xsts_token@,
{
    let mut r = concat("XBL3.0 x=", user_hash);
    push_all(&mut r, ";");
    push_all(&mut r, xsts_token);
    r
}

/// The Microsoft account for a Minecraft profile (id and name), its
/// Minecraft access token and the optional refresh token.
pub fn online_account(
    profile_id: &str,
    profile_name: String,
    access_token: String,
    refresh_token: Option<String>,
) -> (r: Account)
    requires
        needs_dashes(profile_id) ==> dash_slices_valid(profile_id),
    ensures
        !needs_dashes(profile_id) ==> r.uuid@ == profile_id@,
        needs_dashes(profile_id) ==> encode_utf8(r.uuid@) == dashed_bytes(encode_utf8(profile_id@)),
        r.name == profile_name,
        r.access_token == access_token,
        r.refresh_token == refresh_token,
        !r.offline,
{
    Account {
        uuid: insert_uuid_dashes(profile_id),
        name: profile_name,
        access_token,
        refresh_token,
        offline: false,
    }
}


/// How long a device-code sign-in may take, in seconds.
pub const LOGIN_TIMEOUT_SECS: u64 = 900;

/// Seconds between token polls: the server's interval, at least one.
pub fn poll_interval(interval: u64) -> (r: u64)
    ensures
        r == if interval >= 1 { interval } else { 1 },
{
    if interval >= 1 { interval } else { 1 }
}

/// The Xbox user hash: the first one the reply lists.
pub fn xbox_user_hash(hashes: &Vec<String>) -> (r: Result<String, String>)
    ensures
        hashes.len() > 0 ==> (r matches Ok(h) && h@ == hashes@[0]@),
        hashes.len() == 0 ==> (r matches Err(e) && e@ == "No Xbox user hash received"@),
{
    if hashes.len() > 0 {
        Ok(hashes[0].clone())
    } else {
        Err(String::from_str("No Xbox user hash received"))
    }
}

/// The error when the device-code request is refused.
pub fn device_login_failed_message(status: &str, body: &str) -> (r: String)
    ensures
        r@ == "Microsoft device login failed ("@ + status@ + "): "@ + body@,
{
    let mut r = concat("Microsoft device login failed (", status);
    push_all(&mut r, "): ");
    push_all(&mut r, body);
    r
}

/// The error when Xbox Live refuses the Microsoft token.
pub fn xbox_rejected_message(status: &str, body: &str) -> (r: String)
    ensures
        r@ == "Xbox Live rejected login ("@ + status@ + "): "@ + body@,
{
    let mut r = concat("Xbox Live rejected login (", status);
    push_all(&mut r, "): ");
    push_all(&mut r, body);
    r
}

/// The error when the Xbox security-token service refuses, with its hint
/// (see `xsts_hint`; empty when the reply could not be read).
pub fn xsts_failure_message(status: &str, hint: &str, body: &str) -> (r: String)
    ensures
        r@ == "XSTS failed ("@ + status@ + "). Do you own Minecraft Java?"@ + hint@ + " "@ + body@,
{
    let mut r = concat("XSTS failed (", status);
    push_all(&mut r, "). Do you own Minecraft Java?");
    push_all(&mut r, hint);
    push_all(&mut r, " ");
    push_all(&mut r, body);
    r
}

/// The error when Minecraft services refuse the Xbox identity.
pub fn services_rejected_message(status: &str, body: &str) -> (r: String)
    ensures
        r@ == "Minecraft services rejected login ("@ + status@ + "). Check that you own Minecraft Java. "@ + body@,
{
    let mut r = concat("Minecraft services rejected login (", status);
    push_all(&mut r, "). Check that you own Minecraft Java. ");
    push_all(&mut r, body);
    r
}

/// The error when the account has no Minecraft profile.
pub fn no_profile_message(status: &str, body: &str) -> (r: String)
    ensures
        r@ == "No Minecraft profile ("@ + status@ + "). Do you own Java Edition? "@ + body@,
{
    let mut r = concat("No Minecraft profile (", status);
    push_all(&mut r, "). Do you own Java Edition? ");
    push_all(&mut r, body);
    r
}

} // verus!
