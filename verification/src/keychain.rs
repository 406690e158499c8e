//! The master password in the system secret service (libsecret / kwallet on
//! Linux, the login Keychain on macOS), stored under `service="aegis",
//! account="master"`.

use vstd::prelude::*;

verus! {

pub const SERVICE: &'static str = "aegis";

pub const ACCOUNT: &'static str = "master";

#[verifier::external_type_specification]
#[verifier::external_body]
pub struct ExKeyringEntry(keyring::Entry);

#[derive(Debug)]
pub enum KeychainError {
    Unavailable(String),
}

impl KeychainError {
    /// The message that describes this error to a person.
    pub fn message(&self) -> (m: String)
        ensures
            match self {
                KeychainError::Unavailable(msg) => m@ == "system keyring is unavailable: "@ + msg@,
            },
    {
        match self {
            KeychainError::Unavailable(msg) => String::from_str("system keyring is unavailable: ").concat(msg.as_str()),
        }
    }
}

/// What this library reads of a `keyring::Error`: whether it reports that
/// no credential exists, and its message.
#[derive(Debug)]
pub enum KeyringFailure {
    NoEntry(String),
    Other(String),
}

/// Where a secret lives in the platform store: a service and an account.
pub struct KeyringSlot {
    pub service: &'static str,
    pub account: &'static str,
}

/// What is handed to the store to save a secret: the slot and the secret.
pub struct StoreRequest<'a> {
    pub slot: KeyringSlot,
    pub password: &'a str,
}

/// The slot of the master password: service `SERVICE`, account `ACCOUNT`.
pub fn master_slot() -> (s: KeyringSlot)
    ensures
        s.service@ == SERVICE@,
        s.account@ == ACCOUNT@,
{
    KeyringSlot { service: SERVICE, account: ACCOUNT }
}

/// The request that stores `password` as the master password.
pub fn master_store_request(password: &str) -> (r: StoreRequest)
    ensures
        r.slot.service@ == SERVICE@,
        r.slot.account@ == ACCOUNT@,
        r.password@ == password@,
{
    StoreRequest { slot: master_slot(), password }
}

/// The master password's names and the slot they make: service `"aegis"`,
/// account `"master"`. The two names differ, so a slot with them swapped is
/// another slot of the store.
pub proof fn lemma_master_slot_names()
    ensures
        SERVICE@ == "aegis"@,
        ACCOUNT@ == "master"@,
        SERVICE@ != ACCOUNT@,
{
    reveal_strlit("aegis");
    reveal_strlit("master");
    assert(SERVICE@[0] != ACCOUNT@[0]);
}

/// The only slot this library opens in the platform store: every value
/// names service `SERVICE` and account `ACCOUNT`.
struct OpenedSlot {
    service: &'static str,
    account: &'static str,
}

impl OpenedSlot {
    #[verifier::type_invariant]
    closed spec fn is_master_slot(self) -> bool {
        self.service@ == SERVICE@ && self.account@ == ACCOUNT@
    }
}

/// Calls `keyring::Entry::new` with the slot's service and account. Whether
/// the platform store can be reached depends on the machine: nothing is
/// claimed of the result. A failure comes back as its message, marked when
/// it is `keyring::Error::NoEntry`.
#[verifier::external_body]
fn keyring_entry(slot: &OpenedSlot) -> (r: Result<keyring::Entry, KeyringFailure>) {
    match keyring::Entry::new(slot.service, slot.account) {
        Ok(e) => Ok(e),
        Err(keyring::Error::NoEntry) => Err(KeyringFailure::NoEntry(keyring::Error::NoEntry.to_string())),
        Err(e) => Err(KeyringFailure::Other(e.to_string())),
    }
}

/// Calls `keyring::Entry::set_password` with the request's password. What
/// the platform store does is outside this library: nothing is claimed of
/// the result.
#[verifier::external_body]
fn keyring_set(entry: &keyring::Entry, request: &StoreRequest) -> (r: Result<(), KeyringFailure>) {
    match entry.set_password(request.password) {
        Ok(()) => Ok(()),
        Err(keyring::Error::NoEntry) => Err(KeyringFailure::NoEntry(keyring::Error::NoEntry.to_string())),
        Err(e) => Err(KeyringFailure::Other(e.to_string())),
    }
}

/// Calls `keyring::Entry::get_password`. What the platform store holds is
/// outside this library: nothing is claimed of the result.
#[verifier::external_body]
fn keyring_get(entry: &keyring::Entry) -> (r: Result<String, KeyringFailure>) {
    match entry.get_password() {
        Ok(p) => Ok(p),
        Err(keyring::Error::NoEntry) => Err(KeyringFailure::NoEntry(keyring::Error::NoEntry.to_string())),
        Err(e) => Err(KeyringFailure::Other(e.to_string())),
    }
}

/// Calls `keyring::Entry::delete_password`. What the platform store holds
/// is outside this library: nothing is claimed of the result.
#[verifier::external_body]
fn keyring_delete(entry: &keyring::Entry) -> (r: Result<(), KeyringFailure>) {
    match entry.delete_password() {
        Ok(()) => Ok(()),
        Err(keyring::Error::NoEntry) => Err(KeyringFailure::NoEntry(keyring::Error::NoEntry.to_string())),
        Err(e) => Err(KeyringFailure::Other(e.to_string())),
    }
}

pub fn service() -> (s: &'static str)
    ensures
        s == SERVICE,
{
    SERVICE
}

pub fn account() -> (s: &'static str)
    ensures
        s == ACCOUNT,
{
    ACCOUNT
}

/// The message that a keyring failure carries.
pub open spec fn failure_message(f: KeyringFailure) -> String {
    match f {
        KeyringFailure::NoEntry(m) => m,
        KeyringFailure::Other(m) => m,
    }
}

/// Any keyring failure reported as the keyring being unavailable.
pub fn unavailable(f: KeyringFailure) -> (e: KeychainError)
    ensures
        e == KeychainError::Unavailable(failure_message(f)),
{
    match f {
        KeyringFailure::NoEntry(m) => KeychainError::Unavailable(m),
        KeyringFailure::Other(m) => KeychainError::Unavailable(m),
    }
}

/// The answer to a master-password lookup.
pub open spec fn lookup_answer(r: Result<String, KeyringFailure>) -> Result<Option<String>, KeychainError> {
    match r {
        Ok(p) => Ok(Some(p)),
        Err(KeyringFailure::NoEntry(_)) => Ok(None),
        Err(KeyringFailure::Other(m)) => Err(KeychainError::Unavailable(m)),
    }
}

/// `Some(password)` when one is stored, `None` when the store has no entry,
/// the store's message otherwise.
pub fn master_from_lookup(r: Result<String, KeyringFailure>) -> (out: Result<Option<String>, KeychainError>)
    ensures
        out == lookup_answer(r),
{
    match r {
        Ok(p) => Ok(Some(p)),
        Err(KeyringFailure::NoEntry(_)) => Ok(None),
        Err(KeyringFailure::Other(m)) => Err(KeychainError::Unavailable(m)),
    }
}

/// The answer to a removal of the master password.
pub open spec fn removal_answer(r: Result<(), KeyringFailure>) -> Result<bool, KeychainError> {
    match r {
        Ok(()) => Ok(true),
        Err(KeyringFailure::NoEntry(_)) => Ok(false),
        Err(KeyringFailure::Other(m)) => Err(KeychainError::Unavailable(m)),
    }
}

/// `true` when an entry was removed, `false` when there was none, the
/// store's message otherwise.
pub fn forgotten_from_removal(r: Result<(), KeyringFailure>) -> (out: Result<bool, KeychainError>)
    ensures
        out == removal_answer(r),
{
    match r {
        Ok(()) => Ok(true),
        Err(KeyringFailure::NoEntry(_)) => Ok(false),
        Err(KeyringFailure::Other(m)) => Err(KeychainError::Unavailable(m)),
    }
}

/// The entry of the master slot `slot` in the platform store; no other
/// slot is ever opened.
fn entry(slot: &KeyringSlot) -> (r: Result<keyring::Entry, KeychainError>)
    requires
        slot.service@ == SERVICE@,
        slot.account@ == ACCOUNT@,
    ensures
        r matches Err(e) ==> e is Unavailable,
{
    let opened = OpenedSlot { service: slot.service, account: slot.account };
    match keyring_entry(&opened) {
        Ok(e) => Ok(e),
        Err(f) => Err(unavailable(f)),
    }
}

/// The answer to storing the master password.
pub open spec fn store_answer(r: Result<(), KeyringFailure>) -> Result<(), KeychainError> {
    match r {
        Ok(()) => Ok(()),
        Err(f) => Err(KeychainError::Unavailable(failure_message(f))),
    }
}

/// Store `password` as the master password: the request that
/// `master_store_request` builds (service `SERVICE`, account `ACCOUNT`, this
/// password) is handed to the platform store.
pub fn set_master(password: &str) -> (r: Result<(), KeychainError>)
    ensures
        exists|outcome: Result<(), KeyringFailure>| r == store_answer(outcome),
{
    let request = master_store_request(password);
    let e = match entry(&request.slot) {
        Ok(e) => e,
        Err(KeychainError::Unavailable(m)) => {
            assert(store_answer(Err(KeyringFailure::Other(m))) == Err::<(), KeychainError>(KeychainError::Unavailable(m)));
            return Err(KeychainError::Unavailable(m));
        },
    };
    let outcome = keyring_set(&e, &request);
    let ghost g = outcome;
    match outcome {
        Ok(()) => {
            assert(store_answer(g) == Ok::<(), KeychainError>(()));
            Ok(())
        },
        Err(f) => {
            let err = unavailable(f);
            assert(store_answer(g) == Err::<(), KeychainError>(err));
            Err(err)
        },
    }
}

/// Returns `Ok(None)` if no master is stored, `Ok(Some(pwd))` if one is.
pub fn get_master() -> (r: Result<Option<String>, KeychainError>)
    ensures
        exists|outcome: Result<String, KeyringFailure>| r == lookup_answer(outcome),
{
    let slot = master_slot();
    let e = match entry(&slot) {
        Ok(e) => e,
        Err(KeychainError::Unavailable(m)) => {
            assert(lookup_answer(Err(KeyringFailure::Other(m))) == Err::<Option<String>, KeychainError>(KeychainError::Unavailable(m)));
            return Err(KeychainError::Unavailable(m));
        },
    };
    let outcome = keyring_get(&e);
    let ghost g = outcome;
    let r = master_from_lookup(outcome);
    assert(r == lookup_answer(g));
    r
}

/// Returns `true` if a master entry existed and was removed, `false` if
/// nothing was stored to begin with.
pub fn forget_master() -> (r: Result<bool, KeychainError>)
    ensures
        exists|outcome: Result<(), KeyringFailure>| r == removal_answer(outcome),
{
    let slot = master_slot();
    let e = match entry(&slot) {
        Ok(e) => e,
        Err(KeychainError::Unavailable(m)) => {
            assert(removal_answer(Err(KeyringFailure::Other(m))) == Err::<bool, KeychainError>(KeychainError::Unavailable(m)));
            return Err(KeychainError::Unavailable(m));
        },
    };
    let outcome = keyring_delete(&e);
    let ghost g = outcome;
    let r = forgotten_from_removal(outcome);
    assert(r == removal_answer(g));
    r
}

/// Whether a lookup found a stored master password.
pub open spec fn presence_answer(r: Result<String, KeyringFailure>) -> Result<bool, KeychainError> {
    match lookup_answer(r) {
        Ok(p) => Ok(p is Some),
        Err(e) => Err(e),
    }
}

/// `true` when the lookup found a stored password, `false` when the store
/// has no entry, the store's message otherwise.
pub fn presence_from_lookup(r: Result<String, KeyringFailure>) -> (out: Result<bool, KeychainError>)
    ensures
        out == presence_answer(r),
{
    match r {
        Ok(_) => Ok(true),
        Err(KeyringFailure::NoEntry(_)) => Ok(false),
        Err(KeyringFailure::Other(m)) => Err(KeychainError::Unavailable(m)),
    }
}

/// Whether a master password is stored: the master slot is looked up, and
/// the answer is what `presence_from_lookup` makes of the store's reply.
pub fn is_set() -> (r: Result<bool, KeychainError>)
    ensures
        exists|outcome: Result<String, KeyringFailure>| r == presence_answer(outcome),
{
    let slot = master_slot();
    let e = match entry(&slot) {
        Ok(e) => e,
        Err(KeychainError::Unavailable(m)) => {
            assert(presence_answer(Err(KeyringFailure::Other(m))) == Err::<bool, KeychainError>(KeychainError::Unavailable(m)));
            return Err(KeychainError::Unavailable(m));
        },
    };
    let outcome = keyring_get(&e);
    let ghost g = outcome;
    let r = presence_from_lookup(outcome);
    assert(r == presence_answer(g));
    r
}

} // verus!
