//! The registry of the parties that may trade invoices.
use vstd::prelude::*;

use crate::address::Address;
use crate::table::AddressTable;

verus! {

/// Whoever can say which addresses are verified.
pub trait IdentityRegistry {
    /// Whether the registry stands behind `address`.
    spec fn verifies(&self, address: Address) -> bool;

    /// Asks the registry about `address`.
    fn confirms(&self, address: &Address) -> (verified: bool)
        ensures
            verified == self.verifies(*address),
    ;
}

/// A registry at its address on the ledger.
pub struct Deployed<R> {
    pub address: Address,
    pub contract: R,
}

impl<R: IdentityRegistry> Deployed<R> {
    /// This is the registry that is `named`, and it stands behind `party`. The word of a registry
    /// at another address counts for nothing.
    pub open spec fn vouches(self, named: Option<Address>, party: Address) -> bool {
        named == Some(self.address) && self.contract.verifies(party)
    }

    /// Whether this is the registry that is `named`, and it stands behind `party`.
    pub fn vouch(&self, named: Option<Address>, party: &Address) -> (verified: bool)
        ensures
            verified == self.vouches(named, *party),
    {
        match named {
            Some(address) => address == self.address && self.contract.confirms(party),
            None => false,
        }
    }
}

/// The side of an invoice that a party takes.
#[derive(Clone, Copy, Debug, PartialEq, Eq, Structural)]
pub enum Role {
    Issuer,
    Buyer,
}

/// One item of what a party says about itself.
#[derive(Debug)]
pub struct MetadataEntry {
    pub key: Vec<u8>,
    pub value: Vec<u8>,
}

/// No key has two values: metadata is a map from keys to values, written as the list of its entries.
pub open spec fn distinct_keys(metadata: Seq<MetadataEntry>) -> bool {
    forall|i: int, j: int|
        0 <= i < j < metadata.len() ==> (#[trigger] metadata[i]).key@ != (
        #[trigger] metadata[j]).key@
}

/// `after` is `before` with `entry` set: in the place of the entry that had its key, or at the end
/// if none had it.
pub open spec fn has_entry_set(
    before: Seq<MetadataEntry>,
    entry: MetadataEntry,
    after: Seq<MetadataEntry>,
) -> bool {
    ||| exists|i: int|
        0 <= i < before.len() && (#[trigger] before[i]).key@ == entry.key@ && after
            == before.update(i, entry)
    ||| (forall|i: int| 0 <= i < before.len() ==> (#[trigger] before[i]).key@ != entry.key@)
        && after == before.push(entry)
}

/// Whether two byte strings are the same.
fn same_bytes(one: &Vec<u8>, other: &Vec<u8>) -> (same: bool)
    ensures
        same == (one@ == other@),
{
    if one.len() != other.len() {
        return false;
    }
    let mut i: usize = 0;
    while i < one.len()
        invariant
            i <= one.len() == other.len(),
            forall|j: int| 0 <= j < i ==> one@[j] == other@[j],
        decreases one.len() - i,
    {
        if one[i] != other[i] {
            assert(one@[i as int] != other@[i as int]);
            return false;
        }
        i += 1;
    }
    assert(one@ =~= other@);
    true
}

/// Sets an entry of `metadata`, over the entry that had its key, if there was one.
pub fn set_entry(metadata: &mut Vec<MetadataEntry>, entry: MetadataEntry)
    requires
        distinct_keys(old(metadata)@),
    ensures
        has_entry_set(old(metadata)@, entry, final(metadata)@),
        distinct_keys(final(metadata)@),
{
    let mut i: usize = 0;
    while i < metadata.len()
        invariant
            metadata@ == old(metadata)@,
            distinct_keys(old(metadata)@),
            i <= metadata.len(),
            forall|j: int| 0 <= j < i ==> (#[trigger] old(metadata)@[j]).key@ != entry.key@,
        decreases metadata.len() - i,
    {
        if same_bytes(&metadata[i].key, &entry.key) {
            metadata.set(i, entry);
            assert(old(metadata)@[i as int].key@ == entry.key@);
            return;
        }
        i += 1;
    }
    metadata.push(entry);
}

/// How much a party may say about itself.
#[derive(Clone, Copy, Debug, PartialEq, Eq, Structural)]
pub struct MetadataLimits {
    pub max_entries: u32,
    pub max_key_len: u32,
    pub max_value_len: u32,
}

impl MetadataLimits {
    /// The entry's key and value are no longer than allowed.
    pub open spec fn admits(self, entry: MetadataEntry) -> bool {
        entry.key@.len() <= self.max_key_len && entry.value@.len() <= self.max_value_len
    }

    /// There are no more entries than allowed, and each is admitted.
    pub open spec fn admits_all(self, metadata: Seq<MetadataEntry>) -> bool {
        &&& metadata.len() <= self.max_entries
        &&& forall|i: int| 0 <= i < metadata.len() ==> self.admits(#[trigger] metadata[i])
    }

    /// Whether `metadata` keeps to the limits.
    pub fn check(&self, metadata: &Vec<MetadataEntry>) -> (within: bool)
        ensures
            within == self.admits_all(metadata@),
    {
        if metadata.len() as u64 > self.max_entries as u64 {
            return false;
        }
        let mut i: usize = 0;
        while i < metadata.len()
            invariant
                i <= metadata.len() <= self.max_entries,
                forall|j: int| 0 <= j < i ==> self.admits(#[trigger] metadata@[j]),
            decreases metadata.len() - i,
        {
            let entry = &metadata[i];
            if entry.key.len() as u64 > self.max_key_len as u64 || entry.value.len() as u64
                > self.max_value_len as u64 {
                assert(!self.admits(metadata@[i as int]));
                return false;
            }
            i += 1;
        }
        true
    }
}

/// What the registry knows of a party.
#[derive(Debug)]
pub struct Profile {
    pub role: Role,
    pub verified: bool,
    pub metadata: Vec<MetadataEntry>,
}

/// Why the registry refuses a call.
#[derive(Clone, Copy, Debug, PartialEq, Eq, Structural)]
pub enum RegistryError {
    AlreadyInitialized,
    AlreadyRegistered,
    NotFound,
    InvalidMetadata,
}

impl RegistryError {
    /// The number under which callers see the error.
    pub open spec fn spec_code(self) -> u32 {
        match self {
            RegistryError::AlreadyInitialized => 1,
            RegistryError::AlreadyRegistered => 2,
            RegistryError::NotFound => 3,
            RegistryError::InvalidMetadata => 5,
        }
    }

    /// The number under which callers see the error.
    pub fn code(&self) -> (code: u32)
        ensures
            code == self.spec_code(),
    {
        match self {
            RegistryError::AlreadyInitialized => 1,
            RegistryError::AlreadyRegistered => 2,
            RegistryError::NotFound => 3,
            RegistryError::InvalidMetadata => 5,
        }
    }
}

/// All that a registry stores.
pub ghost struct RegistryState {
    pub admin: Option<Address>,
    pub limits: MetadataLimits,
    pub profiles: Map<Address, Profile>,
}

/// A call that can change a registry.
pub ghost enum RegistryCall {
    Initialize { admin: Address },
    Register { party: Address, role: Role, metadata: Vec<MetadataEntry> },
    Revoke { party: Address },
}

impl RegistryState {
    /// `address` has a profile, and it has not been revoked.
    pub open spec fn verified(self, address: Address) -> bool {
        self.profiles.dom().contains(address) && self.profiles[address].verified
    }

    /// The error that answers `call`, if it is refused.
    pub open spec fn refusal(self, call: RegistryCall) -> Option<RegistryError> {
        match call {
            RegistryCall::Initialize { .. } => if self.admin is Some {
                Some(RegistryError::AlreadyInitialized)
            } else {
                None
            },
            RegistryCall::Register { party, metadata, .. } => if self.profiles.dom().contains(
                party,
            ) {
                Some(RegistryError::AlreadyRegistered)
            } else if !self.limits.admits_all(metadata@) {
                Some(RegistryError::InvalidMetadata)
            } else {
                None
            },
            RegistryCall::Revoke { party } => if !self.profiles.dom().contains(party) {
                Some(RegistryError::NotFound)
            } else {
                None
            },
        }
    }

    /// What `call` leaves behind. A refused call leaves all as it was.
    pub open spec fn after(self, call: RegistryCall) -> RegistryState {
        if self.refusal(call) is Some {
            self
        } else {
            match call {
                RegistryCall::Initialize { admin } => RegistryState { admin: Some(admin), ..self },
                RegistryCall::Register { party, role, metadata } => RegistryState {
                    profiles: self.profiles.insert(
                        party,
                        Profile { role, verified: true, metadata },
                    ),
                    ..self
                },
                RegistryCall::Revoke { party } => RegistryState {
                    profiles: self.profiles.insert(
                        party,
                        Profile { verified: false, ..self.profiles[party] },
                    ),
                    ..self
                },
            }
        }
    }
}

/// The registry of issuers and buyers. A party is registered once, as one of the two, and stays
/// verified until it is revoked.
pub struct RegistryContract {
    admin: Option<Address>,
    limits: MetadataLimits,
    profiles: AddressTable<Profile>,
}

impl View for RegistryContract {
    type V = RegistryState;

    closed spec fn view(&self) -> RegistryState {
        RegistryState { admin: self.admin, limits: self.limits, profiles: self.profiles@ }
    }
}

impl RegistryContract {
    /// A registry that awaits its administrator.
    pub fn new(limits: MetadataLimits) -> (registry: RegistryContract)
        ensures
            registry@ == (RegistryState { admin: None, limits, profiles: Map::empty() }),
    {
        RegistryContract { admin: None, limits, profiles: AddressTable::new() }
    }

    /// Appoints the administrator, once.
    pub fn initialize(&mut self, admin: Address) -> (result: Result<(), RegistryError>)
        ensures
            final(self)@ == old(self)@.after(RegistryCall::Initialize { admin }),
            match result {
                Ok(()) => old(self)@.refusal(RegistryCall::Initialize { admin }) is None,
                Err(e) => old(self)@.refusal(RegistryCall::Initialize { admin }) == Some(e),
            },
    {
        if self.admin.is_some() {
            return Err(RegistryError::AlreadyInitialized);
        }
        self.admin = Some(admin);
        Ok(())
    }

    /// The administrator. It must have been appointed.
    pub fn get_admin(&self) -> (admin: Address)
        requires
            self@.admin is Some,
        ensures
            Some(admin) == self@.admin,
    {
        self.admin.unwrap()
    }

    /// Registers `issuer` as one that issues invoices. `metadata` has at most one entry for a key.
    pub fn register_issuer(&mut self, issuer: Address, metadata: Vec<MetadataEntry>) -> (result:
        Result<bool, RegistryError>)
        requires
            old(self)@.admin is Some,
            distinct_keys(metadata@),
        ensures
            ({
                let call = RegistryCall::Register { party: issuer, role: Role::Issuer, metadata };
                &&& final(self)@ == old(self)@.after(call)
                &&& match result {
                    Ok(done) => done && old(self)@.refusal(call) is None,
                    Err(e) => old(self)@.refusal(call) == Some(e),
                }
            }),
    {
        self.register(issuer, Role::Issuer, metadata)
    }

    /// Registers `buyer` as one that is billed by invoices. `metadata` has at most one entry for a
    /// key.
    pub fn register_buyer(&mut self, buyer: Address, metadata: Vec<MetadataEntry>) -> (result:
        Result<bool, RegistryError>)
        requires
            old(self)@.admin is Some,
            distinct_keys(metadata@),
        ensures
            ({
                let call = RegistryCall::Register { party: buyer, role: Role::Buyer, metadata };
                &&& final(self)@ == old(self)@.after(call)
                &&& match result {
                    Ok(done) => done && old(self)@.refusal(call) is None,
                    Err(e) => old(self)@.refusal(call) == Some(e),
                }
            }),
    {
        self.register(buyer, Role::Buyer, metadata)
    }

    fn register(&mut self, party: Address, role: Role, metadata: Vec<MetadataEntry>) -> (result:
        Result<bool, RegistryError>)
        ensures
            ({
                let call = RegistryCall::Register { party, role, metadata };
                &&& final(self)@ == old(self)@.after(call)
                &&& match result {
                    Ok(done) => done && old(self)@.refusal(call) is None,
                    Err(e) => old(self)@.refusal(call) == Some(e),
                }
            }),
    {
        if self.profiles.get(&party).is_some() {
            return Err(RegistryError::AlreadyRegistered);
        }
        if !self.limits.check(&metadata) {
            return Err(RegistryError::InvalidMetadata);
        }
        self.profiles.set(party, Profile { role, verified: true, metadata });
        Ok(true)
    }

    /// What the registry knows of `address`.
    pub fn get_profile(&self, address: &Address) -> (result: Result<&Profile, RegistryError>)
        ensures
            match result {
                Ok(profile) => self@.profiles.dom().contains(*address) && *profile
                    == self@.profiles[*address],
                Err(e) => !self@.profiles.dom().contains(*address) && e == RegistryError::NotFound,
            },
    {
        match self.profiles.get(address) {
            Some(profile) => Ok(profile),
            None => Err(RegistryError::NotFound),
        }
    }

    /// Whether `address` is registered and has not been revoked.
    pub fn is_verified(&self, address: &Address) -> (verified: bool)
        ensures
            verified == self@.verified(*address),
    {
        match self.profiles.get(address) {
            Some(profile) => profile.verified,
            None => false,
        }
    }

    /// Withdraws the verification of `party`.
    pub fn revoke(&mut self, party: &Address) -> (result: Result<bool, RegistryError>)
        requires
            old(self)@.admin is Some,
        ensures
            final(self)@ == old(self)@.after(RegistryCall::Revoke { party: *party }),
            match result {
                Ok(done) => done && old(self)@.refusal(
                    RegistryCall::Revoke { party: *party },
                ) is None,
                Err(e) => old(self)@.refusal(RegistryCall::Revoke { party: *party }) == Some(e),
            },
    {
        match self.profiles.remove(party) {
            Some(profile) => {
                let role = profile.role;
                let metadata = profile.metadata;
                self.profiles.set(*party, Profile { role, verified: false, metadata });
                assert(self@.profiles =~= old(self)@.after(
                    RegistryCall::Revoke { party: *party },
                ).profiles);
                Ok(true)
            },
            None => {
                assert(self@.profiles =~= old(self)@.profiles);
                Err(RegistryError::NotFound)
            },
        }
    }
}

impl IdentityRegistry for RegistryContract {
    open spec fn verifies(&self, address: Address) -> bool {
        self@.verified(address)
    }

    fn confirms(&self, address: &Address) -> (verified: bool) {
        self.is_verified(address)
    }
}

/// An accepted registration verifies the party under the role it asked for; no other party is
/// touched.
pub proof fn lemma_registration_verifies(
    state: RegistryState,
    party: Address,
    role: Role,
    metadata: Vec<MetadataEntry>,
)
    requires
        state.refusal(RegistryCall::Register { party, role, metadata }) is None,
    ensures
        ({
            let after = state.after(RegistryCall::Register { party, role, metadata });
            &&& after.verified(party)
            &&& after.profiles[party].role == role
            &&& after.profiles[party].metadata == metadata
            &&& forall|other: Address|
                other != party ==> #[trigger] after.verified(other) == state.verified(other)
        }),
{
}

/// A revoked party is not verified, and no further call verifies it again: its registration is
/// still on record, so a new one is refused.
pub proof fn lemma_revocation_is_final(
    state: RegistryState,
    party: Address,
    calls: Seq<RegistryCall>,
)
    requires
        state.profiles.dom().contains(party),
    ensures
        !state.after(RegistryCall::Revoke { party }).verified(party),
        !run(state.after(RegistryCall::Revoke { party }), calls).verified(party),
{
    lemma_revoked_stays_revoked(state.after(RegistryCall::Revoke { party }), party, calls);
}

/// The state after a number of calls, one after the other.
pub open spec fn run(state: RegistryState, calls: Seq<RegistryCall>) -> RegistryState
    decreases calls.len(),
{
    if calls.len() == 0 {
        state
    } else {
        run(state, calls.drop_last()).after(calls.last())
    }
}

proof fn lemma_revoked_stays_revoked(
    state: RegistryState,
    party: Address,
    calls: Seq<RegistryCall>,
)
    requires
        state.profiles.dom().contains(party),
        !state.verified(party),
    ensures
        run(state, calls).profiles.dom().contains(party),
        !run(state, calls).verified(party),
    decreases calls.len(),
{
    if calls.len() > 0 {
        lemma_revoked_stays_revoked(state, party, calls.drop_last());
    }
}

/// A call that a registry can be given: metadata comes with distinct keys.
pub open spec fn well_formed_call(call: RegistryCall) -> bool {
    call is Register ==> distinct_keys(call->metadata@)
}

/// Every profile's metadata keeps to the limits and holds each of its keys once.
pub open spec fn metadata_is_sound(state: RegistryState) -> bool {
    forall|party: Address| #[trigger]
        state.profiles.dom().contains(party) ==> distinct_keys(state.profiles[party].metadata@)
            && state.limits.admits_all(state.profiles[party].metadata@)
}

/// In whatever way a new registry has been used, the metadata of every profile keeps to the limits
/// and holds each of its keys once.
pub proof fn lemma_metadata_stays_sound(limits: MetadataLimits, calls: Seq<RegistryCall>)
    requires
        forall|i: int| 0 <= i < calls.len() ==> well_formed_call(#[trigger] calls[i]),
    ensures
        metadata_is_sound(run(RegistryState { admin: None, limits, profiles: Map::empty() }, calls)),
    decreases calls.len(),
{
    if calls.len() > 0 {
        let rest = calls.drop_last();
        assert forall|i: int| 0 <= i < rest.len() implies well_formed_call(#[trigger] rest[i]) by {
            assert(rest[i] == calls[i]);
        }
        lemma_metadata_stays_sound(limits, rest);
        lemma_call_keeps_metadata_sound(
            run(RegistryState { admin: None, limits, profiles: Map::empty() }, rest),
            calls.last(),
        );
    }
}

/// Every call keeps the metadata of every profile within the limits and each of its keys single.
pub proof fn lemma_call_keeps_metadata_sound(state: RegistryState, call: RegistryCall)
    requires
        metadata_is_sound(state),
        well_formed_call(call),
    ensures
        metadata_is_sound(state.after(call)),
{
}

/// A registered party keeps its role and its metadata through every further call.
pub proof fn lemma_profile_is_kept(state: RegistryState, party: Address, call: RegistryCall)
    requires
        state.profiles.dom().contains(party),
    ensures
        state.after(call).profiles.dom().contains(party),
        state.after(call).profiles[party].role == state.profiles[party].role,
        state.after(call).profiles[party].metadata == state.profiles[party].metadata,
{
}

/// The administrator is appointed once: a second appointment is refused, and no call replaces the
/// first.
pub proof fn lemma_administrator_stays(state: RegistryState, call: RegistryCall, admin: Address)
    requires
        state.admin is Some,
    ensures
        state.after(call).admin == state.admin,
        state.refusal(RegistryCall::Initialize { admin }) == Some(
            RegistryError::AlreadyInitialized,
        ),
{
}

/// Metadata keeps to the limits exactly if it has no more entries than allowed, no key that is too
/// long and no value that is too long.
pub proof fn lemma_limits_bound_entries_keys_and_values(
    limits: MetadataLimits,
    metadata: Seq<MetadataEntry>,
)
    ensures
        limits.admits_all(metadata) <==> {
            &&& metadata.len() <= limits.max_entries
            &&& forall|i: int|
                0 <= i < metadata.len() ==> (#[trigger] metadata[i]).key@.len()
                    <= limits.max_key_len
            &&& forall|i: int|
                0 <= i < metadata.len() ==> (#[trigger] metadata[i]).value@.len()
                    <= limits.max_value_len
        },
{
    if metadata.len() <= limits.max_entries && (forall|i: int|
        0 <= i < metadata.len() ==> (#[trigger] metadata[i]).key@.len() <= limits.max_key_len) && (
    forall|i: int|
        0 <= i < metadata.len() ==> (#[trigger] metadata[i]).value@.len()
            <= limits.max_value_len) {
        assert forall|i: int| 0 <= i < metadata.len() implies limits.admits(
            #[trigger] metadata[i],
        ) by {}
    }
    if limits.admits_all(metadata) {
        assert forall|i: int| 0 <= i < metadata.len() implies (#[trigger] metadata[i]).key@.len()
            <= limits.max_key_len && metadata[i].value@.len() <= limits.max_value_len by {
            assert(limits.admits(metadata[i]));
        }
    }
}

/// A party is registered exactly if it is not on record yet and its metadata keeps to the limits.
/// It is then on record as it asked to be, verified, and nothing else changes.
pub proof fn lemma_register(
    state: RegistryState,
    party: Address,
    role: Role,
    metadata: Vec<MetadataEntry>,
)
    ensures
        ({
            let call = RegistryCall::Register { party, role, metadata };
            let after = state.after(call);
            let known = state.profiles.dom().contains(party);
            let within = state.limits.admits_all(metadata@);
            &&& known ==> state.refusal(call) == Some(RegistryError::AlreadyRegistered)
            &&& !known && !within ==> state.refusal(call) == Some(RegistryError::InvalidMetadata)
            &&& known || !within ==> after == state
            &&& !known && within ==> {
                &&& state.refusal(call) is None
                &&& after.profiles.dom() == state.profiles.dom().insert(party)
                &&& after.profiles[party].role == role
                &&& after.profiles[party].verified
                &&& after.profiles[party].metadata == metadata
                &&& forall|other: Address|
                    other != party ==> #[trigger] after.profiles[other] == state.profiles[other]
                &&& after.admin == state.admin
                &&& after.limits == state.limits
            }
        }),
{
}

/// A party can be revoked exactly if it is on record, as often as one likes. It is then not
/// verified, and nothing else about it or anyone else changes.
pub proof fn lemma_revoke(state: RegistryState, party: Address)
    ensures
        ({
            let call = RegistryCall::Revoke { party };
            let after = state.after(call);
            let known = state.profiles.dom().contains(party);
            &&& !known ==> state.refusal(call) == Some(RegistryError::NotFound) && after == state
            &&& known ==> {
                &&& state.refusal(call) is None
                &&& after.profiles.dom() =~= state.profiles.dom()
                &&& !after.profiles[party].verified
                &&& after.profiles[party].role == state.profiles[party].role
                &&& after.profiles[party].metadata == state.profiles[party].metadata
                &&& forall|other: Address|
                    other != party ==> #[trigger] after.profiles[other] == state.profiles[other]
                &&& after.admin == state.admin
                &&& after.limits == state.limits
            }
        }),
{
}

/// A registry without an administrator takes the one that it is given, and changes nothing else;
/// one that has an administrator refuses.
pub proof fn lemma_initialize(state: RegistryState, admin: Address)
    ensures
        ({
            let call = RegistryCall::Initialize { admin };
            &&& state.admin is Some ==> state.refusal(call) == Some(
                RegistryError::AlreadyInitialized,
            ) && state.after(call) == state
            &&& state.admin is None ==> state.refusal(call) is None && state.after(call) == (
            RegistryState { admin: Some(admin), limits: state.limits, profiles: state.profiles })
        }),
{
}

/// A registry verifies an address exactly if the profile on record for it says so.
pub proof fn lemma_registry_speaks_from_its_record(registry: RegistryContract, address: Address)
    ensures
        registry@.verified(address) <==> registry@.profiles.dom().contains(address)
            && registry@.profiles[address].verified,
        registry.verifies(address) <==> registry@.profiles.dom().contains(address)
            && registry@.profiles[address].verified,
{
}

/// Setting an entry puts it among the entries, once and under its key alone, and keeps every entry
/// under another key; nothing else gets in.
pub proof fn lemma_entry_reads_back(
    before: Seq<MetadataEntry>,
    entry: MetadataEntry,
    after: Seq<MetadataEntry>,
    other: MetadataEntry,
)
    requires
        forall|i: int, j: int|
            0 <= i < j < before.len() ==> (#[trigger] before[i]).key@ != (
            #[trigger] before[j]).key@,
        has_entry_set(before, entry, after),
    ensures
        after.contains(entry),
        other.key@ == entry.key@ ==> (after.contains(other) <==> other == entry),
        other.key@ != entry.key@ ==> (after.contains(other) <==> before.contains(other)),
        after.len() == before.len() + if exists|i: int|
            0 <= i < before.len() && (#[trigger] before[i]).key@ == entry.key@ {
            0int
        } else {
            1int
        },
        forall|i: int, j: int|
            0 <= i < j < after.len() ==> (#[trigger] after[i]).key@ != (#[trigger] after[j]).key@,
{
    let at = if exists|i: int|
        0 <= i < before.len() && (#[trigger] before[i]).key@ == entry.key@ && after
            == before.update(i, entry) {
        choose|i: int|
            0 <= i < before.len() && (#[trigger] before[i]).key@ == entry.key@ && after
                == before.update(i, entry)
    } else {
        before.len() as int
    };
    assert(after[at] == entry);
    assert(0 <= at < after.len());
    assert forall|i: int| 0 <= i < after.len() && i != at implies #[trigger] after[i] == before[i]
        && before[i].key@ != entry.key@ by {
        if at < before.len() {
            assert(before[at].key@ == entry.key@);
            if i < at {
                assert(before[i].key@ != before[at].key@);
            } else {
                assert(before[at].key@ != before[i].key@);
            }
        }
    }
    if after.contains(other) {
        let k = choose|k: int| 0 <= k < after.len() && after[k] == other;
        if k != at {
            assert(before[k] == other);
        }
    }
    if other.key@ != entry.key@ && before.contains(other) {
        let k = choose|k: int| 0 <= k < before.len() && before[k] == other;
        assert(k != at);
        assert(after[k] == other);
    }
}

/// Metadata that passes for having distinct keys has no key twice.
pub proof fn lemma_distinct_keys_are_distinct(metadata: Seq<MetadataEntry>)
    ensures
        distinct_keys(metadata) <==> forall|i: int, j: int|
            0 <= i < metadata.len() && 0 <= j < metadata.len() && i != j ==> (
            #[trigger] metadata[i]).key@ != (#[trigger] metadata[j]).key@,
{
    if distinct_keys(metadata) {
        assert forall|i: int, j: int|
            0 <= i < metadata.len() && 0 <= j < metadata.len() && i != j implies (
        #[trigger] metadata[i]).key@ != (#[trigger] metadata[j]).key@ by {
            if i < j {
                assert(metadata[i].key@ != metadata[j].key@);
            } else {
                assert(metadata[j].key@ != metadata[i].key@);
            }
        }
    }
}

/// Callers can tell every error from every other by its number.
pub proof fn lemma_codes_tell_errors_apart(one: RegistryError, other: RegistryError)
    ensures
        one.spec_code() == other.spec_code() ==> one == other,
        1 <= one.spec_code() <= 5,
{
}

} // verus!
