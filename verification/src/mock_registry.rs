//! A registry that verifies whoever is registered.
use vstd::prelude::*;

use crate::address::Address;
use crate::constants::{TTL_EXTEND_TO, TTL_THRESHOLD};
use crate::registry::IdentityRegistry;
use crate::table::AddressTable;

verus! {

/// The storage key of an address's flag.
#[derive(Clone, Copy, Debug, PartialEq, Eq, Structural)]
pub struct DataKey(pub Address);

/// A request to keep a storage entry alive: if at most `threshold` ledgers remain to it, it is to
/// live for `extend_to`.
#[derive(Clone, Copy, Debug, PartialEq, Eq, Structural)]
pub struct TtlExtension {
    pub key: DataKey,
    pub threshold: u32,
    pub extend_to: u32,
}

/// Whether `flags` marks `address` as verified; an address without a flag is not.
pub open spec fn flagged(flags: Map<Address, bool>, address: Address) -> bool {
    flags.dom().contains(address) && flags[address]
}

/// A registry that keeps one flag per address and registers whoever asks.
pub struct MockRegistry {
    flags: AddressTable<bool>,
}

impl View for MockRegistry {
    type V = Map<Address, bool>;

    closed spec fn view(&self) -> Map<Address, bool> {
        self.flags@
    }
}

impl MockRegistry {
    /// A registry without registrations.
    pub fn new() -> (registry: MockRegistry)
        ensures
            registry@ == Map::<Address, bool>::empty(),
    {
        MockRegistry { flags: AddressTable::new() }
    }

    /// Whether `address` has been registered.
    pub fn is_verified(&self, address: &Address) -> (verified: bool)
        ensures
            verified == flagged(self@, *address),
    {
        match self.flags.get(address) {
            Some(flag) => *flag,
            None => false,
        }
    }

    /// Registers `address`. The result says how long its entry is to be kept alive.
    pub fn register(&mut self, address: Address) -> (ttl: TtlExtension)
        ensures
            final(self)@ == old(self)@.insert(address, true),
            ttl == (TtlExtension {
                key: DataKey(address),
                threshold: TTL_THRESHOLD,
                extend_to: TTL_EXTEND_TO,
            }),
    {
        let key = DataKey(address);
        self.store(key, true);
        TtlExtension { key, threshold: TTL_THRESHOLD, extend_to: TTL_EXTEND_TO }
    }

    /// Records `flag` under `key`.
    pub fn store(&mut self, key: DataKey, flag: bool)
        ensures
            final(self)@ == old(self)@.insert(key.0, flag),
    {
        self.flags.set(key.0, flag);
    }
}

impl IdentityRegistry for MockRegistry {
    open spec fn verifies(&self, address: Address) -> bool {
        flagged(self@, address)
    }

    fn confirms(&self, address: &Address) -> (verified: bool) {
        self.is_verified(address)
    }
}

/// Registering an address verifies it and leaves every other address as it was; registering it
/// again changes nothing more.
pub proof fn lemma_register_verifies_one(flags: Map<Address, bool>, address: Address)
    ensures
        ({
            let after = flags.insert(address, true);
            &&& flagged(after, address)
            &&& forall|other: Address|
                other != address ==> #[trigger] flagged(after, other) == flagged(flags, other)
            &&& after.insert(address, true) == after
        }),
{
    let after = flags.insert(address, true);
    assert(after.insert(address, true) =~= after);
}

/// The flags after each of `addresses` has been registered, one after the other.
pub open spec fn registered(flags: Map<Address, bool>, addresses: Seq<Address>) -> Map<
    Address,
    bool,
>
    decreases addresses.len(),
{
    if addresses.len() == 0 {
        flags
    } else {
        registered(flags, addresses.drop_last()).insert(addresses.last(), true)
    }
}

/// A new registry verifies exactly those that have been registered since, in whatever order and
/// however often.
pub proof fn lemma_registered_and_no_others(addresses: Seq<Address>, address: Address)
    ensures
        flagged(registered(Map::empty(), addresses), address) <==> addresses.contains(address),
    decreases addresses.len(),
{
    if addresses.len() > 0 {
        let rest = addresses.drop_last();
        lemma_registered_and_no_others(rest, address);
        assert(addresses =~= rest.push(addresses.last()));
        if rest.contains(address) {
            let i = choose|i: int| 0 <= i < rest.len() && rest[i] == address;
            assert(addresses[i] == address);
        } else if addresses.last() == address {
            assert(addresses[addresses.len() - 1] == address);
        }
    }
}

/// A flag that is recorded reads back as it was given, under its own address and no other, and an
/// address without a flag is not verified.
pub proof fn lemma_flag_reads_back(
    flags: Map<Address, bool>,
    address: Address,
    flag: bool,
    other: Address,
)
    ensures
        flagged(flags.insert(address, flag), address) == flag,
        other != address ==> flagged(flags.insert(address, flag), other) == flagged(flags, other),
        !flags.dom().contains(other) ==> !flagged(flags, other),
{
}

/// The registry verifies an address exactly if its flag on record says so.
pub proof fn lemma_registry_speaks_from_its_flags(registry: MockRegistry, address: Address)
    ensures
        registry.verifies(address) <==> registry@.dom().contains(address) && registry@[address],
{
}

} // verus!
