//! A small trading place to try the contracts in: two verified parties, a token, and an invoice
//! contract that is ready for use.
use vstd::prelude::*;

use crate::address::Address;
use crate::contract::InvoiceContract;
use crate::invoice::{Auths, Context};
use crate::mock_registry::MockRegistry;
use crate::model::{InvoiceCall, InvoiceState};
use crate::pool::MockPool;
use crate::registry::Deployed;
use crate::token::{balance_of, fits, minted, MockToken};

verus! {

/// The addresses that take part.
#[derive(Clone, Copy, Debug, PartialEq, Eq, Structural)]
pub struct Cast {
    pub registry: Address,
    pub issuer: Address,
    pub buyer: Address,
    pub admin: Address,
    pub usdc_asset: Address,
}

/// A trading place at ledger time zero at which everyone consents to everything.
pub struct Setup {
    pub ctx: Context,
    pub client: InvoiceContract,
    pub issuer: Address,
    pub buyer: Address,
    pub registry: Deployed<MockRegistry>,
    pub usdc_asset: Address,
    pub token: MockToken,
}

/// A trading place, and the administrator of its invoice contract.
pub struct SetupWithAdmin {
    pub setup: Setup,
    pub admin: Address,
}

impl Setup {
    /// The place has just been set up for `cast`: issuer and buyer are registered and nobody else
    /// is, nobody holds a token, and the invoice contract has been initialized and no more.
    pub open spec fn is_fresh(self, cast: Cast) -> bool {
        &&& self.ctx.now == 0
        &&& self.ctx.auths == Auths::Everyone
        &&& self.issuer == cast.issuer
        &&& self.buyer == cast.buyer
        &&& self.usdc_asset == cast.usdc_asset
        &&& self.registry.address == cast.registry
        &&& self.registry.contract@ == Map::<Address, bool>::empty().insert(cast.issuer, true).insert(
            cast.buyer,
            true,
        )
        &&& self.token@ == Map::<Address, i128>::empty()
        &&& self.client@ == InvoiceState::initial().effect(
            self.ctx,
            InvoiceCall::Initialize { admin: cast.admin, registry_contract: cast.registry },
        )
    }
}

/// Sets a trading place up.
pub fn setup(cast: &Cast) -> (setup: Setup)
    ensures
        setup.is_fresh(*cast),
{
    setup_with_admin(cast).setup
}

/// Sets a trading place up and names its administrator.
pub fn setup_with_admin(cast: &Cast) -> (place: SetupWithAdmin)
    ensures
        place.setup.is_fresh(*cast),
        place.admin == cast.admin,
{
    let ctx = Context { now: 0, auths: Auths::Everyone };
    let mut registry = MockRegistry::new();
    let _ = registry.register(cast.issuer);
    let _ = registry.register(cast.buyer);
    let mut client = InvoiceContract::new();
    let initialized = client.initialize(&ctx, cast.admin, cast.registry);
    assert(initialized is Ok);
    SetupWithAdmin {
        setup: Setup {
            ctx,
            client,
            issuer: cast.issuer,
            buyer: cast.buyer,
            registry: Deployed { address: cast.registry, contract: registry },
            usdc_asset: cast.usdc_asset,
            token: MockToken::new(),
        },
        admin: cast.admin,
    }
}

/// A pool that funds in `asset`.
pub fn mock_pool_with_asset(asset: &Address) -> (pool: MockPool)
    ensures
        pool.asset == Some(*asset),
{
    MockPool { asset: Some(*asset) }
}

/// Gives `to` an amount of a token.
pub fn mint_tokens(token: &mut MockToken, to: &Address, amount: i128)
    requires
        fits(balance_of(old(token)@, *to) + amount),
    ensures
        final(token)@ == minted(old(token)@, *to, amount as int),
{
    token.mint(*to, amount);
}

/// A fresh place is what its cast says: everyone consents, it is time zero, the contract has that
/// administrator and that registry and nothing else, the registry verifies the issuer and the buyer
/// and nobody else, and nobody holds a token.
pub proof fn lemma_fresh_place(setup: Setup, cast: Cast, other: Address)
    requires
        setup.is_fresh(cast),
    ensures
        setup.ctx.now == 0,
        setup.ctx.authorizes(other),
        setup.issuer == cast.issuer,
        setup.buyer == cast.buyer,
        setup.usdc_asset == cast.usdc_asset,
        setup.client@.settings.admin == Some(cast.admin),
        setup.client@.settings.registry_contract == Some(cast.registry),
        setup.client@.settings.pool_contract is None,
        setup.client@.settings.expiry_window is None,
        setup.client@.settings.counter == Some(0u64),
        setup.client@.invoices.len() == 0,
        setup.client@.events.len() == 0,
        setup.registry.vouches(setup.client@.settings.registry_contract, other) <==> other
            == cast.issuer || other == cast.buyer,
        balance_of(setup.token@, other) == 0,
{
}

} // verus!
