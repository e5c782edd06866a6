//! What the invoice contract stores, says and answers.
use vstd::prelude::*;

use crate::address::Address;
use crate::invoice_id::{InvoiceId, Terms};

verus! {

/// The highest discount that an invoice may be listed at, in hundredths of a percent.
pub const MAX_DISCOUNT_BPS: u32 = 5000;

/// How long a listing stays open unless another window has been set: seven days, in seconds.
pub const DEFAULT_EXPIRY_WINDOW: u64 = 604_800;

/// Where an invoice stands.
#[derive(Clone, Copy, Debug, PartialEq, Eq, Structural)]
pub enum InvoiceStatus {
    /// Drawn up by its issuer.
    Created,
    /// Offered to the pool at a discount.
    Listed,
    /// Paid for by the pool.
    Funded,
    /// The goods are on their way.
    Active,
    /// Issuer and buyer both confirmed the delivery.
    Confirmed,
    /// Paid back by the buyer.
    Repaid,
    /// Not paid back when it was due.
    Defaulted,
    /// Not funded while it was listed.
    Expired,
}

/// An invoice as the contract stores it.
#[derive(Clone, Copy, Debug, PartialEq, Eq, Structural)]
pub struct Invoice {
    pub id: InvoiceId,
    pub issuer: Address,
    pub buyer: Address,
    pub face_value: u128,
    pub due_date: u64,
    pub funding_asset: Address,
    pub status: InvoiceStatus,
    /// Zero until the invoice is listed.
    pub discount_bps: u32,
    pub funding_pool: Option<Address>,
    /// Zero until the invoice is funded.
    pub funded_amount: u128,
    pub issuer_confirmed: bool,
    pub buyer_confirmed: bool,
    pub created_at: u64,
    /// Zero until the invoice is listed.
    pub listed_at: u64,
    pub repaid_at: Option<u64>,
}

/// The invoice that is stored when `terms` are entered under `id` at ledger time `now`.
pub open spec fn new_invoice(id: InvoiceId, terms: Terms, now: u64) -> Invoice {
    Invoice {
        id,
        issuer: terms.issuer,
        buyer: terms.buyer,
        face_value: terms.face_value,
        due_date: terms.due_date,
        funding_asset: terms.funding_asset,
        status: InvoiceStatus::Created,
        discount_bps: 0,
        funding_pool: None,
        funded_amount: 0,
        issuer_confirmed: false,
        buyer_confirmed: false,
        created_at: now,
        listed_at: 0,
        repaid_at: None,
    }
}

impl Invoice {
    /// What the parties agreed on.
    pub open spec fn terms(self) -> Terms {
        Terms {
            issuer: self.issuer,
            buyer: self.buyer,
            face_value: self.face_value,
            due_date: self.due_date,
            funding_asset: self.funding_asset,
        }
    }

    /// The pool's money is in the invoice and has not come back.
    pub open spec fn is_outstanding(self) -> bool {
        self.status == InvoiceStatus::Funded || self.status == InvoiceStatus::Active || self.status
            == InvoiceStatus::Confirmed
    }

    /// The pool's money is in the invoice and has not come back.
    pub fn outstanding(&self) -> (outstanding: bool)
        ensures
            outstanding == self.is_outstanding(),
    {
        match self.status {
            InvoiceStatus::Funded | InvoiceStatus::Active | InvoiceStatus::Confirmed => true,
            _ => false,
        }
    }
}

/// Why the contract refuses a call.
#[derive(Clone, Copy, Debug, PartialEq, Eq, Structural)]
pub enum InvoiceError {
    /// Somebody whose consent the call needs has not given it.
    AuthInvalidAction,
    AlreadyInitialized,
    /// There is no such invoice, or the contract lacks a setting that the call needs.
    NotFound,
    /// The party named in the call has no part in the invoice.
    NotAuthorized,
    IssuerNotVerified,
    BuyerNotVerified,
    InvalidFaceValue,
    InvalidDueDate,
    InvalidStatusTransition,
    DiscountTooHigh,
    AlreadyConfirmed,
    NotYetDue,
    AssetMismatch,
    ListingNotExpired,
    ExpiryOverflow,
    CounterOverflow,
}

impl InvoiceError {
    /// The number under which callers see the error. A missing consent has none: the host reports
    /// it in its own words.
    pub open spec fn spec_code(self) -> Option<u32> {
        match self {
            InvoiceError::AuthInvalidAction => None,
            InvoiceError::AlreadyInitialized => Some(1),
            InvoiceError::NotFound => Some(2),
            InvoiceError::NotAuthorized => Some(3),
            InvoiceError::IssuerNotVerified => Some(4),
            InvoiceError::BuyerNotVerified => Some(5),
            InvoiceError::InvalidFaceValue => Some(6),
            InvoiceError::InvalidDueDate => Some(7),
            InvoiceError::InvalidStatusTransition => Some(8),
            InvoiceError::DiscountTooHigh => Some(9),
            InvoiceError::AlreadyConfirmed => Some(10),
            InvoiceError::NotYetDue => Some(11),
            InvoiceError::AssetMismatch => Some(13),
            InvoiceError::ListingNotExpired => Some(14),
            InvoiceError::ExpiryOverflow => Some(15),
            InvoiceError::CounterOverflow => Some(17),
        }
    }

    /// The number under which callers see the error, if it has one.
    pub fn code(&self) -> (code: Option<u32>)
        ensures
            code == self.spec_code(),
    {
        match self {
            InvoiceError::AuthInvalidAction => None,
            InvoiceError::AlreadyInitialized => Some(1),
            InvoiceError::NotFound => Some(2),
            InvoiceError::NotAuthorized => Some(3),
            InvoiceError::IssuerNotVerified => Some(4),
            InvoiceError::BuyerNotVerified => Some(5),
            InvoiceError::InvalidFaceValue => Some(6),
            InvoiceError::InvalidDueDate => Some(7),
            InvoiceError::InvalidStatusTransition => Some(8),
            InvoiceError::DiscountTooHigh => Some(9),
            InvoiceError::AlreadyConfirmed => Some(10),
            InvoiceError::NotYetDue => Some(11),
            InvoiceError::AssetMismatch => Some(13),
            InvoiceError::ListingNotExpired => Some(14),
            InvoiceError::ExpiryOverflow => Some(15),
            InvoiceError::CounterOverflow => Some(17),
        }
    }
}

/// What the contract announces.
#[derive(Clone, Copy, Debug, PartialEq, Eq, Structural)]
pub enum Event {
    InvoiceCreated {
        id: InvoiceId,
        issuer: Address,
        buyer: Address,
        funding_asset: Address,
        face_value: u128,
    },
    InvoiceListed { id: InvoiceId, discount_bps: u32 },
    InvoiceRepaid { id: InvoiceId },
    PoolContractUpdated { old_pool: Address, new_pool: Address },
    ExpiryWindowSet { window: u64 },
}

/// One value of a published event.
#[derive(Clone, Copy, Debug, PartialEq, Eq)]
pub enum EventValue {
    Symbol(&'static str),
    Id(InvoiceId),
    Party(Address),
    U32(u32),
    U64(u64),
    U128(u128),
    /// No value.
    Void,
}

/// An event as the ledger shows it: the contract that published it, the topics that it is found
/// by, in their order, and its data.
#[derive(Clone, Debug, PartialEq, Eq)]
pub struct Published {
    pub contract: Address,
    pub topics: Vec<EventValue>,
    pub data: EventValue,
}

impl Event {
    /// The name that the event is published under.
    pub open spec fn spec_symbol(self) -> &'static str {
        match self {
            Event::InvoiceCreated { .. } => "invoice_created",
            Event::InvoiceListed { .. } => "invoice_listed",
            Event::InvoiceRepaid { .. } => "invoice_repaid",
            Event::PoolContractUpdated { .. } => "pool_contract_updated",
            Event::ExpiryWindowSet { .. } => "expiry_window_set",
        }
    }

    /// The name that the event is published under.
    pub fn symbol(&self) -> (symbol: &'static str)
        ensures
            symbol == self.spec_symbol(),
    {
        match self {
            Event::InvoiceCreated { .. } => "invoice_created",
            Event::InvoiceListed { .. } => "invoice_listed",
            Event::InvoiceRepaid { .. } => "invoice_repaid",
            Event::PoolContractUpdated { .. } => "pool_contract_updated",
            Event::ExpiryWindowSet { .. } => "expiry_window_set",
        }
    }

    /// What the event is found by: its name, and then the invoice and the addresses that it is
    /// about.
    pub open spec fn topics(self) -> Seq<EventValue> {
        let symbol = EventValue::Symbol(self.spec_symbol());
        match self {
            Event::InvoiceCreated { id, issuer, buyer, funding_asset, .. } => seq![
                symbol,
                EventValue::Id(id),
                EventValue::Party(issuer),
                EventValue::Party(buyer),
                EventValue::Party(funding_asset),
            ],
            Event::InvoiceListed { id, .. } => seq![symbol, EventValue::Id(id)],
            Event::InvoiceRepaid { id } => seq![symbol, EventValue::Id(id)],
            Event::PoolContractUpdated { old_pool, new_pool } => seq![
                symbol,
                EventValue::Party(old_pool),
                EventValue::Party(new_pool),
            ],
            Event::ExpiryWindowSet { .. } => seq![symbol],
        }
    }

    /// What the event carries besides its topics: the one number that it reports, if it does.
    pub open spec fn data(self) -> EventValue {
        match self {
            Event::InvoiceCreated { face_value, .. } => EventValue::U128(face_value),
            Event::InvoiceListed { discount_bps, .. } => EventValue::U32(discount_bps),
            Event::InvoiceRepaid { .. } => EventValue::Void,
            Event::PoolContractUpdated { .. } => EventValue::Void,
            Event::ExpiryWindowSet { window } => EventValue::U64(window),
        }
    }

    /// The event as it is published by `contract`.
    pub fn publish(&self, contract: Address) -> (published: Published)
        ensures
            published.contract == contract,
            published.topics@ == self.topics(),
            published.data == self.data(),
    {
        let mut topics: Vec<EventValue> = Vec::new();
        topics.push(EventValue::Symbol(self.symbol()));
        let data = match *self {
            Event::InvoiceCreated { id, issuer, buyer, funding_asset, face_value } => {
                topics.push(EventValue::Id(id));
                topics.push(EventValue::Party(issuer));
                topics.push(EventValue::Party(buyer));
                topics.push(EventValue::Party(funding_asset));
                EventValue::U128(face_value)
            },
            Event::InvoiceListed { id, discount_bps } => {
                topics.push(EventValue::Id(id));
                EventValue::U32(discount_bps)
            },
            Event::InvoiceRepaid { id } => {
                topics.push(EventValue::Id(id));
                EventValue::Void
            },
            Event::PoolContractUpdated { old_pool, new_pool } => {
                topics.push(EventValue::Party(old_pool));
                topics.push(EventValue::Party(new_pool));
                EventValue::Void
            },
            Event::ExpiryWindowSet { window } => EventValue::U64(window),
        };
        Published { contract, topics, data }
    }
}

/// The settings of the contract. Each is absent until it has been made.
#[derive(Clone, Copy, Debug, PartialEq, Eq, Structural)]
pub struct Settings {
    pub admin: Option<Address>,
    pub registry_contract: Option<Address>,
    pub pool_contract: Option<Address>,
    pub expiry_window: Option<u64>,
    /// How many invoices have been created.
    pub counter: Option<u64>,
}

/// Who consents to a call.
#[derive(Debug)]
pub enum Auths {
    Everyone,
    Only(Vec<Address>),
}

/// What the ledger knows when a call is made.
#[derive(Debug)]
pub struct Context {
    /// The ledger time, in seconds.
    pub now: u64,
    pub auths: Auths,
}

impl Context {
    /// `address` consents to the call.
    pub open spec fn authorizes(self, address: Address) -> bool {
        match self.auths {
            Auths::Everyone => true,
            Auths::Only(addresses) => addresses@.contains(address),
        }
    }

    /// Whether `address` consents to the call.
    pub fn has_auth(&self, address: &Address) -> (given: bool)
        ensures
            given == self.authorizes(*address),
    {
        match &self.auths {
            Auths::Everyone => true,
            Auths::Only(addresses) => {
                let mut i: usize = 0;
                while i < addresses.len()
                    invariant
                        self.auths == Auths::Only(*addresses),
                        i <= addresses.len(),
                        forall|j: int| 0 <= j < i ==> addresses@[j] != *address,
                    decreases addresses.len() - i,
                {
                    if addresses[i] == *address {
                        return true;
                    }
                    i += 1;
                }
                false
            },
        }
    }
}

} // verus!
