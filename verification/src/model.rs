//! What each call of the invoice contract is answered, and what it leaves behind.
use vstd::prelude::*;

use crate::address::Address;
use crate::invoice::{
    new_invoice, Context, Event, Invoice, InvoiceError, InvoiceStatus, Settings,
    DEFAULT_EXPIRY_WINDOW, MAX_DISCOUNT_BPS,
};
use crate::invoice_id::{id_from_digest, preimage, sha256_halves, InvoiceId, Terms};

verus! {

/// The place of the first invoice under `id`, if there is one.
pub open spec fn place(invoices: Seq<Invoice>, id: InvoiceId) -> Option<int>
    decreases invoices.len(),
{
    if invoices.len() == 0 {
        None
    } else {
        match place(invoices.drop_last(), id) {
            Some(i) => Some(i),
            None => if invoices.last().id == id {
                Some(invoices.len() - 1)
            } else {
                None
            },
        }
    }
}

/// `place` finds the first invoice under an identifier, and finds none only if there is none.
pub proof fn lemma_place(invoices: Seq<Invoice>, id: InvoiceId)
    ensures
        match place(invoices, id) {
            Some(i) => {
                &&& 0 <= i < invoices.len()
                &&& invoices[i].id == id
                &&& forall|j: int| 0 <= j < i ==> (#[trigger] invoices[j]).id != id
            },
            None => forall|j: int| 0 <= j < invoices.len() ==> (#[trigger] invoices[j]).id != id,
        },
    decreases invoices.len(),
{
    if invoices.len() > 0 {
        let rest = invoices.drop_last();
        lemma_place(rest, id);
        assert forall|j: int| 0 <= j < rest.len() implies rest[j] == #[trigger] invoices[j] by {}
    }
}

/// All that the contract stores, and all that it has announced.
#[verifier::ext_equal]
pub ghost struct InvoiceState {
    pub settings: Settings,
    pub invoices: Seq<Invoice>,
    pub events: Seq<Event>,
}

/// A call that can change the contract. `Create` carries what the registry said of the parties and
/// the digest that the identifier is made of.
pub ghost enum InvoiceCall {
    Initialize { admin: Address, registry_contract: Address },
    SetPoolContract { pool: Address },
    SetExpiryWindow { window: u64 },
    Create {
        terms: Terms,
        issuer_verified: bool,
        buyer_verified: bool,
        digest: (u128, u128),
    },
    ListForFinancing { id: InvoiceId, discount_bps: u32 },
    MarkFunded { id: InvoiceId, pool: Address, asset: Address, amount: u128 },
    MarkShipped { id: InvoiceId },
    ConfirmDelivery { id: InvoiceId, party: Address },
    Repay { id: InvoiceId },
    TriggerDefault { id: InvoiceId },
    ExpireListing { id: InvoiceId },
}

impl InvoiceCall {
    /// The call is about one invoice that is already there.
    pub open spec fn has_subject(self) -> bool {
        !(self is Initialize || self is SetPoolContract || self is SetExpiryWindow
            || self is Create)
    }

    /// The identifier of the invoice that the call is about.
    pub open spec fn subject(self) -> InvoiceId
        recommends
            self.has_subject(),
    {
        match self {
            InvoiceCall::ListForFinancing { id, .. } => id,
            InvoiceCall::MarkFunded { id, .. } => id,
            InvoiceCall::MarkShipped { id } => id,
            InvoiceCall::ConfirmDelivery { id, .. } => id,
            InvoiceCall::Repay { id } => id,
            InvoiceCall::TriggerDefault { id } => id,
            InvoiceCall::ExpireListing { id } => id,
            _ => arbitrary(),
        }
    }
}

impl InvoiceState {
    /// A contract that nothing has happened to.
    pub open spec fn initial() -> InvoiceState {
        InvoiceState {
            settings: Settings {
                admin: None,
                registry_contract: None,
                pool_contract: None,
                expiry_window: None,
                counter: None,
            },
            invoices: Seq::empty(),
            events: Seq::empty(),
        }
    }

    /// There is an invoice under `id`.
    pub open spec fn holds(self, id: InvoiceId) -> bool {
        place(self.invoices, id) is Some
    }

    /// The invoice under `id`.
    pub open spec fn invoice(self, id: InvoiceId) -> Invoice {
        self.invoices[place(self.invoices, id)->0]
    }

    /// The invoice under the identifier of `invoice` becomes `invoice`.
    pub open spec fn put(self, invoice: Invoice) -> InvoiceState {
        InvoiceState {
            invoices: self.invoices.update(place(self.invoices, invoice.id)->0, invoice),
            ..self
        }
    }

    /// `event` is announced.
    pub open spec fn emit(self, event: Event) -> InvoiceState {
        InvoiceState { events: self.events.push(event), ..self }
    }

    /// The settings become `settings`.
    pub open spec fn set(self, settings: Settings) -> InvoiceState {
        InvoiceState { settings, ..self }
    }

    /// How long a listing stays open.
    pub open spec fn expiry_window(self) -> u64 {
        match self.settings.expiry_window {
            Some(window) => window,
            None => DEFAULT_EXPIRY_WINDOW,
        }
    }

    /// The salt of the next invoice.
    pub open spec fn next_salt(self) -> u64 {
        (self.settings.counter->0 + 1) as u64
    }

    /// The digest that the identifier of an invoice created now is made of.
    pub open spec fn next_digest(self, terms: Terms, now: u64) -> (u128, u128) {
        sha256_halves(preimage(terms, now, self.next_salt()))
    }

    /// The error that answers a call which only the administrator may make, if it is refused.
    pub open spec fn admin_refusal(self, ctx: Context) -> Option<InvoiceError> {
        if self.settings.admin is None {
            Some(InvoiceError::NotFound)
        } else if !ctx.authorizes(self.settings.admin->0) {
            Some(InvoiceError::AuthInvalidAction)
        } else {
            None
        }
    }

    /// The error that answers a request to create an invoice, if it is refused.
    pub open spec fn create_refusal(
        self,
        ctx: Context,
        terms: Terms,
        issuer_verified: bool,
        buyer_verified: bool,
    ) -> Option<InvoiceError> {
        if !ctx.authorizes(terms.issuer) {
            Some(InvoiceError::AuthInvalidAction)
        } else if self.settings.registry_contract is None {
            Some(InvoiceError::NotFound)
        } else if !issuer_verified {
            Some(InvoiceError::IssuerNotVerified)
        } else if !buyer_verified {
            Some(InvoiceError::BuyerNotVerified)
        } else if terms.face_value == 0 {
            Some(InvoiceError::InvalidFaceValue)
        } else if terms.due_date <= ctx.now {
            Some(InvoiceError::InvalidDueDate)
        } else if self.settings.counter is None {
            Some(InvoiceError::NotFound)
        } else if self.settings.counter->0 == u64::MAX {
            Some(InvoiceError::CounterOverflow)
        } else {
            None
        }
    }

    /// The error that answers a request on `invoice`, if it is refused.
    pub open spec fn invoice_refusal(
        self,
        ctx: Context,
        call: InvoiceCall,
        invoice: Invoice,
    ) -> Option<InvoiceError> {
        match call {
            InvoiceCall::ListForFinancing { discount_bps, .. } => if !ctx.authorizes(
                invoice.issuer,
            ) {
                Some(InvoiceError::AuthInvalidAction)
            } else if invoice.status != InvoiceStatus::Created {
                Some(InvoiceError::InvalidStatusTransition)
            } else if discount_bps > MAX_DISCOUNT_BPS {
                Some(InvoiceError::DiscountTooHigh)
            } else {
                None
            },
            InvoiceCall::MarkFunded { pool, asset, .. } => if self.settings.pool_contract is None {
                Some(InvoiceError::NotFound)
            } else if !ctx.authorizes(pool) {
                Some(InvoiceError::AuthInvalidAction)
            } else if self.settings.pool_contract != Some(pool) {
                Some(InvoiceError::NotAuthorized)
            } else if invoice.status != InvoiceStatus::Listed {
                Some(InvoiceError::InvalidStatusTransition)
            } else if invoice.funding_asset != asset {
                Some(InvoiceError::AssetMismatch)
            } else {
                None
            },
            InvoiceCall::MarkShipped { .. } => if !ctx.authorizes(invoice.issuer) {
                Some(InvoiceError::AuthInvalidAction)
            } else if invoice.status != InvoiceStatus::Funded {
                Some(InvoiceError::InvalidStatusTransition)
            } else {
                None
            },
            InvoiceCall::ConfirmDelivery { party, .. } => if !ctx.authorizes(party) {
                Some(InvoiceError::AuthInvalidAction)
            } else if invoice.status != InvoiceStatus::Active {
                Some(InvoiceError::InvalidStatusTransition)
            } else if party != invoice.issuer && party != invoice.buyer {
                Some(InvoiceError::NotAuthorized)
            } else if has_confirmed(invoice, party) {
                Some(InvoiceError::AlreadyConfirmed)
            } else {
                None
            },
            InvoiceCall::Repay { .. } => if !ctx.authorizes(invoice.buyer) {
                Some(InvoiceError::AuthInvalidAction)
            } else if !invoice.is_outstanding() {
                Some(InvoiceError::InvalidStatusTransition)
            } else {
                None
            },
            InvoiceCall::TriggerDefault { .. } => if !invoice.is_outstanding() {
                Some(InvoiceError::InvalidStatusTransition)
            } else if ctx.now < invoice.due_date {
                Some(InvoiceError::NotYetDue)
            } else {
                None
            },
            InvoiceCall::ExpireListing { .. } => if !ctx.authorizes(invoice.issuer) && !(
            self.settings.admin is Some && ctx.authorizes(self.settings.admin->0)) {
                Some(InvoiceError::AuthInvalidAction)
            } else if invoice.status != InvoiceStatus::Listed {
                Some(InvoiceError::InvalidStatusTransition)
            } else if invoice.listed_at + self.expiry_window() > u64::MAX {
                Some(InvoiceError::ExpiryOverflow)
            } else if ctx.now < invoice.listed_at + self.expiry_window() {
                Some(InvoiceError::ListingNotExpired)
            } else {
                None
            },
            _ => None,
        }
    }

    /// The error that answers `call`, if it is refused.
    pub open spec fn refusal(self, ctx: Context, call: InvoiceCall) -> Option<InvoiceError> {
        match call {
            InvoiceCall::Initialize { admin, .. } => if self.settings.admin is Some {
                Some(InvoiceError::AlreadyInitialized)
            } else if !ctx.authorizes(admin) {
                Some(InvoiceError::AuthInvalidAction)
            } else {
                None
            },
            InvoiceCall::SetPoolContract { .. } => self.admin_refusal(ctx),
            InvoiceCall::SetExpiryWindow { .. } => self.admin_refusal(ctx),
            InvoiceCall::Create { terms, issuer_verified, buyer_verified, .. } =>
                self.create_refusal(ctx, terms, issuer_verified, buyer_verified),
            InvoiceCall::TriggerDefault { id } => if self.admin_refusal(ctx) is Some {
                self.admin_refusal(ctx)
            } else if !self.holds(id) {
                Some(InvoiceError::NotFound)
            } else {
                self.invoice_refusal(ctx, call, self.invoice(id))
            },
            _ => if !self.holds(call.subject()) {
                Some(InvoiceError::NotFound)
            } else {
                self.invoice_refusal(ctx, call, self.invoice(call.subject()))
            },
        }
    }

    /// What an accepted `call` about one invoice makes of that invoice.
    pub open spec fn changed(self, ctx: Context, call: InvoiceCall) -> Invoice
        recommends
            call.has_subject(),
    {
        let invoice = self.invoice(call.subject());
        match call {
            InvoiceCall::ListForFinancing { discount_bps, .. } => Invoice {
                status: InvoiceStatus::Listed,
                discount_bps,
                listed_at: ctx.now,
                ..invoice
            },
            InvoiceCall::MarkFunded { pool, amount, .. } => Invoice {
                status: InvoiceStatus::Funded,
                funding_pool: Some(pool),
                funded_amount: amount,
                ..invoice
            },
            InvoiceCall::MarkShipped { .. } => Invoice { status: InvoiceStatus::Active, ..invoice },
            InvoiceCall::ConfirmDelivery { party, .. } => confirmed_by(invoice, party),
            InvoiceCall::Repay { .. } => Invoice {
                status: InvoiceStatus::Repaid,
                repaid_at: Some(ctx.now),
                ..invoice
            },
            InvoiceCall::TriggerDefault { .. } => Invoice {
                status: InvoiceStatus::Defaulted,
                ..invoice
            },
            InvoiceCall::ExpireListing { .. } => Invoice {
                status: InvoiceStatus::Expired,
                ..invoice
            },
            _ => invoice,
        }
    }

    /// What an accepted `call` makes of the contract.
    pub open spec fn effect(self, ctx: Context, call: InvoiceCall) -> InvoiceState {
        match call {
            InvoiceCall::Initialize { admin, registry_contract } => self.set(
                Settings {
                    admin: Some(admin),
                    registry_contract: Some(registry_contract),
                    counter: Some(0),
                    ..self.settings
                },
            ),
            InvoiceCall::SetPoolContract { pool } => self.set(
                Settings { pool_contract: Some(pool), ..self.settings },
            ).emit(
                Event::PoolContractUpdated {
                    old_pool: match self.settings.pool_contract {
                        Some(old_pool) => old_pool,
                        None => pool,
                    },
                    new_pool: pool,
                },
            ),
            InvoiceCall::SetExpiryWindow { window } => self.set(
                Settings { expiry_window: Some(window), ..self.settings },
            ).emit(Event::ExpiryWindowSet { window }),
            InvoiceCall::Create { terms, digest, .. } => {
                let id = id_from_digest(digest, self.next_salt());
                InvoiceState {
                    settings: Settings { counter: Some(self.next_salt()), ..self.settings },
                    invoices: self.invoices.push(new_invoice(id, terms, ctx.now)),
                    events: self.events.push(
                        Event::InvoiceCreated {
                            id,
                            issuer: terms.issuer,
                            buyer: terms.buyer,
                            funding_asset: terms.funding_asset,
                            face_value: terms.face_value,
                        },
                    ),
                }
            },
            InvoiceCall::ListForFinancing { id, discount_bps } => self.put(
                self.changed(ctx, call),
            ).emit(Event::InvoiceListed { id, discount_bps }),
            InvoiceCall::Repay { id } => self.put(self.changed(ctx, call)).emit(
                Event::InvoiceRepaid { id },
            ),
            _ => self.put(self.changed(ctx, call)),
        }
    }

    /// What `call` leaves behind. A refused call leaves all as it was.
    pub open spec fn after(self, ctx: Context, call: InvoiceCall) -> InvoiceState {
        if self.refusal(ctx, call) is Some {
            self
        } else {
            self.effect(ctx, call)
        }
    }

    /// `result` is the answer to `call`: its error, or `true`.
    pub open spec fn answers(
        self,
        ctx: Context,
        call: InvoiceCall,
        result: Result<bool, InvoiceError>,
    ) -> bool {
        match self.refusal(ctx, call) {
            Some(error) => result == Err::<bool, InvoiceError>(error),
            None => result == Ok::<bool, InvoiceError>(true),
        }
    }
}

/// `party` has confirmed the delivery. An address that is both issuer and buyer speaks as issuer.
pub open spec fn has_confirmed(invoice: Invoice, party: Address) -> bool {
    if party == invoice.issuer {
        invoice.issuer_confirmed
    } else {
        invoice.buyer_confirmed
    }
}

/// The invoice once `party` has confirmed the delivery. The second confirmation settles it.
pub open spec fn confirmed_by(invoice: Invoice, party: Address) -> Invoice {
    let issuer_confirmed = invoice.issuer_confirmed || party == invoice.issuer;
    let buyer_confirmed = invoice.buyer_confirmed || party != invoice.issuer;
    Invoice {
        issuer_confirmed,
        buyer_confirmed,
        status: if issuer_confirmed && buyer_confirmed {
            InvoiceStatus::Confirmed
        } else {
            invoice.status
        },
        ..invoice
    }
}

/// The invoices that `issuer` issued, in the order of their creation.
pub open spec fn issued_by(invoices: Seq<Invoice>, issuer: Address) -> Seq<Invoice> {
    invoices.filter(|invoice: Invoice| invoice.issuer == issuer)
}

/// The invoices that `buyer` owes, in the order of their creation.
pub open spec fn owed_by(invoices: Seq<Invoice>, buyer: Address) -> Seq<Invoice> {
    invoices.filter(|invoice: Invoice| invoice.buyer == buyer)
}

/// The invoices at `status`, in the order of their creation.
pub open spec fn at_status(invoices: Seq<Invoice>, status: InvoiceStatus) -> Seq<Invoice> {
    invoices.filter(|invoice: Invoice| invoice.status == status)
}

} // verus!
