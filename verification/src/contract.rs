//! The contract that carries an invoice from its creation to its end.
use vstd::prelude::*;

use crate::address::Address;
use crate::invoice::{
    new_invoice, Context, Event, Invoice, InvoiceError, InvoiceStatus, Settings,
    DEFAULT_EXPIRY_WINDOW, MAX_DISCOUNT_BPS,
};
use crate::invoice_id::{id_from_digest, id_of, InvoiceId, Terms};
use crate::model::{
    at_status, issued_by, lemma_place, owed_by, place, InvoiceCall, InvoiceState,
};
use crate::registry::{Deployed, IdentityRegistry};

verus! {

/// What a reader looks for.
enum Selector {
    Issuer(Address),
    Buyer(Address),
    Status(InvoiceStatus),
}

impl Selector {
    spec fn selects(self, invoice: Invoice) -> bool {
        match self {
            Selector::Issuer(issuer) => invoice.issuer == issuer,
            Selector::Buyer(buyer) => invoice.buyer == buyer,
            Selector::Status(status) => invoice.status == status,
        }
    }

    fn test(&self, invoice: &Invoice) -> (selected: bool)
        ensures
            selected == self.selects(*invoice),
    {
        match self {
            Selector::Issuer(issuer) => invoice.issuer == *issuer,
            Selector::Buyer(buyer) => invoice.buyer == *buyer,
            Selector::Status(status) => invoice.status == *status,
        }
    }
}

/// The invoice contract. An issuer creates an invoice and lists it at a discount, the pool funds
/// it, the goods are shipped, issuer and buyer confirm their delivery, and the buyer repays.
pub struct InvoiceContract {
    settings: Settings,
    invoices: Vec<Invoice>,
    events: Vec<Event>,
}

impl View for InvoiceContract {
    type V = InvoiceState;

    closed spec fn view(&self) -> InvoiceState {
        InvoiceState {
            settings: self.settings,
            invoices: self.invoices@,
            events: self.events@,
        }
    }
}

impl InvoiceContract {
    /// A contract that awaits its administrator.
    pub fn new() -> (contract: InvoiceContract)
        ensures
            contract@ == InvoiceState::initial(),
    {
        InvoiceContract {
            settings: Settings {
                admin: None,
                registry_contract: None,
                pool_contract: None,
                expiry_window: None,
                counter: None,
            },
            invoices: Vec::new(),
            events: Vec::new(),
        }
    }

    /// Appoints the administrator and names the registry, once.
    pub fn initialize(
        &mut self,
        ctx: &Context,
        admin: Address,
        registry_contract: Address,
    ) -> (result: Result<(), InvoiceError>)
        ensures
            ({
                let call = InvoiceCall::Initialize { admin, registry_contract };
                &&& final(self)@ == old(self)@.after(*ctx, call)
                &&& match result {
                    Ok(()) => old(self)@.refusal(*ctx, call) is None,
                    Err(e) => old(self)@.refusal(*ctx, call) == Some(e),
                }
            }),
    {
        if self.settings.admin.is_some() {
            return Err(InvoiceError::AlreadyInitialized);
        }
        if !ctx.has_auth(&admin) {
            return Err(InvoiceError::AuthInvalidAction);
        }
        self.settings.admin = Some(admin);
        self.settings.registry_contract = Some(registry_contract);
        self.settings.counter = Some(0);
        Ok(())
    }

    /// The settings as they stand.
    pub fn settings(&self) -> (settings: Settings)
        ensures
            settings == self@.settings,
    {
        self.settings
    }

    /// Overwrites the settings, as an operator with access to the storage can. This is none of the
    /// calls of `InvoiceCall`: it asks for nobody's consent, and the laws do not hold across it.
    pub fn write_settings(&mut self, settings: Settings)
        ensures
            final(self)@ == old(self)@.set(settings),
            final(self)@.settings == settings,
            final(self)@.invoices == old(self)@.invoices,
            final(self)@.events == old(self)@.events,
    {
        self.settings = settings;
    }

    /// Holds a call to the consent of the administrator.
    fn require_admin(&self, ctx: &Context) -> (result: Result<(), InvoiceError>)
        ensures
            match result {
                Ok(()) => self@.admin_refusal(*ctx) is None,
                Err(e) => self@.admin_refusal(*ctx) == Some(e),
            },
    {
        match self.settings.admin {
            Some(admin) => if ctx.has_auth(&admin) {
                Ok(())
            } else {
                Err(InvoiceError::AuthInvalidAction)
            },
            None => Err(InvoiceError::NotFound),
        }
    }

    /// Names the pool that may fund invoices. The announcement gives the pool before; the first
    /// time, the new one stands in for it.
    pub fn set_pool_contract(&mut self, ctx: &Context, pool: Address) -> (result: Result<
        (),
        InvoiceError,
    >)
        ensures
            ({
                let call = InvoiceCall::SetPoolContract { pool };
                &&& final(self)@ == old(self)@.after(*ctx, call)
                &&& match result {
                    Ok(()) => old(self)@.refusal(*ctx, call) is None,
                    Err(e) => old(self)@.refusal(*ctx, call) == Some(e),
                }
            }),
    {
        match self.require_admin(ctx) {
            Ok(()) => {},
            Err(e) => {
                return Err(e);
            },
        }
        let old_pool: Address = match self.settings.pool_contract {
            Some(old_pool) => old_pool,
            None => pool,
        };
        self.settings.pool_contract = Some(pool);
        self.events.push(Event::PoolContractUpdated { old_pool, new_pool: pool });
        Ok(())
    }

    /// Sets how long a listing stays open, in seconds.
    pub fn set_expiry_window(&mut self, ctx: &Context, window: u64) -> (result: Result<
        (),
        InvoiceError,
    >)
        ensures
            ({
                let call = InvoiceCall::SetExpiryWindow { window };
                &&& final(self)@ == old(self)@.after(*ctx, call)
                &&& match result {
                    Ok(()) => old(self)@.refusal(*ctx, call) is None,
                    Err(e) => old(self)@.refusal(*ctx, call) == Some(e),
                }
            }),
    {
        match self.require_admin(ctx) {
            Ok(()) => {},
            Err(e) => {
                return Err(e);
            },
        }
        self.settings.expiry_window = Some(window);
        self.events.push(Event::ExpiryWindowSet { window });
        Ok(())
    }

    /// How long a listing stays open, in seconds.
    pub fn get_expiry_window(&self) -> (window: u64)
        ensures
            window == self@.expiry_window(),
            self@.settings.expiry_window matches Some(set) ==> window == set,
            self@.settings.expiry_window is None ==> window == DEFAULT_EXPIRY_WINDOW,
    {
        match self.settings.expiry_window {
            Some(window) => window,
            None => DEFAULT_EXPIRY_WINDOW,
        }
    }

    /// Decides on a request to create an invoice; gives the salt of the invoice to be.
    fn decide(
        &self,
        ctx: &Context,
        terms: &Terms,
        issuer_verified: bool,
        buyer_verified: bool,
    ) -> (result: Result<u64, InvoiceError>)
        ensures
            ({
                let refusal = self@.create_refusal(*ctx, *terms, issuer_verified, buyer_verified);
                match result {
                    Ok(salt) => refusal is None && salt == self@.next_salt(),
                    Err(e) => refusal == Some(e),
                }
            }),
    {
        if !ctx.has_auth(&terms.issuer) {
            return Err(InvoiceError::AuthInvalidAction);
        }
        if self.settings.registry_contract.is_none() {
            return Err(InvoiceError::NotFound);
        }
        if !issuer_verified {
            return Err(InvoiceError::IssuerNotVerified);
        }
        if !buyer_verified {
            return Err(InvoiceError::BuyerNotVerified);
        }
        if terms.face_value == 0 {
            return Err(InvoiceError::InvalidFaceValue);
        }
        if terms.due_date <= ctx.now {
            return Err(InvoiceError::InvalidDueDate);
        }
        match self.settings.counter {
            Some(counter) => match counter.checked_add(1) {
                Some(salt) => Ok(salt),
                None => Err(InvoiceError::CounterOverflow),
            },
            None => Err(InvoiceError::NotFound),
        }
    }

    /// Stores a new invoice and announces it.
    fn enter(&mut self, id: InvoiceId, terms: &Terms, now: u64)
        ensures
            final(self)@ == (InvoiceState {
                settings: Settings { counter: Some(id.salt), ..old(self)@.settings },
                invoices: old(self)@.invoices.push(new_invoice(id, *terms, now)),
                events: old(self)@.events.push(
                    Event::InvoiceCreated {
                        id,
                        issuer: terms.issuer,
                        buyer: terms.buyer,
                        funding_asset: terms.funding_asset,
                        face_value: terms.face_value,
                    },
                ),
            }),
    {
        self.settings.counter = Some(id.salt);
        self.invoices.push(
            Invoice {
                id,
                issuer: terms.issuer,
                buyer: terms.buyer,
                face_value: terms.face_value,
                due_date: terms.due_date,
                funding_asset: terms.funding_asset,
                status: InvoiceStatus::Created,
                discount_bps: 0,
                funding_pool: None,
                funded_amount: 0,
                issuer_confirmed: false,
                buyer_confirmed: false,
                created_at: now,
                listed_at: 0,
                repaid_at: None,
            },
        );
        self.events.push(
            Event::InvoiceCreated {
                id,
                issuer: terms.issuer,
                buyer: terms.buyer,
                funding_asset: terms.funding_asset,
                face_value: terms.face_value,
            },
        );
    }

    /// Creates an invoice between two parties that the registry named at initialization verifies.
    /// A `registry` at any other address is not asked, and neither party passes for verified.
    pub fn create<R: IdentityRegistry>(
        &mut self,
        ctx: &Context,
        registry: &Deployed<R>,
        terms: Terms,
    ) -> (result: Result<InvoiceId, InvoiceError>)
        ensures
            ({
                let named = old(self)@.settings.registry_contract;
                let call = InvoiceCall::Create {
                    terms,
                    issuer_verified: registry.vouches(named, terms.issuer),
                    buyer_verified: registry.vouches(named, terms.buyer),
                    digest: old(self)@.next_digest(terms, ctx.now),
                };
                &&& final(self)@ == old(self)@.after(*ctx, call)
                &&& match result {
                    Ok(id) => old(self)@.refusal(*ctx, call) is None && id == id_of(
                        terms,
                        ctx.now,
                        old(self)@.next_salt(),
                    ),
                    Err(e) => old(self)@.refusal(*ctx, call) == Some(e),
                }
            }),
    {
        let named: Option<Address> = self.settings.registry_contract;
        let issuer_verified: bool = registry.vouch(named, &terms.issuer);
        let buyer_verified: bool = registry.vouch(named, &terms.buyer);
        match self.decide(ctx, &terms, issuer_verified, buyer_verified) {
            Ok(salt) => {
                let id = InvoiceId::derive(&terms, ctx.now, salt);
                self.enter(id, &terms, ctx.now);
                Ok(id)
            },
            Err(e) => Err(e),
        }
    }

    /// Creates an invoice whose identifier is made of a given digest. The caller has asked the
    /// registry named at initialization whether it verifies the two parties, and says what it
    /// answered.
    pub fn create_with_digest(
        &mut self,
        ctx: &Context,
        terms: Terms,
        issuer_verified: bool,
        buyer_verified: bool,
        digest: (u128, u128),
    ) -> (result: Result<InvoiceId, InvoiceError>)
        ensures
            ({
                let call = InvoiceCall::Create { terms, issuer_verified, buyer_verified, digest };
                &&& final(self)@ == old(self)@.after(*ctx, call)
                &&& match result {
                    Ok(id) => old(self)@.refusal(*ctx, call) is None && id == id_from_digest(
                        digest,
                        old(self)@.next_salt(),
                    ),
                    Err(e) => old(self)@.refusal(*ctx, call) == Some(e),
                }
            }),
    {
        match self.decide(ctx, &terms, issuer_verified, buyer_verified) {
            Ok(salt) => {
                let id = InvoiceId::from_digest(digest, salt);
                self.enter(id, &terms, ctx.now);
                Ok(id)
            },
            Err(e) => Err(e),
        }
    }

    /// Where the invoice under `id` is kept.
    fn find(&self, id: &InvoiceId) -> (at: Option<usize>)
        ensures
            match at {
                Some(i) => {
                    &&& self@.holds(*id)
                    &&& i < self.invoices.len()
                    &&& place(self@.invoices, *id) == Some(i as int)
                    &&& self@.invoice(*id) == self.invoices@[i as int]
                    &&& self@.invoice(*id).id == *id
                },
                None => !self@.holds(*id),
            },
    {
        proof {
            lemma_place(self@.invoices, *id);
        }
        let mut i: usize = 0;
        while i < self.invoices.len()
            invariant
                i <= self.invoices.len(),
                forall|j: int| 0 <= j < i ==> (#[trigger] self.invoices@[j]).id != *id,
            decreases self.invoices.len() - i,
        {
            if self.invoices[i].id == *id {
                proof {
                    lemma_place(self@.invoices, *id);
                }
                return Some(i);
            }
            i += 1;
        }
        None
    }

    /// Offers the invoice to the pool at a discount.
    pub fn list_for_financing(
        &mut self,
        ctx: &Context,
        id: &InvoiceId,
        discount_bps: u32,
    ) -> (result: Result<bool, InvoiceError>)
        ensures
            ({
                let call = InvoiceCall::ListForFinancing { id: *id, discount_bps };
                &&& final(self)@ == old(self)@.after(*ctx, call)
                &&& old(self)@.answers(*ctx, call, result)
            }),
    {
        let i: usize = match self.find(id) {
            Some(i) => i,
            None => {
                return Err(InvoiceError::NotFound);
            },
        };
        let mut invoice = self.invoices[i];
        if !ctx.has_auth(&invoice.issuer) {
            return Err(InvoiceError::AuthInvalidAction);
        }
        if invoice.status != InvoiceStatus::Created {
            return Err(InvoiceError::InvalidStatusTransition);
        }
        if discount_bps > MAX_DISCOUNT_BPS {
            return Err(InvoiceError::DiscountTooHigh);
        }
        invoice.status = InvoiceStatus::Listed;
        invoice.discount_bps = discount_bps;
        invoice.listed_at = ctx.now;
        self.invoices.set(i, invoice);
        self.events.push(Event::InvoiceListed { id: *id, discount_bps });
        Ok(true)
    }

    /// Records that the pool has paid `amount` of `asset` for the invoice.
    pub fn mark_funded(
        &mut self,
        ctx: &Context,
        id: &InvoiceId,
        pool: Address,
        asset: Address,
        amount: u128,
    ) -> (result: Result<bool, InvoiceError>)
        ensures
            ({
                let call = InvoiceCall::MarkFunded { id: *id, pool, asset, amount };
                &&& final(self)@ == old(self)@.after(*ctx, call)
                &&& old(self)@.answers(*ctx, call, result)
            }),
    {
        let i: usize = match self.find(id) {
            Some(i) => i,
            None => {
                return Err(InvoiceError::NotFound);
            },
        };
        let mut invoice = self.invoices[i];
        let pool_contract: Address = match self.settings.pool_contract {
            Some(pool_contract) => pool_contract,
            None => {
                return Err(InvoiceError::NotFound);
            },
        };
        if !ctx.has_auth(&pool) {
            return Err(InvoiceError::AuthInvalidAction);
        }
        if pool_contract != pool {
            return Err(InvoiceError::NotAuthorized);
        }
        if invoice.status != InvoiceStatus::Listed {
            return Err(InvoiceError::InvalidStatusTransition);
        }
        if invoice.funding_asset != asset {
            return Err(InvoiceError::AssetMismatch);
        }
        invoice.status = InvoiceStatus::Funded;
        invoice.funding_pool = Some(pool);
        invoice.funded_amount = amount;
        self.invoices.set(i, invoice);
        Ok(true)
    }

    /// Records that the issuer has shipped the goods.
    pub fn mark_shipped(&mut self, ctx: &Context, id: &InvoiceId) -> (result: Result<
        bool,
        InvoiceError,
    >)
        ensures
            ({
                let call = InvoiceCall::MarkShipped { id: *id };
                &&& final(self)@ == old(self)@.after(*ctx, call)
                &&& old(self)@.answers(*ctx, call, result)
            }),
    {
        let i: usize = match self.find(id) {
            Some(i) => i,
            None => {
                return Err(InvoiceError::NotFound);
            },
        };
        let mut invoice = self.invoices[i];
        if !ctx.has_auth(&invoice.issuer) {
            return Err(InvoiceError::AuthInvalidAction);
        }
        if invoice.status != InvoiceStatus::Funded {
            return Err(InvoiceError::InvalidStatusTransition);
        }
        invoice.status = InvoiceStatus::Active;
        self.invoices.set(i, invoice);
        Ok(true)
    }

    /// Records that `party`, the issuer or the buyer, confirms the delivery. The invoice is
    /// confirmed when both have.
    pub fn confirm_delivery(&mut self, ctx: &Context, id: &InvoiceId, party: Address) -> (result:
        Result<bool, InvoiceError>)
        ensures
            ({
                let call = InvoiceCall::ConfirmDelivery { id: *id, party };
                &&& final(self)@ == old(self)@.after(*ctx, call)
                &&& old(self)@.answers(*ctx, call, result)
            }),
    {
        let i: usize = match self.find(id) {
            Some(i) => i,
            None => {
                return Err(InvoiceError::NotFound);
            },
        };
        let mut invoice = self.invoices[i];
        if !ctx.has_auth(&party) {
            return Err(InvoiceError::AuthInvalidAction);
        }
        if invoice.status != InvoiceStatus::Active {
            return Err(InvoiceError::InvalidStatusTransition);
        }
        if party == invoice.issuer {
            if invoice.issuer_confirmed {
                return Err(InvoiceError::AlreadyConfirmed);
            }
            invoice.issuer_confirmed = true;
        } else if party == invoice.buyer {
            if invoice.buyer_confirmed {
                return Err(InvoiceError::AlreadyConfirmed);
            }
            invoice.buyer_confirmed = true;
        } else {
            return Err(InvoiceError::NotAuthorized);
        }
        if invoice.issuer_confirmed && invoice.buyer_confirmed {
            invoice.status = InvoiceStatus::Confirmed;
        }
        self.invoices.set(i, invoice);
        Ok(true)
    }

    /// Records that the buyer has paid the invoice back.
    pub fn repay(&mut self, ctx: &Context, id: &InvoiceId) -> (result: Result<bool, InvoiceError>)
        ensures
            ({
                let call = InvoiceCall::Repay { id: *id };
                &&& final(self)@ == old(self)@.after(*ctx, call)
                &&& old(self)@.answers(*ctx, call, result)
            }),
    {
        let i: usize = match self.find(id) {
            Some(i) => i,
            None => {
                return Err(InvoiceError::NotFound);
            },
        };
        let mut invoice = self.invoices[i];
        if !ctx.has_auth(&invoice.buyer) {
            return Err(InvoiceError::AuthInvalidAction);
        }
        if !invoice.outstanding() {
            return Err(InvoiceError::InvalidStatusTransition);
        }
        invoice.status = InvoiceStatus::Repaid;
        invoice.repaid_at = Some(ctx.now);
        self.invoices.set(i, invoice);
        self.events.push(Event::InvoiceRepaid { id: *id });
        Ok(true)
    }

    /// Records that the invoice has not been paid back by its due date.
    pub fn trigger_default(&mut self, ctx: &Context, id: &InvoiceId) -> (result: Result<
        bool,
        InvoiceError,
    >)
        ensures
            ({
                let call = InvoiceCall::TriggerDefault { id: *id };
                &&& final(self)@ == old(self)@.after(*ctx, call)
                &&& old(self)@.answers(*ctx, call, result)
            }),
    {
        match self.require_admin(ctx) {
            Ok(()) => {},
            Err(e) => {
                return Err(e);
            },
        }
        let i: usize = match self.find(id) {
            Some(i) => i,
            None => {
                return Err(InvoiceError::NotFound);
            },
        };
        let mut invoice = self.invoices[i];
        if !invoice.outstanding() {
            return Err(InvoiceError::InvalidStatusTransition);
        }
        if ctx.now < invoice.due_date {
            return Err(InvoiceError::NotYetDue);
        }
        invoice.status = InvoiceStatus::Defaulted;
        self.invoices.set(i, invoice);
        Ok(true)
    }

    /// Takes a listing back that has been open for the whole expiry window. The issuer or the
    /// administrator may ask for it.
    pub fn expire_listing(&mut self, ctx: &Context, id: &InvoiceId) -> (result: Result<
        bool,
        InvoiceError,
    >)
        ensures
            ({
                let call = InvoiceCall::ExpireListing { id: *id };
                &&& final(self)@ == old(self)@.after(*ctx, call)
                &&& old(self)@.answers(*ctx, call, result)
            }),
    {
        let i: usize = match self.find(id) {
            Some(i) => i,
            None => {
                return Err(InvoiceError::NotFound);
            },
        };
        let mut invoice = self.invoices[i];
        let admin_consents: bool = match self.settings.admin {
            Some(admin) => ctx.has_auth(&admin),
            None => false,
        };
        if !ctx.has_auth(&invoice.issuer) && !admin_consents {
            return Err(InvoiceError::AuthInvalidAction);
        }
        if invoice.status != InvoiceStatus::Listed {
            return Err(InvoiceError::InvalidStatusTransition);
        }
        let expires_at: u64 = match invoice.listed_at.checked_add(self.get_expiry_window()) {
            Some(expires_at) => expires_at,
            None => {
                return Err(InvoiceError::ExpiryOverflow);
            },
        };
        if ctx.now < expires_at {
            return Err(InvoiceError::ListingNotExpired);
        }
        invoice.status = InvoiceStatus::Expired;
        self.invoices.set(i, invoice);
        Ok(true)
    }

    /// The invoice under `id`.
    pub fn get(&self, id: &InvoiceId) -> (result: Result<Invoice, InvoiceError>)
        ensures
            match result {
                Ok(invoice) => self@.holds(*id) && invoice == self@.invoice(*id),
                Err(e) => !self@.holds(*id) && e == InvoiceError::NotFound,
            },
    {
        match self.find(id) {
            Some(i) => Ok(self.invoices[i]),
            None => Err(InvoiceError::NotFound),
        }
    }

    /// The asset that the invoice under `id` is to be funded in.
    pub fn get_funding_asset(&self, id: &InvoiceId) -> (result: Result<Address, InvoiceError>)
        ensures
            match result {
                Ok(asset) => self@.holds(*id) && asset == self@.invoice(*id).funding_asset,
                Err(e) => !self@.holds(*id) && e == InvoiceError::NotFound,
            },
    {
        match self.find(id) {
            Some(i) => Ok(self.invoices[i].funding_asset),
            None => Err(InvoiceError::NotFound),
        }
    }

    fn select(&self, selector: &Selector) -> (selected: Vec<Invoice>)
        ensures
            selected@ == self@.invoices.filter(|invoice: Invoice| selector.selects(invoice)),
    {
        let ghost wanted = |invoice: Invoice| selector.selects(invoice);
        let mut selected: Vec<Invoice> = Vec::new();
        let mut i: usize = 0;
        assert(self.invoices@.take(0).filter(wanted) =~= Seq::<Invoice>::empty()) by {
            reveal(Seq::filter);
        }
        while i < self.invoices.len()
            invariant
                i <= self.invoices.len(),
                wanted == (|invoice: Invoice| selector.selects(invoice)),
                selected@ == self.invoices@.take(i as int).filter(wanted),
            decreases self.invoices.len() - i,
        {
            let invoice = self.invoices[i];
            proof {
                reveal(Seq::filter);
                assert(self.invoices@.take(i + 1).drop_last() =~= self.invoices@.take(i as int));
                assert(self.invoices@.take(i + 1).last() == invoice);
            }
            if selector.test(&invoice) {
                selected.push(invoice);
            }
            i += 1;
        }
        assert(self.invoices@.take(i as int) =~= self.invoices@);
        selected
    }

    /// The invoices that `issuer` issued, in the order of their creation.
    pub fn get_by_issuer(&self, issuer: &Address) -> (invoices: Vec<Invoice>)
        ensures
            invoices@ == issued_by(self@.invoices, *issuer),
    {
        let selector = Selector::Issuer(*issuer);
        assert((|invoice: Invoice| selector.selects(invoice)) =~= (|invoice: Invoice|
            invoice.issuer == *issuer));
        self.select(&selector)
    }

    /// The invoices that `buyer` owes, in the order of their creation.
    pub fn get_by_buyer(&self, buyer: &Address) -> (invoices: Vec<Invoice>)
        ensures
            invoices@ == owed_by(self@.invoices, *buyer),
    {
        let selector = Selector::Buyer(*buyer);
        assert((|invoice: Invoice| selector.selects(invoice)) =~= (|invoice: Invoice|
            invoice.buyer == *buyer));
        self.select(&selector)
    }

    /// The invoices at `status`, in the order of their creation.
    pub fn get_by_status(&self, status: &InvoiceStatus) -> (invoices: Vec<Invoice>)
        ensures
            invoices@ == at_status(self@.invoices, *status),
    {
        let selector = Selector::Status(*status);
        assert((|invoice: Invoice| selector.selects(invoice)) =~= (|invoice: Invoice|
            invoice.status == *status));
        self.select(&selector)
    }

    /// What the contract has announced so far.
    pub fn events(&self) -> (events: &Vec<Event>)
        ensures
            events@ == self@.events,
    {
        &self.events
    }
}

} // verus!
