//! What holds of the invoice contract as a whole, whichever of the calls of `InvoiceCall` are made.
//!
//! Nothing here speaks of `InvoiceContract::write_settings`, which is no such call: settings that
//! are overwritten, the counter among them, can undo what is proved here.
use vstd::prelude::*;

use crate::address::Address;
use crate::invoice::{
    new_invoice, Context, Event, Invoice, InvoiceError, InvoiceStatus, MAX_DISCOUNT_BPS,
};
use crate::invoice_id::{id_from_digest, InvoiceId, Terms};
use crate::model::{at_status, lemma_place, place, InvoiceCall, InvoiceState};
use crate::registry::{Deployed, IdentityRegistry};

verus! {

/// An invoice before the pool has paid for it, or one that the pool never paid for.
pub open spec fn unfunded(status: InvoiceStatus) -> bool {
    status == InvoiceStatus::Created || status == InvoiceStatus::Listed || status
        == InvoiceStatus::Expired
}

/// An invoice that has come to its end.
pub open spec fn ended(status: InvoiceStatus) -> bool {
    status == InvoiceStatus::Repaid || status == InvoiceStatus::Defaulted || status
        == InvoiceStatus::Expired
}

/// The steps that an invoice can take.
pub open spec fn may_become(before: InvoiceStatus, after: InvoiceStatus) -> bool {
    match before {
        InvoiceStatus::Created => after == InvoiceStatus::Listed,
        InvoiceStatus::Listed => after == InvoiceStatus::Funded || after == InvoiceStatus::Expired,
        InvoiceStatus::Funded => after == InvoiceStatus::Active || after == InvoiceStatus::Repaid
            || after == InvoiceStatus::Defaulted,
        InvoiceStatus::Active => after == InvoiceStatus::Confirmed || after == InvoiceStatus::Repaid
            || after == InvoiceStatus::Defaulted,
        InvoiceStatus::Confirmed => after == InvoiceStatus::Repaid || after
            == InvoiceStatus::Defaulted,
        _ => false,
    }
}

/// An invoice whose fields agree with its status.
pub open spec fn valid_invoice(invoice: Invoice) -> bool {
    &&& invoice.face_value > 0
    &&& invoice.created_at < invoice.due_date
    &&& invoice.discount_bps <= MAX_DISCOUNT_BPS
    &&& invoice.status == InvoiceStatus::Created ==> invoice.discount_bps == 0 && invoice.listed_at
        == 0
    &&& invoice.funding_pool is None <==> unfunded(invoice.status)
    &&& unfunded(invoice.status) ==> invoice.funded_amount == 0
    &&& unfunded(invoice.status) || invoice.status == InvoiceStatus::Funded
        ==> !invoice.issuer_confirmed && !invoice.buyer_confirmed
    &&& invoice.status == InvoiceStatus::Active ==> !(invoice.issuer_confirmed
        && invoice.buyer_confirmed)
    &&& invoice.status == InvoiceStatus::Confirmed ==> invoice.issuer_confirmed
        && invoice.buyer_confirmed
    &&& invoice.repaid_at is Some <==> invoice.status == InvoiceStatus::Repaid
}

/// A contract whose invoices are valid and were numbered one after the other.
pub open spec fn valid(state: InvoiceState) -> bool {
    &&& state.settings.registry_contract is Some <==> state.settings.admin is Some
    &&& state.settings.admin is None ==> state.settings.counter is None && state.invoices.len() == 0
    &&& forall|i: int| 0 <= i < state.invoices.len() ==> valid_invoice(#[trigger] state.invoices[i])
    &&& forall|i: int, j: int|
        0 <= i < j < state.invoices.len() ==> (#[trigger] state.invoices[i]).id.salt < (
        #[trigger] state.invoices[j]).id.salt
    &&& state.settings.counter is Some ==> forall|i: int|
        0 <= i < state.invoices.len() ==> (#[trigger] state.invoices[i]).id.salt
            <= state.settings.counter->0
}

/// The state after a number of calls, one after the other.
pub open spec fn run(state: InvoiceState, calls: Seq<(Context, InvoiceCall)>) -> InvoiceState
    decreases calls.len(),
{
    if calls.len() == 0 {
        state
    } else {
        run(state, calls.drop_last()).after(calls.last().0, calls.last().1)
    }
}

/// Replacing an invoice keeps every identifier in its place.
proof fn lemma_put(state: InvoiceState, invoice: Invoice, id: InvoiceId)
    requires
        state.holds(invoice.id),
    ensures
        state.put(invoice).invoices.len() == state.invoices.len(),
        place(state.put(invoice).invoices, id) == place(state.invoices, id),
        state.holds(id) ==> state.put(invoice).invoice(id) == if id == invoice.id {
            invoice
        } else {
            state.invoice(id)
        },
{
    let after = state.put(invoice).invoices;
    lemma_place(state.invoices, id);
    lemma_place(after, id);
    lemma_place(state.invoices, invoice.id);
    assert forall|i: int| 0 <= i < after.len() implies (#[trigger] after[i]).id
        == state.invoices[i].id by {}
    match (place(state.invoices, id), place(after, id)) {
        (Some(i), Some(j)) => {
            assert(after[i].id == id);
            assert(state.invoices[j].id == id);
        },
        (Some(i), None) => {
            assert(after[i].id == id);
        },
        (None, Some(j)) => {
            assert(state.invoices[j].id == id);
        },
        (None, None) => {},
    }
}

/// Adding an invoice keeps every identifier that was there in its place.
proof fn lemma_push(state: InvoiceState, invoice: Invoice, id: InvoiceId)
    ensures
        place(state.invoices.push(invoice), id) == match place(state.invoices, id) {
            Some(i) => Some(i),
            None => if invoice.id == id {
                Some(state.invoices.len() as int)
            } else {
                None
            },
        },
{
    assert(state.invoices.push(invoice).drop_last() =~= state.invoices);
}

/// What any call makes of an invoice that is there.
proof fn lemma_step(state: InvoiceState, ctx: Context, call: InvoiceCall, id: InvoiceId)
    requires
        state.holds(id),
    ensures
        state.invoice(id).id == id,
        place(state.after(ctx, call).invoices, id) == place(state.invoices, id),
        state.after(ctx, call).invoice(id) == if state.refusal(ctx, call) is None
            && call.has_subject() && call.subject() == id {
            state.changed(ctx, call)
        } else {
            state.invoice(id)
        },
{
    lemma_place(state.invoices, id);
    if state.refusal(ctx, call) is None {
        if call.has_subject() {
            lemma_place(state.invoices, call.subject());
            lemma_put(state, state.changed(ctx, call), id);
        } else if call is Create {
            let salt = state.next_salt();
            lemma_push(
                state,
                new_invoice(id_from_digest(call->digest, salt), call->terms, ctx.now),
                id,
            );
        }
    }
}

/// Every call keeps a valid contract valid.
pub proof fn lemma_call_keeps_validity(state: InvoiceState, ctx: Context, call: InvoiceCall)
    requires
        valid(state),
    ensures
        valid(state.after(ctx, call)),
{
    if state.refusal(ctx, call) is None {
        let after = state.after(ctx, call);
        if call.has_subject() {
            let at = place(state.invoices, call.subject())->0;
            lemma_place(state.invoices, call.subject());
            assert(valid_invoice(state.invoices[at]));
            assert(valid_invoice(state.changed(ctx, call)));
            assert(after.invoices =~= state.invoices.update(at, state.changed(ctx, call)));
        }
    }
}

/// However a contract has been used, it is valid, and its counter gives the number of its
/// invoices.
pub proof fn lemma_history_is_valid(calls: Seq<(Context, InvoiceCall)>)
    ensures
        ({
            let state = run(InvoiceState::initial(), calls);
            &&& valid(state)
            &&& state.settings.admin is Some ==> state.settings.counter is Some
                && state.settings.counter->0 == state.invoices.len()
        }),
    decreases calls.len(),
{
    assert(valid(InvoiceState::initial()));
    if calls.len() > 0 {
        let before = run(InvoiceState::initial(), calls.drop_last());
        let (ctx, call) = calls.last();
        lemma_history_is_valid(calls.drop_last());
        lemma_call_keeps_validity(before, ctx, call);
        if before.refusal(ctx, call) is None && call.has_subject() {
            lemma_place(before.invoices, call.subject());
        }
    }
}

/// A call that is refused changes nothing and announces nothing.
pub proof fn lemma_refused_call_changes_nothing(
    state: InvoiceState,
    ctx: Context,
    call: InvoiceCall,
)
    requires
        state.refusal(ctx, call) is Some,
    ensures
        state.after(ctx, call) == state,
{
}

/// No two invoices share an identifier.
pub proof fn lemma_ids_are_unique(state: InvoiceState, i: int, j: int)
    requires
        valid(state),
        0 <= i < state.invoices.len(),
        0 <= j < state.invoices.len(),
        i != j,
    ensures
        state.invoices[i].id != state.invoices[j].id,
{
    if i < j {
        assert(state.invoices[i].id.salt < state.invoices[j].id.salt);
    } else {
        assert(state.invoices[j].id.salt < state.invoices[i].id.salt);
    }
}

/// A new invoice has an identifier that no invoice had before, whatever its terms and its digest,
/// and it can be read back under it: at its creation it carries its terms, nobody has confirmed
/// it and nothing has been paid for it.
pub proof fn lemma_created_invoice_reads_back(
    state: InvoiceState,
    ctx: Context,
    terms: Terms,
    issuer_verified: bool,
    buyer_verified: bool,
    digest: (u128, u128),
)
    requires
        valid(state),
        state.refusal(
            ctx,
            InvoiceCall::Create { terms, issuer_verified, buyer_verified, digest },
        ) is None,
    ensures
        ({
            let after = state.after(
                ctx,
                InvoiceCall::Create { terms, issuer_verified, buyer_verified, digest },
            );
            let id = id_from_digest(digest, state.next_salt());
            &&& !state.holds(id)
            &&& after.holds(id)
            &&& after.invoice(id) == new_invoice(id, terms, ctx.now)
            &&& after.invoice(id).terms() == terms
        }),
{
    let id = id_from_digest(digest, state.next_salt());
    lemma_place(state.invoices, id);
    lemma_push(state, new_invoice(id, terms, ctx.now), id);
}

/// Two invoices created one after the other, however alike and whatever happens in between, have
/// different identifiers.
pub proof fn lemma_two_creations_differ(
    state: InvoiceState,
    ctx1: Context,
    call1: InvoiceCall,
    between: Seq<(Context, InvoiceCall)>,
    ctx2: Context,
    call2: InvoiceCall,
)
    requires
        valid(state),
        call1 is Create,
        call2 is Create,
        state.refusal(ctx1, call1) is None,
        run(state.after(ctx1, call1), between).refusal(ctx2, call2) is None,
    ensures
        id_from_digest(call1->digest, state.next_salt()) != id_from_digest(
            call2->digest,
            run(state.after(ctx1, call1), between).next_salt(),
        ),
{
    let first = state.after(ctx1, call1);
    let id = id_from_digest(call1->digest, state.next_salt());
    lemma_call_keeps_validity(state, ctx1, call1);
    lemma_created_invoice_reads_back(
        state,
        ctx1,
        call1->terms,
        call1->issuer_verified,
        call1->buyer_verified,
        call1->digest,
    );
    lemma_invoice_is_kept(first, between, id);
    lemma_run_keeps_validity(first, between);
    let second = run(first, between);
    lemma_created_invoice_reads_back(
        second,
        ctx2,
        call2->terms,
        call2->issuer_verified,
        call2->buyer_verified,
        call2->digest,
    );
}

/// Every number of calls keeps a valid contract valid.
pub proof fn lemma_run_keeps_validity(state: InvoiceState, calls: Seq<(Context, InvoiceCall)>)
    requires
        valid(state),
    ensures
        valid(run(state, calls)),
    decreases calls.len(),
{
    if calls.len() > 0 {
        lemma_run_keeps_validity(state, calls.drop_last());
        lemma_call_keeps_validity(
            run(state, calls.drop_last()),
            calls.last().0,
            calls.last().1,
        );
    }
}

/// An invoice never disappears, and its identifier, its terms and the time of its creation never
/// change.
pub proof fn lemma_invoice_is_kept(
    state: InvoiceState,
    calls: Seq<(Context, InvoiceCall)>,
    id: InvoiceId,
)
    requires
        state.holds(id),
    ensures
        run(state, calls).holds(id),
        run(state, calls).invoice(id).id == id,
        run(state, calls).invoice(id).terms() == state.invoice(id).terms(),
        run(state, calls).invoice(id).created_at == state.invoice(id).created_at,
    decreases calls.len(),
{
    lemma_place(state.invoices, id);
    if calls.len() > 0 {
        lemma_invoice_is_kept(state, calls.drop_last(), id);
        lemma_step(run(state, calls.drop_last()), calls.last().0, calls.last().1, id);
    }
}

/// A call changes an invoice's status only by one of the steps that the life of an invoice allows.
pub proof fn lemma_status_follows_lifecycle(
    state: InvoiceState,
    ctx: Context,
    call: InvoiceCall,
    id: InvoiceId,
)
    requires
        state.holds(id),
    ensures
        state.after(ctx, call).holds(id),
        state.after(ctx, call).invoice(id).status == state.invoice(id).status || may_become(
            state.invoice(id).status,
            state.after(ctx, call).invoice(id).status,
        ),
{
    lemma_step(state, ctx, call, id);
}

/// An invoice that is repaid, defaulted or expired stays exactly as it is.
pub proof fn lemma_end_is_final(
    state: InvoiceState,
    calls: Seq<(Context, InvoiceCall)>,
    id: InvoiceId,
)
    requires
        state.holds(id),
        ended(state.invoice(id).status),
    ensures
        run(state, calls).holds(id),
        run(state, calls).invoice(id) == state.invoice(id),
    decreases calls.len(),
{
    if calls.len() > 0 {
        lemma_end_is_final(state, calls.drop_last(), id);
        lemma_step(run(state, calls.drop_last()), calls.last().0, calls.last().1, id);
    }
}

/// A call leaves every invoice alone that it is not about.
pub proof fn lemma_other_invoices_are_untouched(
    state: InvoiceState,
    ctx: Context,
    call: InvoiceCall,
    id: InvoiceId,
)
    requires
        state.holds(id),
        call.has_subject() ==> call.subject() != id,
    ensures
        state.after(ctx, call).holds(id),
        state.after(ctx, call).invoice(id) == state.invoice(id),
{
    lemma_step(state, ctx, call, id);
}

/// Those whose consent a call needs have given it.
pub open spec fn consented(state: InvoiceState, ctx: Context, call: InvoiceCall) -> bool {
    let admin_consents = state.settings.admin is Some && ctx.authorizes(state.settings.admin->0);
    match call {
        InvoiceCall::Initialize { admin, .. } => ctx.authorizes(admin),
        InvoiceCall::SetPoolContract { .. } => admin_consents,
        InvoiceCall::SetExpiryWindow { .. } => admin_consents,
        InvoiceCall::Create { terms, .. } => ctx.authorizes(terms.issuer),
        InvoiceCall::ListForFinancing { id, .. } => ctx.authorizes(state.invoice(id).issuer),
        InvoiceCall::MarkFunded { pool, .. } => ctx.authorizes(pool) && state.settings.pool_contract
            == Some(pool),
        InvoiceCall::MarkShipped { id } => ctx.authorizes(state.invoice(id).issuer),
        InvoiceCall::ConfirmDelivery { id, party } => ctx.authorizes(party) && (party
            == state.invoice(id).issuer || party == state.invoice(id).buyer),
        InvoiceCall::Repay { id } => ctx.authorizes(state.invoice(id).buyer),
        InvoiceCall::TriggerDefault { .. } => admin_consents,
        InvoiceCall::ExpireListing { id } => ctx.authorizes(state.invoice(id).issuer)
            || admin_consents,
    }
}

/// Nothing is done without the consent of those concerned: of the administrator for the settings
/// and for a default, of the issuer for creating, listing and shipping, of the pool for funding, of
/// the confirming party for a confirmation, of the buyer for a repayment, and of the issuer or the
/// administrator for taking a listing back.
pub proof fn lemma_no_change_without_consent(state: InvoiceState, ctx: Context, call: InvoiceCall)
    requires
        !consented(state, ctx, call),
    ensures
        state.refusal(ctx, call) is Some,
        state.after(ctx, call) == state,
{
}

/// The administrator and the registry are named once and stay: every further attempt is answered
/// that the contract is already initialized.
pub proof fn lemma_initialized_once(
    state: InvoiceState,
    calls: Seq<(Context, InvoiceCall)>,
    ctx: Context,
    admin: Address,
    registry_contract: Address,
)
    requires
        state.settings.admin is Some,
    ensures
        run(state, calls).settings.admin == state.settings.admin,
        run(state, calls).settings.registry_contract == state.settings.registry_contract,
        run(state, calls).refusal(ctx, InvoiceCall::Initialize { admin, registry_contract })
            == Some(InvoiceError::AlreadyInitialized),
    decreases calls.len(),
{
    if calls.len() > 0 {
        lemma_initialized_once(state, calls.drop_last(), ctx, admin, registry_contract);
    }
}

/// Whatever calls have been made since the contract was initialized, a request to create an invoice
/// is accepted only on the word of the registry that was named then: that registry is the one that
/// was asked, and it stands behind both parties.
pub proof fn lemma_created_on_the_word_of_the_registry<R: IdentityRegistry>(
    state: InvoiceState,
    calls: Seq<(Context, InvoiceCall)>,
    ctx: Context,
    registry: Deployed<R>,
    terms: Terms,
    digest: (u128, u128),
)
    requires
        state.settings.admin is Some,
        ({
            let now = run(state, calls);
            let named = now.settings.registry_contract;
            let call = InvoiceCall::Create {
                terms,
                issuer_verified: registry.vouches(named, terms.issuer),
                buyer_verified: registry.vouches(named, terms.buyer),
                digest,
            };
            now.refusal(ctx, call) is None
        }),
    ensures
        state.settings.registry_contract == Some(registry.address),
        registry.contract.verifies(terms.issuer),
        registry.contract.verifies(terms.buyer),
{
    lemma_initialized_once(state, calls, ctx, terms.issuer, registry.address);
}

/// Any positive face value and any due date in the future make an invoice, once the contract is
/// initialized, the issuer consents and both parties are verified; only the counter can run out.
pub proof fn lemma_sound_terms_are_accepted(
    state: InvoiceState,
    ctx: Context,
    terms: Terms,
    digest: (u128, u128),
)
    requires
        state.settings.registry_contract is Some,
        state.settings.counter is Some,
        state.settings.counter->0 < u64::MAX,
        ctx.authorizes(terms.issuer),
    ensures
        state.refusal(
            ctx,
            InvoiceCall::Create { terms, issuer_verified: true, buyer_verified: true, digest },
        ) is None <==> terms.face_value > 0 && terms.due_date > ctx.now,
{
}

/// A created invoice can be listed at every discount up to the highest, and at no other.
pub proof fn lemma_discount_up_to_limit_lists(
    state: InvoiceState,
    ctx: Context,
    id: InvoiceId,
    discount_bps: u32,
)
    requires
        state.holds(id),
        state.invoice(id).status == InvoiceStatus::Created,
        ctx.authorizes(state.invoice(id).issuer),
    ensures
        ({
            let call = InvoiceCall::ListForFinancing { id, discount_bps };
            &&& state.refusal(ctx, call) is None <==> discount_bps <= MAX_DISCOUNT_BPS
            &&& discount_bps <= MAX_DISCOUNT_BPS ==> {
                &&& state.after(ctx, call).invoice(id).status == InvoiceStatus::Listed
                &&& state.after(ctx, call).invoice(id).discount_bps == discount_bps
                &&& state.after(ctx, call).invoice(id).listed_at == ctx.now
            }
        }),
{
    lemma_step(state, ctx, InvoiceCall::ListForFinancing { id, discount_bps }, id);
}

/// A listing can be taken back from the moment on at which its window has passed, and not a second
/// earlier. A window that would end beyond the end of time never passes.
pub proof fn lemma_listing_expires_with_its_window(state: InvoiceState, ctx: Context, id: InvoiceId)
    requires
        state.holds(id),
        state.invoice(id).status == InvoiceStatus::Listed,
        consented(state, ctx, InvoiceCall::ExpireListing { id }),
    ensures
        ({
            let call = InvoiceCall::ExpireListing { id };
            let passed = ctx.now >= state.invoice(id).listed_at + state.expiry_window();
            &&& state.refusal(ctx, call) is None <==> passed
            &&& passed ==> state.after(ctx, call).invoice(id) == (Invoice {
                status: InvoiceStatus::Expired,
                ..state.invoice(id)
            })
        }),
{
    lemma_step(state, ctx, InvoiceCall::ExpireListing { id }, id);
}

/// An outstanding invoice can be defaulted from its due date on, and not before; an invoice that is
/// not outstanding cannot be defaulted at all.
pub proof fn lemma_default_from_the_due_date_on(state: InvoiceState, ctx: Context, id: InvoiceId)
    requires
        state.holds(id),
        consented(state, ctx, InvoiceCall::TriggerDefault { id }),
    ensures
        ({
            let call = InvoiceCall::TriggerDefault { id };
            let due = ctx.now >= state.invoice(id).due_date;
            &&& state.refusal(ctx, call) is None <==> state.invoice(id).is_outstanding() && due
            &&& state.refusal(ctx, call) is None ==> state.after(ctx, call).invoice(id) == (
            Invoice { status: InvoiceStatus::Defaulted, ..state.invoice(id) })
        }),
{
    lemma_step(state, ctx, InvoiceCall::TriggerDefault { id }, id);
}

/// The buyer can repay an invoice as long as it is outstanding: once funded, shipped or confirmed,
/// and neither before nor after.
pub proof fn lemma_repay_while_outstanding(state: InvoiceState, ctx: Context, id: InvoiceId)
    requires
        state.holds(id),
        ctx.authorizes(state.invoice(id).buyer),
    ensures
        ({
            let call = InvoiceCall::Repay { id };
            let after = state.after(ctx, call);
            &&& state.refusal(ctx, call) is None <==> state.invoice(id).is_outstanding()
            &&& state.refusal(ctx, call) is None ==> {
                &&& after.invoice(id) == (Invoice {
                    status: InvoiceStatus::Repaid,
                    repaid_at: Some(ctx.now),
                    ..state.invoice(id)
                })
                &&& after.events == state.events.push(Event::InvoiceRepaid { id })
            }
        }),
{
    lemma_step(state, ctx, InvoiceCall::Repay { id }, id);
}

/// It takes both parties to confirm a delivery, in either order: after one of them the invoice is
/// still active, after both it is confirmed, and the order leaves no trace.
pub proof fn lemma_both_parties_confirm(
    state: InvoiceState,
    ctx: Context,
    id: InvoiceId,
)
    requires
        state.holds(id),
        state.invoice(id).status == InvoiceStatus::Active,
        !state.invoice(id).issuer_confirmed,
        !state.invoice(id).buyer_confirmed,
        state.invoice(id).issuer != state.invoice(id).buyer,
        ctx.authorizes(state.invoice(id).issuer),
        ctx.authorizes(state.invoice(id).buyer),
    ensures
        ({
            let by_issuer = InvoiceCall::ConfirmDelivery { id, party: state.invoice(id).issuer };
            let by_buyer = InvoiceCall::ConfirmDelivery { id, party: state.invoice(id).buyer };
            let one = state.after(ctx, by_issuer);
            let other = state.after(ctx, by_buyer);
            &&& one.invoice(id) == (Invoice { issuer_confirmed: true, ..state.invoice(id) })
            &&& other.invoice(id) == (Invoice { buyer_confirmed: true, ..state.invoice(id) })
            &&& one.refusal(ctx, by_issuer) == Some(InvoiceError::AlreadyConfirmed)
            &&& other.refusal(ctx, by_buyer) == Some(InvoiceError::AlreadyConfirmed)
            &&& one.after(ctx, by_buyer).invoice(id) == (Invoice {
                status: InvoiceStatus::Confirmed,
                issuer_confirmed: true,
                buyer_confirmed: true,
                ..state.invoice(id)
            })
            &&& one.after(ctx, by_buyer) == other.after(ctx, by_issuer)
        }),
{
    let by_issuer = InvoiceCall::ConfirmDelivery { id, party: state.invoice(id).issuer };
    let by_buyer = InvoiceCall::ConfirmDelivery { id, party: state.invoice(id).buyer };
    let one = state.after(ctx, by_issuer);
    let other = state.after(ctx, by_buyer);
    lemma_step(state, ctx, by_issuer, id);
    lemma_step(state, ctx, by_buyer, id);
    lemma_step(one, ctx, by_buyer, id);
    lemma_step(other, ctx, by_issuer, id);
    lemma_place(state.invoices, id);
    assert(one.after(ctx, by_buyer).invoices =~= other.after(ctx, by_issuer).invoices);
}

/// In a valid contract an invoice is confirmed only if issuer and buyer both confirmed, and an
/// active one still lacks a confirmation.
pub proof fn lemma_confirmed_means_both(state: InvoiceState, id: InvoiceId)
    requires
        valid(state),
        state.holds(id),
    ensures
        state.invoice(id).status == InvoiceStatus::Confirmed ==> state.invoice(id).issuer_confirmed
            && state.invoice(id).buyer_confirmed,
        state.invoice(id).status == InvoiceStatus::Active ==> !state.invoice(id).issuer_confirmed
            || !state.invoice(id).buyer_confirmed,
{
    lemma_place(state.invoices, id);
}

/// The window that has been set is the one that counts from then on.
pub proof fn lemma_window_reads_back(state: InvoiceState, ctx: Context, window: u64)
    requires
        state.refusal(ctx, InvoiceCall::SetExpiryWindow { window }) is None,
    ensures
        state.after(ctx, InvoiceCall::SetExpiryWindow { window }).expiry_window() == window,
{
}

/// Two pools named one after the other: the second announcement gives the first pool as the one
/// before.
pub proof fn lemma_pool_change_names_both(
    state: InvoiceState,
    ctx: Context,
    first: Address,
    second: Address,
)
    requires
        state.refusal(ctx, InvoiceCall::SetPoolContract { pool: first }) is None,
    ensures
        ({
            let after = state.after(ctx, InvoiceCall::SetPoolContract { pool: first }).after(
                ctx,
                InvoiceCall::SetPoolContract { pool: second },
            );
            &&& after.settings.pool_contract == Some(second)
            &&& after.events.last() == Event::PoolContractUpdated {
                old_pool: first,
                new_pool: second,
            }
        }),
{
}

/// The counter goes up by one with every invoice that is created, and no other call moves it once
/// the contract is initialized.
pub proof fn lemma_counter_counts_creations(state: InvoiceState, ctx: Context, call: InvoiceCall)
    requires
        state.settings.admin is Some,
    ensures
        state.refusal(ctx, call) is None && call is Create ==> state.after(
            ctx,
            call,
        ).settings.counter == Some((state.settings.counter->0 + 1) as u64)
            && state.settings.counter->0 + 1 <= u64::MAX,
        !(call is Create) ==> state.after(ctx, call).settings.counter == state.settings.counter,
{
}

/// A call that is announced when it is accepted.
pub open spec fn announced(call: InvoiceCall) -> bool {
    call is SetPoolContract || call is SetExpiryWindow || call is Create || call is ListForFinancing
        || call is Repay
}

/// What has been announced stays announced; an accepted call adds one announcement or none.
pub proof fn lemma_announcements_only_grow(state: InvoiceState, ctx: Context, call: InvoiceCall)
    ensures
        ({
            let after = state.after(ctx, call);
            if state.refusal(ctx, call) is None && announced(call) {
                &&& after.events.len() == state.events.len() + 1
                &&& after.events.drop_last() == state.events
            } else {
                after.events == state.events
            }
        }),
{
    if state.refusal(ctx, call) is None && announced(call) {
        assert(state.after(ctx, call).events.drop_last() =~= state.events);
    }
}

/// Every invoice is found under its status and under no other: the lists of the eight statuses
/// hold all the invoices between them.
pub proof fn lemma_status_lists_cover(invoices: Seq<Invoice>)
    ensures
        at_status(invoices, InvoiceStatus::Created).len() + at_status(
            invoices,
            InvoiceStatus::Listed,
        ).len() + at_status(invoices, InvoiceStatus::Funded).len() + at_status(
            invoices,
            InvoiceStatus::Active,
        ).len() + at_status(invoices, InvoiceStatus::Confirmed).len() + at_status(
            invoices,
            InvoiceStatus::Repaid,
        ).len() + at_status(invoices, InvoiceStatus::Defaulted).len() + at_status(
            invoices,
            InvoiceStatus::Expired,
        ).len() == invoices.len(),
    decreases invoices.len(),
{
    reveal(Seq::filter);
    if invoices.len() > 0 {
        lemma_status_lists_cover(invoices.drop_last());
    }
}

/// How many invoices are at `status` when one of them is replaced.
proof fn lemma_status_count_of_update(
    invoices: Seq<Invoice>,
    at: int,
    invoice: Invoice,
    status: InvoiceStatus,
)
    requires
        0 <= at < invoices.len(),
    ensures
        at_status(invoices.update(at, invoice), status).len() == at_status(invoices, status).len()
            - (if invoices[at].status == status {
            1int
        } else {
            0
        }) + (if invoice.status == status {
            1int
        } else {
            0
        }),
    decreases invoices.len(),
{
    reveal(Seq::filter);
    let after = invoices.update(at, invoice);
    if at < invoices.len() - 1 {
        lemma_status_count_of_update(invoices.drop_last(), at, invoice, status);
        assert(after.drop_last() =~= invoices.drop_last().update(at, invoice));
        assert(after.last() == invoices.last());
    } else {
        assert(after.drop_last() =~= invoices.drop_last());
    }
}

/// A step in the life of an invoice takes it from the list of its old status to the list of its new
/// one.
pub proof fn lemma_step_moves_between_lists(
    state: InvoiceState,
    ctx: Context,
    call: InvoiceCall,
    status: InvoiceStatus,
)
    requires
        call.has_subject(),
        state.refusal(ctx, call) is None,
    ensures
        ({
            let id = call.subject();
            let after = state.after(ctx, call);
            at_status(after.invoices, status).len() == at_status(state.invoices, status).len() - (
            if state.invoice(id).status == status {
                1int
            } else {
                0
            }) + (if after.invoice(id).status == status {
                1int
            } else {
                0
            })
        }),
{
    let id = call.subject();
    lemma_step(state, ctx, call, id);
    lemma_place(state.invoices, id);
    lemma_status_count_of_update(
        state.invoices,
        place(state.invoices, id)->0,
        state.changed(ctx, call),
        status,
    );
}

} // verus!
