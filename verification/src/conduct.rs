//! What each call of the invoice contract is for, said of the stored invoices and settings
//! themselves: when a call is accepted, what it changes, and that it changes nothing else, at every
//! ledger time and whoever else consents.
use vstd::prelude::*;

use crate::address::Address;
use crate::invoice::{
    Auths, Context, Event, EventValue, Invoice, InvoiceError, InvoiceStatus, Settings,
    DEFAULT_EXPIRY_WINDOW, MAX_DISCOUNT_BPS,
};
use crate::invoice_id::{id_from_digest, id_of, preimage, sha256_halves, InvoiceId, Terms};
use crate::laws::run;
use crate::model::{
    at_status, issued_by, lemma_place, owed_by, place, InvoiceCall, InvoiceState,
};
use crate::registry::{Deployed, IdentityRegistry};

verus! {

/// `at` is the place of the first invoice under `id`.
pub open spec fn first_at(invoices: Seq<Invoice>, id: InvoiceId, at: int) -> bool {
    &&& 0 <= at < invoices.len()
    &&& invoices[at].id == id
    &&& forall|j: int| 0 <= j < at ==> (#[trigger] invoices[j]).id != id
}

/// No invoice is stored under `id`.
pub open spec fn unknown(invoices: Seq<Invoice>, id: InvoiceId) -> bool {
    forall|j: int| 0 <= j < invoices.len() ==> (#[trigger] invoices[j]).id != id
}

/// The administrator has been appointed and consents.
pub open spec fn by_admin(state: InvoiceState, ctx: Context) -> bool {
    state.settings.admin matches Some(admin) && ctx.authorizes(admin)
}

proof fn lemma_first(invoices: Seq<Invoice>, id: InvoiceId, at: int)
    requires
        first_at(invoices, id, at),
    ensures
        place(invoices, id) == Some(at),
{
    lemma_place(invoices, id);
    assert(invoices[at].id == id);
    let found = place(invoices, id)->0;
    if found < at {
        assert(invoices[found].id != id);
    }
}

/// With everyone's consent anybody consents; otherwise it is those on the list, and nobody else.
pub proof fn lemma_consent_is_as_given(ctx: Context, address: Address)
    ensures
        match ctx.auths {
            Auths::Everyone => ctx.authorizes(address),
            Auths::Only(list) => ctx.authorizes(address) <==> exists|i: int|
                0 <= i < list@.len() && #[trigger] list@[i] == address,
        },
{
}

/// Nothing is there and nothing is set before the first call.
pub proof fn lemma_starts_empty()
    ensures
        ({
            let state = InvoiceState::initial();
            &&& state.settings.admin is None
            &&& state.settings.registry_contract is None
            &&& state.settings.pool_contract is None
            &&& state.settings.expiry_window is None
            &&& state.settings.counter is None
            &&& state.invoices.len() == 0
            &&& state.events.len() == 0
        }),
{
}

/// The answer to a call about an invoice is its error if it is refused, and `true` if it is not.
pub proof fn lemma_answer_is_the_refusal_or_true(
    state: InvoiceState,
    ctx: Context,
    call: InvoiceCall,
    result: Result<bool, InvoiceError>,
)
    ensures
        state.answers(ctx, call, result) <==> match result {
            Ok(done) => done && state.refusal(ctx, call) is None,
            Err(error) => state.refusal(ctx, call) == Some(error),
        },
{
}

/// An identifier is known exactly if an invoice is stored under it, and the first one that is
/// stored under it is the one that is found.
pub proof fn lemma_found_where_it_is_stored(state: InvoiceState, id: InvoiceId, at: int)
    ensures
        state.holds(id) <==> exists|i: int|
            0 <= i < state.invoices.len() && (#[trigger] state.invoices[i]).id == id,
        first_at(state.invoices, id, at) ==> state.invoice(id) == state.invoices[at],
{
    lemma_place(state.invoices, id);
    if first_at(state.invoices, id, at) {
        lemma_first(state.invoices, id, at);
    }
    if state.holds(id) {
        let i = place(state.invoices, id)->0;
        assert(state.invoices[i].id == id);
    }
}

/// A contract without an administrator takes whoever consents to be one, names the registry, and
/// starts to count at zero; one that has an administrator keeps everything as it is.
pub proof fn lemma_initialize(
    state: InvoiceState,
    ctx: Context,
    admin: Address,
    registry_contract: Address,
)
    ensures
        ({
            let call = InvoiceCall::Initialize { admin, registry_contract };
            let after = state.after(ctx, call);
            &&& state.settings.admin is Some ==> state.refusal(ctx, call) == Some(
                InvoiceError::AlreadyInitialized,
            ) && after == state
            &&& state.settings.admin is None && !ctx.authorizes(admin) ==> state.refusal(ctx, call)
                == Some(InvoiceError::AuthInvalidAction) && after == state
            &&& state.settings.admin is None && ctx.authorizes(admin) ==> {
                &&& state.refusal(ctx, call) is None
                &&& after.settings.admin == Some(admin)
                &&& after.settings.registry_contract == Some(registry_contract)
                &&& after.settings.counter == Some(0u64)
                &&& after.settings.pool_contract == state.settings.pool_contract
                &&& after.settings.expiry_window == state.settings.expiry_window
                &&& after.invoices == state.invoices
                &&& after.events == state.events
            }
        }),
{
}

/// The administrator, and nobody else, names the pool. The pool that is named is the one on record
/// afterwards, nothing else changes, and the announcement gives the pool before and the new one.
pub proof fn lemma_set_pool_contract(state: InvoiceState, ctx: Context, pool: Address)
    ensures
        ({
            let call = InvoiceCall::SetPoolContract { pool };
            let after = state.after(ctx, call);
            &&& state.refusal(ctx, call) is None <==> by_admin(state, ctx)
            &&& state.settings.admin is None ==> state.refusal(ctx, call) == Some(
                InvoiceError::NotFound,
            )
            &&& state.settings.admin is Some && !by_admin(state, ctx) ==> state.refusal(ctx, call)
                == Some(InvoiceError::AuthInvalidAction)
            &&& by_admin(state, ctx) ==> {
                &&& after.settings == (Settings { pool_contract: Some(pool), ..state.settings })
                &&& after.invoices == state.invoices
                &&& state.settings.pool_contract matches Some(before) ==> after.events
                    == state.events.push(
                    Event::PoolContractUpdated { old_pool: before, new_pool: pool },
                )
                &&& state.settings.pool_contract is None ==> after.events == state.events.push(
                    Event::PoolContractUpdated { old_pool: pool, new_pool: pool },
                )
            }
            &&& !by_admin(state, ctx) ==> after == state
        }),
{
}

/// The administrator, and nobody else, sets the expiry window. Nothing else changes.
pub proof fn lemma_set_expiry_window(state: InvoiceState, ctx: Context, window: u64)
    ensures
        ({
            let call = InvoiceCall::SetExpiryWindow { window };
            let after = state.after(ctx, call);
            &&& state.refusal(ctx, call) is None <==> by_admin(state, ctx)
            &&& state.settings.admin is None ==> state.refusal(ctx, call) == Some(
                InvoiceError::NotFound,
            )
            &&& state.settings.admin is Some && !by_admin(state, ctx) ==> state.refusal(ctx, call)
                == Some(InvoiceError::AuthInvalidAction)
            &&& by_admin(state, ctx) ==> {
                &&& after.settings == (Settings { expiry_window: Some(window), ..state.settings })
                &&& after.invoices == state.invoices
                &&& after.events == state.events.push(Event::ExpiryWindowSet { window })
            }
            &&& !by_admin(state, ctx) ==> after == state
        }),
{
}

/// The settings change by the calls that are made for them: the administrator and the registry by
/// an initialization, the pool and the window by the calls that set them, the counter by an
/// initialization or a creation.
pub proof fn lemma_settings_change_by_their_own_calls(
    state: InvoiceState,
    ctx: Context,
    call: InvoiceCall,
)
    ensures
        ({
            let after = state.after(ctx, call).settings;
            &&& !(call is Initialize) ==> after.admin == state.settings.admin
                && after.registry_contract == state.settings.registry_contract
            &&& !(call is SetPoolContract) ==> after.pool_contract == state.settings.pool_contract
            &&& !(call is SetExpiryWindow) ==> after.expiry_window == state.settings.expiry_window
            &&& !(call is Initialize) && !(call is Create) ==> after.counter
                == state.settings.counter
        }),
{
}

/// The window in force is the one on record, or seven days if there is none.
pub proof fn lemma_window_in_force(state: InvoiceState)
    ensures
        DEFAULT_EXPIRY_WINDOW == 7 * 24 * 60 * 60,
        match state.settings.expiry_window {
            Some(window) => state.expiry_window() == window,
            None => state.expiry_window() == 7 * 24 * 60 * 60,
        },
{
}

/// None of `calls`, made one after the other from `state` on, is accepted as setting the window.
pub open spec fn window_untouched(
    state: InvoiceState,
    calls: Seq<(Context, InvoiceCall)>,
) -> bool {
    forall|i: int|
        0 <= i < calls.len() && (#[trigger] calls[i]).1 is SetExpiryWindow ==> run(
            state,
            calls.take(i),
        ).refusal(calls[i].0, calls[i].1) is Some
}

/// As long as no other window is set, the window stays as it is, whatever else is done.
pub proof fn lemma_window_stays_until_set(
    state: InvoiceState,
    calls: Seq<(Context, InvoiceCall)>,
)
    requires
        window_untouched(state, calls),
    ensures
        run(state, calls).settings.expiry_window == state.settings.expiry_window,
        run(state, calls).expiry_window() == state.expiry_window(),
    decreases calls.len(),
{
    if calls.len() > 0 {
        let rest = calls.drop_last();
        assert forall|i: int|
            0 <= i < rest.len() && (#[trigger] rest[i]).1 is SetExpiryWindow implies run(
            state,
            rest.take(i),
        ).refusal(rest[i].0, rest[i].1) is Some by {
            assert(rest[i] == calls[i]);
            assert(rest.take(i) =~= calls.take(i));
        }
        lemma_window_stays_until_set(state, rest);
        assert(calls.take(calls.len() - 1) =~= rest);
        assert(calls[calls.len() - 1] == calls.last());
        lemma_settings_change_by_their_own_calls(run(state, rest), calls.last().0, calls.last().1);
    }
}

/// In a contract whose window has never been set, whatever else has been done, a listing can be
/// taken back exactly from seven days after it was made.
pub proof fn lemma_listing_expires_after_seven_days(
    calls: Seq<(Context, InvoiceCall)>,
    ctx: Context,
    id: InvoiceId,
    at: int,
)
    requires
        window_untouched(InvoiceState::initial(), calls),
        first_at(run(InvoiceState::initial(), calls).invoices, id, at),
        run(InvoiceState::initial(), calls).invoices[at].status == InvoiceStatus::Listed,
        ctx.authorizes(run(InvoiceState::initial(), calls).invoices[at].issuer),
    ensures
        run(InvoiceState::initial(), calls).expiry_window() == 604_800,
        run(InvoiceState::initial(), calls).refusal(ctx, InvoiceCall::ExpireListing { id }) is None
            <==> ctx.now >= run(InvoiceState::initial(), calls).invoices[at].listed_at + 604_800,
{
    let state = run(InvoiceState::initial(), calls);
    lemma_window_stays_until_set(InvoiceState::initial(), calls);
    lemma_window_in_force(state);
    lemma_expire_listing(state, ctx, id, at);
}

/// Once a window has been set, and until another one is, whatever else is done, a listing can be
/// taken back exactly from that window after it was made.
pub proof fn lemma_listing_expires_after_the_window_set(
    state: InvoiceState,
    setter: Context,
    window: u64,
    calls: Seq<(Context, InvoiceCall)>,
    ctx: Context,
    id: InvoiceId,
    at: int,
)
    requires
        by_admin(state, setter),
        window_untouched(state.after(setter, InvoiceCall::SetExpiryWindow { window }), calls),
        ({
            let then = run(state.after(setter, InvoiceCall::SetExpiryWindow { window }), calls);
            &&& first_at(then.invoices, id, at)
            &&& then.invoices[at].status == InvoiceStatus::Listed
            &&& ctx.authorizes(then.invoices[at].issuer)
        }),
    ensures
        ({
            let then = run(state.after(setter, InvoiceCall::SetExpiryWindow { window }), calls);
            &&& then.expiry_window() == window
            &&& then.refusal(ctx, InvoiceCall::ExpireListing { id }) is None <==> ctx.now
                >= then.invoices[at].listed_at + window
        }),
{
    let set = state.after(setter, InvoiceCall::SetExpiryWindow { window });
    let then = run(set, calls);
    lemma_set_expiry_window(state, setter, window);
    lemma_window_stays_until_set(set, calls);
    lemma_window_in_force(then);
    lemma_expire_listing(then, ctx, id, at);
}

/// An invoice is created exactly if its issuer consents, the registry has been named and verifies
/// both parties, something is owed, it is owed in the future, and the counter can go up. The
/// invoice then stands behind all others with its terms, its time and a new number, and nothing else
/// changes but the counter.
pub proof fn lemma_create(
    state: InvoiceState,
    ctx: Context,
    terms: Terms,
    issuer_verified: bool,
    buyer_verified: bool,
    digest: (u128, u128),
)
    ensures
        ({
            let call = InvoiceCall::Create { terms, issuer_verified, buyer_verified, digest };
            let after = state.after(ctx, call);
            let accepted = {
                &&& ctx.authorizes(terms.issuer)
                &&& state.settings.registry_contract is Some
                &&& issuer_verified
                &&& buyer_verified
                &&& terms.face_value > 0
                &&& terms.due_date > ctx.now
                &&& state.settings.counter matches Some(counter) && counter < u64::MAX
            };
            let added = after.invoices.last();
            &&& state.refusal(ctx, call) is None <==> accepted
            &&& !accepted ==> after == state
            &&& accepted ==> {
                &&& after.invoices.len() == state.invoices.len() + 1
                &&& after.invoices.drop_last() == state.invoices
                &&& added.issuer == terms.issuer
                &&& added.buyer == terms.buyer
                &&& added.face_value == terms.face_value
                &&& added.due_date == terms.due_date
                &&& added.funding_asset == terms.funding_asset
                &&& added.status == InvoiceStatus::Created
                &&& added.discount_bps == 0
                &&& added.funding_pool is None
                &&& added.funded_amount == 0
                &&& !added.issuer_confirmed
                &&& !added.buyer_confirmed
                &&& added.created_at == ctx.now
                &&& added.listed_at == 0
                &&& added.repaid_at is None
                &&& added.id.salt == state.settings.counter->0 + 1
                &&& added.id.hi == digest.0
                &&& 0 <= digest.1 - added.id.mid * 0x1_0000_0000_0000_0000
                    < 0x1_0000_0000_0000_0000
                &&& after.settings == (Settings { counter: Some(added.id.salt), ..state.settings })
                &&& after.events == state.events.push(
                    Event::InvoiceCreated {
                        id: added.id,
                        issuer: terms.issuer,
                        buyer: terms.buyer,
                        funding_asset: terms.funding_asset,
                        face_value: terms.face_value,
                    },
                )
            }
        }),
{
    let call = InvoiceCall::Create { terms, issuer_verified, buyer_verified, digest };
    lemma_id_shows_digest_and_salt(digest, (state.settings.counter->0 + 1) as u64);
    if state.refusal(ctx, call) is None {
        assert(state.after(ctx, call).invoices.drop_last() =~= state.invoices);
    }
}

/// An identifier begins with the first 24 bytes of its digest and ends with its salt.
pub proof fn lemma_id_shows_digest_and_salt(digest: (u128, u128), salt: u64)
    ensures
        id_from_digest(digest, salt).hi == digest.0,
        0 <= digest.1 - id_from_digest(digest, salt).mid * 0x1_0000_0000_0000_0000
            < 0x1_0000_0000_0000_0000,
        id_from_digest(digest, salt).salt == salt,
{
}

/// The identifier of an invoice is made of the digest of its terms, its time and its salt.
pub proof fn lemma_id_is_made_of_the_terms(state: InvoiceState, terms: Terms, now: u64, salt: u64)
    ensures
        id_of(terms, now, salt).salt == salt,
        id_of(terms, now, salt).hi == sha256_halves(preimage(terms, now, salt)).0,
        0 <= sha256_halves(preimage(terms, now, salt)).1 - id_of(terms, now, salt).mid
            * 0x1_0000_0000_0000_0000 < 0x1_0000_0000_0000_0000,
        state.settings.counter is Some && state.settings.counter->0 < u64::MAX ==> {
            let next = (state.settings.counter->0 + 1) as u64;
            &&& state.next_salt() == next
            &&& state.next_digest(terms, now) == sha256_halves(preimage(terms, now, next))
        },
{
    lemma_id_shows_digest_and_salt(sha256_halves(preimage(terms, now, salt)), salt);
}

/// The reason that is given for refusing to create an invoice is the first that applies: the
/// missing consent, the missing registry, the issuer, the buyer, the face value, the due date, the
/// counter.
pub proof fn lemma_create_names_the_first_reason(
    state: InvoiceState,
    ctx: Context,
    terms: Terms,
    issuer_verified: bool,
    buyer_verified: bool,
    digest: (u128, u128),
)
    ensures
        ({
            let call = InvoiceCall::Create { terms, issuer_verified, buyer_verified, digest };
            let refusal = state.refusal(ctx, call);
            let consent = ctx.authorizes(terms.issuer);
            let named = consent && state.settings.registry_contract is Some;
            let both = named && issuer_verified && buyer_verified;
            let sound = both && terms.face_value > 0 && terms.due_date > ctx.now;
            &&& refusal == Some(InvoiceError::AuthInvalidAction) <==> !consent
            &&& refusal == Some(InvoiceError::IssuerNotVerified) <==> named && !issuer_verified
            &&& refusal == Some(InvoiceError::BuyerNotVerified) <==> named && issuer_verified
                && !buyer_verified
            &&& refusal == Some(InvoiceError::InvalidFaceValue) <==> both && terms.face_value == 0
            &&& refusal == Some(InvoiceError::InvalidDueDate) <==> both && terms.face_value > 0
                && terms.due_date <= ctx.now
            &&& refusal == Some(InvoiceError::CounterOverflow) <==> sound && state.settings.counter
                == Some(u64::MAX)
            &&& refusal == Some(InvoiceError::NotFound) <==> consent && !named || sound
                && state.settings.counter is None
        }),
{
}

/// A call about an invoice that is not stored is answered that there is none. Whoever asks for a
/// default without being the administrator is not even told that.
pub proof fn lemma_unknown_invoice_is_not_found(
    state: InvoiceState,
    ctx: Context,
    id: InvoiceId,
    discount_bps: u32,
    address: Address,
    asset: Address,
    amount: u128,
)
    requires
        unknown(state.invoices, id),
    ensures
        state.refusal(ctx, InvoiceCall::ListForFinancing { id, discount_bps }) == Some(
            InvoiceError::NotFound,
        ),
        state.refusal(ctx, InvoiceCall::MarkFunded { id, pool: address, asset, amount }) == Some(
            InvoiceError::NotFound,
        ),
        state.refusal(ctx, InvoiceCall::MarkShipped { id }) == Some(InvoiceError::NotFound),
        state.refusal(ctx, InvoiceCall::ConfirmDelivery { id, party: address }) == Some(
            InvoiceError::NotFound,
        ),
        state.refusal(ctx, InvoiceCall::Repay { id }) == Some(InvoiceError::NotFound),
        state.refusal(ctx, InvoiceCall::ExpireListing { id }) == Some(InvoiceError::NotFound),
        by_admin(state, ctx) || state.settings.admin is None ==> state.refusal(
            ctx,
            InvoiceCall::TriggerDefault { id },
        ) == Some(InvoiceError::NotFound),
        state.settings.admin is Some && !by_admin(state, ctx) ==> state.refusal(
            ctx,
            InvoiceCall::TriggerDefault { id },
        ) == Some(InvoiceError::AuthInvalidAction),
{
    lemma_place(state.invoices, id);
}

/// The issuer, and nobody else, lists a created invoice, at any discount up to half its value. The
/// invoice is then listed at that discount and that time, and nothing else about it changes.
pub proof fn lemma_list_for_financing(
    state: InvoiceState,
    ctx: Context,
    id: InvoiceId,
    at: int,
    discount_bps: u32,
)
    requires
        first_at(state.invoices, id, at),
    ensures
        ({
            let call = InvoiceCall::ListForFinancing { id, discount_bps };
            let invoice = state.invoices[at];
            let consent = ctx.authorizes(invoice.issuer);
            let created = invoice.status == InvoiceStatus::Created;
            &&& MAX_DISCOUNT_BPS == 5000
            &&& !consent ==> state.refusal(ctx, call) == Some(InvoiceError::AuthInvalidAction)
            &&& consent && !created ==> state.refusal(ctx, call) == Some(
                InvoiceError::InvalidStatusTransition,
            )
            &&& consent && created && discount_bps > 5000 ==> state.refusal(ctx, call) == Some(
                InvoiceError::DiscountTooHigh,
            )
            &&& consent && created && discount_bps <= 5000 ==> {
                &&& state.refusal(ctx, call) is None
                &&& state.after(ctx, call) == (InvoiceState {
                    settings: state.settings,
                    invoices: state.invoices.update(
                        at,
                        Invoice {
                            status: InvoiceStatus::Listed,
                            discount_bps,
                            listed_at: ctx.now,
                            ..invoice
                        },
                    ),
                    events: state.events.push(Event::InvoiceListed { id, discount_bps }),
                })
            }
        }),
{
    lemma_first(state.invoices, id, at);
}

/// The pool that has been named, and nobody else, funds a listed invoice, in the invoice's own
/// asset. What is recorded is that pool and the amount that it gives, whatever the face value is,
/// and nothing else changes.
pub proof fn lemma_mark_funded(
    state: InvoiceState,
    ctx: Context,
    id: InvoiceId,
    at: int,
    pool: Address,
    asset: Address,
    amount: u128,
)
    requires
        first_at(state.invoices, id, at),
    ensures
        ({
            let call = InvoiceCall::MarkFunded { id, pool, asset, amount };
            let invoice = state.invoices[at];
            let asked = state.settings.pool_contract is Some && ctx.authorizes(pool);
            let named = asked && state.settings.pool_contract == Some(pool);
            let listed = named && invoice.status == InvoiceStatus::Listed;
            &&& state.settings.pool_contract is None ==> state.refusal(ctx, call) == Some(
                InvoiceError::NotFound,
            )
            &&& state.settings.pool_contract is Some && !asked ==> state.refusal(ctx, call) == Some(
                InvoiceError::AuthInvalidAction,
            )
            &&& asked && !named ==> state.refusal(ctx, call) == Some(InvoiceError::NotAuthorized)
            &&& named && !listed ==> state.refusal(ctx, call) == Some(
                InvoiceError::InvalidStatusTransition,
            )
            &&& listed && asset != invoice.funding_asset ==> state.refusal(ctx, call) == Some(
                InvoiceError::AssetMismatch,
            )
            &&& listed && asset == invoice.funding_asset ==> {
                &&& state.refusal(ctx, call) is None
                &&& state.after(ctx, call) == (InvoiceState {
                    settings: state.settings,
                    invoices: state.invoices.update(
                        at,
                        Invoice {
                            status: InvoiceStatus::Funded,
                            funding_pool: Some(pool),
                            funded_amount: amount,
                            ..invoice
                        },
                    ),
                    events: state.events,
                })
            }
        }),
{
    lemma_first(state.invoices, id, at);
}

/// The issuer, and nobody else, marks a funded invoice as shipped, at any time. It is then active,
/// and nothing else changes.
pub proof fn lemma_mark_shipped(state: InvoiceState, ctx: Context, id: InvoiceId, at: int)
    requires
        first_at(state.invoices, id, at),
    ensures
        ({
            let call = InvoiceCall::MarkShipped { id };
            let invoice = state.invoices[at];
            let consent = ctx.authorizes(invoice.issuer);
            let funded = invoice.status == InvoiceStatus::Funded;
            &&& !consent ==> state.refusal(ctx, call) == Some(InvoiceError::AuthInvalidAction)
            &&& consent && !funded ==> state.refusal(ctx, call) == Some(
                InvoiceError::InvalidStatusTransition,
            )
            &&& consent && funded ==> {
                &&& state.refusal(ctx, call) is None
                &&& state.after(ctx, call) == (InvoiceState {
                    settings: state.settings,
                    invoices: state.invoices.update(
                        at,
                        Invoice { status: InvoiceStatus::Active, ..invoice },
                    ),
                    events: state.events,
                })
            }
        }),
{
    lemma_first(state.invoices, id, at);
}

/// A confirmation speaks for the one who gives it: it sets that party's flag, leaves the other
/// party's flag as it was, and confirms the invoice exactly if both flags are then set. It makes no
/// difference when it is given, or whether the other party consents to the call as well. A party
/// that is issuer and buyer at once speaks as the issuer.
pub proof fn lemma_confirm_delivery(
    state: InvoiceState,
    ctx: Context,
    id: InvoiceId,
    at: int,
    party: Address,
)
    requires
        first_at(state.invoices, id, at),
    ensures
        ({
            let call = InvoiceCall::ConfirmDelivery { id, party };
            let before = state.invoices[at];
            let after = state.after(ctx, call).invoices[at];
            let consent = ctx.authorizes(party);
            let active = consent && before.status == InvoiceStatus::Active;
            let as_issuer = active && party == before.issuer;
            let as_buyer = active && party == before.buyer && party != before.issuer;
            let again = as_issuer && before.issuer_confirmed || as_buyer && before.buyer_confirmed;
            &&& !consent ==> state.refusal(ctx, call) == Some(InvoiceError::AuthInvalidAction)
            &&& consent && !active ==> state.refusal(ctx, call) == Some(
                InvoiceError::InvalidStatusTransition,
            )
            &&& active && !as_issuer && !as_buyer ==> state.refusal(ctx, call) == Some(
                InvoiceError::NotAuthorized,
            )
            &&& again ==> state.refusal(ctx, call) == Some(InvoiceError::AlreadyConfirmed)
            &&& (as_issuer || as_buyer) && !again ==> {
                &&& state.refusal(ctx, call) is None
                &&& as_issuer ==> after.issuer_confirmed && after.buyer_confirmed
                    == before.buyer_confirmed
                &&& as_buyer ==> after.buyer_confirmed && after.issuer_confirmed
                    == before.issuer_confirmed
                &&& after.status == InvoiceStatus::Confirmed <==> after.issuer_confirmed
                    && after.buyer_confirmed
                &&& after.status != InvoiceStatus::Confirmed ==> after.status
                    == InvoiceStatus::Active
                &&& after == (Invoice {
                    status: after.status,
                    issuer_confirmed: after.issuer_confirmed,
                    buyer_confirmed: after.buyer_confirmed,
                    ..before
                })
                &&& state.after(ctx, call) == (InvoiceState {
                    settings: state.settings,
                    invoices: state.invoices.update(at, after),
                    events: state.events,
                })
            }
        }),
{
    lemma_first(state.invoices, id, at);
    let call = InvoiceCall::ConfirmDelivery { id, party };
    if state.refusal(ctx, call) is None {
        assert(state.after(ctx, call).invoices =~= state.invoices.update(
            at,
            state.after(ctx, call).invoices[at],
        ));
    }
}

/// Issuer and buyer can confirm apart, each with no more than their own consent and each at their
/// own time, in either order. After the first of them the invoice is still active and lacks the
/// other's confirmation; after the second it is confirmed.
pub proof fn lemma_parties_confirm_apart(
    state: InvoiceState,
    first: Context,
    second: Context,
    id: InvoiceId,
    at: int,
    issuer_first: bool,
)
    requires
        first_at(state.invoices, id, at),
        state.invoices[at].status == InvoiceStatus::Active,
        !state.invoices[at].issuer_confirmed,
        !state.invoices[at].buyer_confirmed,
        state.invoices[at].issuer != state.invoices[at].buyer,
        first.authorizes(
            if issuer_first {
                state.invoices[at].issuer
            } else {
                state.invoices[at].buyer
            },
        ),
        second.authorizes(
            if issuer_first {
                state.invoices[at].buyer
            } else {
                state.invoices[at].issuer
            },
        ),
    ensures
        ({
            let invoice = state.invoices[at];
            let (one, other) = if issuer_first {
                (invoice.issuer, invoice.buyer)
            } else {
                (invoice.buyer, invoice.issuer)
            };
            let half = state.after(first, InvoiceCall::ConfirmDelivery { id, party: one });
            let whole = half.after(second, InvoiceCall::ConfirmDelivery { id, party: other });
            &&& half.invoices[at] == (Invoice {
                issuer_confirmed: issuer_first,
                buyer_confirmed: !issuer_first,
                ..invoice
            })
            &&& half.refusal(second, InvoiceCall::ConfirmDelivery { id, party: other }) is None
            &&& whole.invoices[at] == (Invoice {
                status: InvoiceStatus::Confirmed,
                issuer_confirmed: true,
                buyer_confirmed: true,
                ..invoice
            })
        }),
{
    let invoice = state.invoices[at];
    let (one, other) = if issuer_first {
        (invoice.issuer, invoice.buyer)
    } else {
        (invoice.buyer, invoice.issuer)
    };
    let half = state.after(first, InvoiceCall::ConfirmDelivery { id, party: one });
    lemma_confirm_delivery(state, first, id, at, one);
    assert forall|j: int| 0 <= j < at implies (#[trigger] half.invoices[j]).id != id by {
        assert(half.invoices[j] == state.invoices[j]);
    }
    lemma_confirm_delivery(half, second, id, at, other);
}

/// The buyer, and nobody else, repays an invoice that is funded, active or confirmed. The time is
/// recorded and the repayment announced, and nothing else changes.
pub proof fn lemma_repay(state: InvoiceState, ctx: Context, id: InvoiceId, at: int)
    requires
        first_at(state.invoices, id, at),
    ensures
        ({
            let call = InvoiceCall::Repay { id };
            let invoice = state.invoices[at];
            let consent = ctx.authorizes(invoice.buyer);
            let outstanding = invoice.status == InvoiceStatus::Funded || invoice.status
                == InvoiceStatus::Active || invoice.status == InvoiceStatus::Confirmed;
            &&& !consent ==> state.refusal(ctx, call) == Some(InvoiceError::AuthInvalidAction)
            &&& consent && !outstanding ==> state.refusal(ctx, call) == Some(
                InvoiceError::InvalidStatusTransition,
            )
            &&& consent && outstanding ==> {
                &&& state.refusal(ctx, call) is None
                &&& state.after(ctx, call) == (InvoiceState {
                    settings: state.settings,
                    invoices: state.invoices.update(
                        at,
                        Invoice {
                            status: InvoiceStatus::Repaid,
                            repaid_at: Some(ctx.now),
                            ..invoice
                        },
                    ),
                    events: state.events.push(Event::InvoiceRepaid { id }),
                })
            }
        }),
{
    lemma_first(state.invoices, id, at);
}

/// The administrator, and nobody else, defaults an invoice that is funded, active or confirmed,
/// from its due date on. Nothing else about it changes.
pub proof fn lemma_trigger_default(state: InvoiceState, ctx: Context, id: InvoiceId, at: int)
    requires
        first_at(state.invoices, id, at),
    ensures
        ({
            let call = InvoiceCall::TriggerDefault { id };
            let invoice = state.invoices[at];
            let outstanding = invoice.status == InvoiceStatus::Funded || invoice.status
                == InvoiceStatus::Active || invoice.status == InvoiceStatus::Confirmed;
            &&& state.settings.admin is None ==> state.refusal(ctx, call) == Some(
                InvoiceError::NotFound,
            )
            &&& state.settings.admin is Some && !by_admin(state, ctx) ==> state.refusal(ctx, call)
                == Some(InvoiceError::AuthInvalidAction)
            &&& by_admin(state, ctx) && !outstanding ==> state.refusal(ctx, call) == Some(
                InvoiceError::InvalidStatusTransition,
            )
            &&& by_admin(state, ctx) && outstanding && ctx.now < invoice.due_date ==> state.refusal(
                ctx,
                call,
            ) == Some(InvoiceError::NotYetDue)
            &&& by_admin(state, ctx) && outstanding && ctx.now >= invoice.due_date ==> {
                &&& state.refusal(ctx, call) is None
                &&& state.after(ctx, call) == (InvoiceState {
                    settings: state.settings,
                    invoices: state.invoices.update(
                        at,
                        Invoice { status: InvoiceStatus::Defaulted, ..invoice },
                    ),
                    events: state.events,
                })
            }
        }),
{
    lemma_first(state.invoices, id, at);
}

/// The issuer or the administrator takes a listing back once the window on record, or seven days if
/// there is none, has passed since it was made. Nothing else about the invoice changes.
pub proof fn lemma_expire_listing(state: InvoiceState, ctx: Context, id: InvoiceId, at: int)
    requires
        first_at(state.invoices, id, at),
    ensures
        ({
            let call = InvoiceCall::ExpireListing { id };
            let invoice = state.invoices[at];
            let consent = ctx.authorizes(invoice.issuer) || by_admin(state, ctx);
            let listed = consent && invoice.status == InvoiceStatus::Listed;
            let window: int = match state.settings.expiry_window {
                Some(window) => window as int,
                None => 604_800,
            };
            let ends = invoice.listed_at + window;
            &&& !consent ==> state.refusal(ctx, call) == Some(InvoiceError::AuthInvalidAction)
            &&& consent && !listed ==> state.refusal(ctx, call) == Some(
                InvoiceError::InvalidStatusTransition,
            )
            &&& listed && ends > u64::MAX ==> state.refusal(ctx, call) == Some(
                InvoiceError::ExpiryOverflow,
            )
            &&& listed && ends <= u64::MAX && ctx.now < ends ==> state.refusal(ctx, call) == Some(
                InvoiceError::ListingNotExpired,
            )
            &&& listed && ctx.now >= ends ==> {
                &&& state.refusal(ctx, call) is None
                &&& state.after(ctx, call) == (InvoiceState {
                    settings: state.settings,
                    invoices: state.invoices.update(
                        at,
                        Invoice { status: InvoiceStatus::Expired, ..invoice },
                    ),
                    events: state.events,
                })
            }
        }),
{
    lemma_first(state.invoices, id, at);
}

/// Each status is reached by the call that is made for it, when it is accepted, and by no other; no
/// call takes an invoice back to where it was created.
pub proof fn lemma_status_is_reached_by_its_own_call(
    state: InvoiceState,
    ctx: Context,
    call: InvoiceCall,
    i: int,
)
    requires
        0 <= i < state.invoices.len(),
    ensures
        state.after(ctx, call).invoices.len() >= state.invoices.len(),
        ({
            let before = state.invoices[i];
            let after = state.after(ctx, call).invoices[i];
            after.status != before.status ==> {
                &&& state.refusal(ctx, call) is None
                &&& match after.status {
                    InvoiceStatus::Created => false,
                    InvoiceStatus::Listed => call is ListForFinancing && before.status
                        == InvoiceStatus::Created,
                    InvoiceStatus::Funded => call is MarkFunded && before.status
                        == InvoiceStatus::Listed,
                    InvoiceStatus::Active => call is MarkShipped && before.status
                        == InvoiceStatus::Funded,
                    InvoiceStatus::Confirmed => call is ConfirmDelivery && before.status
                        == InvoiceStatus::Active,
                    InvoiceStatus::Repaid => call is Repay && ctx.authorizes(before.buyer),
                    InvoiceStatus::Defaulted => call is TriggerDefault && by_admin(state, ctx)
                        && ctx.now >= before.due_date,
                    InvoiceStatus::Expired => call is ExpireListing && before.status
                        == InvoiceStatus::Listed,
                }
            }
        }),
{
    if state.refusal(ctx, call) is None && call.has_subject() {
        lemma_place(state.invoices, call.subject());
    }
}

/// Each thing that is recorded of an invoice is recorded by the call that is made for it: the
/// discount and the time of listing by a listing, the pool and the amount by a funding, the
/// confirmations by confirmations, the time of repayment by a repayment. What was agreed at its
/// creation is never changed.
pub proof fn lemma_record_changes_by_its_own_call(
    state: InvoiceState,
    ctx: Context,
    call: InvoiceCall,
    i: int,
)
    requires
        0 <= i < state.invoices.len(),
    ensures
        ({
            let before = state.invoices[i];
            let after = state.after(ctx, call).invoices[i];
            &&& after.id == before.id
            &&& after.issuer == before.issuer
            &&& after.buyer == before.buyer
            &&& after.face_value == before.face_value
            &&& after.due_date == before.due_date
            &&& after.funding_asset == before.funding_asset
            &&& after.created_at == before.created_at
            &&& !(call is ListForFinancing) ==> after.discount_bps == before.discount_bps
                && after.listed_at == before.listed_at
            &&& !(call is MarkFunded) ==> after.funding_pool == before.funding_pool
                && after.funded_amount == before.funded_amount
            &&& !(call is ConfirmDelivery) ==> after.issuer_confirmed == before.issuer_confirmed
                && after.buyer_confirmed == before.buyer_confirmed
            &&& !(call is Repay) ==> after.repaid_at == before.repaid_at
        }),
{
    if state.refusal(ctx, call) is None && call.has_subject() {
        lemma_place(state.invoices, call.subject());
    }
}

/// `picked` are places among `len` invoices, in their order.
pub open spec fn ascending(picked: Seq<int>, len: nat) -> bool {
    &&& forall|k: int| 0 <= k < picked.len() ==> 0 <= #[trigger] picked[k] < len
    &&& forall|k: int, l: int|
        0 <= k < l < picked.len() ==> #[trigger] picked[k] < #[trigger] picked[l]
}

/// `list` holds the invoices at the places `picked`, in their order, and no others.
pub open spec fn drawn_from(
    list: Seq<Invoice>,
    invoices: Seq<Invoice>,
    picked: Seq<int>,
) -> bool {
    &&& ascending(picked, invoices.len())
    &&& list.len() == picked.len()
    &&& forall|k: int| 0 <= k < picked.len() ==> list[k] == invoices[#[trigger] picked[k]]
}

/// The places at which `wanted` holds, in their order.
spec fn places(invoices: Seq<Invoice>, wanted: spec_fn(Invoice) -> bool) -> Seq<int>
    decreases invoices.len(),
{
    if invoices.len() == 0 {
        Seq::empty()
    } else {
        let rest = places(invoices.drop_last(), wanted);
        if wanted(invoices.last()) {
            rest.push(invoices.len() - 1)
        } else {
            rest
        }
    }
}

proof fn lemma_filter_draws(invoices: Seq<Invoice>, wanted: spec_fn(Invoice) -> bool)
    ensures
        drawn_from(invoices.filter(wanted), invoices, places(invoices, wanted)),
        forall|i: int|
            0 <= i < invoices.len() ==> (wanted(#[trigger] invoices[i]) <==> places(
                invoices,
                wanted,
            ).contains(i)),
    decreases invoices.len(),
{
    reveal(Seq::filter);
    if invoices.len() > 0 {
        let rest = invoices.drop_last();
        let before = places(rest, wanted);
        let after = places(invoices, wanted);
        let last = invoices.len() - 1;
        lemma_filter_draws(rest, wanted);
        assert forall|i: int| 0 <= i < invoices.len() implies (wanted(#[trigger] invoices[i])
            <==> after.contains(i)) by {
            if i < last {
                assert(rest[i] == invoices[i]);
                if before.contains(i) {
                    let k = choose|k: int| 0 <= k < before.len() && before[k] == i;
                    assert(after[k] == i);
                }
                if after.contains(i) {
                    let k = choose|k: int| 0 <= k < after.len() && after[k] == i;
                    assert(before[k] == i);
                }
            } else {
                if wanted(invoices[i]) {
                    assert(after[after.len() - 1] == i);
                } else if before.contains(i) {
                    let k = choose|k: int| 0 <= k < before.len() && before[k] == i;
                    assert(before[k] < rest.len());
                }
            }
        }
    }
}

proof fn lemma_places_counted(picked: Seq<int>, len: nat)
    requires
        ascending(picked, len),
    ensures
        picked.to_set().finite(),
        picked.to_set().len() == picked.len(),
{
    assert(picked.no_duplicates()) by {
        assert forall|k: int, l: int|
            0 <= k < picked.len() && 0 <= l < picked.len() && k != l implies picked[k]
            != picked[l] by {
            if k < l {
                assert(picked[k] < picked[l]);
            } else {
                assert(picked[l] < picked[k]);
            }
        }
    }
    picked.unique_seq_to_set();
}

/// The places of the invoices that `issuer` issued.
pub open spec fn places_of_issuer(invoices: Seq<Invoice>, issuer: Address) -> Set<int> {
    Set::new(|i: int| 0 <= i < invoices.len() && invoices[i].issuer == issuer)
}

/// The places of the invoices that `buyer` owes.
pub open spec fn places_of_buyer(invoices: Seq<Invoice>, buyer: Address) -> Set<int> {
    Set::new(|i: int| 0 <= i < invoices.len() && invoices[i].buyer == buyer)
}

/// The places of the invoices at `status`.
pub open spec fn places_at_status(invoices: Seq<Invoice>, status: InvoiceStatus) -> Set<int> {
    Set::new(|i: int| 0 <= i < invoices.len() && invoices[i].status == status)
}

/// An issuer's list draws every invoice of that issuer once, whatever has become of it, in the
/// order in which they are stored, and no other.
pub proof fn lemma_issuer_list(invoices: Seq<Invoice>, issuer: Address)
    ensures
        exists|picked: Seq<int>|
            {
                &&& #[trigger] drawn_from(issued_by(invoices, issuer), invoices, picked)
                &&& picked.to_set() == places_of_issuer(invoices, issuer)
            },
        issued_by(invoices, issuer).len() == places_of_issuer(invoices, issuer).len(),
        forall|invoice: Invoice| #[trigger]
            issued_by(invoices, issuer).contains(invoice) <==> invoices.contains(invoice)
                && invoice.issuer == issuer,
{
    let wanted = |invoice: Invoice| invoice.issuer == issuer;
    let list = issued_by(invoices, issuer);
    let picked = places(invoices, wanted);
    lemma_filter_draws(invoices, wanted);
    lemma_places_counted(picked, invoices.len());
    assert(drawn_from(list, invoices, picked));
    assert(picked.to_set() =~= places_of_issuer(invoices, issuer));
    assert forall|invoice: Invoice| #[trigger] list.contains(invoice) <==> invoices.contains(invoice)
        && invoice.issuer == issuer by {
        lemma_drawn_contains(list, invoices, picked, wanted, invoice);
    }
}

/// A buyer's list draws every invoice of that buyer once, whatever has become of it, in the order
/// in which they are stored, and no other.
pub proof fn lemma_buyer_list(invoices: Seq<Invoice>, buyer: Address)
    ensures
        exists|picked: Seq<int>|
            {
                &&& #[trigger] drawn_from(owed_by(invoices, buyer), invoices, picked)
                &&& picked.to_set() == places_of_buyer(invoices, buyer)
            },
        owed_by(invoices, buyer).len() == places_of_buyer(invoices, buyer).len(),
        forall|invoice: Invoice| #[trigger]
            owed_by(invoices, buyer).contains(invoice) <==> invoices.contains(invoice)
                && invoice.buyer == buyer,
{
    let wanted = |invoice: Invoice| invoice.buyer == buyer;
    let list = owed_by(invoices, buyer);
    let picked = places(invoices, wanted);
    lemma_filter_draws(invoices, wanted);
    lemma_places_counted(picked, invoices.len());
    assert(drawn_from(list, invoices, picked));
    assert(picked.to_set() =~= places_of_buyer(invoices, buyer));
    assert forall|invoice: Invoice| #[trigger] list.contains(invoice) <==> invoices.contains(invoice)
        && invoice.buyer == buyer by {
        lemma_drawn_contains(list, invoices, picked, wanted, invoice);
    }
}

/// The list of a status draws every invoice at that status once, whosever it is, in the order in
/// which they are stored, and no other.
pub proof fn lemma_status_list(invoices: Seq<Invoice>, status: InvoiceStatus)
    ensures
        exists|picked: Seq<int>|
            {
                &&& #[trigger] drawn_from(at_status(invoices, status), invoices, picked)
                &&& picked.to_set() == places_at_status(invoices, status)
            },
        at_status(invoices, status).len() == places_at_status(invoices, status).len(),
        forall|invoice: Invoice| #[trigger]
            at_status(invoices, status).contains(invoice) <==> invoices.contains(invoice)
                && invoice.status == status,
{
    let wanted = |invoice: Invoice| invoice.status == status;
    let list = at_status(invoices, status);
    let picked = places(invoices, wanted);
    lemma_filter_draws(invoices, wanted);
    lemma_places_counted(picked, invoices.len());
    assert(drawn_from(list, invoices, picked));
    assert(picked.to_set() =~= places_at_status(invoices, status));
    assert forall|invoice: Invoice| #[trigger] list.contains(invoice) <==> invoices.contains(invoice)
        && invoice.status == status by {
        lemma_drawn_contains(list, invoices, picked, wanted, invoice);
    }
}

proof fn lemma_drawn_contains(
    list: Seq<Invoice>,
    invoices: Seq<Invoice>,
    picked: Seq<int>,
    wanted: spec_fn(Invoice) -> bool,
    invoice: Invoice,
)
    requires
        drawn_from(list, invoices, picked),
        forall|i: int|
            0 <= i < invoices.len() ==> (wanted(#[trigger] invoices[i]) <==> picked.contains(i)),
    ensures
        list.contains(invoice) <==> invoices.contains(invoice) && wanted(invoice),
{
    if list.contains(invoice) {
        let k = choose|k: int| 0 <= k < list.len() && list[k] == invoice;
        assert(invoices[picked[k]] == invoice);
    }
    if invoices.contains(invoice) && wanted(invoice) {
        let i = choose|i: int| 0 <= i < invoices.len() && invoices[i] == invoice;
        let k = choose|k: int| 0 <= k < picked.len() && picked[k] == i;
        assert(list[k] == invoices[picked[k]]);
    }
}

/// No call about an invoice changes how many invoices are listed for an issuer or a buyer, and a
/// creation adds one to the list of its issuer and one to the list of its buyer.
pub proof fn lemma_lists_grow_by_creations(
    state: InvoiceState,
    ctx: Context,
    call: InvoiceCall,
    party: Address,
)
    ensures
        ({
            let after = state.after(ctx, call);
            let created = call is Create && state.refusal(ctx, call) is None;
            let issued: int = if created && call->terms.issuer == party {
                1
            } else {
                0
            };
            let owed: int = if created && call->terms.buyer == party {
                1
            } else {
                0
            };
            &&& issued_by(after.invoices, party).len() == issued_by(state.invoices, party).len()
                + issued
            &&& owed_by(after.invoices, party).len() == owed_by(state.invoices, party).len() + owed
        }),
{
    let after = state.after(ctx, call);
    lemma_issuer_list(state.invoices, party);
    lemma_issuer_list(after.invoices, party);
    lemma_buyer_list(state.invoices, party);
    lemma_buyer_list(after.invoices, party);
    if call is Create && state.refusal(ctx, call) is None {
        reveal(Seq::filter);
        assert(after.invoices.drop_last() =~= state.invoices);
    } else {
        assert(after.invoices.len() == state.invoices.len()) by {
            if state.refusal(ctx, call) is None && call.has_subject() {
                lemma_place(state.invoices, call.subject());
            }
        }
        assert forall|i: int| 0 <= i < state.invoices.len() implies (#[trigger] after.invoices[i]).issuer
            == state.invoices[i].issuer && after.invoices[i].buyer == state.invoices[i].buyer by {
            lemma_record_changes_by_its_own_call(state, ctx, call, i);
        }
        assert(places_of_issuer(after.invoices, party) =~= places_of_issuer(state.invoices, party));
        assert(places_of_buyer(after.invoices, party) =~= places_of_buyer(state.invoices, party));
    }
}

/// A registry is heard exactly if it is the one that is named and it verifies the party.
pub proof fn lemma_only_the_named_registry_is_heard<R: IdentityRegistry>(
    registry: Deployed<R>,
    named: Option<Address>,
    party: Address,
)
    ensures
        named is None ==> !registry.vouches(named, party),
        named matches Some(address) && address != registry.address ==> !registry.vouches(
            named,
            party,
        ),
        registry.vouches(Some(registry.address), party) == registry.contract.verifies(party),
{
}

/// An event is found by its name first and then by the invoice and the addresses it is about, in
/// their order; a creation carries the face value, a listing the discount, a window its length, and
/// the others nothing.
pub proof fn lemma_published_form(
    id: InvoiceId,
    issuer: Address,
    buyer: Address,
    funding_asset: Address,
    face_value: u128,
    discount_bps: u32,
    old_pool: Address,
    new_pool: Address,
    window: u64,
)
    ensures
        ({
            let event = Event::InvoiceCreated { id, issuer, buyer, funding_asset, face_value };
            &&& event.spec_symbol()@ == "invoice_created"@
            &&& event.topics() == seq![
                EventValue::Symbol("invoice_created"),
                EventValue::Id(id),
                EventValue::Party(issuer),
                EventValue::Party(buyer),
                EventValue::Party(funding_asset),
            ]
            &&& event.data() == EventValue::U128(face_value)
        }),
        ({
            let event = Event::InvoiceListed { id, discount_bps };
            &&& event.spec_symbol()@ == "invoice_listed"@
            &&& event.topics() == seq![EventValue::Symbol("invoice_listed"), EventValue::Id(id)]
            &&& event.data() == EventValue::U32(discount_bps)
        }),
        ({
            let event = Event::InvoiceRepaid { id };
            &&& event.spec_symbol()@ == "invoice_repaid"@
            &&& event.topics() == seq![EventValue::Symbol("invoice_repaid"), EventValue::Id(id)]
            &&& event.data() == EventValue::Void
        }),
        ({
            let event = Event::PoolContractUpdated { old_pool, new_pool };
            &&& event.spec_symbol()@ == "pool_contract_updated"@
            &&& event.topics() == seq![
                EventValue::Symbol("pool_contract_updated"),
                EventValue::Party(old_pool),
                EventValue::Party(new_pool),
            ]
            &&& event.data() == EventValue::Void
        }),
        ({
            let event = Event::ExpiryWindowSet { window };
            &&& event.spec_symbol()@ == "expiry_window_set"@
            &&& event.topics() == seq![EventValue::Symbol("expiry_window_set")]
            &&& event.data() == EventValue::U64(window)
        }),
{
}

/// An event can be read back from its topics and its data: two that are published alike are one.
pub proof fn lemma_published_form_tells_events_apart(one: Event, other: Event)
    requires
        one.topics() == other.topics(),
        one.data() == other.data(),
    ensures
        one == other,
{
    reveal_strlit("invoice_created");
    reveal_strlit("invoice_listed");
    reveal_strlit("invoice_repaid");
    reveal_strlit("pool_contract_updated");
    reveal_strlit("expiry_window_set");
    let (t, u) = (one.topics(), other.topics());
    assert(t[0] == EventValue::Symbol(one.spec_symbol()));
    assert(u[0] == EventValue::Symbol(other.spec_symbol()));
    assert(one.spec_symbol()@ == other.spec_symbol()@);
    assert(t.len() == u.len());
    assert(t.len() > 1 ==> t[1] == u[1]);
    assert(t.len() > 2 ==> t[2] == u[2]);
    assert(t.len() > 3 ==> t[3] == u[3]);
    assert(t.len() > 4 ==> t[4] == u[4]);
}

/// Callers can tell every error from every other by its number; only a missing consent has none.
pub proof fn lemma_codes_tell_errors_apart(one: InvoiceError, other: InvoiceError)
    ensures
        one.spec_code() is None <==> one == InvoiceError::AuthInvalidAction,
        one.spec_code() == other.spec_code() ==> one == other,
        one.spec_code() matches Some(code) ==> 1 <= code <= 17,
{
}

} // verus!
