//! A funding pool that accepts whatever it is told.
use vstd::prelude::*;

use crate::address::Address;
use crate::invoice_id::InvoiceId;

verus! {

/// A pool that holds the address of its asset and acknowledges every notice.
pub struct MockPool {
    pub asset: Option<Address>,
}

impl MockPool {
    /// Takes note that an invoice has defaulted.
    pub fn handle_default(&self, _invoice_id: &InvoiceId) -> (acknowledged: bool)
        ensures
            acknowledged,
    {
        true
    }

    /// Takes note that `_amount` has been repaid on an invoice.
    pub fn receive_repayment(&self, _invoice_id: &InvoiceId, _amount: u128) -> (acknowledged: bool)
        ensures
            acknowledged,
    {
        true
    }

    /// The asset that the pool funds in. It must have been set.
    pub fn get_usdc_asset(&self) -> (asset: Address)
        requires
            self.asset is Some,
        ensures
            Some(asset) == self.asset,
    {
        self.asset.unwrap()
    }

    /// Takes note that an invoice has been repaid in full and that a part goes back to its buyer.
    pub fn receive_repayment_with_refund(
        &self,
        _invoice_id: &InvoiceId,
        _face_value: u128,
        _refund_to_buyer: u128,
        _buyer: &Address,
    ) -> (acknowledged: bool)
        ensures
            acknowledged,
    {
        true
    }
}

} // verus!
