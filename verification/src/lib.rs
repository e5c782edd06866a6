//! Invoice financing on a ledger: the contract that carries an invoice from creation to
//! repayment, the registry of the parties that may trade, and small stand-ins for the token,
//! pool and registry contracts that it works with.
pub mod address;
pub mod conduct;
pub mod constants;
pub mod contract;
pub mod fixture;
pub mod invoice;
pub mod invoice_id;
pub mod laws;
pub mod mock_registry;
pub mod model;
pub mod pool;
pub mod registry;
pub mod table;
pub mod token;
