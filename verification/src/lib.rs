//! Paired-owner authorization for a custodial account.
//!
//! A contract holds a registry of up to five slots. A slot names one owner,
//! who acts alone, or two owners, who must confirm within a short window of
//! each other. Owners unlock temporary credentials, which lapse after a fixed
//! lifetime, and withdraw funds.

pub mod contract;
pub mod credentials;
pub mod error;
pub mod fee;
pub mod registry;
pub mod slot;
pub mod text;

pub use crate::contract::Contract;
pub use crate::credentials::{CredentialSet, TemporaryCredential};
pub use crate::error::{ConfigurationFault, ContractError};
pub use crate::registry::Registry;
pub use crate::slot::{Owner, Slot};
