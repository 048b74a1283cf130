//! Authorization and versioning of structured data records.
//!
//! A record ([`Data`]) is made of an immutable identity ([`FixedAttributes`]),
//! a replaceable set of attributes that names its owners
//! ([`MutableAttributes`]) and a bounded history of versions ([`Ledger`]). A
//! change to a record is accepted only when enough of its owners have signed
//! it, and a new version only when it continues the history without a gap.
//!
//! Every operation takes a snapshot and gives back a new one: nothing is
//! changed in place, and a rejected change leaves the snapshot as it was.

pub mod authorization;
pub mod error;
pub mod identity;
pub mod ledger;
pub mod policy;
pub mod record;
pub mod signature;

pub use authorization::{authorize, check_evidence, tally, Attestation, AuthorizationResult};
pub use error::{CreationError, MutationError};
pub use identity::FixedAttributes;
pub use ledger::{Appended, Ledger, Version};
pub use policy::{KeyAndWeight, MutableAttributes};
pub use record::{Applied, Data, Mutation, DEFAULT_SIZE_LIMIT};
pub use signature::{verify_entry, KeyAndSignature, PUBLIC_KEY_BYTES, SIGNATURE_BYTES};
