//! A predicate contract guarding atomic two-party token trades.
//!
//! The library has two components: a one-time initialization guard over the
//! contract instance's persistent key-value storage, and a trade equality
//! validator that accepts an invocation's attached transfers exactly when
//! they match the caller-configured trade terms, leg by leg and in order.

pub mod assets;
pub mod dispatch;
pub mod predicate;
pub mod response;
pub mod storage;

pub use assets::AssetId;
pub use assets::Transfer;
pub use assets::STANDARD_NAMESPACE;
pub use dispatch::Operation;
pub use predicate::init_key;
pub use predicate::EqualityPredicate;
pub use predicate::EqualityPredicateAlkane;
pub use predicate::PredicateError;
pub use response::CallResponse;
pub use storage::KeyValueStore;
