//! A small multi-session shopping model: an immutable product catalog, a
//! shared balance with an atomic conditional withdraw, and an append-only
//! purchase log. The shared-state protocols are specified and verified here;
//! threads and terminal input live outside the library.

pub mod model;
pub mod pocket;
pub mod session;
pub mod store;
pub mod text;
pub mod wallet;

pub use pocket::Pocket;
pub use session::{SessionEnd, StepOutcome};
pub use store::{ShopError, Store};
pub use wallet::Wallet;
