pub mod change;
pub mod client;
pub mod error;

pub use self::change::Change;
pub use self::change::ChangeDraft;
pub use self::client::PerforceClient;
pub use self::client::PerforceResult;
pub use self::error::PerforceError;
pub use self::error::PerforceFailure;
