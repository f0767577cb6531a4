pub mod client;
pub mod error;

pub use self::client::Candidate;
pub use self::client::MercurialClient;
pub use self::client::MercurialResult;
pub use self::error::MercurialError;
pub use self::error::MercurialFailure;
