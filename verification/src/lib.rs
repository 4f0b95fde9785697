pub mod account;
pub mod constants;
pub mod error;
pub mod identity;
pub mod state;

pub use account::{GlobalPool, RafflePool};
pub use constants::{MAX_ENTRANTS, MAX_WINNERS};
pub use error::RaffleError;
pub use identity::Identity;
pub use state::{RaffleConfig, RaffleState};
