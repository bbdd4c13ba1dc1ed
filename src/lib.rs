//! Token-authenticated state store with a live listener registry.
pub mod channel;
pub mod guard;
pub mod laws;
pub mod report;
pub mod state;
pub mod stream;
pub mod thread;
pub mod token;
pub mod user;

pub use report::{Priority, Report, ReportDetails};
pub use thread::Thread;
pub use user::{AccessLevel, ToStrUser, User};
pub use guard::{AuthError, UserGuard};
pub use state::{Listener, PingLoop, RegisterError, State};
pub use stream::{InfallibleStream, StreamPayload};
pub use token::{generate_epicos_tokens, lower_hex, token_for};
