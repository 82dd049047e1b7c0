//! Live player-count collection for a game server's remote console,
//! republished in a pull-based plain-text metrics format.
//!
//! The verified core covers the three rules the exporter lives by:
//! extracting a player count from a free-form console reply, rendering a
//! snapshot as exposition text, and the connect/authenticate retry policy
//! used while constructing a collector.

pub mod error;
pub mod factorio;
pub mod metrics;
pub mod session;
pub mod text;

pub use error::Error;
pub use metrics::Metrics;
pub use metrics::MetricsCollector;
pub use factorio::FactorioOpts;
pub use factorio::parse_player_count;
pub use session::SessionAction;
pub use session::SessionEvent;
pub use session::SessionState;
pub use session::step;
