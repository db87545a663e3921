//! Time-derived sources for a reactive dataflow graph: a drift-compensating
//! ticker, the clock readings that drive it, and the discrete integration
//! step that consumes its ticks.

pub mod duration;
pub mod integrator;
pub mod ticker;
pub mod timestamp;

pub use duration::Duration;
pub use integrator::integrate_events;
pub use integrator::integrate_step;
pub use ticker::Action;
pub use ticker::Ticker;
pub use ticker::TickerError;
pub use ticker::TickerModel;
pub use timestamp::Timestamp;
