//! A discrete-event simulation engine in the DEVS formalism.
//!
//! A simulation couples a collection of models through directed, port-to-port
//! connectors.  Each step delivers the pending messages to their target models,
//! advances simulated time to the next scheduled event, fires the models that
//! are due, and routes what they emit into the next wave of pending messages.
//!
//! Every function here carries a contract over a mathematical model of the
//! simulation, and the stepping functions are proved equal to the transition
//! function defined in [`simulator::semantics`].

pub mod checker;
pub mod models;
pub mod report;
pub mod simulator;
pub mod text;
pub mod time;
pub mod utils;

pub use time::Time;
