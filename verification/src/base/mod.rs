//! What the other modules build on.
pub mod clock;
pub mod counter;
pub mod ids;
pub mod order;
pub mod ranks;
pub mod scalar;
pub mod settings;
pub mod table;
pub mod text;
