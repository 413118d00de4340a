//! A price-level order book.
//!
//! Prices and sizes are whole counts of a unit that the caller picks, such as a
//! hundred-millionth. The book keeps one level per price tick and side, checks
//! every update against the sequence number of the level it would replace, and
//! remembers the best bid and the best ask.
pub mod effects;
pub mod event;
pub mod ladder;
pub mod laws;
pub mod level;
pub mod mid;
pub mod model;
pub mod orderbook;
pub mod side;

pub use event::{Event, TickSizingStrategy};
pub use level::Level;
pub use mid::MidPrice;
pub use orderbook::Orderbook;
pub use side::BookSide;
