//! What the chat platform sends: the options of commands and the ids of buttons.

pub mod fx;
pub mod intent;

pub use fx::{option_fx, FxArgument, OptionValue, RandomMessage};
pub use intent::{CustomIDParseError, MessageComponentIntent};
