//! Configurable key combinations for terminal applications: a canonical
//! model of one to three simultaneously held keys with modifiers, a parser
//! and a formatter for their textual form, and a combiner turning raw key
//! events into combinations.

pub mod combiner;
pub mod format;
pub mod key_code;
pub mod key_combination;
pub mod key_event;
pub mod one_to_three;
pub mod parse;
pub mod round_trip;
pub mod text;

pub use combiner::{is_key_simple, Combiner};
pub use format::{FormattedKeyCombination, KeyCombinationFormat};
pub use key_code::{KeyCode, MediaKeyCode, ModifierKeyCode};
pub use key_combination::{normalize_key_code, EmptyCombinationError, KeyCombination};
pub use key_event::{as_letter, KeyEvent, KeyEventKind, KeyModifiers};
pub use one_to_three::OneToThree;
pub use parse::{parse, parse_key_code, ParseKeyError};
