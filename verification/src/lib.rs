//! A byte-oriented styled-text engine.
//!
//! A [`StyledText`] holds raw bytes with inline markup and a stack of
//! baseline effects. The markup (`<bold>`, `</bold>`, `<<`, `>>`, `<h1>`,
//! `==highlight==`, `:token:`, `$token`) is either rendered into ANSI escape
//! sequences or stripped to the visible characters. Every function states
//! what it computes over sequences of bytes and is proved against that
//! statement.
//!
//! The modules, leaves first:
//!
//! - [`bytes`]: byte constants and searching in byte sequences
//! - [`buffer`]: [`ByteBuffer`], bytes with an explicitly reserved capacity
//! - [`effect`]: [`StyleEffect`], the closed set of effects and their codes
//! - [`stack`]: [`EffectStack`], the effects that are switched on
//! - [`lexicon`]: [`LexiconToken`], the tokens that stand for a banner
//! - [`markup`]: the grammar, and the scanner that reads it
//! - [`render`]: rendering and stripping
//! - [`text`], [`ops`], [`order`], [`distance`]: [`StyledText`] and its
//!   operations
//! - [`ansi`]: what of a rendered text is visible
//! - [`theorems`]: what holds of the engine as a whole
//! - [`help`], [`command`], [`usage_error`], [`launch`], [`notify`]: the texts
//!   and decisions of the command line that is built on the engine
pub mod ansi;
pub mod buffer;
pub mod bytes;
pub mod command;
pub mod distance;
pub mod effect;
pub mod help;
pub mod launch;
pub mod lexicon;
pub mod markup;
pub mod notify;
pub mod ops;
pub mod order;
pub mod render;
pub mod stack;
pub mod text;
pub mod theorems;
pub mod usage_error;

pub use buffer::{ByteBuffer, CapacityError};
pub use effect::StyleEffect;
pub use lexicon::LexiconToken;
pub use render::MarkupError;
pub use stack::EffectStack;
pub use text::{InvalidUtf8, StyledText};
