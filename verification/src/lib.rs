//! Translate LilyPond-style music notation into Strudel pattern code.
//!
//! The pipeline: preprocess the raw text (brace extraction, repeat marking,
//! variable resolution), tokenize each staff region, parse tokens into typed
//! pitched or percussive events, assemble staves from the score block, and
//! generate the target pattern expression with numeric timing derived from
//! the reconstructed bar structure.

pub mod braces;
pub mod chars;
pub mod drums;
pub mod emit;
pub mod events;
pub mod fmt;
pub mod laws;
pub mod notes;
pub mod pattern;
pub mod prep;
pub mod score;
pub mod section;
pub mod sequencer;
pub mod tempo;
pub mod tokenize;
pub mod vars;

pub use events::DrumEvent;
pub use events::DrumHit;
pub use events::DrumVoiceData;
pub use events::Note;
pub use events::ParseResult;
pub use events::PitchedEvent;
pub use events::Staff;
pub use events::StaffContent;
pub use events::StaffKind;
pub use events::Tempo;
pub use emit::StrudelGenerator;
pub use score::LilyPondParser;
