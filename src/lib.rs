//! Decoding of the structural shape of a MIDI file from its header chunk.
//!
//! The library reads big-endian fixed-width fields from a forward byte
//! source and classifies the file's track layout from the header's format
//! selector and track count.
pub mod lemmas;
pub mod midi_parser;
pub mod stream;

pub use midi_parser::{MidiParser, MidiType, ParseFromStreamBE, ParseHeaderErr, ParseMidiTypeErr};
pub use stream::{ByteSource, ByteStream, StreamError};
