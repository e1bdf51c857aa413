use vstd::prelude::*;
use crate::stream::{eof_error, ByteSource, StreamError};

verus! {

/// A value that can be decoded from the front of a byte source, with its
/// multi-byte fields read big-endian.
///
/// Each implementing type describes its decoding as two spec functions of
/// the unread bytes: the outcome, and how many bytes the decoding takes.
pub trait ParseFromStreamBE<T: ByteSource>: Sized {
    type Error;

    /// The outcome of decoding a value from the front of `input`.
    spec fn decoded(input: Seq<u8>) -> Result<Self, Self::Error>;

    /// How many bytes of `input` decoding takes, whether it succeeds or not.
    spec fn consumed(input: Seq<u8>) -> nat;

    fn from_istream(f: &mut T) -> (r: Result<Self, Self::Error>)
        requires
            old(f).inv(),
        ensures
            final(f).inv(),
            final(f).content() == old(f).content(),
            r == Self::decoded(old(f).unread()),
            final(f).pos() == old(f).pos() + Self::consumed(old(f).unread()),
            final(f).unread() == old(f).unread().skip(Self::consumed(old(f).unread()) as int),
    ;
}

/// The value of two bytes read as a big-endian 16-bit integer.
pub open spec fn be_u16(hi: u8, lo: u8) -> u16 {
    (hi as int * 256 + lo as int) as u16
}

/// The two big-endian bytes that encode `v`.
pub open spec fn be_bytes(v: u16) -> Seq<u8> {
    seq![(v / 256) as u8, (v % 256) as u8]
}

/// The outcome of reading one big-endian 16-bit field from the front of `input`.
pub open spec fn u16_field(input: Seq<u8>) -> Result<u16, StreamError> {
    if input.len() < 2 {
        Err(eof_error(2, input.len()))
    } else {
        Ok(be_u16(input[0], input[1]))
    }
}

/// How many bytes reading one 16-bit field from the front of `input` takes.
pub open spec fn u16_field_len(input: Seq<u8>) -> nat {
    if input.len() < 2 {
        0
    } else {
        2
    }
}

impl<T: ByteSource> ParseFromStreamBE<T> for u16 {
    type Error = StreamError;

    open spec fn decoded(input: Seq<u8>) -> Result<u16, StreamError> {
        u16_field(input)
    }

    open spec fn consumed(input: Seq<u8>) -> nat {
        u16_field_len(input)
    }

    fn from_istream(f: &mut T) -> (r: Result<u16, StreamError>) {
        match f.read_exact(2) {
            Ok(b) => {
                let hi = b[0] as u16;
                let lo = b[1] as u16;
                Ok(hi * 256 + lo)
            },
            Err(e) => Err(e),
        }
    }
}


/// How the tracks of a MIDI file are laid out, as its header declares.
#[derive(Debug, Clone, Copy, PartialEq, Eq, Structural)]
pub enum MidiType {
    /// One single track in one single chunk; the count is always 1.
    Clip(u16),
    /// Chunks represent parallel channels, played together.
    MultiTrack(u16),
    /// Chunks represent sequential segments of one channel.
    SequentialTrack(u16),
}

/// Why the header's format and track count could not be decoded.
#[derive(Debug, Clone, Copy, PartialEq, Eq, Structural)]
pub enum ParseMidiTypeErr {
    /// The stream ran out before a field was complete.
    IoErr(StreamError),
    /// The format selector lies outside the valid range: the lowest and
    /// highest valid values, then the value found.
    OutOfBoundsErr(u16, u16, u16),
    /// Format 0 declares a single track but the count says otherwise; the
    /// count found.
    MidiFormatErr(u16),
}

/// The highest format selector that has a meaning.
pub const MAX_FORMAT: u16 = 2;

/// The layout that a format selector in range and a track count stand for.
pub open spec fn classify(format: u16, count: u16) -> Result<MidiType, ParseMidiTypeErr> {
    if format == 0 {
        if count == 1 {
            Ok(MidiType::Clip(1))
        } else {
            Err(ParseMidiTypeErr::MidiFormatErr(count))
        }
    } else if format == 1 {
        Ok(MidiType::MultiTrack(count))
    } else {
        Ok(MidiType::SequentialTrack(count))
    }
}

/// The outcome of decoding the format selector and then the track count
/// from the front of `input`. The count is not read when the selector is
/// out of range.
pub open spec fn midi_type_decoded(input: Seq<u8>) -> Result<MidiType, ParseMidiTypeErr> {
    match u16_field(input) {
        Err(e) => Err(ParseMidiTypeErr::IoErr(e)),
        Ok(format) => if format > MAX_FORMAT {
            Err(ParseMidiTypeErr::OutOfBoundsErr(0, MAX_FORMAT, format))
        } else {
            match u16_field(input.skip(2)) {
                Err(e) => Err(ParseMidiTypeErr::IoErr(e)),
                Ok(count) => classify(format, count),
            }
        },
    }
}

/// How many bytes of `input` decoding the format and the count takes.
pub open spec fn midi_type_len(input: Seq<u8>) -> nat {
    match u16_field(input) {
        Err(_) => 0,
        Ok(format) => if format > MAX_FORMAT {
            2
        } else {
            2 + u16_field_len(input.skip(2))
        },
    }
}

impl<T: ByteSource> ParseFromStreamBE<T> for MidiType {
    type Error = ParseMidiTypeErr;

    open spec fn decoded(input: Seq<u8>) -> Result<MidiType, ParseMidiTypeErr> {
        midi_type_decoded(input)
    }

    open spec fn consumed(input: Seq<u8>) -> nat {
        midi_type_len(input)
    }

    fn from_istream(f: &mut T) -> (r: Result<MidiType, ParseMidiTypeErr>) {
        let ghost input = f.unread();
        let format = match <u16 as ParseFromStreamBE<T>>::from_istream(f) {
            Ok(v) => v,
            Err(e) => {
                return Err(ParseMidiTypeErr::IoErr(e));
            },
        };
        if format > MAX_FORMAT {
            return Err(ParseMidiTypeErr::OutOfBoundsErr(0, MAX_FORMAT, format));
        }
        let count = match <u16 as ParseFromStreamBE<T>>::from_istream(f) {
            Ok(v) => v,
            Err(e) => {
                proof {
                    assert(f.unread() =~= input.skip(2));
                }
                return Err(ParseMidiTypeErr::IoErr(e));
            },
        };
        proof {
            assert(f.unread() =~= input.skip(4));
        }
        if format == 0 {
            if count != 1 {
                Err(ParseMidiTypeErr::MidiFormatErr(count))
            } else {
                Ok(MidiType::Clip(1))
            }
        } else if format == 1 {
            Ok(MidiType::MultiTrack(count))
        } else {
            Ok(MidiType::SequentialTrack(count))
        }
    }
}


/// Why a header chunk could not be read.
#[derive(Debug, Clone, Copy, PartialEq, Eq, Structural)]
pub enum ParseHeaderErr {
    /// The stream ended before the four bytes of the chunk tag.
    MagicRead(StreamError),
    /// The chunk tag is not `MThd`.
    NoMidiHeader,
    /// The stream ended inside the header-length field.
    Seek(StreamError),
    /// The format and track count could not be decoded.
    Type(ParseMidiTypeErr),
}

/// The tag `MThd` that opens a MIDI header chunk.
pub open spec fn midi_magic() -> Seq<u8> {
    seq![0x4Du8, 0x54u8, 0x68u8, 0x64u8]
}

/// The outcome of reading a header chunk from the front of `input`: the
/// tag, a four-byte length that is skipped unread, then the format and the
/// track count.
pub open spec fn header_decoded(input: Seq<u8>) -> Result<MidiType, ParseHeaderErr> {
    if input.len() < 4 {
        Err(ParseHeaderErr::MagicRead(eof_error(4, input.len())))
    } else if input.take(4) != midi_magic() {
        Err(ParseHeaderErr::NoMidiHeader)
    } else if input.len() < 8 {
        Err(ParseHeaderErr::Seek(eof_error(4, (input.len() - 4) as nat)))
    } else {
        match midi_type_decoded(input.skip(8)) {
            Ok(t) => Ok(t),
            Err(e) => Err(ParseHeaderErr::Type(e)),
        }
    }
}

/// Reads the header chunk at the start of a MIDI file.
pub struct MidiParser {}

impl MidiParser {
    /// Checks the `MThd` tag, skips the header-length field without reading
    /// it, and decodes the file's track layout.
    pub fn read_header<T: ByteSource>(f: &mut T) -> (r: Result<MidiType, ParseHeaderErr>)
        requires
            old(f).inv(),
        ensures
            final(f).inv(),
            final(f).content() == old(f).content(),
            r == header_decoded(old(f).unread()),
            old(f).pos() <= final(f).pos() <= old(f).pos() + 12,
            r is Ok ==> final(f).pos() == old(f).pos() + 12 && final(f).unread() == old(
                f,
            ).unread().skip(12),
    {
        let ghost input = f.unread();
        let tag = match f.read_exact(4) {
            Ok(b) => b,
            Err(e) => {
                return Err(ParseHeaderErr::MagicRead(e));
            },
        };
        if !(tag[0] == 0x4D && tag[1] == 0x54 && tag[2] == 0x68 && tag[3] == 0x64) {
            proof {
                assert(tag@ != midi_magic() ==> input.take(4) != midi_magic());
            }
            return Err(ParseHeaderErr::NoMidiHeader);
        }
        proof {
            assert(tag@ =~= midi_magic());
        }
        match f.seek_relative(4) {
            Ok(()) => {},
            Err(e) => {
                return Err(ParseHeaderErr::Seek(e));
            },
        }
        proof {
            assert(f.unread() =~= input.skip(8));
        }
        match <MidiType as ParseFromStreamBE<T>>::from_istream(f) {
            Ok(t) => {
                proof {
                    assert(f.unread() =~= input.skip(12));
                }
                Ok(t)
            },
            Err(e) => Err(ParseHeaderErr::Type(e)),
        }
    }
}

} // verus!
