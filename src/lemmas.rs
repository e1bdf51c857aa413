use vstd::prelude::*;
use crate::midi_parser::{
    be_bytes, be_u16, classify, midi_type_decoded, midi_type_len, u16_field, u16_field_len, MidiType,
    ParseMidiTypeErr, MAX_FORMAT,
};
use crate::stream::{eof_error, StreamError};

verus! {

/// A 16-bit value written as two big-endian bytes reads back as itself, and
/// the read takes exactly those two bytes, whatever follows them.
pub proof fn lemma_u16_round_trip(v: u16, rest: Seq<u8>)
    ensures
        u16_field(be_bytes(v) + rest) == Ok::<u16, StreamError>(v),
        u16_field_len(be_bytes(v) + rest) == 2,
{
    let input = be_bytes(v) + rest;
    assert(input[0] == (v / 256) as u8 && input[1] == (v % 256) as u8);
    assert(be_u16((v / 256) as u8, (v % 256) as u8) == v);
}

/// Format 0 is a single track: it is accepted with a count of 1 and
/// rejected as inconsistent with any other count.
pub proof fn lemma_single_track(count: u16, rest: Seq<u8>)
    ensures
        midi_type_decoded(be_bytes(0) + be_bytes(count) + rest) == if count == 1 {
            Ok::<MidiType, ParseMidiTypeErr>(MidiType::Clip(1))
        } else {
            Err::<MidiType, ParseMidiTypeErr>(ParseMidiTypeErr::MidiFormatErr(count))
        },
        midi_type_len(be_bytes(0) + be_bytes(count) + rest) == 4,
{
    lemma_fields(0, count, rest);
}

/// Format 1 accepts every track count, zero included.
pub proof fn lemma_multi_track_any_count(count: u16, rest: Seq<u8>)
    ensures
        midi_type_decoded(be_bytes(1) + be_bytes(count) + rest) == Ok::<
            MidiType,
            ParseMidiTypeErr,
        >(MidiType::MultiTrack(count)),
        midi_type_len(be_bytes(1) + be_bytes(count) + rest) == 4,
{
    lemma_fields(1, count, rest);
}

/// Format 2 is a sequence of chunks, whatever their count.
pub proof fn lemma_sequential_any_count(count: u16, rest: Seq<u8>)
    ensures
        midi_type_decoded(be_bytes(2) + be_bytes(count) + rest) == Ok::<
            MidiType,
            ParseMidiTypeErr,
        >(MidiType::SequentialTrack(count)),
        midi_type_len(be_bytes(2) + be_bytes(count) + rest) == 4,
{
    lemma_fields(2, count, rest);
}

/// A format selector above 2 is rejected with the valid range and the value
/// found, before the count is read.
pub proof fn lemma_out_of_range(format: u16, rest: Seq<u8>)
    requires
        format > 2,
    ensures
        midi_type_decoded(be_bytes(format) + rest) == Err::<MidiType, ParseMidiTypeErr>(
            ParseMidiTypeErr::OutOfBoundsErr(0, 2, format),
        ),
        midi_type_len(be_bytes(format) + rest) == 2,
{
    lemma_u16_round_trip(format, rest);
}

/// A field read that finds fewer than two bytes left fails with an I/O
/// error, and no layout is produced.
pub proof fn lemma_truncated(input: Seq<u8>)
    ensures
        input.len() < 2 ==> u16_field(input) == Err::<u16, StreamError>(
            eof_error(2, input.len()),
        ),
        input.len() < 2 ==> midi_type_decoded(input) == Err::<MidiType, ParseMidiTypeErr>(
            ParseMidiTypeErr::IoErr(eof_error(2, input.len())),
        ),
        2 <= input.len() < 4 && be_u16(input[0], input[1]) <= 2 ==> midi_type_decoded(input)
            == Err::<MidiType, ParseMidiTypeErr>(
            ParseMidiTypeErr::IoErr(eof_error(2, (input.len() - 2) as nat)),
        ),
{
}

/// A field read moves at most two bytes forward, and exactly two when it
/// succeeds; decoding the layout moves at most four, and exactly four when
/// it succeeds.
pub proof fn lemma_bytes_taken(input: Seq<u8>)
    ensures
        u16_field_len(input) <= 2,
        u16_field(input) is Ok ==> u16_field_len(input) == 2,
        midi_type_len(input) <= 4,
        midi_type_decoded(input) is Ok ==> midi_type_len(input) == 4,
{
}

/// Decoding depends on the two header fields alone: two inputs that agree
/// on their first four bytes give the same outcome, the same error when they
/// are malformed, and take the same number of bytes.
pub proof fn lemma_same_fields_same_outcome(a: Seq<u8>, b: Seq<u8>)
    requires
        a.len() >= 4,
        b.len() >= 4,
        a.take(4) == b.take(4),
    ensures
        midi_type_decoded(a) == midi_type_decoded(b),
        midi_type_len(a) == midi_type_len(b),
{
    assert(a[0] == a.take(4)[0] && a[1] == a.take(4)[1]);
    assert(a[2] == a.take(4)[2] && a[3] == a.take(4)[3]);
    assert(b[0] == b.take(4)[0] && b[1] == b.take(4)[1]);
    assert(b[2] == b.take(4)[2] && b[3] == b.take(4)[3]);
}

/// The two fields of a header, written big-endian and followed by anything,
/// decode to the layout that they stand for.
proof fn lemma_fields(format: u16, count: u16, rest: Seq<u8>)
    requires
        format <= MAX_FORMAT,
    ensures
        midi_type_decoded(be_bytes(format) + be_bytes(count) + rest)
            == classify(format, count),
        midi_type_len(be_bytes(format) + be_bytes(count) + rest) == 4,
{
    let input = be_bytes(format) + be_bytes(count) + rest;
    assert(input =~= be_bytes(format) + (be_bytes(count) + rest));
    lemma_u16_round_trip(format, be_bytes(count) + rest);
    assert(input.skip(2) =~= be_bytes(count) + rest);
    lemma_u16_round_trip(count, rest);
}

} // verus!
