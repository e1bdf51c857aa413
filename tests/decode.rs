use midi_header::{
    ByteSource, ByteStream, MidiParser, MidiType, ParseFromStreamBE, ParseHeaderErr,
    ParseMidiTypeErr, StreamError,
};

fn midi_type_of(bytes: Vec<u8>) -> Result<MidiType, ParseMidiTypeErr> {
    let mut s = ByteStream::new(bytes);
    <MidiType as ParseFromStreamBE<ByteStream>>::from_istream(&mut s)
}

fn u16_of(s: &mut ByteStream) -> Result<u16, StreamError> {
    <u16 as ParseFromStreamBE<ByteStream>>::from_istream(s)
}

#[test]
fn u16_round_trip_and_advance() {
    for v in [0u16, 1, 2, 0x00FF, 0x0100, 0x1234, 0xABCD, 0xFFFE, 0xFFFF] {
        let mut bytes = v.to_be_bytes().to_vec();
        bytes.push(0x77);
        let mut s = ByteStream::new(bytes);
        assert_eq!(u16_of(&mut s), Ok(v));
        assert_eq!(s.position(), 2);
        assert_eq!(s.remaining_len(), 1);
    }
}

#[test]
fn u16_reads_big_endian() {
    let mut s = ByteStream::new(vec![0x12, 0x34, 0x56, 0x78]);
    assert_eq!(u16_of(&mut s), Ok(0x1234));
    assert_eq!(u16_of(&mut s), Ok(0x5678));
    assert_eq!(s.position(), 4);
}

#[test]
fn u16_short_read_is_an_error() {
    let mut s = ByteStream::new(vec![0x12]);
    assert_eq!(
        u16_of(&mut s),
        Err(StreamError::UnexpectedEof { requested: 2, available: 1 })
    );
    assert_eq!(s.position(), 0);
    let mut empty = ByteStream::new(vec![]);
    assert_eq!(
        u16_of(&mut empty),
        Err(StreamError::UnexpectedEof { requested: 2, available: 0 })
    );
}

#[test]
fn format_zero_single_track_is_clip() {
    let mut s = ByteStream::new(vec![0x00, 0x00, 0x00, 0x01]);
    let r = <MidiType as ParseFromStreamBE<ByteStream>>::from_istream(&mut s);
    assert_eq!(r, Ok(MidiType::Clip(1)));
    assert_eq!(s.position(), 4);
}

#[test]
fn format_zero_other_counts_are_rejected() {
    assert_eq!(
        midi_type_of(vec![0x00, 0x00, 0x00, 0x02]),
        Err(ParseMidiTypeErr::MidiFormatErr(2))
    );
    assert_eq!(
        midi_type_of(vec![0x00, 0x00, 0x00, 0x00]),
        Err(ParseMidiTypeErr::MidiFormatErr(0))
    );
    assert_eq!(
        midi_type_of(vec![0x00, 0x00, 0x01, 0x01]),
        Err(ParseMidiTypeErr::MidiFormatErr(0x0101))
    );
}

#[test]
fn format_one_accepts_every_count() {
    assert_eq!(midi_type_of(vec![0x00, 0x01, 0x00, 0x00]), Ok(MidiType::MultiTrack(0)));
    assert_eq!(midi_type_of(vec![0x00, 0x01, 0x00, 0x01]), Ok(MidiType::MultiTrack(1)));
    assert_eq!(
        midi_type_of(vec![0x00, 0x01, 0xFF, 0xFF]),
        Ok(MidiType::MultiTrack(0xFFFF))
    );
}

#[test]
fn format_two_is_sequential() {
    assert_eq!(
        midi_type_of(vec![0x00, 0x02, 0x00, 0x03]),
        Ok(MidiType::SequentialTrack(3))
    );
    assert_eq!(
        midi_type_of(vec![0x00, 0x02, 0x00, 0x00]),
        Ok(MidiType::SequentialTrack(0))
    );
}

#[test]
fn format_out_of_range_is_rejected() {
    let mut s = ByteStream::new(vec![0x00, 0x03, 0x00, 0x00]);
    let r = <MidiType as ParseFromStreamBE<ByteStream>>::from_istream(&mut s);
    assert_eq!(r, Err(ParseMidiTypeErr::OutOfBoundsErr(0, 2, 3)));
    // the count is not read once the selector is known to be invalid
    assert_eq!(s.position(), 2);
    assert_eq!(
        midi_type_of(vec![0xFF, 0xFF]),
        Err(ParseMidiTypeErr::OutOfBoundsErr(0, 2, 0xFFFF))
    );
}

#[test]
fn truncated_input_is_an_io_error() {
    assert_eq!(
        midi_type_of(vec![]),
        Err(ParseMidiTypeErr::IoErr(StreamError::UnexpectedEof { requested: 2, available: 0 }))
    );
    assert_eq!(
        midi_type_of(vec![0x00]),
        Err(ParseMidiTypeErr::IoErr(StreamError::UnexpectedEof { requested: 2, available: 1 }))
    );
    assert_eq!(
        midi_type_of(vec![0x00, 0x01, 0x05]),
        Err(ParseMidiTypeErr::IoErr(StreamError::UnexpectedEof { requested: 2, available: 1 }))
    );
    assert_eq!(
        midi_type_of(vec![0x00, 0x00]),
        Err(ParseMidiTypeErr::IoErr(StreamError::UnexpectedEof { requested: 2, available: 0 }))
    );
}

#[test]
fn failure_repeats_on_independent_streams() {
    let malformed: Vec<Vec<u8>> = vec![
        vec![0x00, 0x00, 0x00, 0x02],
        vec![0x00, 0x03, 0x00, 0x00],
        vec![0x00, 0x01, 0x00],
    ];
    for bytes in malformed {
        let first = midi_type_of(bytes.clone());
        let second = midi_type_of(bytes);
        assert!(first.is_err());
        assert_eq!(first, second);
    }
    // a stream that has already read other bytes gives the same outcome
    let mut s = ByteStream::new(vec![0xAA, 0xBB, 0x00, 0x00, 0x00, 0x02]);
    assert_eq!(s.seek_relative(2), Ok(()));
    let r = <MidiType as ParseFromStreamBE<ByteStream>>::from_istream(&mut s);
    assert_eq!(r, midi_type_of(vec![0x00, 0x00, 0x00, 0x02]));
}

#[test]
fn read_exact_and_seek() {
    let mut s = ByteStream::new(vec![1, 2, 3, 4, 5]);
    assert_eq!(s.read_exact(2), Ok(vec![1, 2]));
    assert_eq!(
        s.seek_relative(4),
        Err(StreamError::UnexpectedEof { requested: 4, available: 3 })
    );
    assert_eq!(s.position(), 2);
    assert_eq!(s.seek_relative(1), Ok(()));
    assert_eq!(s.read_exact(2), Ok(vec![4, 5]));
    assert_eq!(s.remaining_len(), 0);
    assert_eq!(s.read_exact(0), Ok(vec![]));
    assert_eq!(
        s.read_exact(1),
        Err(StreamError::UnexpectedEof { requested: 1, available: 0 })
    );
}

fn header(format: u16, count: u16) -> Vec<u8> {
    let mut v = b"MThd".to_vec();
    v.extend_from_slice(&[0, 0, 0, 6]);
    v.extend_from_slice(&format.to_be_bytes());
    v.extend_from_slice(&count.to_be_bytes());
    v.extend_from_slice(&[0x00, 0x60]);
    v
}

#[test]
fn header_of_each_format() {
    let mut s = ByteStream::new(header(0, 1));
    assert_eq!(MidiParser::read_header(&mut s), Ok(MidiType::Clip(1)));
    assert_eq!(s.position(), 12);
    let mut s = ByteStream::new(header(1, 4));
    assert_eq!(MidiParser::read_header(&mut s), Ok(MidiType::MultiTrack(4)));
    let mut s = ByteStream::new(header(2, 7));
    assert_eq!(MidiParser::read_header(&mut s), Ok(MidiType::SequentialTrack(7)));
}

#[test]
fn header_errors() {
    let mut s = ByteStream::new(b"MTh".to_vec());
    assert_eq!(
        MidiParser::read_header(&mut s),
        Err(ParseHeaderErr::MagicRead(StreamError::UnexpectedEof { requested: 4, available: 3 }))
    );
    let mut s = ByteStream::new(b"RIFF\0\0\0\x06\0\0\0\x01".to_vec());
    assert_eq!(MidiParser::read_header(&mut s), Err(ParseHeaderErr::NoMidiHeader));
    let mut s = ByteStream::new(b"MThd\0\0".to_vec());
    assert_eq!(
        MidiParser::read_header(&mut s),
        Err(ParseHeaderErr::Seek(StreamError::UnexpectedEof { requested: 4, available: 2 }))
    );
    let mut s = ByteStream::new(header(0, 3));
    assert_eq!(
        MidiParser::read_header(&mut s),
        Err(ParseHeaderErr::Type(ParseMidiTypeErr::MidiFormatErr(3)))
    );
    let mut s = ByteStream::new(header(5, 1));
    assert_eq!(
        MidiParser::read_header(&mut s),
        Err(ParseHeaderErr::Type(ParseMidiTypeErr::OutOfBoundsErr(0, 2, 5)))
    );
}
