use annexb::byte_stream::ByteStream;
use annexb::errors::{ByteStreamError, DecodingError, ErrorKind};
use annexb::matcher::find_pattern;

const MARKER: [u8; 4] = [0x00, 0x00, 0x00, 0x01];

#[test]
fn test_preprocess_basic() -> Result<(), ByteStreamError> {
    let data = vec![
        0x00, 0x00, 0x00, 0x00, 0x00, 0x00, 0x00, 0x00, // 8,
        0x00, 0x00, 0x00, 0x00, 0x00, 0x00, 0x00, 0x00, // 8,
        0x01, 0x00, 0x00, 0x00, 0x00, 0x00,
    ];

    let mut bs = ByteStream::new(&data);
    bs.preprocess::<8>()?;

    assert_eq!(bs.cursor(), 13);
    Ok(())
}

#[test]
fn byte_stream_test_preprocess_basic() -> Result<(), ByteStreamError> {
    let data = vec![
        0x00, 0x00, 0x00, 0x00, 0x00, 0x00, 0x00, 0x00, // 8,
        0x00, 0x00, 0x00, 0x00, 0x00, 0x00, 0x00, 0x00, // 8,
        0x01, 0x00, 0x00, 0x00, 0x00, 0x00,
    ];

    let mut bs = ByteStream::new(&data);
    bs.preprocess::<8>()?;

    assert_eq!(bs.cursor(), 13);
    Ok(())
}

#[test]
fn test_preprocess_err() -> Result<(), ByteStreamError> {
    let data = vec![
        0x00, 0x00, 0x00, 0x00, 0x00, 0x00, 0x00, 0x00, 0x00, 0x00, 0x00, 0x00, 0x00, 0x00,
        0x00, 0x00, 0x00, 0x00, 0x00, 0x00, 0x00,
    ];

    let mut bs = ByteStream::new(&data);
    assert!(bs.preprocess::<4>().is_err());

    Ok(())
}

#[test]
fn byte_stream_test_preprocess_err() -> Result<(), ByteStreamError> {
    let data = vec![
        0x00, 0x00, 0x00, 0x00, 0x00, 0x00, 0x00, 0x00, 0x00, 0x00, 0x00, 0x00, 0x00, 0x00,
        0x00, 0x00, 0x00, 0x00, 0x00, 0x00, 0x00,
    ];

    let mut bs = ByteStream::new(&data);
    assert!(bs.preprocess::<4>().is_err());

    Ok(())
}

fn padded(k: usize, payload: &[u8]) -> Vec<u8> {
    let mut data = vec![0u8; k];
    data.extend_from_slice(&MARKER);
    data.extend_from_slice(payload);
    data
}

fn preprocess_with<const N: usize>(data: &[u8]) -> Result<usize, ByteStreamError> {
    let mut bs = ByteStream::new(data);
    bs.preprocess::<N>()?;
    Ok(bs.cursor())
}

#[test]
fn preprocess_lands_on_marker_after_any_padding() {
    let payload = [0x67, 0x42, 0x00, 0x1f];
    for k in 0..150 {
        let data = padded(k, &payload);
        assert_eq!(preprocess_with::<4>(&data).unwrap(), k);
        assert_eq!(preprocess_with::<5>(&data).unwrap(), k);
        assert_eq!(preprocess_with::<7>(&data).unwrap(), k);
        assert_eq!(preprocess_with::<8>(&data).unwrap(), k);
        assert_eq!(preprocess_with::<16>(&data).unwrap(), k);
        assert_eq!(preprocess_with::<64>(&data).unwrap(), k);
    }
}

#[test]
fn matcher_finds_match_straddling_windows() {
    // With width 8 the first window covers offsets 0..8; the marker starts at
    // its last lane and runs into the next window.
    let mut data = vec![0x11u8; 7];
    data.extend_from_slice(&MARKER);
    data.extend_from_slice(&[0x22, 0x33]);
    assert_eq!(find_pattern(&data, 0, &MARKER, 8).unwrap(), 7);
    assert_eq!(preprocess_with::<8>(&data).unwrap(), 7);
}

#[test]
fn matcher_never_misses_a_match() {
    for width in 4..20 {
        for pos in 0..40 {
            let mut data = vec![0x55u8; pos];
            data.extend_from_slice(&MARKER);
            data.push(0x66);
            assert_eq!(find_pattern(&data, 0, &MARKER, width).unwrap(), pos);
        }
    }
}

#[test]
fn matcher_reports_lowest_offset_from_start() {
    let data = [0x00, 0x00, 0x00, 0x01, 0x09, 0x00, 0x00, 0x00, 0x01, 0x07];
    assert_eq!(find_pattern(&data, 0, &MARKER, 4).unwrap(), 0);
    assert_eq!(find_pattern(&data, 1, &MARKER, 4).unwrap(), 5);
    assert_eq!(find_pattern(&data, 6, &MARKER, 4).unwrap_err().kind(), ErrorKind::Termination);
}

#[test]
fn matcher_does_not_report_wrapped_lanes() {
    // A window whose tail is 00 00 00 and whose head is 01 holds no marker.
    let data = [0x01, 0x05, 0x05, 0x05, 0x05, 0x00, 0x00, 0x00];
    assert_eq!(find_pattern(&data, 0, &MARKER, 8).unwrap_err().kind(), ErrorKind::Termination);
}

#[test]
fn narrow_width_is_a_configuration_error() {
    let data = padded(3, &[0x65]);
    let empty: [u8; 0] = [];
    for buffer in [&data[..], &empty[..]] {
        let mut bs = ByteStream::new(buffer);
        assert_eq!(bs.preprocess::<0>().unwrap_err().kind(), ErrorKind::Configuration);
        assert_eq!(bs.preprocess::<1>().unwrap_err().kind(), ErrorKind::Configuration);
        assert_eq!(bs.preprocess::<3>().unwrap_err().kind(), ErrorKind::Configuration);
        assert_eq!(bs.cursor(), 0);
    }
    assert!(matches!(
        find_pattern(&data, 0, &MARKER, 2),
        Err(ByteStreamError::InvalidLaneCount(_))
    ));
}

#[test]
fn buffer_without_marker_is_a_termination_error() {
    let data = [0x00, 0x00, 0x01, 0x65, 0x00, 0x00, 0x00, 0x02, 0x00, 0x00];
    assert_eq!(preprocess_with::<4>(&data).unwrap_err().kind(), ErrorKind::Termination);
    assert_eq!(preprocess_with::<8>(&data).unwrap_err().kind(), ErrorKind::Termination);
    assert_eq!(preprocess_with::<64>(&data).unwrap_err().kind(), ErrorKind::Termination);
    let mut bs = ByteStream::new(&data);
    assert!(matches!(bs.process(), Err(ByteStreamError::UnexpectedTermination(_))));
    let empty: [u8; 0] = [];
    assert_eq!(preprocess_with::<4>(&empty).unwrap_err().kind(), ErrorKind::Termination);
}

#[test]
fn process_end_to_end() {
    let payload = [0x65, 0x88, 0x84, 0x21, 0xa0, 0x7f, 0x12, 0x34];
    let mut data = MARKER.to_vec();
    data.extend_from_slice(&payload);
    data.extend_from_slice(&[0x00, 0x00, 0x00]);
    data.extend_from_slice(&[0x00; 5]);
    data.extend_from_slice(&MARKER);
    data.push(0x41);
    data.extend_from_slice(&[0x00, 0x00, 0x01]);
    data.extend_from_slice(&MARKER);
    data.push(0x06);

    let mut bs = ByteStream::new(&data);
    let spans = bs.process().unwrap();
    assert_eq!(spans, vec![(4, 8), (24, 1), (32, 1)]);
    assert_eq!(data[4], 0x65);
    assert_eq!(data[24], 0x41);
    assert_eq!(data[32], 0x06);
    assert_eq!(&data[4..12], &payload[..]);
    assert_eq!(bs.cursor(), data.len());
}

#[test]
fn process_skips_leading_padding() {
    let data = [0x00, 0x00, 0x00, 0x00, 0x00, 0x00, 0x00, 0x01, 0x09, 0x10];
    let mut bs = ByteStream::new(&data);
    assert_eq!(bs.process().unwrap(), vec![(8, 2)]);
}

#[test]
fn process_keeps_emulation_prevention_bytes() {
    let data = [0x00, 0x00, 0x00, 0x01, 0x65, 0x00, 0x00, 0x03, 0x01, 0x22];
    let mut bs = ByteStream::new(&data);
    let spans = bs.process().unwrap();
    assert_eq!(spans, vec![(4, 6)]);
    assert_eq!(data[7], 0x03);
}

#[test]
fn process_rejects_stream_ending_on_boundary() {
    let data = [0x00, 0x00, 0x00, 0x01, 0xaa, 0xbb, 0x00, 0x00, 0x01];
    let mut bs = ByteStream::new(&data);
    assert!(matches!(bs.process(), Err(ByteStreamError::UnexpectedTermination(_))));
    assert!(bs.cursor() <= data.len());

    let data = [0x00, 0x00, 0x00, 0x01, 0x67, 0x00, 0x00, 0x00];
    let mut bs = ByteStream::new(&data);
    assert!(matches!(bs.process(), Err(ByteStreamError::UnexpectedTermination(_))));
    assert!(bs.cursor() <= data.len());
}

#[test]
fn process_rejects_non_zero_padding() {
    let data = [
        0x00, 0x00, 0x00, 0x01, 0xaa, 0x00, 0x00, 0x01, 0xbb, 0x00, 0x00, 0x00, 0x01, 0xcc,
    ];
    let mut bs = ByteStream::new(&data);
    match bs.process() {
        Err(ByteStreamError::UnexpectedByte(found, expected)) => {
            assert_eq!(found, "0xbb");
            assert_eq!(expected, "0x00");
        }
        other => panic!("expected an unexpected byte, got {:?}", other),
    }
}

#[test]
fn process_rejects_missing_next_marker() {
    let data = [0x00, 0x00, 0x00, 0x01, 0xaa, 0x00, 0x00, 0x00, 0xbb];
    let mut bs = ByteStream::new(&data);
    assert_eq!(bs.process().unwrap_err().kind(), ErrorKind::Termination);
}

#[test]
fn process_rejects_marker_without_payload() {
    let data = [0x00, 0x00, 0x00, 0x00, 0x01];
    let mut bs = ByteStream::new(&data);
    assert_eq!(bs.process().unwrap_err().kind(), ErrorKind::Termination);
}

#[test]
fn process_emits_empty_unit_before_boundary() {
    let data = [
        0x00, 0x00, 0x00, 0x01, 0x00, 0x00, 0x00, 0x00, 0x00, 0x00, 0x01, 0x68, 0x99,
    ];
    let mut bs = ByteStream::new(&data);
    assert_eq!(bs.process().unwrap(), vec![(4, 0), (11, 2)]);
}

#[test]
fn error_kinds_and_conversion() {
    let e = ByteStreamError::IncorrectByteSequence {
        expected: "0x00 0x00 0x00 0x01".to_string(),
        got: "0x00 0x00 0x00 0x02".to_string(),
    };
    assert_eq!(e.kind(), ErrorKind::IncorrectSequence);
    assert_eq!(ByteStreamError::MisalignedIndices(String::new()).kind(), ErrorKind::Misaligned);
    assert_eq!(ByteStreamError::Redaction(String::new()).kind(), ErrorKind::Redaction);
    let d: DecodingError = e.clone().into();
    assert!(matches!(d, DecodingError::BytestreamError(inner) if inner == e));
}
