use annexb::header::NalUnitHeader;
use annexb::nal_unit::{NalUnit, EMULATION_PREVENTION_BYTE};
use annexb::rbsp::RBSP;
use annexb::vec_nal_unit::VecNalUnit;

#[test]
fn header_fields_of_known_bytes() {
    let h = NalUnitHeader::decode(0x67);
    assert_eq!((h.forbidden_zero_bit, h.nal_ref_idc, h.nal_unit_type), (0, 3, 7));
    let h = NalUnitHeader::decode(0x41);
    assert_eq!((h.forbidden_zero_bit, h.nal_ref_idc, h.nal_unit_type), (0, 2, 1));
    let h = NalUnitHeader::decode(0xff);
    assert_eq!((h.forbidden_zero_bit, h.nal_ref_idc, h.nal_unit_type), (1, 3, 31));
    let h = NalUnitHeader::decode(0x00);
    assert_eq!((h.forbidden_zero_bit, h.nal_ref_idc, h.nal_unit_type), (0, 0, 0));
}

#[test]
fn every_byte_decodes_and_classifies() {
    for b in 0..=255u8 {
        let h = NalUnitHeader::decode(b);
        assert!(h.forbidden_zero_bit <= 1);
        assert!(h.nal_ref_idc <= 3);
        assert!(h.nal_unit_type < 32);
        let _kind = RBSP::from_nal_unit_type(&h.nal_unit_type);
    }
}

#[test]
fn classifier_table() {
    let expected = [
        RBSP::Unspecified,
        RBSP::CodedSliceNonIDRPicture,
        RBSP::CodedSliceDataPartitionA,
        RBSP::CodedSliceDataPartitionB,
        RBSP::CodedSliceDataPartitionC,
        RBSP::CodedSliceIDRPicture,
        RBSP::SupplementalEnhancementInformation,
        RBSP::SequenceParameterSet,
        RBSP::PictureParameterSet,
        RBSP::AccessUnitDelimiter,
        RBSP::SequenceEnd,
        RBSP::StreamEnd,
        RBSP::FillerData,
        RBSP::SequenceParameterSetExtension,
        RBSP::PrefixNALUnit,
        RBSP::SubsetSequenceParameterSet,
        RBSP::DepthParameterSet,
        RBSP::Reserved,
        RBSP::Reserved,
        RBSP::CodedSliceAuxiliaryCodedPictureNonPartitioning,
        RBSP::CodedSliceExtension,
        RBSP::CodedSliceExtensionDepthViewComponent,
        RBSP::Reserved,
        RBSP::Reserved,
    ];
    for (t, kind) in expected.iter().enumerate() {
        assert_eq!(RBSP::from_nal_unit_type(&(t as u8)), *kind);
    }
    for t in 24..32u8 {
        assert_eq!(RBSP::from_nal_unit_type(&t), RBSP::Unspecified);
    }
}

#[test]
fn batch_matches_scalar_decoding() {
    let chunk: Vec<u8> = (0..=255u8).collect();
    let (f, r, t) = VecNalUnit::parse_nal_units(&chunk);
    assert_eq!(f.len(), chunk.len());
    assert_eq!(r.len(), chunk.len());
    assert_eq!(t.len(), chunk.len());
    for (i, b) in chunk.iter().enumerate() {
        let h = NalUnitHeader::decode(*b);
        assert_eq!(f[i], h.forbidden_zero_bit);
        assert_eq!(r[i], h.nal_ref_idc);
        assert_eq!(t[i], h.nal_unit_type);
    }
    let columns = VecNalUnit::from_chunk(&[0x67, 0x68, 0x65]);
    assert_eq!(columns.forbidden_zero_bits, vec![0, 0, 0]);
    assert_eq!(columns.nal_ref_idcs, vec![3, 3, 3]);
    assert_eq!(columns.nal_unit_types, vec![7, 8, 5]);
    let (f, r, t) = VecNalUnit::parse_nal_units(&[]);
    assert!(f.is_empty() && r.is_empty() && t.is_empty());
}

#[test]
fn nal_unit_from_span() {
    let data = [0x00, 0x00, 0x00, 0x01, 0x67, 0x42, 0x00, 0x1f];
    let unit = NalUnit::from_span(&data, 4, 4);
    assert_eq!(unit.offset, 4);
    assert_eq!(unit.num_bytes, 4);
    assert!(!unit.forbidden_zero_bit);
    assert_eq!(unit.nal_ref_idc, 3);
    assert_eq!(unit.nal_unit_type, 7);
    assert_eq!(unit.rbsp(), RBSP::SequenceParameterSet);
    let unit = NalUnit::from_span(&[0xe5], 0, 1);
    assert!(unit.forbidden_zero_bit);
    assert_eq!(unit.rbsp(), RBSP::CodedSliceIDRPicture);
}

#[test]
fn format_constants() {
    assert_eq!(NalUnit::start_code_prefix_simd_array(), [0x00, 0x00, 0x01, 0x00]);
    assert_eq!(EMULATION_PREVENTION_BYTE, 0x03);
}

#[test]
fn units_from_spans_skip_empty_and_outside() {
    let data = [
        0x00, 0x00, 0x00, 0x01, 0x67, 0x42, 0x00, 0x00, 0x01, 0x00, 0x00, 0x00, 0x01, 0x68,
    ];
    let spans = [(4, 2), (9, 0), (13, 1), (13, 5)];
    let units = NalUnit::from_spans(&data, &spans);
    assert_eq!(units.len(), 2);
    assert_eq!((units[0].offset, units[0].num_bytes, units[0].nal_unit_type), (4, 2, 7));
    assert_eq!((units[1].offset, units[1].num_bytes, units[1].nal_unit_type), (13, 1, 8));
    assert_eq!(units[1].rbsp(), RBSP::PictureParameterSet);
}
