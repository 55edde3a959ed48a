use vstd::prelude::*;

verus! {

/// Value of `forbidden_zero_bit`: the most significant bit of a header byte.
pub open spec fn forbidden_bit_of(b: u8) -> u8 {
    (b / 128) as u8
}

/// Value of `nal_ref_idc`: bits 6 and 5 of a header byte.
pub open spec fn ref_idc_of(b: u8) -> u8 {
    ((b / 32) % 4) as u8
}

/// Value of `nal_unit_type`: the five low bits of a header byte.
pub open spec fn unit_type_of(b: u8) -> u8 {
    (b % 32) as u8
}

/// The three fields of a NAL unit header, decoded from its first byte.
#[derive(Debug, Clone, Copy, PartialEq, Eq)]
pub struct NalUnitHeader {
    pub forbidden_zero_bit: u8,
    pub nal_ref_idc: u8,
    pub nal_unit_type: u8,
}

impl NalUnitHeader {
    /// Splits a header byte into its three bit fields.
    pub fn decode(byte: u8) -> (r: NalUnitHeader)
        ensures
            r.forbidden_zero_bit == forbidden_bit_of(byte),
            r.nal_ref_idc == ref_idc_of(byte),
            r.nal_unit_type == unit_type_of(byte),
            r.nal_unit_type < 32,
    {
        let forbidden_zero_bit = byte >> 7u8;
        let nal_ref_idc = (byte >> 5u8) & 0b11u8;
        let nal_unit_type = byte & 0b11111u8;
        assert(forbidden_zero_bit == forbidden_bit_of(byte)
            && nal_ref_idc == ref_idc_of(byte)
            && nal_unit_type == unit_type_of(byte)) by (bit_vector)
            requires
                forbidden_zero_bit == byte >> 7u8,
                nal_ref_idc == (byte >> 5u8) & 0b11u8,
                nal_unit_type == byte & 0b11111u8,
        ;
        NalUnitHeader { forbidden_zero_bit, nal_ref_idc, nal_unit_type }
    }
}

/// Every byte decodes: its fields stay within their widths, so its
/// `nal_unit_type` is a code that `RBSP::from_nal_unit_type` accepts, which
/// then names one of its fixed kinds.
pub proof fn lemma_header_total(b: u8)
    ensures
        forbidden_bit_of(b) <= 1,
        ref_idc_of(b) <= 3,
        unit_type_of(b) < 32,
{
}

} // verus!
