use vstd::prelude::*;

use crate::header::{forbidden_bit_of, ref_idc_of, unit_type_of, NalUnitHeader};
use crate::rbsp::{rbsp_of, RBSP};

verus! {

/// First byte of the three-byte start code prefix `0x00 0x00 0x01`.
pub const START_CODE_PREFIX_0: u8 = 0x00;

/// Second byte of the start code prefix.
pub const START_CODE_PREFIX_1: u8 = 0x00;

/// Third byte of the start code prefix.
pub const START_CODE_PREFIX_2: u8 = 0x01;

/// A byte equal to `0x03` that an encoder inserts inside a NAL unit so that no
/// run of its bytes reads as a start code prefix. Spans are handed out as they
/// stand in the buffer, with these bytes still in place.
pub const EMULATION_PREVENTION_BYTE: u8 = 0x03;

/// The start code prefix followed by a zero lane, the shape against which three
/// bytes of the stream (padded with a zero) are compared.
pub open spec fn start_code_lanes() -> Seq<u8> {
    seq![0u8, 0u8, 1u8, 0u8]
}

/// The unit whose bytes are `data[offset .. offset + num_bytes]`, described by
/// its first byte.
pub open spec fn unit_of(data: Seq<u8>, offset: usize, num_bytes: usize) -> NalUnit {
    NalUnit {
        offset,
        num_bytes,
        forbidden_zero_bit: forbidden_bit_of(data[offset as int]) == 1,
        nal_ref_idc: ref_idc_of(data[offset as int]),
        nal_unit_type: unit_type_of(data[offset as int]),
    }
}

/// The units of `spans`, in order, leaving out each span that is empty or
/// does not lie within `data`.
pub open spec fn units_of(data: Seq<u8>, spans: Seq<(usize, usize)>) -> Seq<NalUnit>
    decreases spans.len(),
{
    if spans.len() == 0 {
        seq![]
    } else {
        let rest = units_of(data, spans.drop_last());
        let (offset, num_bytes) = spans.last();
        if num_bytes >= 1 && offset + num_bytes <= data.len() {
            rest.push(unit_of(data, offset, num_bytes))
        } else {
            rest
        }
    }
}

/// One NAL unit of a byte stream: where its bytes lie in the buffer and the
/// fields of its header byte.
#[derive(Debug, Clone, Copy, PartialEq, Eq)]
pub struct NalUnit {
    pub offset: usize,
    pub num_bytes: usize,
    pub forbidden_zero_bit: bool,
    pub nal_ref_idc: u8,
    pub nal_unit_type: u8,
}

impl NalUnit {
    /// The start code prefix padded with a zero lane to four lanes.
    pub fn start_code_prefix_simd_array() -> (r: [u8; 4])
        ensures
            r@ == start_code_lanes(),
    {
        let prefix_array: [u8; 4] = [
            START_CODE_PREFIX_0,
            START_CODE_PREFIX_1,
            START_CODE_PREFIX_2,
            0x00,
        ];
        assert(prefix_array@ =~= start_code_lanes());
        prefix_array
    }

    /// The unit whose bytes are `data[offset .. offset + num_bytes]`, with the
    /// header decoded from its first byte.
    pub fn from_span(data: &[u8], offset: usize, num_bytes: usize) -> (r: NalUnit)
        requires
            num_bytes >= 1,
            offset + num_bytes <= data@.len(),
        ensures
            r == unit_of(data@, offset, num_bytes),
            r.nal_unit_type < 32,
    {
        let header = NalUnitHeader::decode(data[offset]);
        NalUnit {
            offset,
            num_bytes,
            forbidden_zero_bit: header.forbidden_zero_bit == 1,
            nal_ref_idc: header.nal_ref_idc,
            nal_unit_type: header.nal_unit_type,
        }
    }

    /// The units that `spans` mark out in `data`, each with its decoded
    /// header. A span that is empty, having no header byte, or that does not
    /// lie within `data` is left out.
    pub fn from_spans(data: &[u8], spans: &[(usize, usize)]) -> (r: Vec<NalUnit>)
        ensures
            r@ == units_of(data@, spans@),
    {
        let mut units: Vec<NalUnit> = Vec::new();
        let mut i: usize = 0;
        while i < spans.len()
            invariant
                i <= spans@.len(),
                units@ == units_of(data@, spans@.take(i as int)),
            decreases spans@.len() - i,
        {
            let (offset, num_bytes) = spans[i];
            assert(spans@.take(i + 1).drop_last() =~= spans@.take(i as int));
            if num_bytes >= 1 && num_bytes <= data.len() && offset <= data.len() - num_bytes {
                units.push(Self::from_span(data, offset, num_bytes));
            }
            i = i + 1;
        }
        assert(spans@.take(spans@.len() as int) =~= spans@);
        units
    }

    /// The payload kind announced by the header.
    pub fn rbsp(&self) -> (r: RBSP)
        requires
            self.nal_unit_type < 32,
        ensures
            r == rbsp_of(self.nal_unit_type),
    {
        RBSP::from_nal_unit_type(&self.nal_unit_type)
    }
}

} // verus!
