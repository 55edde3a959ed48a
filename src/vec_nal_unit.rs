use vstd::prelude::*;

use crate::header::{forbidden_bit_of, ref_idc_of, unit_type_of};

verus! {

/// Lane-wise `byte >> 7` over a chunk.
pub open spec fn batch_forbidden_bits(chunk: Seq<u8>) -> Seq<u8> {
    chunk.map_values(|b: u8| b >> 7u8)
}

/// Lane-wise `(byte >> 5) & 0b11` over a chunk.
pub open spec fn batch_ref_idcs(chunk: Seq<u8>) -> Seq<u8> {
    chunk.map_values(|b: u8| (b >> 5u8) & 0b11u8)
}

/// Lane-wise `byte & 0b11111` over a chunk.
pub open spec fn batch_unit_types(chunk: Seq<u8>) -> Seq<u8> {
    chunk.map_values(|b: u8| b & 0b11111u8)
}

/// Columnar NAL unit headers: one entry per header byte in each column.
#[derive(Debug)]
pub struct VecNalUnit {
    pub forbidden_zero_bits: Vec<u8>,
    pub nal_ref_idcs: Vec<u8>,
    pub nal_unit_types: Vec<u8>,
}

impl VecNalUnit {
    /// Applies the three header bit operations to every byte of `chunk`,
    /// giving one column per field.
    pub fn parse_nal_units(chunk: &[u8]) -> (r: (Vec<u8>, Vec<u8>, Vec<u8>))
        ensures
            r.0@ == batch_forbidden_bits(chunk@),
            r.1@ == batch_ref_idcs(chunk@),
            r.2@ == batch_unit_types(chunk@),
    {
        let mut forbidden_zero_bits: Vec<u8> = Vec::new();
        let mut nal_ref_idcs: Vec<u8> = Vec::new();
        let mut nal_unit_types: Vec<u8> = Vec::new();
        let mut i: usize = 0;
        while i < chunk.len()
            invariant
                i <= chunk@.len(),
                forbidden_zero_bits@ == batch_forbidden_bits(chunk@.take(i as int)),
                nal_ref_idcs@ == batch_ref_idcs(chunk@.take(i as int)),
                nal_unit_types@ == batch_unit_types(chunk@.take(i as int)),
            decreases chunk@.len() - i,
        {
            let b = chunk[i];
            forbidden_zero_bits.push(b >> 7u8);
            nal_ref_idcs.push((b >> 5u8) & 0b11u8);
            nal_unit_types.push(b & 0b11111u8);
            assert(chunk@.take(i + 1) =~= chunk@.take(i as int).push(b));
            assert(forbidden_zero_bits@ =~= batch_forbidden_bits(chunk@.take(i + 1)));
            assert(nal_ref_idcs@ =~= batch_ref_idcs(chunk@.take(i + 1)));
            assert(nal_unit_types@ =~= batch_unit_types(chunk@.take(i + 1)));
            i = i + 1;
        }
        assert(chunk@.take(chunk@.len() as int) =~= chunk@);
        (forbidden_zero_bits, nal_ref_idcs, nal_unit_types)
    }

    /// The columns of the headers in `chunk`.
    pub fn from_chunk(chunk: &[u8]) -> (r: VecNalUnit)
        ensures
            r.forbidden_zero_bits@ == batch_forbidden_bits(chunk@),
            r.nal_ref_idcs@ == batch_ref_idcs(chunk@),
            r.nal_unit_types@ == batch_unit_types(chunk@),
    {
        let (forbidden_zero_bits, nal_ref_idcs, nal_unit_types) = Self::parse_nal_units(chunk);
        VecNalUnit { forbidden_zero_bits, nal_ref_idcs, nal_unit_types }
    }
}

/// The columns of a chunk hold, position by position, the fields that
/// decoding each byte on its own gives.
pub proof fn lemma_batch_matches_scalar(chunk: Seq<u8>)
    ensures
        batch_forbidden_bits(chunk).len() == chunk.len(),
        batch_ref_idcs(chunk).len() == chunk.len(),
        batch_unit_types(chunk).len() == chunk.len(),
        forall|i: int|
            0 <= i < chunk.len() ==> {
                &&& #[trigger] batch_forbidden_bits(chunk)[i] == forbidden_bit_of(chunk[i])
                &&& batch_ref_idcs(chunk)[i] == ref_idc_of(chunk[i])
                &&& batch_unit_types(chunk)[i] == unit_type_of(chunk[i])
            },
{
    assert forall|i: int| 0 <= i < chunk.len() implies {
        &&& #[trigger] batch_forbidden_bits(chunk)[i] == forbidden_bit_of(chunk[i])
        &&& batch_ref_idcs(chunk)[i] == ref_idc_of(chunk[i])
        &&& batch_unit_types(chunk)[i] == unit_type_of(chunk[i])
    } by {
        let b = chunk[i];
        assert((b >> 7u8) == (b / 128) as u8 && ((b >> 5u8) & 0b11u8) == ((b / 32) % 4) as u8 && (b
            & 0b11111u8) == (b % 32) as u8) by (bit_vector);
    }
}

} // verus!
