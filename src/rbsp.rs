use vstd::prelude::*;

verus! {

/// Kind of Raw Byte Sequence Payload carried by a NAL unit, as selected by
/// its `nal_unit_type`.
#[derive(Debug, Clone, Copy, PartialEq, Eq)]
pub enum RBSP {
    Unspecified,
    CodedSliceNonIDRPicture,
    CodedSliceDataPartitionA,
    CodedSliceDataPartitionB,
    CodedSliceDataPartitionC,
    CodedSliceIDRPicture,
    SupplementalEnhancementInformation,
    SequenceParameterSet,
    PictureParameterSet,
    AccessUnitDelimiter,
    SequenceEnd,
    StreamEnd,
    FillerData,
    SequenceParameterSetExtension,
    PrefixNALUnit,
    SubsetSequenceParameterSet,
    DepthParameterSet,
    Reserved,
    CodedSliceAuxiliaryCodedPictureNonPartitioning,
    CodedSliceExtension,
    CodedSliceExtensionDepthViewComponent,
}

/// The payload kind of each five-bit `nal_unit_type` code.
pub open spec fn rbsp_of(t: u8) -> RBSP
    recommends
        t < 32,
{
    if t == 0 || 24 <= t {
        RBSP::Unspecified
    } else if t == 1 {
        RBSP::CodedSliceNonIDRPicture
    } else if t == 2 {
        RBSP::CodedSliceDataPartitionA
    } else if t == 3 {
        RBSP::CodedSliceDataPartitionB
    } else if t == 4 {
        RBSP::CodedSliceDataPartitionC
    } else if t == 5 {
        RBSP::CodedSliceIDRPicture
    } else if t == 6 {
        RBSP::SupplementalEnhancementInformation
    } else if t == 7 {
        RBSP::SequenceParameterSet
    } else if t == 8 {
        RBSP::PictureParameterSet
    } else if t == 9 {
        RBSP::AccessUnitDelimiter
    } else if t == 10 {
        RBSP::SequenceEnd
    } else if t == 11 {
        RBSP::StreamEnd
    } else if t == 12 {
        RBSP::FillerData
    } else if t == 13 {
        RBSP::SequenceParameterSetExtension
    } else if t == 14 {
        RBSP::PrefixNALUnit
    } else if t == 15 {
        RBSP::SubsetSequenceParameterSet
    } else if t == 16 {
        RBSP::DepthParameterSet
    } else if t == 17 || t == 18 || t == 22 || t == 23 {
        RBSP::Reserved
    } else if t == 19 {
        RBSP::CodedSliceAuxiliaryCodedPictureNonPartitioning
    } else if t == 20 {
        RBSP::CodedSliceExtension
    } else {
        RBSP::CodedSliceExtensionDepthViewComponent
    }
}

impl RBSP {
    /// Classifies a `nal_unit_type` code (0 to 31).
    pub fn from_nal_unit_type(nal_unit_type: &u8) -> (r: Self)
        requires
            *nal_unit_type < 32,
        ensures
            r == rbsp_of(*nal_unit_type),
    {
        match *nal_unit_type {
            0 | 24..=31 => RBSP::Unspecified,
            1 => RBSP::CodedSliceNonIDRPicture,
            2 => RBSP::CodedSliceDataPartitionA,
            3 => RBSP::CodedSliceDataPartitionB,
            4 => RBSP::CodedSliceDataPartitionC,
            5 => RBSP::CodedSliceIDRPicture,
            6 => RBSP::SupplementalEnhancementInformation,
            7 => RBSP::SequenceParameterSet,
            8 => RBSP::PictureParameterSet,
            9 => RBSP::AccessUnitDelimiter,
            10 => RBSP::SequenceEnd,
            11 => RBSP::StreamEnd,
            12 => RBSP::FillerData,
            13 => RBSP::SequenceParameterSetExtension,
            14 => RBSP::PrefixNALUnit,
            15 => RBSP::SubsetSequenceParameterSet,
            16 => RBSP::DepthParameterSet,
            17 | 18 | 22 | 23 => RBSP::Reserved,
            19 => RBSP::CodedSliceAuxiliaryCodedPictureNonPartitioning,
            20 => RBSP::CodedSliceExtension,
            _ => RBSP::CodedSliceExtensionDepthViewComponent,
        }
    }
}

} // verus!
