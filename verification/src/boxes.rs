//! Four-character codes and the box types this parser recognises.
use vstd::prelude::*;

verus! {

/// A four-byte tag, held as the big-endian integer of its bytes.
#[derive(Clone, Copy, Debug, PartialEq, Eq, Structural)]
pub struct FourCC {
    pub value: u32,
}
/// The code `avif`.
pub const FOURCC_AVIF: u32 = 0x61766966;
/// The code `avis`.
pub const FOURCC_AVIS: u32 = 0x61766973;
/// The code `av01`.
pub const FOURCC_AV01: u32 = 0x61763031;
/// The code `grid`.
pub const FOURCC_GRID: u32 = 0x67726964;
/// The code `dimg`.
pub const FOURCC_DIMG: u32 = 0x64696d67;
/// The code `auxl`.
pub const FOURCC_AUXL: u32 = 0x6175786c;
/// The code `prem`.
pub const FOURCC_PREM: u32 = 0x7072656d;
/// The code `vide`.
pub const FOURCC_VIDE: u32 = 0x76696465;
/// The code `pict`.
pub const FOURCC_PICT: u32 = 0x70696374;
/// The code `auxv`.
pub const FOURCC_AUXV: u32 = 0x61757876;
impl FourCC {
    /// Whether the tag is the code `code`.
    pub fn is(&self, code: u32) -> (r: bool)
        ensures
            r == (self.value == code),
    {
        self.value == code
    }
}

/// The type of a box, named where this parser gives the box a meaning.
#[derive(Clone, Copy, Debug, PartialEq, Eq, Structural)]
pub enum BoxType {
    /// `ftyp`
    FileTypeBox,
    /// `meta`
    MetadataBox,
    /// `moov`
    MovieBox,
    /// `mdat`
    MediaDataBox,
    /// `iinf`
    ItemInfoBox,
    /// `infe`
    ItemInfoEntry,
    /// `iloc`
    ItemLocationBox,
    /// `pitm`
    PrimaryItemBox,
    /// `iref`
    ImageReferenceBox,
    /// `iprp`
    ImagePropertiesBox,
    /// `ipco`
    ItemPropertyContainerBox,
    /// `ipma`
    ItemPropertyAssociationBox,
    /// `idat`
    ItemDataBox,
    /// `pixi`
    PixelInformationBox,
    /// `auxC`
    AuxiliaryTypeProperty,
    /// `ispe`
    ImageSpatialExtentsBox,
    /// `grid`
    ImageGridBox,
    /// `mvhd`
    MovieHeaderBox,
    /// `trak`
    TrackBox,
    /// `tkhd`
    TrackHeaderBox,
    /// `tref`
    TrackReferenceBox,
    /// `edts`
    EditBox,
    /// `elst`
    EditListBox,
    /// `mdia`
    MediaBox,
    /// `mdhd`
    MediaHeaderBox,
    /// `hdlr`
    HandlerBox,
    /// `minf`
    MediaInformationBox,
    /// `stbl`
    SampleTableBox,
    /// `stts`
    TimeToSampleBox,
    /// `stsc`
    SampleToChunkBox,
    /// `stsz`
    SampleSizeBox,
    /// `stco`
    ChunkOffsetBox,
    /// `co64`
    ChunkLargeOffsetBox,
    /// `uuid`
    UuidBox,
    /// Any other code.
    UnknownBox(u32),
}

impl BoxType {
    /// The box type that the code `code` names.
    pub open spec fn spec_from(code: u32) -> BoxType {
        if code == 0x66747970 {
            BoxType::FileTypeBox
        }         else if code == 0x6d657461 {
            BoxType::MetadataBox
        }         else if code == 0x6d6f6f76 {
            BoxType::MovieBox
        }         else if code == 0x6d646174 {
            BoxType::MediaDataBox
        }         else if code == 0x69696e66 {
            BoxType::ItemInfoBox
        }         else if code == 0x696e6665 {
            BoxType::ItemInfoEntry
        }         else if code == 0x696c6f63 {
            BoxType::ItemLocationBox
        }         else if code == 0x7069746d {
            BoxType::PrimaryItemBox
        }         else if code == 0x69726566 {
            BoxType::ImageReferenceBox
        }         else if code == 0x69707270 {
            BoxType::ImagePropertiesBox
        }         else if code == 0x6970636f {
            BoxType::ItemPropertyContainerBox
        }         else if code == 0x69706d61 {
            BoxType::ItemPropertyAssociationBox
        }         else if code == 0x69646174 {
            BoxType::ItemDataBox
        }         else if code == 0x70697869 {
            BoxType::PixelInformationBox
        }         else if code == 0x61757843 {
            BoxType::AuxiliaryTypeProperty
        }         else if code == 0x69737065 {
            BoxType::ImageSpatialExtentsBox
        }         else if code == 0x67726964 {
            BoxType::ImageGridBox
        }         else if code == 0x6d766864 {
            BoxType::MovieHeaderBox
        }         else if code == 0x7472616b {
            BoxType::TrackBox
        }         else if code == 0x746b6864 {
            BoxType::TrackHeaderBox
        }         else if code == 0x74726566 {
            BoxType::TrackReferenceBox
        }         else if code == 0x65647473 {
            BoxType::EditBox
        }         else if code == 0x656c7374 {
            BoxType::EditListBox
        }         else if code == 0x6d646961 {
            BoxType::MediaBox
        }         else if code == 0x6d646864 {
            BoxType::MediaHeaderBox
        }         else if code == 0x68646c72 {
            BoxType::HandlerBox
        }         else if code == 0x6d696e66 {
            BoxType::MediaInformationBox
        }         else if code == 0x7374626c {
            BoxType::SampleTableBox
        }         else if code == 0x73747473 {
            BoxType::TimeToSampleBox
        }         else if code == 0x73747363 {
            BoxType::SampleToChunkBox
        }         else if code == 0x7374737a {
            BoxType::SampleSizeBox
        }         else if code == 0x7374636f {
            BoxType::ChunkOffsetBox
        }         else if code == 0x636f3634 {
            BoxType::ChunkLargeOffsetBox
        }         else if code == 0x75756964 {
            BoxType::UuidBox
        } else {
            BoxType::UnknownBox(code)
        }
    }

    /// The code that names this box type.
    pub open spec fn spec_code(self) -> u32 {
        match self {
            BoxType::FileTypeBox => 0x66747970,
            BoxType::MetadataBox => 0x6d657461,
            BoxType::MovieBox => 0x6d6f6f76,
            BoxType::MediaDataBox => 0x6d646174,
            BoxType::ItemInfoBox => 0x69696e66,
            BoxType::ItemInfoEntry => 0x696e6665,
            BoxType::ItemLocationBox => 0x696c6f63,
            BoxType::PrimaryItemBox => 0x7069746d,
            BoxType::ImageReferenceBox => 0x69726566,
            BoxType::ImagePropertiesBox => 0x69707270,
            BoxType::ItemPropertyContainerBox => 0x6970636f,
            BoxType::ItemPropertyAssociationBox => 0x69706d61,
            BoxType::ItemDataBox => 0x69646174,
            BoxType::PixelInformationBox => 0x70697869,
            BoxType::AuxiliaryTypeProperty => 0x61757843,
            BoxType::ImageSpatialExtentsBox => 0x69737065,
            BoxType::ImageGridBox => 0x67726964,
            BoxType::MovieHeaderBox => 0x6d766864,
            BoxType::TrackBox => 0x7472616b,
            BoxType::TrackHeaderBox => 0x746b6864,
            BoxType::TrackReferenceBox => 0x74726566,
            BoxType::EditBox => 0x65647473,
            BoxType::EditListBox => 0x656c7374,
            BoxType::MediaBox => 0x6d646961,
            BoxType::MediaHeaderBox => 0x6d646864,
            BoxType::HandlerBox => 0x68646c72,
            BoxType::MediaInformationBox => 0x6d696e66,
            BoxType::SampleTableBox => 0x7374626c,
            BoxType::TimeToSampleBox => 0x73747473,
            BoxType::SampleToChunkBox => 0x73747363,
            BoxType::SampleSizeBox => 0x7374737a,
            BoxType::ChunkOffsetBox => 0x7374636f,
            BoxType::ChunkLargeOffsetBox => 0x636f3634,
            BoxType::UuidBox => 0x75756964,
            BoxType::UnknownBox(code) => code,
        }
    }

    /// The box type that the code `code` names.
    pub fn from(code: u32) -> (r: BoxType)
        ensures
            r == BoxType::spec_from(code),
            r.spec_code() == code,
    {
        if code == 0x66747970 {
            BoxType::FileTypeBox
        }         else if code == 0x6d657461 {
            BoxType::MetadataBox
        }         else if code == 0x6d6f6f76 {
            BoxType::MovieBox
        }         else if code == 0x6d646174 {
            BoxType::MediaDataBox
        }         else if code == 0x69696e66 {
            BoxType::ItemInfoBox
        }         else if code == 0x696e6665 {
            BoxType::ItemInfoEntry
        }         else if code == 0x696c6f63 {
            BoxType::ItemLocationBox
        }         else if code == 0x7069746d {
            BoxType::PrimaryItemBox
        }         else if code == 0x69726566 {
            BoxType::ImageReferenceBox
        }         else if code == 0x69707270 {
            BoxType::ImagePropertiesBox
        }         else if code == 0x6970636f {
            BoxType::ItemPropertyContainerBox
        }         else if code == 0x69706d61 {
            BoxType::ItemPropertyAssociationBox
        }         else if code == 0x69646174 {
            BoxType::ItemDataBox
        }         else if code == 0x70697869 {
            BoxType::PixelInformationBox
        }         else if code == 0x61757843 {
            BoxType::AuxiliaryTypeProperty
        }         else if code == 0x69737065 {
            BoxType::ImageSpatialExtentsBox
        }         else if code == 0x67726964 {
            BoxType::ImageGridBox
        }         else if code == 0x6d766864 {
            BoxType::MovieHeaderBox
        }         else if code == 0x7472616b {
            BoxType::TrackBox
        }         else if code == 0x746b6864 {
            BoxType::TrackHeaderBox
        }         else if code == 0x74726566 {
            BoxType::TrackReferenceBox
        }         else if code == 0x65647473 {
            BoxType::EditBox
        }         else if code == 0x656c7374 {
            BoxType::EditListBox
        }         else if code == 0x6d646961 {
            BoxType::MediaBox
        }         else if code == 0x6d646864 {
            BoxType::MediaHeaderBox
        }         else if code == 0x68646c72 {
            BoxType::HandlerBox
        }         else if code == 0x6d696e66 {
            BoxType::MediaInformationBox
        }         else if code == 0x7374626c {
            BoxType::SampleTableBox
        }         else if code == 0x73747473 {
            BoxType::TimeToSampleBox
        }         else if code == 0x73747363 {
            BoxType::SampleToChunkBox
        }         else if code == 0x7374737a {
            BoxType::SampleSizeBox
        }         else if code == 0x7374636f {
            BoxType::ChunkOffsetBox
        }         else if code == 0x636f3634 {
            BoxType::ChunkLargeOffsetBox
        }         else if code == 0x75756964 {
            BoxType::UuidBox
        } else {
            BoxType::UnknownBox(code)
        }
    }

    /// The code that names this box type.
    pub fn code(&self) -> (r: u32)
        ensures
            r == self.spec_code(),
    {
        match self {
            BoxType::FileTypeBox => 0x66747970,
            BoxType::MetadataBox => 0x6d657461,
            BoxType::MovieBox => 0x6d6f6f76,
            BoxType::MediaDataBox => 0x6d646174,
            BoxType::ItemInfoBox => 0x69696e66,
            BoxType::ItemInfoEntry => 0x696e6665,
            BoxType::ItemLocationBox => 0x696c6f63,
            BoxType::PrimaryItemBox => 0x7069746d,
            BoxType::ImageReferenceBox => 0x69726566,
            BoxType::ImagePropertiesBox => 0x69707270,
            BoxType::ItemPropertyContainerBox => 0x6970636f,
            BoxType::ItemPropertyAssociationBox => 0x69706d61,
            BoxType::ItemDataBox => 0x69646174,
            BoxType::PixelInformationBox => 0x70697869,
            BoxType::AuxiliaryTypeProperty => 0x61757843,
            BoxType::ImageSpatialExtentsBox => 0x69737065,
            BoxType::ImageGridBox => 0x67726964,
            BoxType::MovieHeaderBox => 0x6d766864,
            BoxType::TrackBox => 0x7472616b,
            BoxType::TrackHeaderBox => 0x746b6864,
            BoxType::TrackReferenceBox => 0x74726566,
            BoxType::EditBox => 0x65647473,
            BoxType::EditListBox => 0x656c7374,
            BoxType::MediaBox => 0x6d646961,
            BoxType::MediaHeaderBox => 0x6d646864,
            BoxType::HandlerBox => 0x68646c72,
            BoxType::MediaInformationBox => 0x6d696e66,
            BoxType::SampleTableBox => 0x7374626c,
            BoxType::TimeToSampleBox => 0x73747473,
            BoxType::SampleToChunkBox => 0x73747363,
            BoxType::SampleSizeBox => 0x7374737a,
            BoxType::ChunkOffsetBox => 0x7374636f,
            BoxType::ChunkLargeOffsetBox => 0x636f3634,
            BoxType::UuidBox => 0x75756964,
            BoxType::UnknownBox(code) => *code,
        }
    }
}

} // verus!
