//! Field types shared by the command and response payloads, and their wire forms.

use vstd::prelude::*;

use crate::wire::{
    CodecError, be16, be16_signed, be32, get_bytes, get_i16, get_u16, get_u32, i16_at,
    lemma_be32_value, lemma_text_round_trip, put_bytes, put_i16, put_u16, put_u32, put_u8,
    read_fixed_size_cstr, text_at, text_bytes, text_fits, u16_at, u32_at, write_fixed_size_cstr,
};

verus! {

/// Capacity of a name field (configurations).
pub const NAME_LEN: usize = 12;

/// Capacity of a free-text field.
pub const TEXT_LEN: usize = 255;

/// Magic value that addresses every element of a kind (images, layouts, ...).
pub const ALL: u8 = 0xFF;

/// A list result whose first items are already known.
pub open spec fn prepend<T>(
    a: Seq<T>,
    r: Result<Seq<T>, CodecError>,
) -> Result<Seq<T>, CodecError> {
    match r {
        Ok(s) => Ok(a + s),
        Err(e) => Err(e),
    }
}

/// Errors reported by the glasses.
#[derive(Clone, Copy, Debug, PartialEq, Eq, Structural)]
pub enum CmdError {
    Generic,
    /// Missing the `cfgWrite` command before configuration modification
    MissingCfgWrite,
    /// Memory read/write error
    MemoryAccess,
    /// Protocol decoding error
    ProtocolDecoding,
}

impl CmdError {
    /// The byte that stands for this value on the wire.
    pub open spec fn spec_id(self) -> u8 {
        match self {
            CmdError::Generic => 1,
            CmdError::MissingCfgWrite => 2,
            CmdError::MemoryAccess => 3,
            CmdError::ProtocolDecoding => 4,
        }
    }

    /// The value that a wire byte stands for, if any.
    pub open spec fn spec_from_id(b: u8) -> Option<CmdError> {
        if b == 1 {
            Some(CmdError::Generic)
        } else if b == 2 {
            Some(CmdError::MissingCfgWrite)
        } else if b == 3 {
            Some(CmdError::MemoryAccess)
        } else if b == 4 {
            Some(CmdError::ProtocolDecoding)
        } else {
            None
        }
    }

    pub fn id(&self) -> (r: u8)
        ensures
            r == self.spec_id(),
    {
        match self {
            CmdError::Generic => 1,
            CmdError::MissingCfgWrite => 2,
            CmdError::MemoryAccess => 3,
            CmdError::ProtocolDecoding => 4,
        }
    }

    pub fn from_id(b: u8) -> (r: Option<CmdError>)
        ensures
            r == CmdError::spec_from_id(b),
    {
        match b {
            1 => Some(CmdError::Generic),
            2 => Some(CmdError::MissingCfgWrite),
            3 => Some(CmdError::MemoryAccess),
            4 => Some(CmdError::ProtocolDecoding),
            _ => None,
        }
    }

    /// Every value is read back from its wire byte.
    pub proof fn lemma_id_round_trip(x: Self)
        ensures
            CmdError::spec_from_id(x.spec_id()) == Some(x),
    {
    }
}

/// Available demonstrations of the demo command.
#[derive(Clone, Copy, Debug, PartialEq, Eq, Structural)]
pub enum DemoID {
    Fill,
    Rect,
    Images,
}

impl DemoID {
    /// The byte that stands for this value on the wire.
    pub open spec fn spec_id(self) -> u8 {
        match self {
            DemoID::Fill => 0,
            DemoID::Rect => 1,
            DemoID::Images => 2,
        }
    }

    /// The value that a wire byte stands for, if any.
    pub open spec fn spec_from_id(b: u8) -> Option<DemoID> {
        if b == 0 {
            Some(DemoID::Fill)
        } else if b == 1 {
            Some(DemoID::Rect)
        } else if b == 2 {
            Some(DemoID::Images)
        } else {
            None
        }
    }

    pub fn id(&self) -> (r: u8)
        ensures
            r == self.spec_id(),
    {
        match self {
            DemoID::Fill => 0,
            DemoID::Rect => 1,
            DemoID::Images => 2,
        }
    }

    pub fn from_id(b: u8) -> (r: Option<DemoID>)
        ensures
            r == DemoID::spec_from_id(b),
    {
        match b {
            0 => Some(DemoID::Fill),
            1 => Some(DemoID::Rect),
            2 => Some(DemoID::Images),
            _ => None,
        }
    }

    /// Every value is read back from its wire byte.
    pub proof fn lemma_id_round_trip(x: Self)
        ensures
            DemoID::spec_from_id(x.spec_id()) == Some(x),
    {
    }
}

/// Available states of the LED command.
#[derive(Clone, Copy, Debug, PartialEq, Eq, Structural)]
pub enum LedState {
    Off,
    On,
    Toggle,
    Blinking,
}

impl LedState {
    /// The byte that stands for this value on the wire.
    pub open spec fn spec_id(self) -> u8 {
        match self {
            LedState::Off => 0,
            LedState::On => 1,
            LedState::Toggle => 2,
            LedState::Blinking => 3,
        }
    }

    /// The value that a wire byte stands for, if any.
    pub open spec fn spec_from_id(b: u8) -> Option<LedState> {
        if b == 0 {
            Some(LedState::Off)
        } else if b == 1 {
            Some(LedState::On)
        } else if b == 2 {
            Some(LedState::Toggle)
        } else if b == 3 {
            Some(LedState::Blinking)
        } else {
            None
        }
    }

    pub fn id(&self) -> (r: u8)
        ensures
            r == self.spec_id(),
    {
        match self {
            LedState::Off => 0,
            LedState::On => 1,
            LedState::Toggle => 2,
            LedState::Blinking => 3,
        }
    }

    pub fn from_id(b: u8) -> (r: Option<LedState>)
        ensures
            r == LedState::spec_from_id(b),
    {
        match b {
            0 => Some(LedState::Off),
            1 => Some(LedState::On),
            2 => Some(LedState::Toggle),
            3 => Some(LedState::Blinking),
            _ => None,
        }
    }

    /// Every value is read back from its wire byte.
    pub proof fn lemma_id_round_trip(x: Self)
        ensures
            LedState::spec_from_id(x.spec_id()) == Some(x),
    {
    }
}

/// Parameters that the info command can read.
#[derive(Clone, Copy, Debug, PartialEq, Eq, Structural)]
pub enum DeviceInfo {
    HWPlatform,
    Manufacturer,
    AdvertisingManufacturerID,
    Model,
    SubModel,
    FWVersion,
    SerialNumber,
    BatteryModel,
    LensModel,
    DisplayModel,
    DisplayOrientation,
    Certification1,
    Certification2,
    Certification3,
    Certification4,
    Certification5,
    Certification6,
}

impl DeviceInfo {
    /// The byte that stands for this value on the wire.
    pub open spec fn spec_id(self) -> u8 {
        match self {
            DeviceInfo::HWPlatform => 0,
            DeviceInfo::Manufacturer => 1,
            DeviceInfo::AdvertisingManufacturerID => 2,
            DeviceInfo::Model => 3,
            DeviceInfo::SubModel => 4,
            DeviceInfo::FWVersion => 5,
            DeviceInfo::SerialNumber => 6,
            DeviceInfo::BatteryModel => 7,
            DeviceInfo::LensModel => 8,
            DeviceInfo::DisplayModel => 9,
            DeviceInfo::DisplayOrientation => 10,
            DeviceInfo::Certification1 => 11,
            DeviceInfo::Certification2 => 12,
            DeviceInfo::Certification3 => 13,
            DeviceInfo::Certification4 => 14,
            DeviceInfo::Certification5 => 15,
            DeviceInfo::Certification6 => 16,
        }
    }

    /// The value that a wire byte stands for, if any.
    pub open spec fn spec_from_id(b: u8) -> Option<DeviceInfo> {
        if b == 0 {
            Some(DeviceInfo::HWPlatform)
        } else if b == 1 {
            Some(DeviceInfo::Manufacturer)
        } else if b == 2 {
            Some(DeviceInfo::AdvertisingManufacturerID)
        } else if b == 3 {
            Some(DeviceInfo::Model)
        } else if b == 4 {
            Some(DeviceInfo::SubModel)
        } else if b == 5 {
            Some(DeviceInfo::FWVersion)
        } else if b == 6 {
            Some(DeviceInfo::SerialNumber)
        } else if b == 7 {
            Some(DeviceInfo::BatteryModel)
        } else if b == 8 {
            Some(DeviceInfo::LensModel)
        } else if b == 9 {
            Some(DeviceInfo::DisplayModel)
        } else if b == 10 {
            Some(DeviceInfo::DisplayOrientation)
        } else if b == 11 {
            Some(DeviceInfo::Certification1)
        } else if b == 12 {
            Some(DeviceInfo::Certification2)
        } else if b == 13 {
            Some(DeviceInfo::Certification3)
        } else if b == 14 {
            Some(DeviceInfo::Certification4)
        } else if b == 15 {
            Some(DeviceInfo::Certification5)
        } else if b == 16 {
            Some(DeviceInfo::Certification6)
        } else {
            None
        }
    }

    pub fn id(&self) -> (r: u8)
        ensures
            r == self.spec_id(),
    {
        match self {
            DeviceInfo::HWPlatform => 0,
            DeviceInfo::Manufacturer => 1,
            DeviceInfo::AdvertisingManufacturerID => 2,
            DeviceInfo::Model => 3,
            DeviceInfo::SubModel => 4,
            DeviceInfo::FWVersion => 5,
            DeviceInfo::SerialNumber => 6,
            DeviceInfo::BatteryModel => 7,
            DeviceInfo::LensModel => 8,
            DeviceInfo::DisplayModel => 9,
            DeviceInfo::DisplayOrientation => 10,
            DeviceInfo::Certification1 => 11,
            DeviceInfo::Certification2 => 12,
            DeviceInfo::Certification3 => 13,
            DeviceInfo::Certification4 => 14,
            DeviceInfo::Certification5 => 15,
            DeviceInfo::Certification6 => 16,
        }
    }

    pub fn from_id(b: u8) -> (r: Option<DeviceInfo>)
        ensures
            r == DeviceInfo::spec_from_id(b),
    {
        match b {
            0 => Some(DeviceInfo::HWPlatform),
            1 => Some(DeviceInfo::Manufacturer),
            2 => Some(DeviceInfo::AdvertisingManufacturerID),
            3 => Some(DeviceInfo::Model),
            4 => Some(DeviceInfo::SubModel),
            5 => Some(DeviceInfo::FWVersion),
            6 => Some(DeviceInfo::SerialNumber),
            7 => Some(DeviceInfo::BatteryModel),
            8 => Some(DeviceInfo::LensModel),
            9 => Some(DeviceInfo::DisplayModel),
            10 => Some(DeviceInfo::DisplayOrientation),
            11 => Some(DeviceInfo::Certification1),
            12 => Some(DeviceInfo::Certification2),
            13 => Some(DeviceInfo::Certification3),
            14 => Some(DeviceInfo::Certification4),
            15 => Some(DeviceInfo::Certification5),
            16 => Some(DeviceInfo::Certification6),
            _ => None,
        }
    }

    /// Every value is read back from its wire byte.
    pub proof fn lemma_id_round_trip(x: Self)
        ensures
            DeviceInfo::spec_from_id(x.spec_id()) == Some(x),
    {
    }
}

/// Hold or flush the graphic engine.
///
/// When held, new display commands are stored in memory and are displayed when the
/// graphic engine is flushed. The command nests: flush as many times as hold was used.
#[derive(Clone, Copy, Debug, PartialEq, Eq, Structural)]
pub enum HoldFlushAction {
    /// Hold display
    Hold,
    /// Flush display
    Flush,
    /// Reset and flush all stacked holds, when the state of the device is unknown
    ResetFlush,
}

impl HoldFlushAction {
    /// The byte that stands for this value on the wire.
    pub open spec fn spec_id(self) -> u8 {
        match self {
            HoldFlushAction::Hold => 0,
            HoldFlushAction::Flush => 1,
            HoldFlushAction::ResetFlush => 255,
        }
    }

    /// The value that a wire byte stands for, if any.
    pub open spec fn spec_from_id(b: u8) -> Option<HoldFlushAction> {
        if b == 0 {
            Some(HoldFlushAction::Hold)
        } else if b == 1 {
            Some(HoldFlushAction::Flush)
        } else if b == 255 {
            Some(HoldFlushAction::ResetFlush)
        } else {
            None
        }
    }

    pub fn id(&self) -> (r: u8)
        ensures
            r == self.spec_id(),
    {
        match self {
            HoldFlushAction::Hold => 0,
            HoldFlushAction::Flush => 1,
            HoldFlushAction::ResetFlush => 255,
        }
    }

    pub fn from_id(b: u8) -> (r: Option<HoldFlushAction>)
        ensures
            r == HoldFlushAction::spec_from_id(b),
    {
        match b {
            0 => Some(HoldFlushAction::Hold),
            1 => Some(HoldFlushAction::Flush),
            255 => Some(HoldFlushAction::ResetFlush),
            _ => None,
        }
    }

    /// Every value is read back from its wire byte.
    pub proof fn lemma_id_round_trip(x: Self)
        ensures
            HoldFlushAction::spec_from_id(x.spec_id()) == Some(x),
    {
    }
}

/// Image format of the image save command.
#[derive(Clone, Copy, Debug, PartialEq, Eq, Structural)]
pub enum ImgFormat {
    /// 4 bits per pixel (16 gray levels)
    Img4bpp,
    /// 1 bit per pixel (black and white)
    Img1bpp,
    /// 4 bits per pixel with heatshrink compression, decompressed before saving
    Img4bppDecompressBeforeSaving,
    /// 4 bits per pixel with heatshrink compression, decompressed before displaying
    Img4bppDecompressBeforeDisplaying,
    /// 8 bits per pixel (16 gray levels + 16 alpha levels)
    Img8bpp,
}

impl ImgFormat {
    /// The byte that stands for this value on the wire.
    pub open spec fn spec_id(self) -> u8 {
        match self {
            ImgFormat::Img4bpp => 0,
            ImgFormat::Img1bpp => 1,
            ImgFormat::Img4bppDecompressBeforeSaving => 2,
            ImgFormat::Img4bppDecompressBeforeDisplaying => 3,
            ImgFormat::Img8bpp => 8,
        }
    }

    /// The value that a wire byte stands for, if any.
    pub open spec fn spec_from_id(b: u8) -> Option<ImgFormat> {
        if b == 0 {
            Some(ImgFormat::Img4bpp)
        } else if b == 1 {
            Some(ImgFormat::Img1bpp)
        } else if b == 2 {
            Some(ImgFormat::Img4bppDecompressBeforeSaving)
        } else if b == 3 {
            Some(ImgFormat::Img4bppDecompressBeforeDisplaying)
        } else if b == 8 {
            Some(ImgFormat::Img8bpp)
        } else {
            None
        }
    }

    pub fn id(&self) -> (r: u8)
        ensures
            r == self.spec_id(),
    {
        match self {
            ImgFormat::Img4bpp => 0,
            ImgFormat::Img1bpp => 1,
            ImgFormat::Img4bppDecompressBeforeSaving => 2,
            ImgFormat::Img4bppDecompressBeforeDisplaying => 3,
            ImgFormat::Img8bpp => 8,
        }
    }

    pub fn from_id(b: u8) -> (r: Option<ImgFormat>)
        ensures
            r == ImgFormat::spec_from_id(b),
    {
        match b {
            0 => Some(ImgFormat::Img4bpp),
            1 => Some(ImgFormat::Img1bpp),
            2 => Some(ImgFormat::Img4bppDecompressBeforeSaving),
            3 => Some(ImgFormat::Img4bppDecompressBeforeDisplaying),
            8 => Some(ImgFormat::Img8bpp),
            _ => None,
        }
    }

    /// Every value is read back from its wire byte.
    pub proof fn lemma_id_round_trip(x: Self)
        ensures
            ImgFormat::spec_from_id(x.spec_id()) == Some(x),
    {
    }
}

/// Image format of the image stream command.
#[derive(Clone, Copy, Debug, PartialEq, Eq, Structural)]
pub enum StreamImgFormat {
    /// 1 bit per pixel (black and white)
    Img1bpp,
    /// 4 bits per pixel with heatshrink compression, decompressed before saving
    Img4bppDecompressBeforeSaving,
}

impl StreamImgFormat {
    /// The byte that stands for this value on the wire.
    pub open spec fn spec_id(self) -> u8 {
        match self {
            StreamImgFormat::Img1bpp => 1,
            StreamImgFormat::Img4bppDecompressBeforeSaving => 2,
        }
    }

    /// The value that a wire byte stands for, if any.
    pub open spec fn spec_from_id(b: u8) -> Option<StreamImgFormat> {
        if b == 1 {
            Some(StreamImgFormat::Img1bpp)
        } else if b == 2 {
            Some(StreamImgFormat::Img4bppDecompressBeforeSaving)
        } else {
            None
        }
    }

    pub fn id(&self) -> (r: u8)
        ensures
            r == self.spec_id(),
    {
        match self {
            StreamImgFormat::Img1bpp => 1,
            StreamImgFormat::Img4bppDecompressBeforeSaving => 2,
        }
    }

    pub fn from_id(b: u8) -> (r: Option<StreamImgFormat>)
        ensures
            r == StreamImgFormat::spec_from_id(b),
    {
        match b {
            1 => Some(StreamImgFormat::Img1bpp),
            2 => Some(StreamImgFormat::Img4bppDecompressBeforeSaving),
            _ => None,
        }
    }

    /// Every value is read back from its wire byte.
    pub proof fn lemma_id_round_trip(x: Self)
        ensures
            StreamImgFormat::spec_from_id(x.spec_id()) == Some(x),
    {
    }
}

/// Image format of an animation's reference frame.
#[derive(Clone, Copy, Debug, PartialEq, Eq, Structural)]
pub enum AnimImgFormat {
    /// 4 bits per pixel (16 gray levels)
    Img4bpp,
    /// 4 bits per pixel with heatshrink compression, decompressed before saving
    Img4bppDecompressBeforeSaving,
}

impl AnimImgFormat {
    /// The byte that stands for this value on the wire.
    pub open spec fn spec_id(self) -> u8 {
        match self {
            AnimImgFormat::Img4bpp => 0,
            AnimImgFormat::Img4bppDecompressBeforeSaving => 2,
        }
    }

    /// The value that a wire byte stands for, if any.
    pub open spec fn spec_from_id(b: u8) -> Option<AnimImgFormat> {
        if b == 0 {
            Some(AnimImgFormat::Img4bpp)
        } else if b == 2 {
            Some(AnimImgFormat::Img4bppDecompressBeforeSaving)
        } else {
            None
        }
    }

    pub fn id(&self) -> (r: u8)
        ensures
            r == self.spec_id(),
    {
        match self {
            AnimImgFormat::Img4bpp => 0,
            AnimImgFormat::Img4bppDecompressBeforeSaving => 2,
        }
    }

    pub fn from_id(b: u8) -> (r: Option<AnimImgFormat>)
        ensures
            r == AnimImgFormat::spec_from_id(b),
    {
        match b {
            0 => Some(AnimImgFormat::Img4bpp),
            2 => Some(AnimImgFormat::Img4bppDecompressBeforeSaving),
            _ => None,
        }
    }

    /// Every value is read back from its wire byte.
    pub proof fn lemma_id_round_trip(x: Self)
        ensures
            AnimImgFormat::spec_from_id(x.spec_id()) == Some(x),
    {
    }
}

/// Common point type used by the graphic commands.
#[derive(Clone, Copy, Debug, PartialEq, Eq, Structural)]
pub struct Point {
    pub x: i16,
    pub y: i16,
}

/// Wire form of a [`Point`]: its fields in order, 4 bytes.
pub open spec fn point_bytes(v: Point) -> Seq<u8> {
    be16_signed(v.x) + be16_signed(v.y)
}

/// The [`Point`] stored at `p`.
pub open spec fn point_at(d: Seq<u8>, p: int) -> Point {
    Point { x: i16_at(d, p), y: i16_at(d, p + 2) }
}

pub fn put_point(out: &mut Vec<u8>, v: Point)
    ensures
        final(out)@ == old(out)@ + point_bytes(v),
{
    put_i16(out, v.x);
    put_i16(out, v.y);
    assert(final(out)@ =~= old(out)@ + point_bytes(v));
}

pub fn get_point(d: &[u8], p: usize) -> (r: Point)
    requires
        p + 4 <= d.len(),
    ensures
        r == point_at(d@, p as int),
{
    Point { x: get_i16(d, p), y: get_i16(d, p + 2) }
}

/// Common shift type used by the shift command.
#[derive(Clone, Copy, Debug, PartialEq, Eq, Structural)]
pub struct Shift {
    pub x: i16,
    pub y: i16,
}

/// Wire form of a [`Shift`]: its fields in order, 4 bytes.
pub open spec fn shift_bytes(v: Shift) -> Seq<u8> {
    be16_signed(v.x) + be16_signed(v.y)
}

/// The [`Shift`] stored at `p`.
pub open spec fn shift_at(d: Seq<u8>, p: int) -> Shift {
    Shift { x: i16_at(d, p), y: i16_at(d, p + 2) }
}

pub fn put_shift(out: &mut Vec<u8>, v: Shift)
    ensures
        final(out)@ == old(out)@ + shift_bytes(v),
{
    put_i16(out, v.x);
    put_i16(out, v.y);
    assert(final(out)@ =~= old(out)@ + shift_bytes(v));
}

pub fn get_shift(d: &[u8], p: usize) -> (r: Shift)
    requires
        p + 4 <= d.len(),
    ensures
        r == shift_at(d@, p as int),
{
    Shift { x: get_i16(d, p), y: get_i16(d, p + 2) }
}

/// Position of a layout.
#[derive(Clone, Copy, Debug, PartialEq, Eq, Structural)]
pub struct LayoutPosition {
    pub x: u16,
    pub y: u8,
}

/// Wire form of a [`LayoutPosition`]: its fields in order, 3 bytes.
pub open spec fn layout_position_bytes(v: LayoutPosition) -> Seq<u8> {
    be16(v.x) + seq![v.y]
}

/// The [`LayoutPosition`] stored at `p`.
pub open spec fn layout_position_at(d: Seq<u8>, p: int) -> LayoutPosition {
    LayoutPosition { x: u16_at(d, p), y: d[p + 2] }
}

pub fn put_layout_position(out: &mut Vec<u8>, v: LayoutPosition)
    ensures
        final(out)@ == old(out)@ + layout_position_bytes(v),
{
    put_u16(out, v.x);
    put_u8(out, v.y);
    assert(final(out)@ =~= old(out)@ + layout_position_bytes(v));
}

pub fn get_layout_position(d: &[u8], p: usize) -> (r: LayoutPosition)
    requires
        p + 3 <= d.len(),
    ensures
        r == layout_position_at(d@, p as int),
{
    LayoutPosition { x: get_u16(d, p), y: d[p + 2] }
}

/// List item of an image list; `height` and `width` are in pixels.
#[derive(Clone, Copy, Debug, PartialEq, Eq, Structural)]
pub struct ImgListItem {
    pub id: u8,
    pub height: u16,
    pub width: u16,
}

/// Wire form of a [`ImgListItem`]: its fields in order, 5 bytes.
pub open spec fn img_list_item_bytes(v: ImgListItem) -> Seq<u8> {
    seq![v.id] + be16(v.height) + be16(v.width)
}

/// The [`ImgListItem`] stored at `p`.
pub open spec fn img_list_item_at(d: Seq<u8>, p: int) -> ImgListItem {
    ImgListItem { id: d[p], height: u16_at(d, p + 1), width: u16_at(d, p + 3) }
}

pub fn put_img_list_item(out: &mut Vec<u8>, v: ImgListItem)
    ensures
        final(out)@ == old(out)@ + img_list_item_bytes(v),
{
    put_u8(out, v.id);
    put_u16(out, v.height);
    put_u16(out, v.width);
    assert(final(out)@ =~= old(out)@ + img_list_item_bytes(v));
}

pub fn get_img_list_item(d: &[u8], p: usize) -> (r: ImgListItem)
    requires
        p + 5 <= d.len(),
    ensures
        r == img_list_item_at(d@, p as int),
{
    ImgListItem { id: d[p], height: get_u16(d, p + 1), width: get_u16(d, p + 3) }
}

/// Font item of a font list.
#[derive(Clone, Copy, Debug, PartialEq, Eq, Structural)]
pub struct FontItem {
    pub id: u8,
    pub height: u8,
}

/// Wire form of a [`FontItem`]: its fields in order, 2 bytes.
pub open spec fn font_item_bytes(v: FontItem) -> Seq<u8> {
    seq![v.id] + seq![v.height]
}

/// The [`FontItem`] stored at `p`.
pub open spec fn font_item_at(d: Seq<u8>, p: int) -> FontItem {
    FontItem { id: d[p], height: d[p + 1] }
}

pub fn put_font_item(out: &mut Vec<u8>, v: FontItem)
    ensures
        final(out)@ == old(out)@ + font_item_bytes(v),
{
    put_u8(out, v.id);
    put_u8(out, v.height);
    assert(final(out)@ =~= old(out)@ + font_item_bytes(v));
}

pub fn get_font_item(d: &[u8], p: usize) -> (r: FontItem)
    requires
        p + 2 <= d.len(),
    ensures
        r == font_item_at(d@, p as int),
{
    FontItem { id: d[p], height: d[p + 1] }
}

/// Configuration item of a configuration list.
#[derive(Clone, Debug, PartialEq, Eq)]
pub struct CfgItem {
    pub name: String,
    pub size: u32,
    pub version: u32,
    pub usage_counter: u8,
    pub install_counter: u8,
    pub is_system: u8,
}

/// Mathematical model of a [`CfgItem`].
pub struct CfgItemView {
    pub name: Seq<char>,
    pub size: u32,
    pub version: u32,
    pub usage_counter: u8,
    pub install_counter: u8,
    pub is_system: u8,
}

impl View for CfgItem {
    type V = CfgItemView;

    open spec fn view(&self) -> CfgItemView {
        CfgItemView {
            name: self.name@,
            size: self.size,
            version: self.version,
            usage_counter: self.usage_counter,
            install_counter: self.install_counter,
            is_system: self.is_system,
        }
    }
}

impl CfgItemView {
    /// Values that survive a trip through the wire.
    pub open spec fn wf(self) -> bool {
        text_fits(self.name, NAME_LEN as nat)
    }

    /// Wire form: the fields in order.
    pub open spec fn bytes(self) -> Seq<u8> {
        text_bytes(self.name, NAME_LEN as nat)
            + be32(self.size)
            + be32(self.version)
            + seq![self.usage_counter]
            + seq![self.install_counter]
            + seq![self.is_system]
    }

    /// The value stored at `p`, with the position that follows it.
    pub open spec fn parse(d: Seq<u8>, p: int) -> Result<(CfgItemView, int), CodecError> {
        match text_at(d, p, NAME_LEN as nat) {
            Err(e) => Err(e),
            Ok((name, at1)) => {
                if d.len() - at1 < 11 {
                    Err(CodecError::Incomplete)
                } else {
                    let size = u32_at(d, at1);
                    let version = u32_at(d, at1 + 4);
                    let usage_counter = d[at1 + 8];
                    let install_counter = d[at1 + 9];
                    let is_system = d[at1 + 10];
                    let at2 = at1 + 11;
                    Ok((CfgItemView {
                        name,
                        size,
                        version,
                        usage_counter,
                        install_counter,
                        is_system,
                    }, at2))
                }
            },
        }
    }

    /// A well-formed value is read back from its wire form, wherever it stands.
    #[verifier::rlimit(60)]
    pub proof fn lemma_round_trip(pre: Seq<u8>, v: CfgItemView, post: Seq<u8>)
        requires
            v.wf(),
        ensures
            CfgItemView::parse(pre + v.bytes() + post, pre.len() as int)
                == Ok::<(CfgItemView, int), CodecError>(
                (v, pre.len() + v.bytes().len() as int),
            ),
    {
        let d = pre + v.bytes() + post;
        let pl = pre.len() as int;
        assert(d.subrange(pl, (pl + text_bytes(v.name, NAME_LEN as nat).len()) as int)
            =~= text_bytes(v.name, NAME_LEN as nat));
        lemma_text_round_trip(d, pl, v.name, NAME_LEN as nat);
        lemma_be32_value(v.size);
        lemma_be32_value(v.version);
    }
}

impl CfgItem {
    /// A copy with the same contents.
    pub fn duplicate(&self) -> (r: CfgItem)
        ensures
            r@ == self@,
    {
        CfgItem {
            name: self.name.clone(),
            size: self.size,
            version: self.version,
            usage_counter: self.usage_counter,
            install_counter: self.install_counter,
            is_system: self.is_system,
        }
    }

    /// Appends the wire form.
    pub fn write(&self, out: &mut Vec<u8>)
        ensures
            final(out)@ == old(out)@ + self@.bytes(),
    {
        write_fixed_size_cstr(out, self.name.as_str(), NAME_LEN);
        put_u32(out, self.size);
        put_u32(out, self.version);
        put_u8(out, self.usage_counter);
        put_u8(out, self.install_counter);
        put_u8(out, self.is_system);
        assert(final(out)@ =~= old(out)@ + self@.bytes());
    }

    /// Reads the value stored at `p`; returns it with the position that follows it.
    pub fn read(d: &[u8], p: usize) -> (r: Result<(CfgItem, usize), CodecError>)
        requires
            p <= d@.len(),
        ensures
            match r {
                Ok((v, q)) => CfgItemView::parse(d@, p as int)
                    == Ok::<(CfgItemView, int), CodecError>((v@, q as int))
                    && p <= q <= d@.len(),
                Err(e) => CfgItemView::parse(d@, p as int)
                    == Err::<(CfgItemView, int), CodecError>(e),
            },
    {
        let (name, at1) = read_fixed_size_cstr(d, p, NAME_LEN)?;
        if d.len() - at1 < 11 {
            return Err(CodecError::Incomplete);
        }
        let size = get_u32(d, at1);
        let version = get_u32(d, at1 + 4);
        let usage_counter = d[at1 + 8];
        let install_counter = d[at1 + 9];
        let is_system = d[at1 + 10];
        let at2: usize = at1 + 11;
        Ok((CfgItem { name, size, version, usage_counter, install_counter, is_system }, at2))
    }
}

/// Layout parameters.
#[derive(Clone, Debug, PartialEq, Eq)]
pub struct LayoutParameters {
    pub size: u8,
    pub pos: LayoutPosition,
    pub width: u16,
    pub height: u8,
    pub fore_color: u8,
    pub back_color: u8,
    pub font: u8,
    pub text_valid: u8,
    pub text_pos: LayoutPosition,
    pub text_rotation: u8,
    pub text_opacity: u8,
    pub commands: Vec<u8>,
}

/// Mathematical model of a [`LayoutParameters`].
pub struct LayoutParametersView {
    pub size: u8,
    pub pos: LayoutPosition,
    pub width: u16,
    pub height: u8,
    pub fore_color: u8,
    pub back_color: u8,
    pub font: u8,
    pub text_valid: u8,
    pub text_pos: LayoutPosition,
    pub text_rotation: u8,
    pub text_opacity: u8,
    pub commands: Seq<u8>,
}

impl View for LayoutParameters {
    type V = LayoutParametersView;

    open spec fn view(&self) -> LayoutParametersView {
        LayoutParametersView {
            size: self.size,
            pos: self.pos,
            width: self.width,
            height: self.height,
            fore_color: self.fore_color,
            back_color: self.back_color,
            font: self.font,
            text_valid: self.text_valid,
            text_pos: self.text_pos,
            text_rotation: self.text_rotation,
            text_opacity: self.text_opacity,
            commands: self.commands@,
        }
    }
}

impl LayoutParametersView {
    /// Values that survive a trip through the wire.
    pub open spec fn wf(self) -> bool {
        self.commands.len() == self.size
    }

    /// Wire form: the fields in order.
    pub open spec fn bytes(self) -> Seq<u8> {
        seq![self.size]
            + layout_position_bytes(self.pos)
            + be16(self.width)
            + seq![self.height]
            + seq![self.fore_color]
            + seq![self.back_color]
            + seq![self.font]
            + seq![self.text_valid]
            + layout_position_bytes(self.text_pos)
            + seq![self.text_rotation]
            + seq![self.text_opacity]
            + self.commands
    }

    /// The value stored at `p`, with the position that follows it.
    pub open spec fn parse(d: Seq<u8>, p: int) -> Result<(LayoutParametersView, int), CodecError> {
        if d.len() - p < 16 {
            Err(CodecError::Incomplete)
        } else {
            let size = d[p];
            let pos = layout_position_at(d, p + 1);
            let width = u16_at(d, p + 4);
            let height = d[p + 6];
            let fore_color = d[p + 7];
            let back_color = d[p + 8];
            let font = d[p + 9];
            let text_valid = d[p + 10];
            let text_pos = layout_position_at(d, p + 11);
            let text_rotation = d[p + 14];
            let text_opacity = d[p + 15];
            let at1 = p + 16;
            if d.len() - at1 < size {
                Err(CodecError::Incomplete)
            } else {
                let commands = d.subrange(at1, at1 + size);
                let at2 = at1 + size;
                Ok((LayoutParametersView {
                    size,
                    pos,
                    width,
                    height,
                    fore_color,
                    back_color,
                    font,
                    text_valid,
                    text_pos,
                    text_rotation,
                    text_opacity,
                    commands,
                }, at2))
            }
        }
    }

    /// A well-formed value is read back from its wire form, wherever it stands.
    #[verifier::rlimit(60)]
    pub proof fn lemma_round_trip(pre: Seq<u8>, v: LayoutParametersView, post: Seq<u8>)
        requires
            v.wf(),
        ensures
            LayoutParametersView::parse(pre + v.bytes() + post, pre.len() as int)
                == Ok::<(LayoutParametersView, int), CodecError>(
                (v, pre.len() + v.bytes().len() as int),
            ),
    {
        let d = pre + v.bytes() + post;
        let pl = pre.len() as int;
        assert(d.subrange(pl + 16, (pl + 16 + v.commands.len()) as int) =~= v.commands);
    }
}

impl LayoutParameters {
    /// A copy with the same contents.
    pub fn duplicate(&self) -> (r: LayoutParameters)
        ensures
            r@ == self@,
    {
        LayoutParameters {
            size: self.size,
            pos: self.pos,
            width: self.width,
            height: self.height,
            fore_color: self.fore_color,
            back_color: self.back_color,
            font: self.font,
            text_valid: self.text_valid,
            text_pos: self.text_pos,
            text_rotation: self.text_rotation,
            text_opacity: self.text_opacity,
            commands: vstd::slice::slice_to_vec(self.commands.as_slice()),
        }
    }

    /// Appends the wire form.
    pub fn write(&self, out: &mut Vec<u8>)
        ensures
            final(out)@ == old(out)@ + self@.bytes(),
    {
        put_u8(out, self.size);
        put_layout_position(out, self.pos);
        put_u16(out, self.width);
        put_u8(out, self.height);
        put_u8(out, self.fore_color);
        put_u8(out, self.back_color);
        put_u8(out, self.font);
        put_u8(out, self.text_valid);
        put_layout_position(out, self.text_pos);
        put_u8(out, self.text_rotation);
        put_u8(out, self.text_opacity);
        put_bytes(out, self.commands.as_slice());
        assert(final(out)@ =~= old(out)@ + self@.bytes());
    }

    /// Reads the value stored at `p`; returns it with the position that follows it.
    pub fn read(d: &[u8], p: usize) -> (r: Result<(LayoutParameters, usize), CodecError>)
        requires
            p <= d@.len(),
        ensures
            match r {
                Ok((v, q)) => LayoutParametersView::parse(d@, p as int)
                    == Ok::<(LayoutParametersView, int), CodecError>((v@, q as int))
                    && p <= q <= d@.len(),
                Err(e) => LayoutParametersView::parse(d@, p as int)
                    == Err::<(LayoutParametersView, int), CodecError>(e),
            },
    {
        if d.len() - p < 16 {
            return Err(CodecError::Incomplete);
        }
        let size = d[p];
        let pos = get_layout_position(d, p + 1);
        let width = get_u16(d, p + 4);
        let height = d[p + 6];
        let fore_color = d[p + 7];
        let back_color = d[p + 8];
        let font = d[p + 9];
        let text_valid = d[p + 10];
        let text_pos = get_layout_position(d, p + 11);
        let text_rotation = d[p + 14];
        let text_opacity = d[p + 15];
        let at1: usize = p + 16;
        if ((d.len() - at1) as u64) < (size as u64) {
            return Err(CodecError::Incomplete);
        }
        let at2: usize = at1 + size as usize;
        let commands = get_bytes(d, at1, at2);
        Ok((LayoutParameters {
            size,
            pos,
            width,
            height,
            fore_color,
            back_color,
            font,
            text_valid,
            text_pos,
            text_rotation,
            text_opacity,
            commands,
        }, at2))
    }
}

/// Wire form of a list of [`Point`]: the items one after the other.
pub open spec fn point_list_bytes(s: Seq<Point>) -> Seq<u8>
    decreases s.len(),
{
    if s.len() == 0 {
        Seq::empty()
    } else {
        point_bytes(s[0]) + point_list_bytes(s.drop_first())
    }
}

/// The list of [`Point`] that fills the payload from `p` to its end.
pub open spec fn point_list_at(d: Seq<u8>, p: int) -> Result<Seq<Point>, CodecError>
    decreases d.len() - p,
{
    if p >= d.len() {
        Ok(Seq::empty())
    } else if d.len() - p < 4 {
        Err(CodecError::Incomplete)
    } else {
        match point_list_at(d, p + 4) {
            Err(e) => Err(e),
            Ok(rest) => Ok(seq![point_at(d, p)] + rest),
        }
    }
}

pub proof fn lemma_point_list_bytes_push(s: Seq<Point>, x: Point)
    ensures
        point_list_bytes(s.push(x)) == point_list_bytes(s) + point_bytes(x),
    decreases s.len(),
{
    let t = s.push(x).drop_first();
    if s.len() == 0 {
        assert(t =~= Seq::<Point>::empty());
        assert(point_list_bytes(t) == Seq::<u8>::empty());
        assert(point_list_bytes(s.push(x)) == point_bytes(x) + point_list_bytes(t));
        assert(point_list_bytes(s.push(x)) =~= point_list_bytes(s) + point_bytes(x));
    } else {
        lemma_point_list_bytes_push(s.drop_first(), x);
        assert(t =~= s.drop_first().push(x));
        assert(point_list_bytes(s.push(x)) == point_bytes(s[0]) + point_list_bytes(t));
        assert(point_list_bytes(s.push(x)) =~= point_list_bytes(s) + point_bytes(x));
    }
}

/// A list of well-formed items is read back from its wire form.
pub proof fn lemma_point_list_round_trip(pre: Seq<u8>, s: Seq<Point>)
    ensures
        point_list_at(pre + point_list_bytes(s), pre.len() as int)
            == Ok::<Seq<Point>, CodecError>(s),
    decreases s.len(),
{
    let d = pre + point_list_bytes(s);
    if s.len() == 0 {
        assert(d =~= pre);
        assert(s =~= Seq::<Point>::empty());
    } else {
        let x = s[0];
        let rest = s.drop_first();
        let pre2 = pre + point_bytes(x);
        assert(d =~= pre2 + point_list_bytes(rest));
        lemma_point_list_round_trip(pre2, rest);
        assert(seq![x] + rest =~= s);
    }
}

/// Reads the list of [`Point`] that fills the payload from `p` to its end.
pub fn read_point_list(d: &[u8], p: usize) -> (r: Result<Vec<Point>, CodecError>)
    requires
        p <= d@.len(),
    ensures
        match r {
            Ok(v) => point_list_at(d@, p as int) == Ok::<Seq<Point>, CodecError>(v@),
            Err(e) => point_list_at(d@, p as int) == Err::<Seq<Point>, CodecError>(e),
        },
{
    let mut v: Vec<Point> = Vec::new();
    let mut q: usize = p;
    while q < d.len()
        invariant
            p <= q <= d@.len(),
            point_list_at(d@, p as int) == prepend(v@, point_list_at(d@, q as int)),
        decreases d@.len() - q,
    {
        let ghost before = v@;
        if d.len() - q < 4 {
            return Err(CodecError::Incomplete);
        }
        let x = get_point(d, q);
        let next: usize = q + 4;
        v.push(x);
        proof {
            match point_list_at(d@, next as int) {
                Ok(rest) => {
                    assert(before + (seq![x] + rest) =~= v@ + rest);
                },
                Err(_) => {},
            }
        }
        q = next;
    }
    assert(v@ + Seq::<Point>::empty() =~= v@);
    Ok(v)
}

/// Appends the wire form of a list of [`Point`].
pub fn write_point_list(out: &mut Vec<u8>, s: &Vec<Point>)
    ensures
        final(out)@ == old(out)@ + point_list_bytes(s@),
{
    let mut i: usize = 0;
    while i < s.len()
        invariant
            i <= s@.len(),
            out@ == old(out)@ + point_list_bytes(s@.subrange(0, i as int)),
        decreases s@.len() - i,
    {
        proof {
            let sv = s@;
            lemma_point_list_bytes_push(sv.subrange(0, i as int), sv[i as int]);
            assert(sv.subrange(0, i + 1) =~= sv.subrange(0, i as int).push(sv[i as int]));
        }
        put_point(out, s[i]);
        i += 1;
        assert(out@ =~= old(out)@ + point_list_bytes(s@.subrange(0, i as int)));
    }
    assert(s@.subrange(0, s@.len() as int) =~= s@);
}

/// Wire form of a list of [`ImgListItem`]: the items one after the other.
pub open spec fn img_list_bytes(s: Seq<ImgListItem>) -> Seq<u8>
    decreases s.len(),
{
    if s.len() == 0 {
        Seq::empty()
    } else {
        img_list_item_bytes(s[0]) + img_list_bytes(s.drop_first())
    }
}

/// The list of [`ImgListItem`] that fills the payload from `p` to its end.
pub open spec fn img_list_at(d: Seq<u8>, p: int) -> Result<Seq<ImgListItem>, CodecError>
    decreases d.len() - p,
{
    if p >= d.len() {
        Ok(Seq::empty())
    } else if d.len() - p < 5 {
        Err(CodecError::Incomplete)
    } else {
        match img_list_at(d, p + 5) {
            Err(e) => Err(e),
            Ok(rest) => Ok(seq![img_list_item_at(d, p)] + rest),
        }
    }
}

pub proof fn lemma_img_list_bytes_push(s: Seq<ImgListItem>, x: ImgListItem)
    ensures
        img_list_bytes(s.push(x)) == img_list_bytes(s) + img_list_item_bytes(x),
    decreases s.len(),
{
    let t = s.push(x).drop_first();
    if s.len() == 0 {
        assert(t =~= Seq::<ImgListItem>::empty());
        assert(img_list_bytes(t) == Seq::<u8>::empty());
        assert(img_list_bytes(s.push(x)) == img_list_item_bytes(x) + img_list_bytes(t));
        assert(img_list_bytes(s.push(x)) =~= img_list_bytes(s) + img_list_item_bytes(x));
    } else {
        lemma_img_list_bytes_push(s.drop_first(), x);
        assert(t =~= s.drop_first().push(x));
        assert(img_list_bytes(s.push(x)) == img_list_item_bytes(s[0]) + img_list_bytes(t));
        assert(img_list_bytes(s.push(x)) =~= img_list_bytes(s) + img_list_item_bytes(x));
    }
}

/// A list of well-formed items is read back from its wire form.
pub proof fn lemma_img_list_round_trip(pre: Seq<u8>, s: Seq<ImgListItem>)
    ensures
        img_list_at(pre + img_list_bytes(s), pre.len() as int)
            == Ok::<Seq<ImgListItem>, CodecError>(s),
    decreases s.len(),
{
    let d = pre + img_list_bytes(s);
    if s.len() == 0 {
        assert(d =~= pre);
        assert(s =~= Seq::<ImgListItem>::empty());
    } else {
        let x = s[0];
        let rest = s.drop_first();
        let pre2 = pre + img_list_item_bytes(x);
        assert(d =~= pre2 + img_list_bytes(rest));
        lemma_img_list_round_trip(pre2, rest);
        assert(seq![x] + rest =~= s);
    }
}

/// Reads the list of [`ImgListItem`] that fills the payload from `p` to its end.
pub fn read_img_list(d: &[u8], p: usize) -> (r: Result<Vec<ImgListItem>, CodecError>)
    requires
        p <= d@.len(),
    ensures
        match r {
            Ok(v) => img_list_at(d@, p as int) == Ok::<Seq<ImgListItem>, CodecError>(v@),
            Err(e) => img_list_at(d@, p as int) == Err::<Seq<ImgListItem>, CodecError>(e),
        },
{
    let mut v: Vec<ImgListItem> = Vec::new();
    let mut q: usize = p;
    while q < d.len()
        invariant
            p <= q <= d@.len(),
            img_list_at(d@, p as int) == prepend(v@, img_list_at(d@, q as int)),
        decreases d@.len() - q,
    {
        let ghost before = v@;
        if d.len() - q < 5 {
            return Err(CodecError::Incomplete);
        }
        let x = get_img_list_item(d, q);
        let next: usize = q + 5;
        v.push(x);
        proof {
            match img_list_at(d@, next as int) {
                Ok(rest) => {
                    assert(before + (seq![x] + rest) =~= v@ + rest);
                },
                Err(_) => {},
            }
        }
        q = next;
    }
    assert(v@ + Seq::<ImgListItem>::empty() =~= v@);
    Ok(v)
}

/// Appends the wire form of a list of [`ImgListItem`].
pub fn write_img_list(out: &mut Vec<u8>, s: &Vec<ImgListItem>)
    ensures
        final(out)@ == old(out)@ + img_list_bytes(s@),
{
    let mut i: usize = 0;
    while i < s.len()
        invariant
            i <= s@.len(),
            out@ == old(out)@ + img_list_bytes(s@.subrange(0, i as int)),
        decreases s@.len() - i,
    {
        proof {
            let sv = s@;
            lemma_img_list_bytes_push(sv.subrange(0, i as int), sv[i as int]);
            assert(sv.subrange(0, i + 1) =~= sv.subrange(0, i as int).push(sv[i as int]));
        }
        put_img_list_item(out, s[i]);
        i += 1;
        assert(out@ =~= old(out)@ + img_list_bytes(s@.subrange(0, i as int)));
    }
    assert(s@.subrange(0, s@.len() as int) =~= s@);
}

/// Wire form of a list of [`FontItem`]: the items one after the other.
pub open spec fn font_list_bytes(s: Seq<FontItem>) -> Seq<u8>
    decreases s.len(),
{
    if s.len() == 0 {
        Seq::empty()
    } else {
        font_item_bytes(s[0]) + font_list_bytes(s.drop_first())
    }
}

/// The list of [`FontItem`] that fills the payload from `p` to its end.
pub open spec fn font_list_at(d: Seq<u8>, p: int) -> Result<Seq<FontItem>, CodecError>
    decreases d.len() - p,
{
    if p >= d.len() {
        Ok(Seq::empty())
    } else if d.len() - p < 2 {
        Err(CodecError::Incomplete)
    } else {
        match font_list_at(d, p + 2) {
            Err(e) => Err(e),
            Ok(rest) => Ok(seq![font_item_at(d, p)] + rest),
        }
    }
}

pub proof fn lemma_font_list_bytes_push(s: Seq<FontItem>, x: FontItem)
    ensures
        font_list_bytes(s.push(x)) == font_list_bytes(s) + font_item_bytes(x),
    decreases s.len(),
{
    let t = s.push(x).drop_first();
    if s.len() == 0 {
        assert(t =~= Seq::<FontItem>::empty());
        assert(font_list_bytes(t) == Seq::<u8>::empty());
        assert(font_list_bytes(s.push(x)) == font_item_bytes(x) + font_list_bytes(t));
        assert(font_list_bytes(s.push(x)) =~= font_list_bytes(s) + font_item_bytes(x));
    } else {
        lemma_font_list_bytes_push(s.drop_first(), x);
        assert(t =~= s.drop_first().push(x));
        assert(font_list_bytes(s.push(x)) == font_item_bytes(s[0]) + font_list_bytes(t));
        assert(font_list_bytes(s.push(x)) =~= font_list_bytes(s) + font_item_bytes(x));
    }
}

/// A list of well-formed items is read back from its wire form.
pub proof fn lemma_font_list_round_trip(pre: Seq<u8>, s: Seq<FontItem>)
    ensures
        font_list_at(pre + font_list_bytes(s), pre.len() as int)
            == Ok::<Seq<FontItem>, CodecError>(s),
    decreases s.len(),
{
    let d = pre + font_list_bytes(s);
    if s.len() == 0 {
        assert(d =~= pre);
        assert(s =~= Seq::<FontItem>::empty());
    } else {
        let x = s[0];
        let rest = s.drop_first();
        let pre2 = pre + font_item_bytes(x);
        assert(d =~= pre2 + font_list_bytes(rest));
        lemma_font_list_round_trip(pre2, rest);
        assert(seq![x] + rest =~= s);
    }
}

/// Reads the list of [`FontItem`] that fills the payload from `p` to its end.
pub fn read_font_list(d: &[u8], p: usize) -> (r: Result<Vec<FontItem>, CodecError>)
    requires
        p <= d@.len(),
    ensures
        match r {
            Ok(v) => font_list_at(d@, p as int) == Ok::<Seq<FontItem>, CodecError>(v@),
            Err(e) => font_list_at(d@, p as int) == Err::<Seq<FontItem>, CodecError>(e),
        },
{
    let mut v: Vec<FontItem> = Vec::new();
    let mut q: usize = p;
    while q < d.len()
        invariant
            p <= q <= d@.len(),
            font_list_at(d@, p as int) == prepend(v@, font_list_at(d@, q as int)),
        decreases d@.len() - q,
    {
        let ghost before = v@;
        if d.len() - q < 2 {
            return Err(CodecError::Incomplete);
        }
        let x = get_font_item(d, q);
        let next: usize = q + 2;
        v.push(x);
        proof {
            match font_list_at(d@, next as int) {
                Ok(rest) => {
                    assert(before + (seq![x] + rest) =~= v@ + rest);
                },
                Err(_) => {},
            }
        }
        q = next;
    }
    assert(v@ + Seq::<FontItem>::empty() =~= v@);
    Ok(v)
}

/// Appends the wire form of a list of [`FontItem`].
pub fn write_font_list(out: &mut Vec<u8>, s: &Vec<FontItem>)
    ensures
        final(out)@ == old(out)@ + font_list_bytes(s@),
{
    let mut i: usize = 0;
    while i < s.len()
        invariant
            i <= s@.len(),
            out@ == old(out)@ + font_list_bytes(s@.subrange(0, i as int)),
        decreases s@.len() - i,
    {
        proof {
            let sv = s@;
            lemma_font_list_bytes_push(sv.subrange(0, i as int), sv[i as int]);
            assert(sv.subrange(0, i + 1) =~= sv.subrange(0, i as int).push(sv[i as int]));
        }
        put_font_item(out, s[i]);
        i += 1;
        assert(out@ =~= old(out)@ + font_list_bytes(s@.subrange(0, i as int)));
    }
    assert(s@.subrange(0, s@.len() as int) =~= s@);
}

/// Wire form of a list of [`CfgItem`]: the items one after the other.
pub open spec fn cfg_list_bytes(s: Seq<CfgItemView>) -> Seq<u8>
    decreases s.len(),
{
    if s.len() == 0 {
        Seq::empty()
    } else {
        s[0].bytes() + cfg_list_bytes(s.drop_first())
    }
}

/// The list of [`CfgItem`] that fills the payload from `p` to its end.
pub open spec fn cfg_list_at(d: Seq<u8>, p: int) -> Result<Seq<CfgItemView>, CodecError>
    decreases d.len() - p,
{
    if p >= d.len() {
        Ok(Seq::empty())
    } else {
        match CfgItemView::parse(d, p) {
            Err(e) => Err(e),
            Ok((x, q)) => if q <= p || q > d.len() {
                Err(CodecError::Incomplete)
            } else {
                match cfg_list_at(d, q) {
                    Err(e) => Err(e),
                    Ok(rest) => Ok(seq![x] + rest),
                }
            },
        }
    }
}

pub proof fn lemma_cfg_list_bytes_push(s: Seq<CfgItemView>, x: CfgItemView)
    ensures
        cfg_list_bytes(s.push(x)) == cfg_list_bytes(s) + x.bytes(),
    decreases s.len(),
{
    let t = s.push(x).drop_first();
    if s.len() == 0 {
        assert(t =~= Seq::<CfgItemView>::empty());
        assert(cfg_list_bytes(t) == Seq::<u8>::empty());
        assert(cfg_list_bytes(s.push(x)) == x.bytes() + cfg_list_bytes(t));
        assert(cfg_list_bytes(s.push(x)) =~= cfg_list_bytes(s) + x.bytes());
    } else {
        lemma_cfg_list_bytes_push(s.drop_first(), x);
        assert(t =~= s.drop_first().push(x));
        assert(cfg_list_bytes(s.push(x)) == s[0].bytes() + cfg_list_bytes(t));
        assert(cfg_list_bytes(s.push(x)) =~= cfg_list_bytes(s) + x.bytes());
    }
}

/// A list of well-formed items is read back from its wire form.
pub proof fn lemma_cfg_list_round_trip(pre: Seq<u8>, s: Seq<CfgItemView>)
    requires
        forall|i: int| 0 <= i < s.len() ==> (#[trigger] s[i]).wf(),
    ensures
        cfg_list_at(pre + cfg_list_bytes(s), pre.len() as int)
            == Ok::<Seq<CfgItemView>, CodecError>(s),
    decreases s.len(),
{
    let d = pre + cfg_list_bytes(s);
    if s.len() == 0 {
        assert(d =~= pre);
        assert(s =~= Seq::<CfgItemView>::empty());
    } else {
        let x = s[0];
        let rest = s.drop_first();
        let pre2 = pre + x.bytes();
        assert(d =~= pre2 + cfg_list_bytes(rest));
        assert forall|i: int| 0 <= i < rest.len() implies (#[trigger] rest[i]).wf() by {
            assert(rest[i] == s[i + 1]);
        }
        assert(d =~= pre + x.bytes() + cfg_list_bytes(rest));
        CfgItemView::lemma_round_trip(pre, x, cfg_list_bytes(rest));
        lemma_cfg_list_round_trip(pre2, rest);
        assert(seq![x] + rest =~= s);
    }
}

/// Reads the list of [`CfgItem`] that fills the payload from `p` to its end.
pub fn read_cfg_list(d: &[u8], p: usize) -> (r: Result<Vec<CfgItem>, CodecError>)
    requires
        p <= d@.len(),
    ensures
        match r {
            Ok(v) => cfg_list_at(d@, p as int)
                == Ok::<Seq<CfgItemView>, CodecError>(v@.map_values(|c: CfgItem| c@)),
            Err(e) => cfg_list_at(d@, p as int) == Err::<Seq<CfgItemView>, CodecError>(e),
        },
{
    let mut v: Vec<CfgItem> = Vec::new();
    let mut q: usize = p;
    while q < d.len()
        invariant
            p <= q <= d@.len(),
            cfg_list_at(d@, p as int)
                == prepend(v@.map_values(|c: CfgItem| c@), cfg_list_at(d@, q as int)),
        decreases d@.len() - q,
    {
        let ghost before = v@.map_values(|c: CfgItem| c@);
        let (x, next) = CfgItem::read(d, q)?;
        if next <= q {
            return Err(CodecError::Incomplete);
        }
        v.push(x);
        proof {
            match cfg_list_at(d@, next as int) {
                Ok(rest) => {
                    assert(before + (seq![x@] + rest) =~= v@.map_values(|c: CfgItem| c@) + rest);
                },
                Err(_) => {},
            }
        }
        q = next;
    }
    assert(v@.map_values(|c: CfgItem| c@) + Seq::<CfgItemView>::empty()
        =~= v@.map_values(|c: CfgItem| c@));
    Ok(v)
}

/// A copy of a list of [`CfgItem`] with the same contents.
pub fn duplicate_cfg_list(s: &Vec<CfgItem>) -> (r: Vec<CfgItem>)
    ensures
        r@.map_values(|c: CfgItem| c@) == s@.map_values(|c: CfgItem| c@),
{
    let mut r: Vec<CfgItem> = Vec::new();
    let mut i: usize = 0;
    while i < s.len()
        invariant
            i <= s@.len(),
            r@.len() == i,
            forall|j: int| 0 <= j < i ==> (#[trigger] r@[j])@ == s@[j]@,
        decreases s@.len() - i,
    {
        r.push(s[i].duplicate());
        i += 1;
    }
    assert(r@.map_values(|c: CfgItem| c@) =~= s@.map_values(|c: CfgItem| c@));
    r
}

/// Appends the wire form of a list of [`CfgItem`].
pub fn write_cfg_list(out: &mut Vec<u8>, s: &Vec<CfgItem>)
    ensures
        final(out)@ == old(out)@ + cfg_list_bytes(s@.map_values(|c: CfgItem| c@)),
{
    let mut i: usize = 0;
    while i < s.len()
        invariant
            i <= s@.len(),
            out@
                == old(out)@ + cfg_list_bytes(s@.map_values(|c: CfgItem| c@).subrange(0, i as int)),
        decreases s@.len() - i,
    {
        proof {
            let sv = s@.map_values(|c: CfgItem| c@);
            lemma_cfg_list_bytes_push(sv.subrange(0, i as int), sv[i as int]);
            assert(sv.subrange(0, i + 1) =~= sv.subrange(0, i as int).push(sv[i as int]));
        }
        s[i].write(out);
        i += 1;
        assert(out@
            =~= old(out)@ + cfg_list_bytes(s@.map_values(|c: CfgItem| c@).subrange(0, i as int)));
    }
    assert(s@.map_values(|c: CfgItem| c@).subrange(0, s@.len() as int)
        =~= s@.map_values(|c: CfgItem| c@));
}

} // verus!
