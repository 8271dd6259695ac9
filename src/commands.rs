//! Commands sent to the glasses: the catalog, its payload layouts and their codec.

use vstd::prelude::*;

use crate::fields::{
    DemoID, DeviceInfo, HoldFlushAction, ImgFormat, LayoutParameters, LayoutParametersView,
    LayoutPosition, LedState, NAME_LEN, Point, Shift, StreamImgFormat, TEXT_LEN,
    get_layout_position, get_point, get_shift, layout_position_at, layout_position_bytes,
    lemma_point_list_round_trip, point_at, point_bytes, point_list_at, point_list_bytes,
    put_layout_position, put_point, put_shift, read_point_list, shift_at, shift_bytes,
    write_point_list,
};
use crate::wire::{
    CodecError, be16, be16_signed, be32, bool_byte, bool_from, get_array4, get_bool, get_bytes,
    get_i16, get_u16, get_u32, i16_at, lemma_be32_value, lemma_text_round_trip, put_bool,
    put_bytes, put_i16, put_u16, put_u32, put_u8, read_fixed_size_cstr, text_at, text_bytes,
    text_fits, u16_at, u32_at, write_fixed_size_cstr,
};

verus! {

/// The command catalog: one variant per operation tag.
#[derive(Clone, Debug, PartialEq, Eq)]
#[allow(inconsistent_fields)]
pub enum Command {
    /// Enable / disable power of the display.
    PowerDisplay { en: u8 },
    /// Clear the display memory (black screen).
    Clear,
    /// Set the whole display to the corresponding grey level (0 to 15).
    Grey { lvl: u8 },
    /// Display demonstration.
    Demo { demo_id: DemoID },
    /// Get the battery level in %.
    Battery,
    /// Get the device ID and firmware version.
    Version,
    /// Set green LED.
    Led { state: LedState },
    /// Shift all subsequently displayed objects of (x, y) pixels.
    Shift { shift: Shift },
    /// Return the user parameters (shift, luma, sensor).
    Settings,
    /// Set the display luminance to the corresponding level (0 to 15).
    Luma { level: u8 },
    /// Turn on/off the auto-brightness adjustment and gesture detection.
    Sensor { en: bool },
    /// Turn on/off the gesture detection only.
    Gesture { en: bool },
    /// Turn on/off the auto-brightness adjustment only.
    Als { en: bool },
    /// Set the grey level (0 to 15) used to draw the next graphical element.
    Color { color: u8 },
    /// Set a pixel on at the corresponding coordinates.
    Point { coord: Point },
    /// Draw a line at the corresponding coordinates.
    Line { from: Point, to: Point },
    /// Draw an empty rectangle at the corresponding coordinates.
    Rect { from: Point, to: Point },
    /// Draw a full rectangle at the corresponding coordinates.
    RectFull { from: Point, to: Point },
    /// Draw an empty circle at the corresponding coordinates.
    Circ { center: Point, r: u8 },
    /// Draw a full circle at the corresponding coordinates.
    CircFull { center: Point, r: u8 },
    /// Write text `string` at `pos` with rotation, font size and color.
    Txt { pos: Point, rotation: u8, font_size: u8, color: u8, string: String },
    /// Draw multiple connected lines at the corresponding coordinates.
    Polyline { thickness: u8, _reserved: u16, points: Vec<Point> },
    /// Hold or flush the graphic engine.
    HoldFlush { action: HoldFlushAction },
    /// Draw an arc circle; angles are in degrees, begin at 3 o'clock and increase clockwise.
    Arc { center: Point, r: u8, angle_start: i16, angle_end: i16, thickness: u8 },
    /// Save an image of `size` bytes and `width` pixels, in the given format.
    ImgSave { id: u8, size: u32, width: u16, format: ImgFormat, data: Vec<u8> },
    /// Display image `id` at the corresponding (signed) coordinates.
    ImgDisplay { id: u8, coord: Point },
    /// Stream an image on display without saving it in memory.
    ImgStream { size: u32, width: u16, coord: Point, format: StreamImgFormat, data: Vec<u8> },
    /// Delete image `id`; 0xFF deletes all images.
    ImgDelete { id: u8 },
    /// Give the list of saved images.
    ImgList,
    /// Give the list of saved fonts with their height.
    FontList,
    /// Select the font used by the following text commands.
    FontSelect { id: u8 },
    /// Delete font `id`; 0xFF deletes all fonts.
    FontDelete { id: u8 },
    /// Save a layout.
    LayoutSave { id: u8, params: LayoutParameters },
    /// Delete layout `id`; 0xFF deletes all layouts.
    LayoutDelete { id: u8 },
    /// Display `text` with the parameters of layout `id`.
    LayoutDisplay { id: u8, text: String },
    /// Clear the screen area of layout `id`.
    LayoutClear { id: u8 },
    /// Give the list of saved layouts.
    LayoutList,
    /// Redefine (and save) the position of a layout.
    LayoutPosition { id: u8, pos: LayoutPosition },
    /// Display `text` with layout `id` at the given position, which is not saved.
    LayoutDisplayExtended { id: u8, pos: LayoutPosition, text: String, extra_cmd: Vec<u8> },
    /// Get the parameters of a layout.
    LayoutGet { id: u8 },
    /// Clear the screen area of layout `id` at the given position.
    LayoutClearExtended { id: u8, pos: LayoutPosition },
    /// Clear the area and display `text` with the parameters of layout `id`.
    LayoutClearAndDisplay { id: u8, text: String },
    /// Clear the area and display `text` with layout `id` at the given position.
    LayoutClearAndDisplayExtended { id: u8, pos: LayoutPosition, text: String, extra_cmd: Vec<u8> },
    /// Display the value (in percent) of gauge `id`.
    GaugeDisplay { id: u8, value: u8 },
    /// Save the parameters of gauge `id`.
    GaugeSave { id: u8, pos: Point, radius: u16, inner: u16, start: u8, end: u8, clockwise: u8 },
    /// Delete gauge `id`; 0xFF deletes all gauges.
    GaugeDelete { id: u8 },
    /// Give the list of saved gauges.
    GaugeList,
    /// Get the parameters of a gauge.
    GaugeGet { id: u8 },
    /// Save a page of layouts.
    PageSave,
    /// Get a page.
    PageGet { id: u8 },
    /// Delete page `id`; 0xFF deletes all pages.
    PageDelete { id: u8 },
    /// Display a page.
    PageDisplay { id: u8 },
    /// Clear the screen area of a page.
    PageClear { id: u8 },
    /// List the pages in memory.
    PageList,
    /// Clear the area and display a page.
    PageClearAndDisplay { id: u8 },
    /// Save an animation.
    AnimSave {
        id: u8,
        total_size: u32,
        img_size: u32,
        width: u16,
        fmt: u8,
        img_compressed_size: u32,
    },
    /// Delete animation `id`; 0xFF deletes all animations.
    AnimDelete { id: u8 },
    /// Display animation `id` at the corresponding coordinates.
    AnimDisplay { handler_id: u8, id: u8, delay: u16, repeat: u8, pos: Point },
    /// Stop and clear an animation; 0xFF clears all animations.
    AnimClear { handler_id: u8 },
    /// Get the list of saved animations.
    AnimList,
    /// Get the number of pixels activated on the display.
    PixelCount,
    /// Write a configuration; allowed only if the battery is above 5%.
    CfgWrite { name: String, version: u32, password: u32 },
    /// Get the number of elements stored in a configuration.
    CfgRead { name: String },
    /// Select the configuration used to display layouts, images, etc..
    CfgSet { name: String },
    /// List the configurations.
    CfgList,
    /// Rename a configuration.
    CfgRename { old_name: String, new_name: String, password: u32 },
    /// Delete a configuration and everything associated with it.
    CfgDelete { name: String },
    /// Delete the configuration that has not been used for the longest time.
    CfgDeleteLessUsed,
    /// Get the free space available to store layouts, images, etc..
    CfgFreeSpace,
    /// Get the number of configurations in memory.
    CfgGetNb,
    /// Shut the device down; the key must be `0x6f 0x7f 0xc4 0xee`.
    Shutdown { key: [u8; 4] },
    /// Reset the device; the key must be `0x5c 0x1e 0x2d 0xe9`.
    Reset { key: [u8; 4] },
    /// Read a device information parameter.
    Info { id: DeviceInfo },
}

/// Mathematical model of a [`Command`]: the same variants, with text as
/// characters and byte vectors as sequences.
#[allow(inconsistent_fields)]
pub enum CommandView {
    PowerDisplay { en: u8 },
    Clear,
    Grey { lvl: u8 },
    Demo { demo_id: DemoID },
    Battery,
    Version,
    Led { state: LedState },
    Shift { shift: Shift },
    Settings,
    Luma { level: u8 },
    Sensor { en: bool },
    Gesture { en: bool },
    Als { en: bool },
    Color { color: u8 },
    Point { coord: Point },
    Line { from: Point, to: Point },
    Rect { from: Point, to: Point },
    RectFull { from: Point, to: Point },
    Circ { center: Point, r: u8 },
    CircFull { center: Point, r: u8 },
    Txt { pos: Point, rotation: u8, font_size: u8, color: u8, string: Seq<char> },
    Polyline { thickness: u8, _reserved: u16, points: Seq<Point> },
    HoldFlush { action: HoldFlushAction },
    Arc { center: Point, r: u8, angle_start: i16, angle_end: i16, thickness: u8 },
    ImgSave { id: u8, size: u32, width: u16, format: ImgFormat, data: Seq<u8> },
    ImgDisplay { id: u8, coord: Point },
    ImgStream { size: u32, width: u16, coord: Point, format: StreamImgFormat, data: Seq<u8> },
    ImgDelete { id: u8 },
    ImgList,
    FontList,
    FontSelect { id: u8 },
    FontDelete { id: u8 },
    LayoutSave { id: u8, params: LayoutParametersView },
    LayoutDelete { id: u8 },
    LayoutDisplay { id: u8, text: Seq<char> },
    LayoutClear { id: u8 },
    LayoutList,
    LayoutPosition { id: u8, pos: LayoutPosition },
    LayoutDisplayExtended { id: u8, pos: LayoutPosition, text: Seq<char>, extra_cmd: Seq<u8> },
    LayoutGet { id: u8 },
    LayoutClearExtended { id: u8, pos: LayoutPosition },
    LayoutClearAndDisplay { id: u8, text: Seq<char> },
    LayoutClearAndDisplayExtended {
        id: u8,
        pos: LayoutPosition,
        text: Seq<char>,
        extra_cmd: Seq<u8>,
    },
    GaugeDisplay { id: u8, value: u8 },
    GaugeSave { id: u8, pos: Point, radius: u16, inner: u16, start: u8, end: u8, clockwise: u8 },
    GaugeDelete { id: u8 },
    GaugeList,
    GaugeGet { id: u8 },
    PageSave,
    PageGet { id: u8 },
    PageDelete { id: u8 },
    PageDisplay { id: u8 },
    PageClear { id: u8 },
    PageList,
    PageClearAndDisplay { id: u8 },
    AnimSave {
        id: u8,
        total_size: u32,
        img_size: u32,
        width: u16,
        fmt: u8,
        img_compressed_size: u32,
    },
    AnimDelete { id: u8 },
    AnimDisplay { handler_id: u8, id: u8, delay: u16, repeat: u8, pos: Point },
    AnimClear { handler_id: u8 },
    AnimList,
    PixelCount,
    CfgWrite { name: Seq<char>, version: u32, password: u32 },
    CfgRead { name: Seq<char> },
    CfgSet { name: Seq<char> },
    CfgList,
    CfgRename { old_name: Seq<char>, new_name: Seq<char>, password: u32 },
    CfgDelete { name: Seq<char> },
    CfgDeleteLessUsed,
    CfgFreeSpace,
    CfgGetNb,
    Shutdown { key: Seq<u8> },
    Reset { key: Seq<u8> },
    Info { id: DeviceInfo },
}

impl View for Command {
    type V = CommandView;

    open spec fn view(&self) -> CommandView {
        match self {
            Command::PowerDisplay { en } => CommandView::PowerDisplay { en: *en },
            Command::Clear => CommandView::Clear,
            Command::Grey { lvl } => CommandView::Grey { lvl: *lvl },
            Command::Demo { demo_id } => CommandView::Demo { demo_id: *demo_id },
            Command::Battery => CommandView::Battery,
            Command::Version => CommandView::Version,
            Command::Led { state } => CommandView::Led { state: *state },
            Command::Shift { shift } => CommandView::Shift { shift: *shift },
            Command::Settings => CommandView::Settings,
            Command::Luma { level } => CommandView::Luma { level: *level },
            Command::Sensor { en } => CommandView::Sensor { en: *en },
            Command::Gesture { en } => CommandView::Gesture { en: *en },
            Command::Als { en } => CommandView::Als { en: *en },
            Command::Color { color } => CommandView::Color { color: *color },
            Command::Point { coord } => CommandView::Point { coord: *coord },
            Command::Line { from, to } => CommandView::Line { from: *from, to: *to },
            Command::Rect { from, to } => CommandView::Rect { from: *from, to: *to },
            Command::RectFull { from, to } => CommandView::RectFull { from: *from, to: *to },
            Command::Circ { center, r } => CommandView::Circ { center: *center, r: *r },
            Command::CircFull { center, r } => CommandView::CircFull { center: *center, r: *r },
            Command::Txt {
                pos,
                rotation,
                font_size,
                color,
                string,
            } => CommandView::Txt {
                pos: *pos,
                rotation: *rotation,
                font_size: *font_size,
                color: *color,
                string: string@,
            },
            Command::Polyline {
                thickness,
                _reserved,
                points,
            } => CommandView::Polyline {
                thickness: *thickness,
                _reserved: *_reserved,
                points: points@,
            },
            Command::HoldFlush { action } => CommandView::HoldFlush { action: *action },
            Command::Arc {
                center,
                r,
                angle_start,
                angle_end,
                thickness,
            } => CommandView::Arc {
                center: *center,
                r: *r,
                angle_start: *angle_start,
                angle_end: *angle_end,
                thickness: *thickness,
            },
            Command::ImgSave {
                id,
                size,
                width,
                format,
                data,
            } => CommandView::ImgSave {
                id: *id,
                size: *size,
                width: *width,
                format: *format,
                data: data@,
            },
            Command::ImgDisplay { id, coord } => CommandView::ImgDisplay { id: *id, coord: *coord },
            Command::ImgStream {
                size,
                width,
                coord,
                format,
                data,
            } => CommandView::ImgStream {
                size: *size,
                width: *width,
                coord: *coord,
                format: *format,
                data: data@,
            },
            Command::ImgDelete { id } => CommandView::ImgDelete { id: *id },
            Command::ImgList => CommandView::ImgList,
            Command::FontList => CommandView::FontList,
            Command::FontSelect { id } => CommandView::FontSelect { id: *id },
            Command::FontDelete { id } => CommandView::FontDelete { id: *id },
            Command::LayoutSave {
                id,
                params,
            } => CommandView::LayoutSave { id: *id, params: params@ },
            Command::LayoutDelete { id } => CommandView::LayoutDelete { id: *id },
            Command::LayoutDisplay {
                id,
                text,
            } => CommandView::LayoutDisplay { id: *id, text: text@ },
            Command::LayoutClear { id } => CommandView::LayoutClear { id: *id },
            Command::LayoutList => CommandView::LayoutList,
            Command::LayoutPosition {
                id,
                pos,
            } => CommandView::LayoutPosition { id: *id, pos: *pos },
            Command::LayoutDisplayExtended {
                id,
                pos,
                text,
                extra_cmd,
            } => CommandView::LayoutDisplayExtended {
                id: *id,
                pos: *pos,
                text: text@,
                extra_cmd: extra_cmd@,
            },
            Command::LayoutGet { id } => CommandView::LayoutGet { id: *id },
            Command::LayoutClearExtended {
                id,
                pos,
            } => CommandView::LayoutClearExtended { id: *id, pos: *pos },
            Command::LayoutClearAndDisplay {
                id,
                text,
            } => CommandView::LayoutClearAndDisplay { id: *id, text: text@ },
            Command::LayoutClearAndDisplayExtended {
                id,
                pos,
                text,
                extra_cmd,
            } => CommandView::LayoutClearAndDisplayExtended {
                id: *id,
                pos: *pos,
                text: text@,
                extra_cmd: extra_cmd@,
            },
            Command::GaugeDisplay {
                id,
                value,
            } => CommandView::GaugeDisplay { id: *id, value: *value },
            Command::GaugeSave {
                id,
                pos,
                radius,
                inner,
                start,
                end,
                clockwise,
            } => CommandView::GaugeSave {
                id: *id,
                pos: *pos,
                radius: *radius,
                inner: *inner,
                start: *start,
                end: *end,
                clockwise: *clockwise,
            },
            Command::GaugeDelete { id } => CommandView::GaugeDelete { id: *id },
            Command::GaugeList => CommandView::GaugeList,
            Command::GaugeGet { id } => CommandView::GaugeGet { id: *id },
            Command::PageSave => CommandView::PageSave,
            Command::PageGet { id } => CommandView::PageGet { id: *id },
            Command::PageDelete { id } => CommandView::PageDelete { id: *id },
            Command::PageDisplay { id } => CommandView::PageDisplay { id: *id },
            Command::PageClear { id } => CommandView::PageClear { id: *id },
            Command::PageList => CommandView::PageList,
            Command::PageClearAndDisplay { id } => CommandView::PageClearAndDisplay { id: *id },
            Command::AnimSave {
                id,
                total_size,
                img_size,
                width,
                fmt,
                img_compressed_size,
            } => CommandView::AnimSave {
                id: *id,
                total_size: *total_size,
                img_size: *img_size,
                width: *width,
                fmt: *fmt,
                img_compressed_size: *img_compressed_size,
            },
            Command::AnimDelete { id } => CommandView::AnimDelete { id: *id },
            Command::AnimDisplay {
                handler_id,
                id,
                delay,
                repeat,
                pos,
            } => CommandView::AnimDisplay {
                handler_id: *handler_id,
                id: *id,
                delay: *delay,
                repeat: *repeat,
                pos: *pos,
            },
            Command::AnimClear { handler_id } => CommandView::AnimClear { handler_id: *handler_id },
            Command::AnimList => CommandView::AnimList,
            Command::PixelCount => CommandView::PixelCount,
            Command::CfgWrite {
                name,
                version,
                password,
            } => CommandView::CfgWrite { name: name@, version: *version, password: *password },
            Command::CfgRead { name } => CommandView::CfgRead { name: name@ },
            Command::CfgSet { name } => CommandView::CfgSet { name: name@ },
            Command::CfgList => CommandView::CfgList,
            Command::CfgRename {
                old_name,
                new_name,
                password,
            } => CommandView::CfgRename {
                old_name: old_name@,
                new_name: new_name@,
                password: *password,
            },
            Command::CfgDelete { name } => CommandView::CfgDelete { name: name@ },
            Command::CfgDeleteLessUsed => CommandView::CfgDeleteLessUsed,
            Command::CfgFreeSpace => CommandView::CfgFreeSpace,
            Command::CfgGetNb => CommandView::CfgGetNb,
            Command::Shutdown { key } => CommandView::Shutdown { key: key@ },
            Command::Reset { key } => CommandView::Reset { key: key@ },
            Command::Info { id } => CommandView::Info { id: *id },
        }
    }
}

impl CommandView {
    /// The operation tag of the variant.
    pub open spec fn tag(self) -> u8 {
        match self {
            CommandView::PowerDisplay { .. } => 0x00,
            CommandView::Clear => 0x01,
            CommandView::Grey { .. } => 0x02,
            CommandView::Demo { .. } => 0x03,
            CommandView::Battery => 0x05,
            CommandView::Version => 0x06,
            CommandView::Led { .. } => 0x08,
            CommandView::Shift { .. } => 0x09,
            CommandView::Settings => 0x0A,
            CommandView::Luma { .. } => 0x10,
            CommandView::Sensor { .. } => 0x20,
            CommandView::Gesture { .. } => 0x21,
            CommandView::Als { .. } => 0x22,
            CommandView::Color { .. } => 0x30,
            CommandView::Point { .. } => 0x31,
            CommandView::Line { .. } => 0x32,
            CommandView::Rect { .. } => 0x33,
            CommandView::RectFull { .. } => 0x34,
            CommandView::Circ { .. } => 0x35,
            CommandView::CircFull { .. } => 0x36,
            CommandView::Txt { .. } => 0x37,
            CommandView::Polyline { .. } => 0x38,
            CommandView::HoldFlush { .. } => 0x39,
            CommandView::Arc { .. } => 0x3C,
            CommandView::ImgSave { .. } => 0x41,
            CommandView::ImgDisplay { .. } => 0x42,
            CommandView::ImgStream { .. } => 0x44,
            CommandView::ImgDelete { .. } => 0x46,
            CommandView::ImgList => 0x47,
            CommandView::FontList => 0x50,
            CommandView::FontSelect { .. } => 0x52,
            CommandView::FontDelete { .. } => 0x53,
            CommandView::LayoutSave { .. } => 0x60,
            CommandView::LayoutDelete { .. } => 0x61,
            CommandView::LayoutDisplay { .. } => 0x62,
            CommandView::LayoutClear { .. } => 0x63,
            CommandView::LayoutList => 0x64,
            CommandView::LayoutPosition { .. } => 0x65,
            CommandView::LayoutDisplayExtended { .. } => 0x66,
            CommandView::LayoutGet { .. } => 0x67,
            CommandView::LayoutClearExtended { .. } => 0x68,
            CommandView::LayoutClearAndDisplay { .. } => 0x69,
            CommandView::LayoutClearAndDisplayExtended { .. } => 0x6A,
            CommandView::GaugeDisplay { .. } => 0x70,
            CommandView::GaugeSave { .. } => 0x71,
            CommandView::GaugeDelete { .. } => 0x72,
            CommandView::GaugeList => 0x73,
            CommandView::GaugeGet { .. } => 0x74,
            CommandView::PageSave => 0x80,
            CommandView::PageGet { .. } => 0x81,
            CommandView::PageDelete { .. } => 0x82,
            CommandView::PageDisplay { .. } => 0x83,
            CommandView::PageClear { .. } => 0x84,
            CommandView::PageList => 0x85,
            CommandView::PageClearAndDisplay { .. } => 0x86,
            CommandView::AnimSave { .. } => 0x95,
            CommandView::AnimDelete { .. } => 0x96,
            CommandView::AnimDisplay { .. } => 0x97,
            CommandView::AnimClear { .. } => 0x98,
            CommandView::AnimList => 0x99,
            CommandView::PixelCount => 0xA5,
            CommandView::CfgWrite { .. } => 0xD0,
            CommandView::CfgRead { .. } => 0xD1,
            CommandView::CfgSet { .. } => 0xD2,
            CommandView::CfgList => 0xD3,
            CommandView::CfgRename { .. } => 0xD4,
            CommandView::CfgDelete { .. } => 0xD5,
            CommandView::CfgDeleteLessUsed => 0xD6,
            CommandView::CfgFreeSpace => 0xD7,
            CommandView::CfgGetNb => 0xD8,
            CommandView::Shutdown { .. } => 0xE0,
            CommandView::Reset { .. } => 0xE1,
            CommandView::Info { .. } => 0xE3,
        }
    }

    /// Values that survive a trip through the wire: text that fits its field,
    /// and byte counts that agree with the bytes they count.
    pub open spec fn wf(self) -> bool {
        match self {
            CommandView::Txt { string, .. } => text_fits(string, TEXT_LEN as nat),
            CommandView::ImgSave { size, data, .. } => data.len() == size,
            CommandView::ImgStream { size, data, .. } => data.len() == size,
            CommandView::LayoutSave { params, .. } => params.wf(),
            CommandView::LayoutDisplay { text, .. } => text_fits(text, TEXT_LEN as nat),
            CommandView::LayoutDisplayExtended { text, .. } => text_fits(text, TEXT_LEN as nat),
            CommandView::LayoutClearAndDisplay { text, .. } => text_fits(text, TEXT_LEN as nat),
            CommandView::LayoutClearAndDisplayExtended {
                text,
                ..
            } => text_fits(text, TEXT_LEN as nat),
            CommandView::CfgWrite { name, .. } => text_fits(name, NAME_LEN as nat),
            CommandView::CfgRead { name, .. } => text_fits(name, NAME_LEN as nat),
            CommandView::CfgSet { name, .. } => text_fits(name, NAME_LEN as nat),
            CommandView::CfgRename {
                old_name,
                new_name,
                ..
            } => text_fits(old_name, NAME_LEN as nat) && text_fits(new_name, NAME_LEN as nat),
            CommandView::CfgDelete { name, .. } => text_fits(name, NAME_LEN as nat),
            CommandView::Shutdown { key, .. } => key.len() == 4,
            CommandView::Reset { key, .. } => key.len() == 4,
            _ => true,
        }
    }

    /// The payload: the fields in declaration order, multi-byte integers
    /// big-endian, text in its fixed-capacity field.
    pub open spec fn payload(self) -> Seq<u8> {
        match self {
            CommandView::PowerDisplay { en } => seq![en],
            CommandView::Clear => Seq::empty(),
            CommandView::Grey { lvl } => seq![lvl],
            CommandView::Demo { demo_id } => seq![demo_id.spec_id()],
            CommandView::Battery => Seq::empty(),
            CommandView::Version => Seq::empty(),
            CommandView::Led { state } => seq![state.spec_id()],
            CommandView::Shift { shift } => shift_bytes(shift),
            CommandView::Settings => Seq::empty(),
            CommandView::Luma { level } => seq![level],
            CommandView::Sensor { en } => seq![bool_byte(en)],
            CommandView::Gesture { en } => seq![bool_byte(en)],
            CommandView::Als { en } => seq![bool_byte(en)],
            CommandView::Color { color } => seq![color],
            CommandView::Point { coord } => point_bytes(coord),
            CommandView::Line { from, to } => point_bytes(from) + point_bytes(to),
            CommandView::Rect { from, to } => point_bytes(from) + point_bytes(to),
            CommandView::RectFull { from, to } => point_bytes(from) + point_bytes(to),
            CommandView::Circ { center, r } => point_bytes(center) + seq![r],
            CommandView::CircFull { center, r } => point_bytes(center) + seq![r],
            CommandView::Txt {
                pos,
                rotation,
                font_size,
                color,
                string,
            } => point_bytes(pos)
                + seq![rotation]
                + seq![font_size]
                + seq![color]
                + text_bytes(string, TEXT_LEN as nat),
            CommandView::Polyline {
                thickness,
                _reserved,
                points,
            } => seq![thickness] + be16(_reserved) + point_list_bytes(points),
            CommandView::HoldFlush { action } => seq![action.spec_id()],
            CommandView::Arc {
                center,
                r,
                angle_start,
                angle_end,
                thickness,
            } => point_bytes(center)
                + seq![r]
                + be16_signed(angle_start)
                + be16_signed(angle_end)
                + seq![thickness],
            CommandView::ImgSave {
                id,
                size,
                width,
                format,
                data,
            } => seq![id] + be32(size) + be16(width) + seq![format.spec_id()] + data,
            CommandView::ImgDisplay { id, coord } => seq![id] + point_bytes(coord),
            CommandView::ImgStream {
                size,
                width,
                coord,
                format,
                data,
            } => be32(size) + be16(width) + point_bytes(coord) + seq![format.spec_id()] + data,
            CommandView::ImgDelete { id } => seq![id],
            CommandView::ImgList => Seq::empty(),
            CommandView::FontList => Seq::empty(),
            CommandView::FontSelect { id } => seq![id],
            CommandView::FontDelete { id } => seq![id],
            CommandView::LayoutSave { id, params } => seq![id] + params.bytes(),
            CommandView::LayoutDelete { id } => seq![id],
            CommandView::LayoutDisplay { id, text } => seq![id] + text_bytes(text, TEXT_LEN as nat),
            CommandView::LayoutClear { id } => seq![id],
            CommandView::LayoutList => Seq::empty(),
            CommandView::LayoutPosition { id, pos } => seq![id] + layout_position_bytes(pos),
            CommandView::LayoutDisplayExtended {
                id,
                pos,
                text,
                extra_cmd,
            } => seq![id]
                + layout_position_bytes(pos)
                + text_bytes(text, TEXT_LEN as nat)
                + extra_cmd,
            CommandView::LayoutGet { id } => seq![id],
            CommandView::LayoutClearExtended { id, pos } => seq![id] + layout_position_bytes(pos),
            CommandView::LayoutClearAndDisplay {
                id,
                text,
            } => seq![id] + text_bytes(text, TEXT_LEN as nat),
            CommandView::LayoutClearAndDisplayExtended {
                id,
                pos,
                text,
                extra_cmd,
            } => seq![id]
                + layout_position_bytes(pos)
                + text_bytes(text, TEXT_LEN as nat)
                + extra_cmd,
            CommandView::GaugeDisplay { id, value } => seq![id] + seq![value],
            CommandView::GaugeSave {
                id,
                pos,
                radius,
                inner,
                start,
                end,
                clockwise,
            } => seq![id]
                + point_bytes(pos)
                + be16(radius)
                + be16(inner)
                + seq![start]
                + seq![end]
                + seq![clockwise],
            CommandView::GaugeDelete { id } => seq![id],
            CommandView::GaugeList => Seq::empty(),
            CommandView::GaugeGet { id } => seq![id],
            CommandView::PageSave => Seq::empty(),
            CommandView::PageGet { id } => seq![id],
            CommandView::PageDelete { id } => seq![id],
            CommandView::PageDisplay { id } => seq![id],
            CommandView::PageClear { id } => seq![id],
            CommandView::PageList => Seq::empty(),
            CommandView::PageClearAndDisplay { id } => seq![id],
            CommandView::AnimSave {
                id,
                total_size,
                img_size,
                width,
                fmt,
                img_compressed_size,
            } => seq![id]
                + be32(total_size)
                + be32(img_size)
                + be16(width)
                + seq![fmt]
                + be32(img_compressed_size),
            CommandView::AnimDelete { id } => seq![id],
            CommandView::AnimDisplay {
                handler_id,
                id,
                delay,
                repeat,
                pos,
            } => seq![handler_id] + seq![id] + be16(delay) + seq![repeat] + point_bytes(pos),
            CommandView::AnimClear { handler_id } => seq![handler_id],
            CommandView::AnimList => Seq::empty(),
            CommandView::PixelCount => Seq::empty(),
            CommandView::CfgWrite {
                name,
                version,
                password,
            } => text_bytes(name, NAME_LEN as nat) + be32(version) + be32(password),
            CommandView::CfgRead { name } => text_bytes(name, NAME_LEN as nat),
            CommandView::CfgSet { name } => text_bytes(name, NAME_LEN as nat),
            CommandView::CfgList => Seq::empty(),
            CommandView::CfgRename {
                old_name,
                new_name,
                password,
            } => text_bytes(old_name, NAME_LEN as nat)
                + text_bytes(new_name, NAME_LEN as nat)
                + be32(password),
            CommandView::CfgDelete { name } => text_bytes(name, NAME_LEN as nat),
            CommandView::CfgDeleteLessUsed => Seq::empty(),
            CommandView::CfgFreeSpace => Seq::empty(),
            CommandView::CfgGetNb => Seq::empty(),
            CommandView::Shutdown { key } => key,
            CommandView::Reset { key } => key,
            CommandView::Info { id } => seq![id.spec_id()],
        }
    }

    /// The value that the catalog registers under `tag`, read from `d`.
    /// Bytes after the last field are ignored.
    pub open spec fn parse(tag: u8, d: Seq<u8>) -> Result<CommandView, CodecError> {
        match tag {
            0x00 => {
                if d.len() < 1 {
                    Err(CodecError::Incomplete)
                } else {
                    let en = d[0];
                    Ok(CommandView::PowerDisplay { en })
                }
            },
            0x01 => Ok(CommandView::Clear),
            0x02 => {
                if d.len() < 1 {
                    Err(CodecError::Incomplete)
                } else {
                    let lvl = d[0];
                    Ok(CommandView::Grey { lvl })
                }
            },
            0x03 => {
                if d.len() < 1 {
                    Err(CodecError::Incomplete)
                } else {
                    match DemoID::spec_from_id(d[0]) {
                        None => Err(CodecError::InvalidValue),
                        Some(demo_id) => {
                            Ok(CommandView::Demo { demo_id })
                        },
                    }
                }
            },
            0x05 => Ok(CommandView::Battery),
            0x06 => Ok(CommandView::Version),
            0x08 => {
                if d.len() < 1 {
                    Err(CodecError::Incomplete)
                } else {
                    match LedState::spec_from_id(d[0]) {
                        None => Err(CodecError::InvalidValue),
                        Some(state) => {
                            Ok(CommandView::Led { state })
                        },
                    }
                }
            },
            0x09 => {
                if d.len() < 4 {
                    Err(CodecError::Incomplete)
                } else {
                    let shift = shift_at(d, 0);
                    Ok(CommandView::Shift { shift })
                }
            },
            0x0A => Ok(CommandView::Settings),
            0x10 => {
                if d.len() < 1 {
                    Err(CodecError::Incomplete)
                } else {
                    let level = d[0];
                    Ok(CommandView::Luma { level })
                }
            },
            0x20 => {
                if d.len() < 1 {
                    Err(CodecError::Incomplete)
                } else {
                    match bool_from(d[0]) {
                        None => Err(CodecError::InvalidValue),
                        Some(en) => {
                            Ok(CommandView::Sensor { en })
                        },
                    }
                }
            },
            0x21 => {
                if d.len() < 1 {
                    Err(CodecError::Incomplete)
                } else {
                    match bool_from(d[0]) {
                        None => Err(CodecError::InvalidValue),
                        Some(en) => {
                            Ok(CommandView::Gesture { en })
                        },
                    }
                }
            },
            0x22 => {
                if d.len() < 1 {
                    Err(CodecError::Incomplete)
                } else {
                    match bool_from(d[0]) {
                        None => Err(CodecError::InvalidValue),
                        Some(en) => {
                            Ok(CommandView::Als { en })
                        },
                    }
                }
            },
            0x30 => {
                if d.len() < 1 {
                    Err(CodecError::Incomplete)
                } else {
                    let color = d[0];
                    Ok(CommandView::Color { color })
                }
            },
            0x31 => {
                if d.len() < 4 {
                    Err(CodecError::Incomplete)
                } else {
                    let coord = point_at(d, 0);
                    Ok(CommandView::Point { coord })
                }
            },
            0x32 => {
                if d.len() < 8 {
                    Err(CodecError::Incomplete)
                } else {
                    let from = point_at(d, 0);
                    let to = point_at(d, 4);
                    Ok(CommandView::Line { from, to })
                }
            },
            0x33 => {
                if d.len() < 8 {
                    Err(CodecError::Incomplete)
                } else {
                    let from = point_at(d, 0);
                    let to = point_at(d, 4);
                    Ok(CommandView::Rect { from, to })
                }
            },
            0x34 => {
                if d.len() < 8 {
                    Err(CodecError::Incomplete)
                } else {
                    let from = point_at(d, 0);
                    let to = point_at(d, 4);
                    Ok(CommandView::RectFull { from, to })
                }
            },
            0x35 => {
                if d.len() < 5 {
                    Err(CodecError::Incomplete)
                } else {
                    let center = point_at(d, 0);
                    let r = d[4];
                    Ok(CommandView::Circ { center, r })
                }
            },
            0x36 => {
                if d.len() < 5 {
                    Err(CodecError::Incomplete)
                } else {
                    let center = point_at(d, 0);
                    let r = d[4];
                    Ok(CommandView::CircFull { center, r })
                }
            },
            0x37 => {
                if d.len() < 7 {
                    Err(CodecError::Incomplete)
                } else {
                    let pos = point_at(d, 0);
                    let rotation = d[4];
                    let font_size = d[5];
                    let color = d[6];
                    let at1 = 7;
                    match text_at(d, at1, TEXT_LEN as nat) {
                        Err(e) => Err(e),
                        Ok((string, _)) => {
                            Ok(CommandView::Txt { pos, rotation, font_size, color, string })
                        },
                    }
                }
            },
            0x38 => {
                if d.len() < 3 {
                    Err(CodecError::Incomplete)
                } else {
                    let thickness = d[0];
                    let _reserved = u16_at(d, 1);
                    let at1 = 3;
                    match point_list_at(d, at1) {
                        Err(e) => Err(e),
                        Ok(points) => {
                            Ok(CommandView::Polyline { thickness, _reserved, points })
                        },
                    }
                }
            },
            0x39 => {
                if d.len() < 1 {
                    Err(CodecError::Incomplete)
                } else {
                    match HoldFlushAction::spec_from_id(d[0]) {
                        None => Err(CodecError::InvalidValue),
                        Some(action) => {
                            Ok(CommandView::HoldFlush { action })
                        },
                    }
                }
            },
            0x3C => {
                if d.len() < 10 {
                    Err(CodecError::Incomplete)
                } else {
                    let center = point_at(d, 0);
                    let r = d[4];
                    let angle_start = i16_at(d, 5);
                    let angle_end = i16_at(d, 7);
                    let thickness = d[9];
                    Ok(CommandView::Arc { center, r, angle_start, angle_end, thickness })
                }
            },
            0x41 => {
                if d.len() < 8 {
                    Err(CodecError::Incomplete)
                } else {
                    let id = d[0];
                    let size = u32_at(d, 1);
                    let width = u16_at(d, 5);
                    match ImgFormat::spec_from_id(d[7]) {
                        None => Err(CodecError::InvalidValue),
                        Some(format) => {
                            let at1 = 8;
                            if d.len() - at1 < size {
                                Err(CodecError::Incomplete)
                            } else {
                                let data = d.subrange(at1, at1 + size);
                                Ok(CommandView::ImgSave { id, size, width, format, data })
                            }
                        },
                    }
                }
            },
            0x42 => {
                if d.len() < 5 {
                    Err(CodecError::Incomplete)
                } else {
                    let id = d[0];
                    let coord = point_at(d, 1);
                    Ok(CommandView::ImgDisplay { id, coord })
                }
            },
            0x44 => {
                if d.len() < 11 {
                    Err(CodecError::Incomplete)
                } else {
                    let size = u32_at(d, 0);
                    let width = u16_at(d, 4);
                    let coord = point_at(d, 6);
                    match StreamImgFormat::spec_from_id(d[10]) {
                        None => Err(CodecError::InvalidValue),
                        Some(format) => {
                            let at1 = 11;
                            if d.len() - at1 < size {
                                Err(CodecError::Incomplete)
                            } else {
                                let data = d.subrange(at1, at1 + size);
                                Ok(CommandView::ImgStream { size, width, coord, format, data })
                            }
                        },
                    }
                }
            },
            0x46 => {
                if d.len() < 1 {
                    Err(CodecError::Incomplete)
                } else {
                    let id = d[0];
                    Ok(CommandView::ImgDelete { id })
                }
            },
            0x47 => Ok(CommandView::ImgList),
            0x50 => Ok(CommandView::FontList),
            0x52 => {
                if d.len() < 1 {
                    Err(CodecError::Incomplete)
                } else {
                    let id = d[0];
                    Ok(CommandView::FontSelect { id })
                }
            },
            0x53 => {
                if d.len() < 1 {
                    Err(CodecError::Incomplete)
                } else {
                    let id = d[0];
                    Ok(CommandView::FontDelete { id })
                }
            },
            0x60 => {
                if d.len() < 1 {
                    Err(CodecError::Incomplete)
                } else {
                    let id = d[0];
                    let at1 = 1;
                    match LayoutParametersView::parse(d, at1) {
                        Err(e) => Err(e),
                        Ok((params, _)) => {
                            Ok(CommandView::LayoutSave { id, params })
                        },
                    }
                }
            },
            0x61 => {
                if d.len() < 1 {
                    Err(CodecError::Incomplete)
                } else {
                    let id = d[0];
                    Ok(CommandView::LayoutDelete { id })
                }
            },
            0x62 => {
                if d.len() < 1 {
                    Err(CodecError::Incomplete)
                } else {
                    let id = d[0];
                    let at1 = 1;
                    match text_at(d, at1, TEXT_LEN as nat) {
                        Err(e) => Err(e),
                        Ok((text, _)) => {
                            Ok(CommandView::LayoutDisplay { id, text })
                        },
                    }
                }
            },
            0x63 => {
                if d.len() < 1 {
                    Err(CodecError::Incomplete)
                } else {
                    let id = d[0];
                    Ok(CommandView::LayoutClear { id })
                }
            },
            0x64 => Ok(CommandView::LayoutList),
            0x65 => {
                if d.len() < 4 {
                    Err(CodecError::Incomplete)
                } else {
                    let id = d[0];
                    let pos = layout_position_at(d, 1);
                    Ok(CommandView::LayoutPosition { id, pos })
                }
            },
            0x66 => {
                if d.len() < 4 {
                    Err(CodecError::Incomplete)
                } else {
                    let id = d[0];
                    let pos = layout_position_at(d, 1);
                    let at1 = 4;
                    match text_at(d, at1, TEXT_LEN as nat) {
                        Err(e) => Err(e),
                        Ok((text, at2)) => {
                            let extra_cmd = d.subrange(at2, d.len() as int);
                            Ok(CommandView::LayoutDisplayExtended { id, pos, text, extra_cmd })
                        },
                    }
                }
            },
            0x67 => {
                if d.len() < 1 {
                    Err(CodecError::Incomplete)
                } else {
                    let id = d[0];
                    Ok(CommandView::LayoutGet { id })
                }
            },
            0x68 => {
                if d.len() < 4 {
                    Err(CodecError::Incomplete)
                } else {
                    let id = d[0];
                    let pos = layout_position_at(d, 1);
                    Ok(CommandView::LayoutClearExtended { id, pos })
                }
            },
            0x69 => {
                if d.len() < 1 {
                    Err(CodecError::Incomplete)
                } else {
                    let id = d[0];
                    let at1 = 1;
                    match text_at(d, at1, TEXT_LEN as nat) {
                        Err(e) => Err(e),
                        Ok((text, _)) => {
                            Ok(CommandView::LayoutClearAndDisplay { id, text })
                        },
                    }
                }
            },
            0x6A => {
                if d.len() < 4 {
                    Err(CodecError::Incomplete)
                } else {
                    let id = d[0];
                    let pos = layout_position_at(d, 1);
                    let at1 = 4;
                    match text_at(d, at1, TEXT_LEN as nat) {
                        Err(e) => Err(e),
                        Ok((text, at2)) => {
                            let extra_cmd = d.subrange(at2, d.len() as int);
                            Ok(CommandView::LayoutClearAndDisplayExtended {
                                id,
                                pos,
                                text,
                                extra_cmd,
                            })
                        },
                    }
                }
            },
            0x70 => {
                if d.len() < 2 {
                    Err(CodecError::Incomplete)
                } else {
                    let id = d[0];
                    let value = d[1];
                    Ok(CommandView::GaugeDisplay { id, value })
                }
            },
            0x71 => {
                if d.len() < 12 {
                    Err(CodecError::Incomplete)
                } else {
                    let id = d[0];
                    let pos = point_at(d, 1);
                    let radius = u16_at(d, 5);
                    let inner = u16_at(d, 7);
                    let start = d[9];
                    let end = d[10];
                    let clockwise = d[11];
                    Ok(CommandView::GaugeSave { id, pos, radius, inner, start, end, clockwise })
                }
            },
            0x72 => {
                if d.len() < 1 {
                    Err(CodecError::Incomplete)
                } else {
                    let id = d[0];
                    Ok(CommandView::GaugeDelete { id })
                }
            },
            0x73 => Ok(CommandView::GaugeList),
            0x74 => {
                if d.len() < 1 {
                    Err(CodecError::Incomplete)
                } else {
                    let id = d[0];
                    Ok(CommandView::GaugeGet { id })
                }
            },
            0x80 => Ok(CommandView::PageSave),
            0x81 => {
                if d.len() < 1 {
                    Err(CodecError::Incomplete)
                } else {
                    let id = d[0];
                    Ok(CommandView::PageGet { id })
                }
            },
            0x82 => {
                if d.len() < 1 {
                    Err(CodecError::Incomplete)
                } else {
                    let id = d[0];
                    Ok(CommandView::PageDelete { id })
                }
            },
            0x83 => {
                if d.len() < 1 {
                    Err(CodecError::Incomplete)
                } else {
                    let id = d[0];
                    Ok(CommandView::PageDisplay { id })
                }
            },
            0x84 => {
                if d.len() < 1 {
                    Err(CodecError::Incomplete)
                } else {
                    let id = d[0];
                    Ok(CommandView::PageClear { id })
                }
            },
            0x85 => Ok(CommandView::PageList),
            0x86 => {
                if d.len() < 1 {
                    Err(CodecError::Incomplete)
                } else {
                    let id = d[0];
                    Ok(CommandView::PageClearAndDisplay { id })
                }
            },
            0x95 => {
                if d.len() < 16 {
                    Err(CodecError::Incomplete)
                } else {
                    let id = d[0];
                    let total_size = u32_at(d, 1);
                    let img_size = u32_at(d, 5);
                    let width = u16_at(d, 9);
                    let fmt = d[11];
                    let img_compressed_size = u32_at(d, 12);
                    Ok(CommandView::AnimSave {
                        id,
                        total_size,
                        img_size,
                        width,
                        fmt,
                        img_compressed_size,
                    })
                }
            },
            0x96 => {
                if d.len() < 1 {
                    Err(CodecError::Incomplete)
                } else {
                    let id = d[0];
                    Ok(CommandView::AnimDelete { id })
                }
            },
            0x97 => {
                if d.len() < 9 {
                    Err(CodecError::Incomplete)
                } else {
                    let handler_id = d[0];
                    let id = d[1];
                    let delay = u16_at(d, 2);
                    let repeat = d[4];
                    let pos = point_at(d, 5);
                    Ok(CommandView::AnimDisplay { handler_id, id, delay, repeat, pos })
                }
            },
            0x98 => {
                if d.len() < 1 {
                    Err(CodecError::Incomplete)
                } else {
                    let handler_id = d[0];
                    Ok(CommandView::AnimClear { handler_id })
                }
            },
            0x99 => Ok(CommandView::AnimList),
            0xA5 => Ok(CommandView::PixelCount),
            0xD0 => {
                match text_at(d, 0, NAME_LEN as nat) {
                    Err(e) => Err(e),
                    Ok((name, at1)) => {
                        if d.len() - at1 < 8 {
                            Err(CodecError::Incomplete)
                        } else {
                            let version = u32_at(d, at1);
                            let password = u32_at(d, at1 + 4);
                            Ok(CommandView::CfgWrite { name, version, password })
                        }
                    },
                }
            },
            0xD1 => {
                match text_at(d, 0, NAME_LEN as nat) {
                    Err(e) => Err(e),
                    Ok((name, _)) => {
                        Ok(CommandView::CfgRead { name })
                    },
                }
            },
            0xD2 => {
                match text_at(d, 0, NAME_LEN as nat) {
                    Err(e) => Err(e),
                    Ok((name, _)) => {
                        Ok(CommandView::CfgSet { name })
                    },
                }
            },
            0xD3 => Ok(CommandView::CfgList),
            0xD4 => {
                match text_at(d, 0, NAME_LEN as nat) {
                    Err(e) => Err(e),
                    Ok((old_name, at1)) => {
                        match text_at(d, at1, NAME_LEN as nat) {
                            Err(e) => Err(e),
                            Ok((new_name, at2)) => {
                                if d.len() - at2 < 4 {
                                    Err(CodecError::Incomplete)
                                } else {
                                    let password = u32_at(d, at2);
                                    Ok(CommandView::CfgRename { old_name, new_name, password })
                                }
                            },
                        }
                    },
                }
            },
            0xD5 => {
                match text_at(d, 0, NAME_LEN as nat) {
                    Err(e) => Err(e),
                    Ok((name, _)) => {
                        Ok(CommandView::CfgDelete { name })
                    },
                }
            },
            0xD6 => Ok(CommandView::CfgDeleteLessUsed),
            0xD7 => Ok(CommandView::CfgFreeSpace),
            0xD8 => Ok(CommandView::CfgGetNb),
            0xE0 => {
                if d.len() < 4 {
                    Err(CodecError::Incomplete)
                } else {
                    let key = d.subrange(0 as int, (0 + 4) as int);
                    Ok(CommandView::Shutdown { key })
                }
            },
            0xE1 => {
                if d.len() < 4 {
                    Err(CodecError::Incomplete)
                } else {
                    let key = d.subrange(0 as int, (0 + 4) as int);
                    Ok(CommandView::Reset { key })
                }
            },
            0xE3 => {
                if d.len() < 1 {
                    Err(CodecError::Incomplete)
                } else {
                    match DeviceInfo::spec_from_id(d[0]) {
                        None => Err(CodecError::InvalidValue),
                        Some(id) => {
                            Ok(CommandView::Info { id })
                        },
                    }
                }
            },
            _ => Err(CodecError::UnknownId),
        }
    }
}

proof fn lemma_round_trip_power_display(v: CommandView)
    requires
        v is PowerDisplay,
        v.wf(),
    ensures
        CommandView::parse(v.tag(), v.payload()) == Ok::<CommandView, CodecError>(v),
{
}

proof fn lemma_round_trip_grey(v: CommandView)
    requires
        v is Grey,
        v.wf(),
    ensures
        CommandView::parse(v.tag(), v.payload()) == Ok::<CommandView, CodecError>(v),
{
}

proof fn lemma_round_trip_demo(v: CommandView)
    requires
        v is Demo,
        v.wf(),
    ensures
        CommandView::parse(v.tag(), v.payload()) == Ok::<CommandView, CodecError>(v),
{
    let d = v.payload();
    match v {
        CommandView::Demo { demo_id } => {
            DemoID::lemma_id_round_trip(demo_id);
        },
        _ => {},
    }
}

proof fn lemma_round_trip_led(v: CommandView)
    requires
        v is Led,
        v.wf(),
    ensures
        CommandView::parse(v.tag(), v.payload()) == Ok::<CommandView, CodecError>(v),
{
    let d = v.payload();
    match v {
        CommandView::Led { state } => {
            LedState::lemma_id_round_trip(state);
        },
        _ => {},
    }
}

proof fn lemma_round_trip_shift(v: CommandView)
    requires
        v is Shift,
        v.wf(),
    ensures
        CommandView::parse(v.tag(), v.payload()) == Ok::<CommandView, CodecError>(v),
{
}

proof fn lemma_round_trip_luma(v: CommandView)
    requires
        v is Luma,
        v.wf(),
    ensures
        CommandView::parse(v.tag(), v.payload()) == Ok::<CommandView, CodecError>(v),
{
}

proof fn lemma_round_trip_sensor(v: CommandView)
    requires
        v is Sensor,
        v.wf(),
    ensures
        CommandView::parse(v.tag(), v.payload()) == Ok::<CommandView, CodecError>(v),
{
}

proof fn lemma_round_trip_gesture(v: CommandView)
    requires
        v is Gesture,
        v.wf(),
    ensures
        CommandView::parse(v.tag(), v.payload()) == Ok::<CommandView, CodecError>(v),
{
}

proof fn lemma_round_trip_als(v: CommandView)
    requires
        v is Als,
        v.wf(),
    ensures
        CommandView::parse(v.tag(), v.payload()) == Ok::<CommandView, CodecError>(v),
{
}

proof fn lemma_round_trip_color(v: CommandView)
    requires
        v is Color,
        v.wf(),
    ensures
        CommandView::parse(v.tag(), v.payload()) == Ok::<CommandView, CodecError>(v),
{
}

proof fn lemma_round_trip_point(v: CommandView)
    requires
        v is Point,
        v.wf(),
    ensures
        CommandView::parse(v.tag(), v.payload()) == Ok::<CommandView, CodecError>(v),
{
}

proof fn lemma_round_trip_line(v: CommandView)
    requires
        v is Line,
        v.wf(),
    ensures
        CommandView::parse(v.tag(), v.payload()) == Ok::<CommandView, CodecError>(v),
{
}

proof fn lemma_round_trip_rect(v: CommandView)
    requires
        v is Rect,
        v.wf(),
    ensures
        CommandView::parse(v.tag(), v.payload()) == Ok::<CommandView, CodecError>(v),
{
}

proof fn lemma_round_trip_rect_full(v: CommandView)
    requires
        v is RectFull,
        v.wf(),
    ensures
        CommandView::parse(v.tag(), v.payload()) == Ok::<CommandView, CodecError>(v),
{
}

proof fn lemma_round_trip_circ(v: CommandView)
    requires
        v is Circ,
        v.wf(),
    ensures
        CommandView::parse(v.tag(), v.payload()) == Ok::<CommandView, CodecError>(v),
{
}

proof fn lemma_round_trip_circ_full(v: CommandView)
    requires
        v is CircFull,
        v.wf(),
    ensures
        CommandView::parse(v.tag(), v.payload()) == Ok::<CommandView, CodecError>(v),
{
}

proof fn lemma_round_trip_txt(v: CommandView)
    requires
        v is Txt,
        v.wf(),
    ensures
        CommandView::parse(v.tag(), v.payload()) == Ok::<CommandView, CodecError>(v),
{
    let d = v.payload();
    match v {
        CommandView::Txt { pos, rotation, font_size, color, string } => {
            assert(d.subrange(7, (7 + text_bytes(string, TEXT_LEN as nat).len()) as int)
                =~= text_bytes(string, TEXT_LEN as nat));
            lemma_text_round_trip(d, 7, string, TEXT_LEN as nat);
        },
        _ => {},
    }
}

proof fn lemma_round_trip_polyline(v: CommandView)
    requires
        v is Polyline,
        v.wf(),
    ensures
        CommandView::parse(v.tag(), v.payload()) == Ok::<CommandView, CodecError>(v),
{
    let d = v.payload();
    match v {
        CommandView::Polyline { thickness, _reserved, points } => {
            assert(d =~= (seq![thickness] + be16(_reserved)) + point_list_bytes(points));
            lemma_point_list_round_trip(seq![thickness] + be16(_reserved), points);
        },
        _ => {},
    }
}

proof fn lemma_round_trip_hold_flush(v: CommandView)
    requires
        v is HoldFlush,
        v.wf(),
    ensures
        CommandView::parse(v.tag(), v.payload()) == Ok::<CommandView, CodecError>(v),
{
    let d = v.payload();
    match v {
        CommandView::HoldFlush { action } => {
            HoldFlushAction::lemma_id_round_trip(action);
        },
        _ => {},
    }
}

proof fn lemma_round_trip_arc(v: CommandView)
    requires
        v is Arc,
        v.wf(),
    ensures
        CommandView::parse(v.tag(), v.payload()) == Ok::<CommandView, CodecError>(v),
{
}

proof fn lemma_round_trip_img_save(v: CommandView)
    requires
        v is ImgSave,
        v.wf(),
    ensures
        CommandView::parse(v.tag(), v.payload()) == Ok::<CommandView, CodecError>(v),
{
    let d = v.payload();
    match v {
        CommandView::ImgSave { id, size, width, format, data } => {
            lemma_be32_value(size);
            ImgFormat::lemma_id_round_trip(format);
            assert(d.subrange(8, (8 + data.len()) as int) =~= data);
        },
        _ => {},
    }
}

proof fn lemma_round_trip_img_display(v: CommandView)
    requires
        v is ImgDisplay,
        v.wf(),
    ensures
        CommandView::parse(v.tag(), v.payload()) == Ok::<CommandView, CodecError>(v),
{
}

proof fn lemma_round_trip_img_stream(v: CommandView)
    requires
        v is ImgStream,
        v.wf(),
    ensures
        CommandView::parse(v.tag(), v.payload()) == Ok::<CommandView, CodecError>(v),
{
    let d = v.payload();
    match v {
        CommandView::ImgStream { size, width, coord, format, data } => {
            lemma_be32_value(size);
            StreamImgFormat::lemma_id_round_trip(format);
            assert(d.subrange(11, (11 + data.len()) as int) =~= data);
        },
        _ => {},
    }
}

proof fn lemma_round_trip_img_delete(v: CommandView)
    requires
        v is ImgDelete,
        v.wf(),
    ensures
        CommandView::parse(v.tag(), v.payload()) == Ok::<CommandView, CodecError>(v),
{
}

proof fn lemma_round_trip_font_select(v: CommandView)
    requires
        v is FontSelect,
        v.wf(),
    ensures
        CommandView::parse(v.tag(), v.payload()) == Ok::<CommandView, CodecError>(v),
{
}

proof fn lemma_round_trip_font_delete(v: CommandView)
    requires
        v is FontDelete,
        v.wf(),
    ensures
        CommandView::parse(v.tag(), v.payload()) == Ok::<CommandView, CodecError>(v),
{
}

proof fn lemma_round_trip_layout_save(v: CommandView)
    requires
        v is LayoutSave,
        v.wf(),
    ensures
        CommandView::parse(v.tag(), v.payload()) == Ok::<CommandView, CodecError>(v),
{
    let d = v.payload();
    match v {
        CommandView::LayoutSave { id, params } => {
            assert(d =~= (seq![id]) + params.bytes() + (Seq::<u8>::empty()));
            LayoutParametersView::lemma_round_trip(seq![id], params, Seq::<u8>::empty());
        },
        _ => {},
    }
}

proof fn lemma_round_trip_layout_delete(v: CommandView)
    requires
        v is LayoutDelete,
        v.wf(),
    ensures
        CommandView::parse(v.tag(), v.payload()) == Ok::<CommandView, CodecError>(v),
{
}

proof fn lemma_round_trip_layout_display(v: CommandView)
    requires
        v is LayoutDisplay,
        v.wf(),
    ensures
        CommandView::parse(v.tag(), v.payload()) == Ok::<CommandView, CodecError>(v),
{
    let d = v.payload();
    match v {
        CommandView::LayoutDisplay { id, text } => {
            assert(d.subrange(1, (1 + text_bytes(text, TEXT_LEN as nat).len()) as int)
                =~= text_bytes(text, TEXT_LEN as nat));
            lemma_text_round_trip(d, 1, text, TEXT_LEN as nat);
        },
        _ => {},
    }
}

proof fn lemma_round_trip_layout_clear(v: CommandView)
    requires
        v is LayoutClear,
        v.wf(),
    ensures
        CommandView::parse(v.tag(), v.payload()) == Ok::<CommandView, CodecError>(v),
{
}

proof fn lemma_round_trip_layout_position(v: CommandView)
    requires
        v is LayoutPosition,
        v.wf(),
    ensures
        CommandView::parse(v.tag(), v.payload()) == Ok::<CommandView, CodecError>(v),
{
}

proof fn lemma_round_trip_layout_display_extended(v: CommandView)
    requires
        v is LayoutDisplayExtended,
        v.wf(),
    ensures
        CommandView::parse(v.tag(), v.payload()) == Ok::<CommandView, CodecError>(v),
{
    let d = v.payload();
    match v {
        CommandView::LayoutDisplayExtended { id, pos, text, extra_cmd } => {
            assert(d.subrange(4, (4 + text_bytes(text, TEXT_LEN as nat).len()) as int)
                =~= text_bytes(text, TEXT_LEN as nat));
            lemma_text_round_trip(d, 4, text, TEXT_LEN as nat);
            let q1 = (4 + text_bytes(text, TEXT_LEN as nat).len()) as int;
            assert(d.subrange(q1, d.len() as int) =~= extra_cmd);
        },
        _ => {},
    }
}

proof fn lemma_round_trip_layout_get(v: CommandView)
    requires
        v is LayoutGet,
        v.wf(),
    ensures
        CommandView::parse(v.tag(), v.payload()) == Ok::<CommandView, CodecError>(v),
{
}

proof fn lemma_round_trip_layout_clear_extended(v: CommandView)
    requires
        v is LayoutClearExtended,
        v.wf(),
    ensures
        CommandView::parse(v.tag(), v.payload()) == Ok::<CommandView, CodecError>(v),
{
}

proof fn lemma_round_trip_layout_clear_and_display(v: CommandView)
    requires
        v is LayoutClearAndDisplay,
        v.wf(),
    ensures
        CommandView::parse(v.tag(), v.payload()) == Ok::<CommandView, CodecError>(v),
{
    let d = v.payload();
    match v {
        CommandView::LayoutClearAndDisplay { id, text } => {
            assert(d.subrange(1, (1 + text_bytes(text, TEXT_LEN as nat).len()) as int)
                =~= text_bytes(text, TEXT_LEN as nat));
            lemma_text_round_trip(d, 1, text, TEXT_LEN as nat);
        },
        _ => {},
    }
}

proof fn lemma_round_trip_layout_clear_and_display_extended(v: CommandView)
    requires
        v is LayoutClearAndDisplayExtended,
        v.wf(),
    ensures
        CommandView::parse(v.tag(), v.payload()) == Ok::<CommandView, CodecError>(v),
{
    let d = v.payload();
    match v {
        CommandView::LayoutClearAndDisplayExtended { id, pos, text, extra_cmd } => {
            assert(d.subrange(4, (4 + text_bytes(text, TEXT_LEN as nat).len()) as int)
                =~= text_bytes(text, TEXT_LEN as nat));
            lemma_text_round_trip(d, 4, text, TEXT_LEN as nat);
            let q1 = (4 + text_bytes(text, TEXT_LEN as nat).len()) as int;
            assert(d.subrange(q1, d.len() as int) =~= extra_cmd);
        },
        _ => {},
    }
}

proof fn lemma_round_trip_gauge_display(v: CommandView)
    requires
        v is GaugeDisplay,
        v.wf(),
    ensures
        CommandView::parse(v.tag(), v.payload()) == Ok::<CommandView, CodecError>(v),
{
}

proof fn lemma_round_trip_gauge_save(v: CommandView)
    requires
        v is GaugeSave,
        v.wf(),
    ensures
        CommandView::parse(v.tag(), v.payload()) == Ok::<CommandView, CodecError>(v),
{
}

proof fn lemma_round_trip_gauge_delete(v: CommandView)
    requires
        v is GaugeDelete,
        v.wf(),
    ensures
        CommandView::parse(v.tag(), v.payload()) == Ok::<CommandView, CodecError>(v),
{
}

proof fn lemma_round_trip_gauge_get(v: CommandView)
    requires
        v is GaugeGet,
        v.wf(),
    ensures
        CommandView::parse(v.tag(), v.payload()) == Ok::<CommandView, CodecError>(v),
{
}

proof fn lemma_round_trip_page_get(v: CommandView)
    requires
        v is PageGet,
        v.wf(),
    ensures
        CommandView::parse(v.tag(), v.payload()) == Ok::<CommandView, CodecError>(v),
{
}

proof fn lemma_round_trip_page_delete(v: CommandView)
    requires
        v is PageDelete,
        v.wf(),
    ensures
        CommandView::parse(v.tag(), v.payload()) == Ok::<CommandView, CodecError>(v),
{
}

proof fn lemma_round_trip_page_display(v: CommandView)
    requires
        v is PageDisplay,
        v.wf(),
    ensures
        CommandView::parse(v.tag(), v.payload()) == Ok::<CommandView, CodecError>(v),
{
}

proof fn lemma_round_trip_page_clear(v: CommandView)
    requires
        v is PageClear,
        v.wf(),
    ensures
        CommandView::parse(v.tag(), v.payload()) == Ok::<CommandView, CodecError>(v),
{
}

proof fn lemma_round_trip_page_clear_and_display(v: CommandView)
    requires
        v is PageClearAndDisplay,
        v.wf(),
    ensures
        CommandView::parse(v.tag(), v.payload()) == Ok::<CommandView, CodecError>(v),
{
}

proof fn lemma_round_trip_anim_save(v: CommandView)
    requires
        v is AnimSave,
        v.wf(),
    ensures
        CommandView::parse(v.tag(), v.payload()) == Ok::<CommandView, CodecError>(v),
{
    let d = v.payload();
    match v {
        CommandView::AnimSave { id, total_size, img_size, width, fmt, img_compressed_size } => {
            lemma_be32_value(total_size);
            lemma_be32_value(img_size);
            lemma_be32_value(img_compressed_size);
        },
        _ => {},
    }
}

proof fn lemma_round_trip_anim_delete(v: CommandView)
    requires
        v is AnimDelete,
        v.wf(),
    ensures
        CommandView::parse(v.tag(), v.payload()) == Ok::<CommandView, CodecError>(v),
{
}

proof fn lemma_round_trip_anim_display(v: CommandView)
    requires
        v is AnimDisplay,
        v.wf(),
    ensures
        CommandView::parse(v.tag(), v.payload()) == Ok::<CommandView, CodecError>(v),
{
}

proof fn lemma_round_trip_anim_clear(v: CommandView)
    requires
        v is AnimClear,
        v.wf(),
    ensures
        CommandView::parse(v.tag(), v.payload()) == Ok::<CommandView, CodecError>(v),
{
}

proof fn lemma_round_trip_cfg_write(v: CommandView)
    requires
        v is CfgWrite,
        v.wf(),
    ensures
        CommandView::parse(v.tag(), v.payload()) == Ok::<CommandView, CodecError>(v),
{
    let d = v.payload();
    match v {
        CommandView::CfgWrite { name, version, password } => {
            assert(d.subrange(0, text_bytes(name, NAME_LEN as nat).len() as int)
                =~= text_bytes(name, NAME_LEN as nat));
            lemma_text_round_trip(d, 0, name, NAME_LEN as nat);
            lemma_be32_value(version);
            lemma_be32_value(password);
        },
        _ => {},
    }
}

proof fn lemma_round_trip_cfg_read(v: CommandView)
    requires
        v is CfgRead,
        v.wf(),
    ensures
        CommandView::parse(v.tag(), v.payload()) == Ok::<CommandView, CodecError>(v),
{
    let d = v.payload();
    match v {
        CommandView::CfgRead { name } => {
            assert(d.subrange(0, text_bytes(name, NAME_LEN as nat).len() as int)
                =~= text_bytes(name, NAME_LEN as nat));
            lemma_text_round_trip(d, 0, name, NAME_LEN as nat);
        },
        _ => {},
    }
}

proof fn lemma_round_trip_cfg_set(v: CommandView)
    requires
        v is CfgSet,
        v.wf(),
    ensures
        CommandView::parse(v.tag(), v.payload()) == Ok::<CommandView, CodecError>(v),
{
    let d = v.payload();
    match v {
        CommandView::CfgSet { name } => {
            assert(d.subrange(0, text_bytes(name, NAME_LEN as nat).len() as int)
                =~= text_bytes(name, NAME_LEN as nat));
            lemma_text_round_trip(d, 0, name, NAME_LEN as nat);
        },
        _ => {},
    }
}

proof fn lemma_round_trip_cfg_rename(v: CommandView)
    requires
        v is CfgRename,
        v.wf(),
    ensures
        CommandView::parse(v.tag(), v.payload()) == Ok::<CommandView, CodecError>(v),
{
    let d = v.payload();
    match v {
        CommandView::CfgRename { old_name, new_name, password } => {
            assert(d.subrange(0, text_bytes(old_name, NAME_LEN as nat).len() as int)
                =~= text_bytes(old_name, NAME_LEN as nat));
            lemma_text_round_trip(d, 0, old_name, NAME_LEN as nat);
            let q1 = (text_bytes(old_name, NAME_LEN as nat).len()) as int;
            assert(d.subrange(q1, (q1 + text_bytes(new_name, NAME_LEN as nat).len()) as int)
                =~= text_bytes(new_name, NAME_LEN as nat));
            lemma_text_round_trip(d, q1, new_name, NAME_LEN as nat);
            lemma_be32_value(password);
        },
        _ => {},
    }
}

proof fn lemma_round_trip_cfg_delete(v: CommandView)
    requires
        v is CfgDelete,
        v.wf(),
    ensures
        CommandView::parse(v.tag(), v.payload()) == Ok::<CommandView, CodecError>(v),
{
    let d = v.payload();
    match v {
        CommandView::CfgDelete { name } => {
            assert(d.subrange(0, text_bytes(name, NAME_LEN as nat).len() as int)
                =~= text_bytes(name, NAME_LEN as nat));
            lemma_text_round_trip(d, 0, name, NAME_LEN as nat);
        },
        _ => {},
    }
}

proof fn lemma_round_trip_shutdown(v: CommandView)
    requires
        v is Shutdown,
        v.wf(),
    ensures
        CommandView::parse(v.tag(), v.payload()) == Ok::<CommandView, CodecError>(v),
{
    let d = v.payload();
    match v {
        CommandView::Shutdown { key } => {
            assert(d.subrange(0, 4) =~= key);
        },
        _ => {},
    }
}

proof fn lemma_round_trip_reset(v: CommandView)
    requires
        v is Reset,
        v.wf(),
    ensures
        CommandView::parse(v.tag(), v.payload()) == Ok::<CommandView, CodecError>(v),
{
    let d = v.payload();
    match v {
        CommandView::Reset { key } => {
            assert(d.subrange(0, 4) =~= key);
        },
        _ => {},
    }
}

proof fn lemma_round_trip_info(v: CommandView)
    requires
        v is Info,
        v.wf(),
    ensures
        CommandView::parse(v.tag(), v.payload()) == Ok::<CommandView, CodecError>(v),
{
    let d = v.payload();
    match v {
        CommandView::Info { id } => {
            DeviceInfo::lemma_id_round_trip(id);
        },
        _ => {},
    }
}

/// Every well-formed value is decoded back from its payload under its own tag.
pub proof fn lemma_command_round_trip(v: CommandView)
    requires
        v.wf(),
    ensures
        CommandView::parse(v.tag(), v.payload()) == Ok::<CommandView, CodecError>(v),
{
    match v {
        CommandView::PowerDisplay { .. } => lemma_round_trip_power_display(v),
        CommandView::Grey { .. } => lemma_round_trip_grey(v),
        CommandView::Demo { .. } => lemma_round_trip_demo(v),
        CommandView::Led { .. } => lemma_round_trip_led(v),
        CommandView::Shift { .. } => lemma_round_trip_shift(v),
        CommandView::Luma { .. } => lemma_round_trip_luma(v),
        CommandView::Sensor { .. } => lemma_round_trip_sensor(v),
        CommandView::Gesture { .. } => lemma_round_trip_gesture(v),
        CommandView::Als { .. } => lemma_round_trip_als(v),
        CommandView::Color { .. } => lemma_round_trip_color(v),
        CommandView::Point { .. } => lemma_round_trip_point(v),
        CommandView::Line { .. } => lemma_round_trip_line(v),
        CommandView::Rect { .. } => lemma_round_trip_rect(v),
        CommandView::RectFull { .. } => lemma_round_trip_rect_full(v),
        CommandView::Circ { .. } => lemma_round_trip_circ(v),
        CommandView::CircFull { .. } => lemma_round_trip_circ_full(v),
        CommandView::Txt { .. } => lemma_round_trip_txt(v),
        CommandView::Polyline { .. } => lemma_round_trip_polyline(v),
        CommandView::HoldFlush { .. } => lemma_round_trip_hold_flush(v),
        CommandView::Arc { .. } => lemma_round_trip_arc(v),
        CommandView::ImgSave { .. } => lemma_round_trip_img_save(v),
        CommandView::ImgDisplay { .. } => lemma_round_trip_img_display(v),
        CommandView::ImgStream { .. } => lemma_round_trip_img_stream(v),
        CommandView::ImgDelete { .. } => lemma_round_trip_img_delete(v),
        CommandView::FontSelect { .. } => lemma_round_trip_font_select(v),
        CommandView::FontDelete { .. } => lemma_round_trip_font_delete(v),
        CommandView::LayoutSave { .. } => lemma_round_trip_layout_save(v),
        CommandView::LayoutDelete { .. } => lemma_round_trip_layout_delete(v),
        CommandView::LayoutDisplay { .. } => lemma_round_trip_layout_display(v),
        CommandView::LayoutClear { .. } => lemma_round_trip_layout_clear(v),
        CommandView::LayoutPosition { .. } => lemma_round_trip_layout_position(v),
        CommandView::LayoutDisplayExtended { .. } => lemma_round_trip_layout_display_extended(v),
        CommandView::LayoutGet { .. } => lemma_round_trip_layout_get(v),
        CommandView::LayoutClearExtended { .. } => lemma_round_trip_layout_clear_extended(v),
        CommandView::LayoutClearAndDisplay { .. } => lemma_round_trip_layout_clear_and_display(v),
        CommandView::LayoutClearAndDisplayExtended { .. } => lemma_round_trip_layout_clear_and_display_extended(v),
        CommandView::GaugeDisplay { .. } => lemma_round_trip_gauge_display(v),
        CommandView::GaugeSave { .. } => lemma_round_trip_gauge_save(v),
        CommandView::GaugeDelete { .. } => lemma_round_trip_gauge_delete(v),
        CommandView::GaugeGet { .. } => lemma_round_trip_gauge_get(v),
        CommandView::PageGet { .. } => lemma_round_trip_page_get(v),
        CommandView::PageDelete { .. } => lemma_round_trip_page_delete(v),
        CommandView::PageDisplay { .. } => lemma_round_trip_page_display(v),
        CommandView::PageClear { .. } => lemma_round_trip_page_clear(v),
        CommandView::PageClearAndDisplay { .. } => lemma_round_trip_page_clear_and_display(v),
        CommandView::AnimSave { .. } => lemma_round_trip_anim_save(v),
        CommandView::AnimDelete { .. } => lemma_round_trip_anim_delete(v),
        CommandView::AnimDisplay { .. } => lemma_round_trip_anim_display(v),
        CommandView::AnimClear { .. } => lemma_round_trip_anim_clear(v),
        CommandView::CfgWrite { .. } => lemma_round_trip_cfg_write(v),
        CommandView::CfgRead { .. } => lemma_round_trip_cfg_read(v),
        CommandView::CfgSet { .. } => lemma_round_trip_cfg_set(v),
        CommandView::CfgRename { .. } => lemma_round_trip_cfg_rename(v),
        CommandView::CfgDelete { .. } => lemma_round_trip_cfg_delete(v),
        CommandView::Shutdown { .. } => lemma_round_trip_shutdown(v),
        CommandView::Reset { .. } => lemma_round_trip_reset(v),
        CommandView::Info { .. } => lemma_round_trip_info(v),
        _ => {},
    }
}

/// The catalog registers each variant under the tag that its values carry:
/// whatever decodes under `tag` has that tag.
#[verifier::spinoff_prover]
#[verifier::rlimit(100)]
pub proof fn lemma_command_tag_fidelity(tag: u8, d: Seq<u8>)
    ensures
        CommandView::parse(tag, d) matches Ok(v) ==> v.tag() == tag,
{
}

impl Command {
    /// The operation tag of the variant.
    pub fn tag(&self) -> (r: u8)
        ensures
            r == self@.tag(),
    {
        match self {
            Command::PowerDisplay { .. } => 0x00,
            Command::Clear => 0x01,
            Command::Grey { .. } => 0x02,
            Command::Demo { .. } => 0x03,
            Command::Battery => 0x05,
            Command::Version => 0x06,
            Command::Led { .. } => 0x08,
            Command::Shift { .. } => 0x09,
            Command::Settings => 0x0A,
            Command::Luma { .. } => 0x10,
            Command::Sensor { .. } => 0x20,
            Command::Gesture { .. } => 0x21,
            Command::Als { .. } => 0x22,
            Command::Color { .. } => 0x30,
            Command::Point { .. } => 0x31,
            Command::Line { .. } => 0x32,
            Command::Rect { .. } => 0x33,
            Command::RectFull { .. } => 0x34,
            Command::Circ { .. } => 0x35,
            Command::CircFull { .. } => 0x36,
            Command::Txt { .. } => 0x37,
            Command::Polyline { .. } => 0x38,
            Command::HoldFlush { .. } => 0x39,
            Command::Arc { .. } => 0x3C,
            Command::ImgSave { .. } => 0x41,
            Command::ImgDisplay { .. } => 0x42,
            Command::ImgStream { .. } => 0x44,
            Command::ImgDelete { .. } => 0x46,
            Command::ImgList => 0x47,
            Command::FontList => 0x50,
            Command::FontSelect { .. } => 0x52,
            Command::FontDelete { .. } => 0x53,
            Command::LayoutSave { .. } => 0x60,
            Command::LayoutDelete { .. } => 0x61,
            Command::LayoutDisplay { .. } => 0x62,
            Command::LayoutClear { .. } => 0x63,
            Command::LayoutList => 0x64,
            Command::LayoutPosition { .. } => 0x65,
            Command::LayoutDisplayExtended { .. } => 0x66,
            Command::LayoutGet { .. } => 0x67,
            Command::LayoutClearExtended { .. } => 0x68,
            Command::LayoutClearAndDisplay { .. } => 0x69,
            Command::LayoutClearAndDisplayExtended { .. } => 0x6A,
            Command::GaugeDisplay { .. } => 0x70,
            Command::GaugeSave { .. } => 0x71,
            Command::GaugeDelete { .. } => 0x72,
            Command::GaugeList => 0x73,
            Command::GaugeGet { .. } => 0x74,
            Command::PageSave => 0x80,
            Command::PageGet { .. } => 0x81,
            Command::PageDelete { .. } => 0x82,
            Command::PageDisplay { .. } => 0x83,
            Command::PageClear { .. } => 0x84,
            Command::PageList => 0x85,
            Command::PageClearAndDisplay { .. } => 0x86,
            Command::AnimSave { .. } => 0x95,
            Command::AnimDelete { .. } => 0x96,
            Command::AnimDisplay { .. } => 0x97,
            Command::AnimClear { .. } => 0x98,
            Command::AnimList => 0x99,
            Command::PixelCount => 0xA5,
            Command::CfgWrite { .. } => 0xD0,
            Command::CfgRead { .. } => 0xD1,
            Command::CfgSet { .. } => 0xD2,
            Command::CfgList => 0xD3,
            Command::CfgRename { .. } => 0xD4,
            Command::CfgDelete { .. } => 0xD5,
            Command::CfgDeleteLessUsed => 0xD6,
            Command::CfgFreeSpace => 0xD7,
            Command::CfgGetNb => 0xD8,
            Command::Shutdown { .. } => 0xE0,
            Command::Reset { .. } => 0xE1,
            Command::Info { .. } => 0xE3,
        }
    }

    /// A copy with the same contents.
    pub fn duplicate(&self) -> (r: Command)
        ensures
            r@ == self@,
    {
        match self {
            Command::PowerDisplay { en } => Command::PowerDisplay { en: *en },
            Command::Clear => Command::Clear,
            Command::Grey { lvl } => Command::Grey { lvl: *lvl },
            Command::Demo { demo_id } => Command::Demo { demo_id: *demo_id },
            Command::Battery => Command::Battery,
            Command::Version => Command::Version,
            Command::Led { state } => Command::Led { state: *state },
            Command::Shift { shift } => Command::Shift { shift: *shift },
            Command::Settings => Command::Settings,
            Command::Luma { level } => Command::Luma { level: *level },
            Command::Sensor { en } => Command::Sensor { en: *en },
            Command::Gesture { en } => Command::Gesture { en: *en },
            Command::Als { en } => Command::Als { en: *en },
            Command::Color { color } => Command::Color { color: *color },
            Command::Point { coord } => Command::Point { coord: *coord },
            Command::Line { from, to } => Command::Line { from: *from, to: *to },
            Command::Rect { from, to } => Command::Rect { from: *from, to: *to },
            Command::RectFull { from, to } => Command::RectFull { from: *from, to: *to },
            Command::Circ { center, r } => Command::Circ { center: *center, r: *r },
            Command::CircFull { center, r } => Command::CircFull { center: *center, r: *r },
            Command::Txt {
                pos,
                rotation,
                font_size,
                color,
                string,
            } => Command::Txt {
                pos: *pos,
                rotation: *rotation,
                font_size: *font_size,
                color: *color,
                string: string.clone(),
            },
            Command::Polyline {
                thickness,
                _reserved,
                points,
            } => Command::Polyline {
                thickness: *thickness,
                _reserved: *_reserved,
                points: vstd::slice::slice_to_vec(points.as_slice()),
            },
            Command::HoldFlush { action } => Command::HoldFlush { action: *action },
            Command::Arc {
                center,
                r,
                angle_start,
                angle_end,
                thickness,
            } => Command::Arc {
                center: *center,
                r: *r,
                angle_start: *angle_start,
                angle_end: *angle_end,
                thickness: *thickness,
            },
            Command::ImgSave {
                id,
                size,
                width,
                format,
                data,
            } => Command::ImgSave {
                id: *id,
                size: *size,
                width: *width,
                format: *format,
                data: vstd::slice::slice_to_vec(data.as_slice()),
            },
            Command::ImgDisplay { id, coord } => Command::ImgDisplay { id: *id, coord: *coord },
            Command::ImgStream {
                size,
                width,
                coord,
                format,
                data,
            } => Command::ImgStream {
                size: *size,
                width: *width,
                coord: *coord,
                format: *format,
                data: vstd::slice::slice_to_vec(data.as_slice()),
            },
            Command::ImgDelete { id } => Command::ImgDelete { id: *id },
            Command::ImgList => Command::ImgList,
            Command::FontList => Command::FontList,
            Command::FontSelect { id } => Command::FontSelect { id: *id },
            Command::FontDelete { id } => Command::FontDelete { id: *id },
            Command::LayoutSave {
                id,
                params,
            } => Command::LayoutSave { id: *id, params: params.duplicate() },
            Command::LayoutDelete { id } => Command::LayoutDelete { id: *id },
            Command::LayoutDisplay {
                id,
                text,
            } => Command::LayoutDisplay { id: *id, text: text.clone() },
            Command::LayoutClear { id } => Command::LayoutClear { id: *id },
            Command::LayoutList => Command::LayoutList,
            Command::LayoutPosition { id, pos } => Command::LayoutPosition { id: *id, pos: *pos },
            Command::LayoutDisplayExtended {
                id,
                pos,
                text,
                extra_cmd,
            } => Command::LayoutDisplayExtended {
                id: *id,
                pos: *pos,
                text: text.clone(),
                extra_cmd: vstd::slice::slice_to_vec(extra_cmd.as_slice()),
            },
            Command::LayoutGet { id } => Command::LayoutGet { id: *id },
            Command::LayoutClearExtended {
                id,
                pos,
            } => Command::LayoutClearExtended { id: *id, pos: *pos },
            Command::LayoutClearAndDisplay {
                id,
                text,
            } => Command::LayoutClearAndDisplay { id: *id, text: text.clone() },
            Command::LayoutClearAndDisplayExtended {
                id,
                pos,
                text,
                extra_cmd,
            } => Command::LayoutClearAndDisplayExtended {
                id: *id,
                pos: *pos,
                text: text.clone(),
                extra_cmd: vstd::slice::slice_to_vec(extra_cmd.as_slice()),
            },
            Command::GaugeDisplay { id, value } => Command::GaugeDisplay { id: *id, value: *value },
            Command::GaugeSave {
                id,
                pos,
                radius,
                inner,
                start,
                end,
                clockwise,
            } => Command::GaugeSave {
                id: *id,
                pos: *pos,
                radius: *radius,
                inner: *inner,
                start: *start,
                end: *end,
                clockwise: *clockwise,
            },
            Command::GaugeDelete { id } => Command::GaugeDelete { id: *id },
            Command::GaugeList => Command::GaugeList,
            Command::GaugeGet { id } => Command::GaugeGet { id: *id },
            Command::PageSave => Command::PageSave,
            Command::PageGet { id } => Command::PageGet { id: *id },
            Command::PageDelete { id } => Command::PageDelete { id: *id },
            Command::PageDisplay { id } => Command::PageDisplay { id: *id },
            Command::PageClear { id } => Command::PageClear { id: *id },
            Command::PageList => Command::PageList,
            Command::PageClearAndDisplay { id } => Command::PageClearAndDisplay { id: *id },
            Command::AnimSave {
                id,
                total_size,
                img_size,
                width,
                fmt,
                img_compressed_size,
            } => Command::AnimSave {
                id: *id,
                total_size: *total_size,
                img_size: *img_size,
                width: *width,
                fmt: *fmt,
                img_compressed_size: *img_compressed_size,
            },
            Command::AnimDelete { id } => Command::AnimDelete { id: *id },
            Command::AnimDisplay {
                handler_id,
                id,
                delay,
                repeat,
                pos,
            } => Command::AnimDisplay {
                handler_id: *handler_id,
                id: *id,
                delay: *delay,
                repeat: *repeat,
                pos: *pos,
            },
            Command::AnimClear { handler_id } => Command::AnimClear { handler_id: *handler_id },
            Command::AnimList => Command::AnimList,
            Command::PixelCount => Command::PixelCount,
            Command::CfgWrite {
                name,
                version,
                password,
            } => Command::CfgWrite { name: name.clone(), version: *version, password: *password },
            Command::CfgRead { name } => Command::CfgRead { name: name.clone() },
            Command::CfgSet { name } => Command::CfgSet { name: name.clone() },
            Command::CfgList => Command::CfgList,
            Command::CfgRename {
                old_name,
                new_name,
                password,
            } => Command::CfgRename {
                old_name: old_name.clone(),
                new_name: new_name.clone(),
                password: *password,
            },
            Command::CfgDelete { name } => Command::CfgDelete { name: name.clone() },
            Command::CfgDeleteLessUsed => Command::CfgDeleteLessUsed,
            Command::CfgFreeSpace => Command::CfgFreeSpace,
            Command::CfgGetNb => Command::CfgGetNb,
            Command::Shutdown { key } => Command::Shutdown { key: *key },
            Command::Reset { key } => Command::Reset { key: *key },
            Command::Info { id } => Command::Info { id: *id },
        }
    }

    /// The payload of the value; the tag travels apart from it.
    pub fn encode(&self) -> (r: Vec<u8>)
        ensures
            r@ == self@.payload(),
    {
        let mut out: Vec<u8> = Vec::new();
        match self {
            Command::PowerDisplay { en } => {
                put_u8(&mut out, *en);
            },
            Command::Clear => {},
            Command::Grey { lvl } => {
                put_u8(&mut out, *lvl);
            },
            Command::Demo { demo_id } => {
                put_u8(&mut out, demo_id.id());
            },
            Command::Battery => {},
            Command::Version => {},
            Command::Led { state } => {
                put_u8(&mut out, state.id());
            },
            Command::Shift { shift } => {
                put_shift(&mut out, *shift);
            },
            Command::Settings => {},
            Command::Luma { level } => {
                put_u8(&mut out, *level);
            },
            Command::Sensor { en } => {
                put_bool(&mut out, *en);
            },
            Command::Gesture { en } => {
                put_bool(&mut out, *en);
            },
            Command::Als { en } => {
                put_bool(&mut out, *en);
            },
            Command::Color { color } => {
                put_u8(&mut out, *color);
            },
            Command::Point { coord } => {
                put_point(&mut out, *coord);
            },
            Command::Line { from, to } => {
                put_point(&mut out, *from);
                put_point(&mut out, *to);
            },
            Command::Rect { from, to } => {
                put_point(&mut out, *from);
                put_point(&mut out, *to);
            },
            Command::RectFull { from, to } => {
                put_point(&mut out, *from);
                put_point(&mut out, *to);
            },
            Command::Circ { center, r } => {
                put_point(&mut out, *center);
                put_u8(&mut out, *r);
            },
            Command::CircFull { center, r } => {
                put_point(&mut out, *center);
                put_u8(&mut out, *r);
            },
            Command::Txt { pos, rotation, font_size, color, string } => {
                put_point(&mut out, *pos);
                put_u8(&mut out, *rotation);
                put_u8(&mut out, *font_size);
                put_u8(&mut out, *color);
                write_fixed_size_cstr(&mut out, string.as_str(), TEXT_LEN);
            },
            Command::Polyline { thickness, _reserved, points } => {
                put_u8(&mut out, *thickness);
                put_u16(&mut out, *_reserved);
                write_point_list(&mut out, points);
            },
            Command::HoldFlush { action } => {
                put_u8(&mut out, action.id());
            },
            Command::Arc { center, r, angle_start, angle_end, thickness } => {
                put_point(&mut out, *center);
                put_u8(&mut out, *r);
                put_i16(&mut out, *angle_start);
                put_i16(&mut out, *angle_end);
                put_u8(&mut out, *thickness);
            },
            Command::ImgSave { id, size, width, format, data } => {
                put_u8(&mut out, *id);
                put_u32(&mut out, *size);
                put_u16(&mut out, *width);
                put_u8(&mut out, format.id());
                put_bytes(&mut out, data.as_slice());
            },
            Command::ImgDisplay { id, coord } => {
                put_u8(&mut out, *id);
                put_point(&mut out, *coord);
            },
            Command::ImgStream { size, width, coord, format, data } => {
                put_u32(&mut out, *size);
                put_u16(&mut out, *width);
                put_point(&mut out, *coord);
                put_u8(&mut out, format.id());
                put_bytes(&mut out, data.as_slice());
            },
            Command::ImgDelete { id } => {
                put_u8(&mut out, *id);
            },
            Command::ImgList => {},
            Command::FontList => {},
            Command::FontSelect { id } => {
                put_u8(&mut out, *id);
            },
            Command::FontDelete { id } => {
                put_u8(&mut out, *id);
            },
            Command::LayoutSave { id, params } => {
                put_u8(&mut out, *id);
                params.write(&mut out);
            },
            Command::LayoutDelete { id } => {
                put_u8(&mut out, *id);
            },
            Command::LayoutDisplay { id, text } => {
                put_u8(&mut out, *id);
                write_fixed_size_cstr(&mut out, text.as_str(), TEXT_LEN);
            },
            Command::LayoutClear { id } => {
                put_u8(&mut out, *id);
            },
            Command::LayoutList => {},
            Command::LayoutPosition { id, pos } => {
                put_u8(&mut out, *id);
                put_layout_position(&mut out, *pos);
            },
            Command::LayoutDisplayExtended { id, pos, text, extra_cmd } => {
                put_u8(&mut out, *id);
                put_layout_position(&mut out, *pos);
                write_fixed_size_cstr(&mut out, text.as_str(), TEXT_LEN);
                put_bytes(&mut out, extra_cmd.as_slice());
            },
            Command::LayoutGet { id } => {
                put_u8(&mut out, *id);
            },
            Command::LayoutClearExtended { id, pos } => {
                put_u8(&mut out, *id);
                put_layout_position(&mut out, *pos);
            },
            Command::LayoutClearAndDisplay { id, text } => {
                put_u8(&mut out, *id);
                write_fixed_size_cstr(&mut out, text.as_str(), TEXT_LEN);
            },
            Command::LayoutClearAndDisplayExtended { id, pos, text, extra_cmd } => {
                put_u8(&mut out, *id);
                put_layout_position(&mut out, *pos);
                write_fixed_size_cstr(&mut out, text.as_str(), TEXT_LEN);
                put_bytes(&mut out, extra_cmd.as_slice());
            },
            Command::GaugeDisplay { id, value } => {
                put_u8(&mut out, *id);
                put_u8(&mut out, *value);
            },
            Command::GaugeSave { id, pos, radius, inner, start, end, clockwise } => {
                put_u8(&mut out, *id);
                put_point(&mut out, *pos);
                put_u16(&mut out, *radius);
                put_u16(&mut out, *inner);
                put_u8(&mut out, *start);
                put_u8(&mut out, *end);
                put_u8(&mut out, *clockwise);
            },
            Command::GaugeDelete { id } => {
                put_u8(&mut out, *id);
            },
            Command::GaugeList => {},
            Command::GaugeGet { id } => {
                put_u8(&mut out, *id);
            },
            Command::PageSave => {},
            Command::PageGet { id } => {
                put_u8(&mut out, *id);
            },
            Command::PageDelete { id } => {
                put_u8(&mut out, *id);
            },
            Command::PageDisplay { id } => {
                put_u8(&mut out, *id);
            },
            Command::PageClear { id } => {
                put_u8(&mut out, *id);
            },
            Command::PageList => {},
            Command::PageClearAndDisplay { id } => {
                put_u8(&mut out, *id);
            },
            Command::AnimSave { id, total_size, img_size, width, fmt, img_compressed_size } => {
                put_u8(&mut out, *id);
                put_u32(&mut out, *total_size);
                put_u32(&mut out, *img_size);
                put_u16(&mut out, *width);
                put_u8(&mut out, *fmt);
                put_u32(&mut out, *img_compressed_size);
            },
            Command::AnimDelete { id } => {
                put_u8(&mut out, *id);
            },
            Command::AnimDisplay { handler_id, id, delay, repeat, pos } => {
                put_u8(&mut out, *handler_id);
                put_u8(&mut out, *id);
                put_u16(&mut out, *delay);
                put_u8(&mut out, *repeat);
                put_point(&mut out, *pos);
            },
            Command::AnimClear { handler_id } => {
                put_u8(&mut out, *handler_id);
            },
            Command::AnimList => {},
            Command::PixelCount => {},
            Command::CfgWrite { name, version, password } => {
                write_fixed_size_cstr(&mut out, name.as_str(), NAME_LEN);
                put_u32(&mut out, *version);
                put_u32(&mut out, *password);
            },
            Command::CfgRead { name } => {
                write_fixed_size_cstr(&mut out, name.as_str(), NAME_LEN);
            },
            Command::CfgSet { name } => {
                write_fixed_size_cstr(&mut out, name.as_str(), NAME_LEN);
            },
            Command::CfgList => {},
            Command::CfgRename { old_name, new_name, password } => {
                write_fixed_size_cstr(&mut out, old_name.as_str(), NAME_LEN);
                write_fixed_size_cstr(&mut out, new_name.as_str(), NAME_LEN);
                put_u32(&mut out, *password);
            },
            Command::CfgDelete { name } => {
                write_fixed_size_cstr(&mut out, name.as_str(), NAME_LEN);
            },
            Command::CfgDeleteLessUsed => {},
            Command::CfgFreeSpace => {},
            Command::CfgGetNb => {},
            Command::Shutdown { key } => {
                put_bytes(&mut out, key.as_slice());
            },
            Command::Reset { key } => {
                put_bytes(&mut out, key.as_slice());
            },
            Command::Info { id } => {
                put_u8(&mut out, id.id());
            },
        }
        assert(out@ =~= self@.payload());
        out
    }

    /// Decodes the payload `d` of a value with operation tag `tag`.
    #[verifier::rlimit(100)]
    pub fn decode(tag: u8, d: &[u8]) -> (r: Result<Command, CodecError>)
        ensures
            match r {
                Ok(v) => CommandView::parse(tag, d@) == Ok::<CommandView, CodecError>(v@),
                Err(e) => CommandView::parse(tag, d@) == Err::<CommandView, CodecError>(e),
            },
    {
        match tag {
            0x00 => {
                if d.len() < 1 {
                    return Err(CodecError::Incomplete);
                }
                let en = d[0];
                Ok(Command::PowerDisplay { en })
            },
            0x01 => Ok(Command::Clear),
            0x02 => {
                if d.len() < 1 {
                    return Err(CodecError::Incomplete);
                }
                let lvl = d[0];
                Ok(Command::Grey { lvl })
            },
            0x03 => {
                if d.len() < 1 {
                    return Err(CodecError::Incomplete);
                }
                let demo_id = match DemoID::from_id(d[0]) {
                    Some(v) => v,
                    None => return Err(CodecError::InvalidValue),
                };
                Ok(Command::Demo { demo_id })
            },
            0x05 => Ok(Command::Battery),
            0x06 => Ok(Command::Version),
            0x08 => {
                if d.len() < 1 {
                    return Err(CodecError::Incomplete);
                }
                let state = match LedState::from_id(d[0]) {
                    Some(v) => v,
                    None => return Err(CodecError::InvalidValue),
                };
                Ok(Command::Led { state })
            },
            0x09 => {
                if d.len() < 4 {
                    return Err(CodecError::Incomplete);
                }
                let shift = get_shift(d, 0);
                Ok(Command::Shift { shift })
            },
            0x0A => Ok(Command::Settings),
            0x10 => {
                if d.len() < 1 {
                    return Err(CodecError::Incomplete);
                }
                let level = d[0];
                Ok(Command::Luma { level })
            },
            0x20 => {
                if d.len() < 1 {
                    return Err(CodecError::Incomplete);
                }
                let en = match get_bool(d[0]) {
                    Some(v) => v,
                    None => return Err(CodecError::InvalidValue),
                };
                Ok(Command::Sensor { en })
            },
            0x21 => {
                if d.len() < 1 {
                    return Err(CodecError::Incomplete);
                }
                let en = match get_bool(d[0]) {
                    Some(v) => v,
                    None => return Err(CodecError::InvalidValue),
                };
                Ok(Command::Gesture { en })
            },
            0x22 => {
                if d.len() < 1 {
                    return Err(CodecError::Incomplete);
                }
                let en = match get_bool(d[0]) {
                    Some(v) => v,
                    None => return Err(CodecError::InvalidValue),
                };
                Ok(Command::Als { en })
            },
            0x30 => {
                if d.len() < 1 {
                    return Err(CodecError::Incomplete);
                }
                let color = d[0];
                Ok(Command::Color { color })
            },
            0x31 => {
                if d.len() < 4 {
                    return Err(CodecError::Incomplete);
                }
                let coord = get_point(d, 0);
                Ok(Command::Point { coord })
            },
            0x32 => {
                if d.len() < 8 {
                    return Err(CodecError::Incomplete);
                }
                let from = get_point(d, 0);
                let to = get_point(d, 4);
                Ok(Command::Line { from, to })
            },
            0x33 => {
                if d.len() < 8 {
                    return Err(CodecError::Incomplete);
                }
                let from = get_point(d, 0);
                let to = get_point(d, 4);
                Ok(Command::Rect { from, to })
            },
            0x34 => {
                if d.len() < 8 {
                    return Err(CodecError::Incomplete);
                }
                let from = get_point(d, 0);
                let to = get_point(d, 4);
                Ok(Command::RectFull { from, to })
            },
            0x35 => {
                if d.len() < 5 {
                    return Err(CodecError::Incomplete);
                }
                let center = get_point(d, 0);
                let r = d[4];
                Ok(Command::Circ { center, r })
            },
            0x36 => {
                if d.len() < 5 {
                    return Err(CodecError::Incomplete);
                }
                let center = get_point(d, 0);
                let r = d[4];
                Ok(Command::CircFull { center, r })
            },
            0x37 => {
                if d.len() < 7 {
                    return Err(CodecError::Incomplete);
                }
                let pos = get_point(d, 0);
                let rotation = d[4];
                let font_size = d[5];
                let color = d[6];
                let at1: usize = 7;
                let (string, _) = read_fixed_size_cstr(d, at1, TEXT_LEN)?;
                Ok(Command::Txt { pos, rotation, font_size, color, string })
            },
            0x38 => {
                if d.len() < 3 {
                    return Err(CodecError::Incomplete);
                }
                let thickness = d[0];
                let _reserved = get_u16(d, 1);
                let at1: usize = 3;
                let points = read_point_list(d, at1)?;
                Ok(Command::Polyline { thickness, _reserved, points })
            },
            0x39 => {
                if d.len() < 1 {
                    return Err(CodecError::Incomplete);
                }
                let action = match HoldFlushAction::from_id(d[0]) {
                    Some(v) => v,
                    None => return Err(CodecError::InvalidValue),
                };
                Ok(Command::HoldFlush { action })
            },
            0x3C => {
                if d.len() < 10 {
                    return Err(CodecError::Incomplete);
                }
                let center = get_point(d, 0);
                let r = d[4];
                let angle_start = get_i16(d, 5);
                let angle_end = get_i16(d, 7);
                let thickness = d[9];
                Ok(Command::Arc { center, r, angle_start, angle_end, thickness })
            },
            0x41 => {
                if d.len() < 8 {
                    return Err(CodecError::Incomplete);
                }
                let id = d[0];
                let size = get_u32(d, 1);
                let width = get_u16(d, 5);
                let format = match ImgFormat::from_id(d[7]) {
                    Some(v) => v,
                    None => return Err(CodecError::InvalidValue),
                };
                let at1: usize = 8;
                if ((d.len() - at1) as u64) < (size as u64) {
                    return Err(CodecError::Incomplete);
                }
                let at2: usize = at1 + size as usize;
                let data = get_bytes(d, at1, at2);
                Ok(Command::ImgSave { id, size, width, format, data })
            },
            0x42 => {
                if d.len() < 5 {
                    return Err(CodecError::Incomplete);
                }
                let id = d[0];
                let coord = get_point(d, 1);
                Ok(Command::ImgDisplay { id, coord })
            },
            0x44 => {
                if d.len() < 11 {
                    return Err(CodecError::Incomplete);
                }
                let size = get_u32(d, 0);
                let width = get_u16(d, 4);
                let coord = get_point(d, 6);
                let format = match StreamImgFormat::from_id(d[10]) {
                    Some(v) => v,
                    None => return Err(CodecError::InvalidValue),
                };
                let at1: usize = 11;
                if ((d.len() - at1) as u64) < (size as u64) {
                    return Err(CodecError::Incomplete);
                }
                let at2: usize = at1 + size as usize;
                let data = get_bytes(d, at1, at2);
                Ok(Command::ImgStream { size, width, coord, format, data })
            },
            0x46 => {
                if d.len() < 1 {
                    return Err(CodecError::Incomplete);
                }
                let id = d[0];
                Ok(Command::ImgDelete { id })
            },
            0x47 => Ok(Command::ImgList),
            0x50 => Ok(Command::FontList),
            0x52 => {
                if d.len() < 1 {
                    return Err(CodecError::Incomplete);
                }
                let id = d[0];
                Ok(Command::FontSelect { id })
            },
            0x53 => {
                if d.len() < 1 {
                    return Err(CodecError::Incomplete);
                }
                let id = d[0];
                Ok(Command::FontDelete { id })
            },
            0x60 => {
                if d.len() < 1 {
                    return Err(CodecError::Incomplete);
                }
                let id = d[0];
                let at1: usize = 1;
                let (params, _) = LayoutParameters::read(d, at1)?;
                Ok(Command::LayoutSave { id, params })
            },
            0x61 => {
                if d.len() < 1 {
                    return Err(CodecError::Incomplete);
                }
                let id = d[0];
                Ok(Command::LayoutDelete { id })
            },
            0x62 => {
                if d.len() < 1 {
                    return Err(CodecError::Incomplete);
                }
                let id = d[0];
                let at1: usize = 1;
                let (text, _) = read_fixed_size_cstr(d, at1, TEXT_LEN)?;
                Ok(Command::LayoutDisplay { id, text })
            },
            0x63 => {
                if d.len() < 1 {
                    return Err(CodecError::Incomplete);
                }
                let id = d[0];
                Ok(Command::LayoutClear { id })
            },
            0x64 => Ok(Command::LayoutList),
            0x65 => {
                if d.len() < 4 {
                    return Err(CodecError::Incomplete);
                }
                let id = d[0];
                let pos = get_layout_position(d, 1);
                Ok(Command::LayoutPosition { id, pos })
            },
            0x66 => {
                if d.len() < 4 {
                    return Err(CodecError::Incomplete);
                }
                let id = d[0];
                let pos = get_layout_position(d, 1);
                let at1: usize = 4;
                let (text, at2) = read_fixed_size_cstr(d, at1, TEXT_LEN)?;
                let extra_cmd = get_bytes(d, at2, d.len());
                Ok(Command::LayoutDisplayExtended { id, pos, text, extra_cmd })
            },
            0x67 => {
                if d.len() < 1 {
                    return Err(CodecError::Incomplete);
                }
                let id = d[0];
                Ok(Command::LayoutGet { id })
            },
            0x68 => {
                if d.len() < 4 {
                    return Err(CodecError::Incomplete);
                }
                let id = d[0];
                let pos = get_layout_position(d, 1);
                Ok(Command::LayoutClearExtended { id, pos })
            },
            0x69 => {
                if d.len() < 1 {
                    return Err(CodecError::Incomplete);
                }
                let id = d[0];
                let at1: usize = 1;
                let (text, _) = read_fixed_size_cstr(d, at1, TEXT_LEN)?;
                Ok(Command::LayoutClearAndDisplay { id, text })
            },
            0x6A => {
                if d.len() < 4 {
                    return Err(CodecError::Incomplete);
                }
                let id = d[0];
                let pos = get_layout_position(d, 1);
                let at1: usize = 4;
                let (text, at2) = read_fixed_size_cstr(d, at1, TEXT_LEN)?;
                let extra_cmd = get_bytes(d, at2, d.len());
                Ok(Command::LayoutClearAndDisplayExtended { id, pos, text, extra_cmd })
            },
            0x70 => {
                if d.len() < 2 {
                    return Err(CodecError::Incomplete);
                }
                let id = d[0];
                let value = d[1];
                Ok(Command::GaugeDisplay { id, value })
            },
            0x71 => {
                if d.len() < 12 {
                    return Err(CodecError::Incomplete);
                }
                let id = d[0];
                let pos = get_point(d, 1);
                let radius = get_u16(d, 5);
                let inner = get_u16(d, 7);
                let start = d[9];
                let end = d[10];
                let clockwise = d[11];
                Ok(Command::GaugeSave { id, pos, radius, inner, start, end, clockwise })
            },
            0x72 => {
                if d.len() < 1 {
                    return Err(CodecError::Incomplete);
                }
                let id = d[0];
                Ok(Command::GaugeDelete { id })
            },
            0x73 => Ok(Command::GaugeList),
            0x74 => {
                if d.len() < 1 {
                    return Err(CodecError::Incomplete);
                }
                let id = d[0];
                Ok(Command::GaugeGet { id })
            },
            0x80 => Ok(Command::PageSave),
            0x81 => {
                if d.len() < 1 {
                    return Err(CodecError::Incomplete);
                }
                let id = d[0];
                Ok(Command::PageGet { id })
            },
            0x82 => {
                if d.len() < 1 {
                    return Err(CodecError::Incomplete);
                }
                let id = d[0];
                Ok(Command::PageDelete { id })
            },
            0x83 => {
                if d.len() < 1 {
                    return Err(CodecError::Incomplete);
                }
                let id = d[0];
                Ok(Command::PageDisplay { id })
            },
            0x84 => {
                if d.len() < 1 {
                    return Err(CodecError::Incomplete);
                }
                let id = d[0];
                Ok(Command::PageClear { id })
            },
            0x85 => Ok(Command::PageList),
            0x86 => {
                if d.len() < 1 {
                    return Err(CodecError::Incomplete);
                }
                let id = d[0];
                Ok(Command::PageClearAndDisplay { id })
            },
            0x95 => {
                if d.len() < 16 {
                    return Err(CodecError::Incomplete);
                }
                let id = d[0];
                let total_size = get_u32(d, 1);
                let img_size = get_u32(d, 5);
                let width = get_u16(d, 9);
                let fmt = d[11];
                let img_compressed_size = get_u32(d, 12);
                Ok(Command::AnimSave { id, total_size, img_size, width, fmt, img_compressed_size })
            },
            0x96 => {
                if d.len() < 1 {
                    return Err(CodecError::Incomplete);
                }
                let id = d[0];
                Ok(Command::AnimDelete { id })
            },
            0x97 => {
                if d.len() < 9 {
                    return Err(CodecError::Incomplete);
                }
                let handler_id = d[0];
                let id = d[1];
                let delay = get_u16(d, 2);
                let repeat = d[4];
                let pos = get_point(d, 5);
                Ok(Command::AnimDisplay { handler_id, id, delay, repeat, pos })
            },
            0x98 => {
                if d.len() < 1 {
                    return Err(CodecError::Incomplete);
                }
                let handler_id = d[0];
                Ok(Command::AnimClear { handler_id })
            },
            0x99 => Ok(Command::AnimList),
            0xA5 => Ok(Command::PixelCount),
            0xD0 => {
                let (name, at1) = read_fixed_size_cstr(d, 0, NAME_LEN)?;
                if d.len() - at1 < 8 {
                    return Err(CodecError::Incomplete);
                }
                let version = get_u32(d, at1);
                let password = get_u32(d, at1 + 4);
                Ok(Command::CfgWrite { name, version, password })
            },
            0xD1 => {
                let (name, _) = read_fixed_size_cstr(d, 0, NAME_LEN)?;
                Ok(Command::CfgRead { name })
            },
            0xD2 => {
                let (name, _) = read_fixed_size_cstr(d, 0, NAME_LEN)?;
                Ok(Command::CfgSet { name })
            },
            0xD3 => Ok(Command::CfgList),
            0xD4 => {
                let (old_name, at1) = read_fixed_size_cstr(d, 0, NAME_LEN)?;
                let (new_name, at2) = read_fixed_size_cstr(d, at1, NAME_LEN)?;
                if d.len() - at2 < 4 {
                    return Err(CodecError::Incomplete);
                }
                let password = get_u32(d, at2);
                Ok(Command::CfgRename { old_name, new_name, password })
            },
            0xD5 => {
                let (name, _) = read_fixed_size_cstr(d, 0, NAME_LEN)?;
                Ok(Command::CfgDelete { name })
            },
            0xD6 => Ok(Command::CfgDeleteLessUsed),
            0xD7 => Ok(Command::CfgFreeSpace),
            0xD8 => Ok(Command::CfgGetNb),
            0xE0 => {
                if d.len() < 4 {
                    return Err(CodecError::Incomplete);
                }
                let key = get_array4(d, 0);
                Ok(Command::Shutdown { key })
            },
            0xE1 => {
                if d.len() < 4 {
                    return Err(CodecError::Incomplete);
                }
                let key = get_array4(d, 0);
                Ok(Command::Reset { key })
            },
            0xE3 => {
                if d.len() < 1 {
                    return Err(CodecError::Incomplete);
                }
                let id = match DeviceInfo::from_id(d[0]) {
                    Some(v) => v,
                    None => return Err(CodecError::InvalidValue),
                };
                Ok(Command::Info { id })
            },
            _ => Err(CodecError::UnknownId),
        }
    }
}
} // verus!
