//! Responses sent by the glasses: the catalog, its payload layouts and their codec.

use vstd::prelude::*;

use crate::fields::{
    CfgItem, CfgItemView, CmdError, FontItem, ImgListItem, LayoutParameters, LayoutParametersView,
    Point, cfg_list_at, cfg_list_bytes, duplicate_cfg_list, font_list_at, font_list_bytes,
    get_point, img_list_at, img_list_bytes, lemma_cfg_list_round_trip, lemma_font_list_round_trip,
    lemma_img_list_round_trip, point_at, point_bytes, put_point, read_cfg_list, read_font_list,
    read_img_list, write_cfg_list, write_font_list, write_img_list,
};
use crate::wire::{
    CodecError, be16, be32, get_array3, get_array4, get_bytes, get_i8, get_u16, get_u32, i8_byte,
    i8_from, lemma_be32_value, put_bytes, put_i8, put_u16, put_u32, put_u8, u16_at, u32_at,
};

verus! {

/// The response catalog: one variant per operation tag.
#[derive(Clone, Debug, PartialEq, Eq)]
#[allow(inconsistent_fields)]
pub enum Response {
    /// Battery level in % (0x64 = 100%).
    Battery { level: u8 },
    /// Firmware version and serial number.
    Version { fw_version: [u8; 4], mfc_year: u8, mfc_week: u8, serial_number: [u8; 3] },
    /// Global settings.
    Settings { x: i8, y: i8, luma: u8, als_enable: u8, gesture_enable: u8 },
    /// Images in memory; `height` and `width` are in pixels; not sorted.
    ImgList { list: Vec<ImgListItem> },
    /// Fonts in memory, with their height; not sorted.
    FontList { list: Vec<FontItem> },
    /// Layouts in memory; not sorted.
    LayoutList { list: Vec<u8> },
    /// Layout parameters, without the layout id.
    LayoutGet { params: LayoutParameters },
    /// Gauges in memory; not sorted.
    GaugeList { list: Vec<u8> },
    /// Gauge parameters, without the gauge id.
    GaugeGet { pos: Point, radius: u16, inner: u16, start: u8, end: u8, clockwise: u8 },
    /// Page with layout parameters.
    PageGet { id: u8 },
    /// Page ids in memory; not sorted.
    PageList { list: Vec<u8> },
    /// Animations in memory; not sorted.
    AnimList { list: Vec<u8> },
    /// Number of pixels activated on the display.
    PixelCount { count: u32 },
    /// Number of elements stored in the configuration.
    CfgRead { version: u32, nb_img: u8, nb_layout: u8, nb_font: u8, nb_page: u8, nb_gauge: u8 },
    /// Configurations in memory.
    CfgList { list: Vec<CfgItem> },
    /// Total and free space, in bytes.
    CfgFreeSpace { total_size: u32, free_space: u32 },
    /// Number of configurations stored in memory.
    CfgGetNb { nb_config: u8 },
    /// Sent when processing command `cmd_id` failed.
    CmdError { cmd_id: u8, error: CmdError, sub_error: u8 },
    /// Device parameter value; its size depends on the parameter.
    RdDevInfo { parameters: Vec<u8> },
}

/// Mathematical model of a [`Response`]: the same variants, with text as
/// characters and byte vectors as sequences.
#[allow(inconsistent_fields)]
pub enum ResponseView {
    Battery { level: u8 },
    Version { fw_version: Seq<u8>, mfc_year: u8, mfc_week: u8, serial_number: Seq<u8> },
    Settings { x: i8, y: i8, luma: u8, als_enable: u8, gesture_enable: u8 },
    ImgList { list: Seq<ImgListItem> },
    FontList { list: Seq<FontItem> },
    LayoutList { list: Seq<u8> },
    LayoutGet { params: LayoutParametersView },
    GaugeList { list: Seq<u8> },
    GaugeGet { pos: Point, radius: u16, inner: u16, start: u8, end: u8, clockwise: u8 },
    PageGet { id: u8 },
    PageList { list: Seq<u8> },
    AnimList { list: Seq<u8> },
    PixelCount { count: u32 },
    CfgRead { version: u32, nb_img: u8, nb_layout: u8, nb_font: u8, nb_page: u8, nb_gauge: u8 },
    CfgList { list: Seq<CfgItemView> },
    CfgFreeSpace { total_size: u32, free_space: u32 },
    CfgGetNb { nb_config: u8 },
    CmdError { cmd_id: u8, error: CmdError, sub_error: u8 },
    RdDevInfo { parameters: Seq<u8> },
}

impl View for Response {
    type V = ResponseView;

    open spec fn view(&self) -> ResponseView {
        match self {
            Response::Battery { level } => ResponseView::Battery { level: *level },
            Response::Version {
                fw_version,
                mfc_year,
                mfc_week,
                serial_number,
            } => ResponseView::Version {
                fw_version: fw_version@,
                mfc_year: *mfc_year,
                mfc_week: *mfc_week,
                serial_number: serial_number@,
            },
            Response::Settings {
                x,
                y,
                luma,
                als_enable,
                gesture_enable,
            } => ResponseView::Settings {
                x: *x,
                y: *y,
                luma: *luma,
                als_enable: *als_enable,
                gesture_enable: *gesture_enable,
            },
            Response::ImgList { list } => ResponseView::ImgList { list: list@ },
            Response::FontList { list } => ResponseView::FontList { list: list@ },
            Response::LayoutList { list } => ResponseView::LayoutList { list: list@ },
            Response::LayoutGet { params } => ResponseView::LayoutGet { params: params@ },
            Response::GaugeList { list } => ResponseView::GaugeList { list: list@ },
            Response::GaugeGet {
                pos,
                radius,
                inner,
                start,
                end,
                clockwise,
            } => ResponseView::GaugeGet {
                pos: *pos,
                radius: *radius,
                inner: *inner,
                start: *start,
                end: *end,
                clockwise: *clockwise,
            },
            Response::PageGet { id } => ResponseView::PageGet { id: *id },
            Response::PageList { list } => ResponseView::PageList { list: list@ },
            Response::AnimList { list } => ResponseView::AnimList { list: list@ },
            Response::PixelCount { count } => ResponseView::PixelCount { count: *count },
            Response::CfgRead {
                version,
                nb_img,
                nb_layout,
                nb_font,
                nb_page,
                nb_gauge,
            } => ResponseView::CfgRead {
                version: *version,
                nb_img: *nb_img,
                nb_layout: *nb_layout,
                nb_font: *nb_font,
                nb_page: *nb_page,
                nb_gauge: *nb_gauge,
            },
            Response::CfgList { list } => ResponseView::CfgList { list: list@.map_values(|c: CfgItem| c@) },
            Response::CfgFreeSpace {
                total_size,
                free_space,
            } => ResponseView::CfgFreeSpace { total_size: *total_size, free_space: *free_space },
            Response::CfgGetNb { nb_config } => ResponseView::CfgGetNb { nb_config: *nb_config },
            Response::CmdError {
                cmd_id,
                error,
                sub_error,
            } => ResponseView::CmdError { cmd_id: *cmd_id, error: *error, sub_error: *sub_error },
            Response::RdDevInfo { parameters } => ResponseView::RdDevInfo { parameters: parameters@ },
        }
    }
}

impl ResponseView {
    /// The operation tag of the variant.
    pub open spec fn tag(self) -> u8 {
        match self {
            ResponseView::Battery { .. } => 0x05,
            ResponseView::Version { .. } => 0x06,
            ResponseView::Settings { .. } => 0x0A,
            ResponseView::ImgList { .. } => 0x47,
            ResponseView::FontList { .. } => 0x50,
            ResponseView::LayoutList { .. } => 0x64,
            ResponseView::LayoutGet { .. } => 0x67,
            ResponseView::GaugeList { .. } => 0x73,
            ResponseView::GaugeGet { .. } => 0x74,
            ResponseView::PageGet { .. } => 0x81,
            ResponseView::PageList { .. } => 0x85,
            ResponseView::AnimList { .. } => 0x99,
            ResponseView::PixelCount { .. } => 0xA5,
            ResponseView::CfgRead { .. } => 0xD2,
            ResponseView::CfgList { .. } => 0xD3,
            ResponseView::CfgFreeSpace { .. } => 0xD7,
            ResponseView::CfgGetNb { .. } => 0xD8,
            ResponseView::CmdError { .. } => 0xE2,
            ResponseView::RdDevInfo { .. } => 0xE3,
        }
    }

    /// Values that survive a trip through the wire: text that fits its field,
    /// and byte counts that agree with the bytes they count.
    pub open spec fn wf(self) -> bool {
        match self {
            ResponseView::Version {
                fw_version,
                serial_number,
                ..
            } => fw_version.len() == 4 && serial_number.len() == 3,
            ResponseView::LayoutGet { params, .. } => params.wf(),
            ResponseView::CfgList {
                list,
                ..
            } => forall|i: int| 0 <= i < list.len() ==> (#[trigger] list[i]).wf(),
            _ => true,
        }
    }

    /// The payload: the fields in declaration order, multi-byte integers
    /// big-endian, text in its fixed-capacity field.
    pub open spec fn payload(self) -> Seq<u8> {
        match self {
            ResponseView::Battery { level } => seq![level],
            ResponseView::Version {
                fw_version,
                mfc_year,
                mfc_week,
                serial_number,
            } => fw_version + seq![mfc_year] + seq![mfc_week] + serial_number,
            ResponseView::Settings {
                x,
                y,
                luma,
                als_enable,
                gesture_enable,
            } => seq![i8_byte(x)]
                + seq![i8_byte(y)]
                + seq![luma]
                + seq![als_enable]
                + seq![gesture_enable],
            ResponseView::ImgList { list } => img_list_bytes(list),
            ResponseView::FontList { list } => font_list_bytes(list),
            ResponseView::LayoutList { list } => list,
            ResponseView::LayoutGet { params } => params.bytes(),
            ResponseView::GaugeList { list } => list,
            ResponseView::GaugeGet {
                pos,
                radius,
                inner,
                start,
                end,
                clockwise,
            } => point_bytes(pos)
                + be16(radius)
                + be16(inner)
                + seq![start]
                + seq![end]
                + seq![clockwise],
            ResponseView::PageGet { id } => seq![id],
            ResponseView::PageList { list } => list,
            ResponseView::AnimList { list } => list,
            ResponseView::PixelCount { count } => be32(count),
            ResponseView::CfgRead {
                version,
                nb_img,
                nb_layout,
                nb_font,
                nb_page,
                nb_gauge,
            } => be32(version)
                + seq![nb_img]
                + seq![nb_layout]
                + seq![nb_font]
                + seq![nb_page]
                + seq![nb_gauge],
            ResponseView::CfgList { list } => cfg_list_bytes(list),
            ResponseView::CfgFreeSpace {
                total_size,
                free_space,
            } => be32(total_size) + be32(free_space),
            ResponseView::CfgGetNb { nb_config } => seq![nb_config],
            ResponseView::CmdError {
                cmd_id,
                error,
                sub_error,
            } => seq![cmd_id] + seq![error.spec_id()] + seq![sub_error],
            ResponseView::RdDevInfo { parameters } => parameters,
        }
    }

    /// The value that the catalog registers under `tag`, read from `d`.
    /// Bytes after the last field are ignored.
    pub open spec fn parse(tag: u8, d: Seq<u8>) -> Result<ResponseView, CodecError> {
        match tag {
            0x05 => {
                if d.len() < 1 {
                    Err(CodecError::Incomplete)
                } else {
                    let level = d[0];
                    Ok(ResponseView::Battery { level })
                }
            },
            0x06 => {
                if d.len() < 9 {
                    Err(CodecError::Incomplete)
                } else {
                    let fw_version = d.subrange(0 as int, (0 + 4) as int);
                    let mfc_year = d[4];
                    let mfc_week = d[5];
                    let serial_number = d.subrange(6 as int, (6 + 3) as int);
                    Ok(ResponseView::Version { fw_version, mfc_year, mfc_week, serial_number })
                }
            },
            0x0A => {
                if d.len() < 5 {
                    Err(CodecError::Incomplete)
                } else {
                    let x = i8_from(d[0]);
                    let y = i8_from(d[1]);
                    let luma = d[2];
                    let als_enable = d[3];
                    let gesture_enable = d[4];
                    Ok(ResponseView::Settings { x, y, luma, als_enable, gesture_enable })
                }
            },
            0x47 => {
                match img_list_at(d, 0) {
                    Err(e) => Err(e),
                    Ok(list) => {
                        Ok(ResponseView::ImgList { list })
                    },
                }
            },
            0x50 => {
                match font_list_at(d, 0) {
                    Err(e) => Err(e),
                    Ok(list) => {
                        Ok(ResponseView::FontList { list })
                    },
                }
            },
            0x64 => {
                let list = d.subrange(0, d.len() as int);
                Ok(ResponseView::LayoutList { list })
            },
            0x67 => {
                match LayoutParametersView::parse(d, 0) {
                    Err(e) => Err(e),
                    Ok((params, _)) => {
                        Ok(ResponseView::LayoutGet { params })
                    },
                }
            },
            0x73 => {
                let list = d.subrange(0, d.len() as int);
                Ok(ResponseView::GaugeList { list })
            },
            0x74 => {
                if d.len() < 11 {
                    Err(CodecError::Incomplete)
                } else {
                    let pos = point_at(d, 0);
                    let radius = u16_at(d, 4);
                    let inner = u16_at(d, 6);
                    let start = d[8];
                    let end = d[9];
                    let clockwise = d[10];
                    Ok(ResponseView::GaugeGet { pos, radius, inner, start, end, clockwise })
                }
            },
            0x81 => {
                if d.len() < 1 {
                    Err(CodecError::Incomplete)
                } else {
                    let id = d[0];
                    Ok(ResponseView::PageGet { id })
                }
            },
            0x85 => {
                let list = d.subrange(0, d.len() as int);
                Ok(ResponseView::PageList { list })
            },
            0x99 => {
                let list = d.subrange(0, d.len() as int);
                Ok(ResponseView::AnimList { list })
            },
            0xA5 => {
                if d.len() < 4 {
                    Err(CodecError::Incomplete)
                } else {
                    let count = u32_at(d, 0);
                    Ok(ResponseView::PixelCount { count })
                }
            },
            0xD2 => {
                if d.len() < 9 {
                    Err(CodecError::Incomplete)
                } else {
                    let version = u32_at(d, 0);
                    let nb_img = d[4];
                    let nb_layout = d[5];
                    let nb_font = d[6];
                    let nb_page = d[7];
                    let nb_gauge = d[8];
                    Ok(ResponseView::CfgRead {
                        version,
                        nb_img,
                        nb_layout,
                        nb_font,
                        nb_page,
                        nb_gauge,
                    })
                }
            },
            0xD3 => {
                match cfg_list_at(d, 0) {
                    Err(e) => Err(e),
                    Ok(list) => {
                        Ok(ResponseView::CfgList { list })
                    },
                }
            },
            0xD7 => {
                if d.len() < 8 {
                    Err(CodecError::Incomplete)
                } else {
                    let total_size = u32_at(d, 0);
                    let free_space = u32_at(d, 4);
                    Ok(ResponseView::CfgFreeSpace { total_size, free_space })
                }
            },
            0xD8 => {
                if d.len() < 1 {
                    Err(CodecError::Incomplete)
                } else {
                    let nb_config = d[0];
                    Ok(ResponseView::CfgGetNb { nb_config })
                }
            },
            0xE2 => {
                if d.len() < 3 {
                    Err(CodecError::Incomplete)
                } else {
                    let cmd_id = d[0];
                    match CmdError::spec_from_id(d[1]) {
                        None => Err(CodecError::InvalidValue),
                        Some(error) => {
                            let sub_error = d[2];
                            Ok(ResponseView::CmdError { cmd_id, error, sub_error })
                        },
                    }
                }
            },
            0xE3 => {
                let parameters = d.subrange(0, d.len() as int);
                Ok(ResponseView::RdDevInfo { parameters })
            },
            _ => Err(CodecError::UnknownId),
        }
    }
}

proof fn lemma_round_trip_battery(v: ResponseView)
    requires
        v is Battery,
        v.wf(),
    ensures
        ResponseView::parse(v.tag(), v.payload()) == Ok::<ResponseView, CodecError>(v),
{
}

proof fn lemma_round_trip_version(v: ResponseView)
    requires
        v is Version,
        v.wf(),
    ensures
        ResponseView::parse(v.tag(), v.payload()) == Ok::<ResponseView, CodecError>(v),
{
    let d = v.payload();
    match v {
        ResponseView::Version { fw_version, mfc_year, mfc_week, serial_number } => {
            assert(d.subrange(0, 4) =~= fw_version);
            assert(d.subrange(6, 9) =~= serial_number);
        },
        _ => {},
    }
}

proof fn lemma_round_trip_settings(v: ResponseView)
    requires
        v is Settings,
        v.wf(),
    ensures
        ResponseView::parse(v.tag(), v.payload()) == Ok::<ResponseView, CodecError>(v),
{
}

proof fn lemma_round_trip_img_list(v: ResponseView)
    requires
        v is ImgList,
        v.wf(),
    ensures
        ResponseView::parse(v.tag(), v.payload()) == Ok::<ResponseView, CodecError>(v),
{
    let d = v.payload();
    match v {
        ResponseView::ImgList { list } => {
            assert(d =~= (Seq::<u8>::empty()) + img_list_bytes(list));
            lemma_img_list_round_trip(Seq::<u8>::empty(), list);
        },
        _ => {},
    }
}

proof fn lemma_round_trip_font_list(v: ResponseView)
    requires
        v is FontList,
        v.wf(),
    ensures
        ResponseView::parse(v.tag(), v.payload()) == Ok::<ResponseView, CodecError>(v),
{
    let d = v.payload();
    match v {
        ResponseView::FontList { list } => {
            assert(d =~= (Seq::<u8>::empty()) + font_list_bytes(list));
            lemma_font_list_round_trip(Seq::<u8>::empty(), list);
        },
        _ => {},
    }
}

proof fn lemma_round_trip_layout_list(v: ResponseView)
    requires
        v is LayoutList,
        v.wf(),
    ensures
        ResponseView::parse(v.tag(), v.payload()) == Ok::<ResponseView, CodecError>(v),
{
    let d = v.payload();
    match v {
        ResponseView::LayoutList { list } => {
            assert(d.subrange(0, d.len() as int) =~= list);
        },
        _ => {},
    }
}

proof fn lemma_round_trip_layout_get(v: ResponseView)
    requires
        v is LayoutGet,
        v.wf(),
    ensures
        ResponseView::parse(v.tag(), v.payload()) == Ok::<ResponseView, CodecError>(v),
{
    let d = v.payload();
    match v {
        ResponseView::LayoutGet { params } => {
            assert(d =~= (Seq::<u8>::empty()) + params.bytes() + (Seq::<u8>::empty()));
            LayoutParametersView::lemma_round_trip(Seq::<u8>::empty(), params, Seq::<u8>::empty());
        },
        _ => {},
    }
}

proof fn lemma_round_trip_gauge_list(v: ResponseView)
    requires
        v is GaugeList,
        v.wf(),
    ensures
        ResponseView::parse(v.tag(), v.payload()) == Ok::<ResponseView, CodecError>(v),
{
    let d = v.payload();
    match v {
        ResponseView::GaugeList { list } => {
            assert(d.subrange(0, d.len() as int) =~= list);
        },
        _ => {},
    }
}

proof fn lemma_round_trip_gauge_get(v: ResponseView)
    requires
        v is GaugeGet,
        v.wf(),
    ensures
        ResponseView::parse(v.tag(), v.payload()) == Ok::<ResponseView, CodecError>(v),
{
}

proof fn lemma_round_trip_page_get(v: ResponseView)
    requires
        v is PageGet,
        v.wf(),
    ensures
        ResponseView::parse(v.tag(), v.payload()) == Ok::<ResponseView, CodecError>(v),
{
}

proof fn lemma_round_trip_page_list(v: ResponseView)
    requires
        v is PageList,
        v.wf(),
    ensures
        ResponseView::parse(v.tag(), v.payload()) == Ok::<ResponseView, CodecError>(v),
{
    let d = v.payload();
    match v {
        ResponseView::PageList { list } => {
            assert(d.subrange(0, d.len() as int) =~= list);
        },
        _ => {},
    }
}

proof fn lemma_round_trip_anim_list(v: ResponseView)
    requires
        v is AnimList,
        v.wf(),
    ensures
        ResponseView::parse(v.tag(), v.payload()) == Ok::<ResponseView, CodecError>(v),
{
    let d = v.payload();
    match v {
        ResponseView::AnimList { list } => {
            assert(d.subrange(0, d.len() as int) =~= list);
        },
        _ => {},
    }
}

proof fn lemma_round_trip_pixel_count(v: ResponseView)
    requires
        v is PixelCount,
        v.wf(),
    ensures
        ResponseView::parse(v.tag(), v.payload()) == Ok::<ResponseView, CodecError>(v),
{
    let d = v.payload();
    match v {
        ResponseView::PixelCount { count } => {
            lemma_be32_value(count);
        },
        _ => {},
    }
}

proof fn lemma_round_trip_cfg_read(v: ResponseView)
    requires
        v is CfgRead,
        v.wf(),
    ensures
        ResponseView::parse(v.tag(), v.payload()) == Ok::<ResponseView, CodecError>(v),
{
    let d = v.payload();
    match v {
        ResponseView::CfgRead { version, nb_img, nb_layout, nb_font, nb_page, nb_gauge } => {
            lemma_be32_value(version);
        },
        _ => {},
    }
}

proof fn lemma_round_trip_cfg_list(v: ResponseView)
    requires
        v is CfgList,
        v.wf(),
    ensures
        ResponseView::parse(v.tag(), v.payload()) == Ok::<ResponseView, CodecError>(v),
{
    let d = v.payload();
    match v {
        ResponseView::CfgList { list } => {
            assert(d =~= (Seq::<u8>::empty()) + cfg_list_bytes(list));
            lemma_cfg_list_round_trip(Seq::<u8>::empty(), list);
        },
        _ => {},
    }
}

proof fn lemma_round_trip_cfg_free_space(v: ResponseView)
    requires
        v is CfgFreeSpace,
        v.wf(),
    ensures
        ResponseView::parse(v.tag(), v.payload()) == Ok::<ResponseView, CodecError>(v),
{
    let d = v.payload();
    match v {
        ResponseView::CfgFreeSpace { total_size, free_space } => {
            lemma_be32_value(total_size);
            lemma_be32_value(free_space);
        },
        _ => {},
    }
}

proof fn lemma_round_trip_cfg_get_nb(v: ResponseView)
    requires
        v is CfgGetNb,
        v.wf(),
    ensures
        ResponseView::parse(v.tag(), v.payload()) == Ok::<ResponseView, CodecError>(v),
{
}

proof fn lemma_round_trip_cmd_error(v: ResponseView)
    requires
        v is CmdError,
        v.wf(),
    ensures
        ResponseView::parse(v.tag(), v.payload()) == Ok::<ResponseView, CodecError>(v),
{
    let d = v.payload();
    match v {
        ResponseView::CmdError { cmd_id, error, sub_error } => {
            CmdError::lemma_id_round_trip(error);
        },
        _ => {},
    }
}

proof fn lemma_round_trip_rd_dev_info(v: ResponseView)
    requires
        v is RdDevInfo,
        v.wf(),
    ensures
        ResponseView::parse(v.tag(), v.payload()) == Ok::<ResponseView, CodecError>(v),
{
    let d = v.payload();
    match v {
        ResponseView::RdDevInfo { parameters } => {
            assert(d.subrange(0, d.len() as int) =~= parameters);
        },
        _ => {},
    }
}

/// Every well-formed value is decoded back from its payload under its own tag.
pub proof fn lemma_response_round_trip(v: ResponseView)
    requires
        v.wf(),
    ensures
        ResponseView::parse(v.tag(), v.payload()) == Ok::<ResponseView, CodecError>(v),
{
    match v {
        ResponseView::Battery { .. } => lemma_round_trip_battery(v),
        ResponseView::Version { .. } => lemma_round_trip_version(v),
        ResponseView::Settings { .. } => lemma_round_trip_settings(v),
        ResponseView::ImgList { .. } => lemma_round_trip_img_list(v),
        ResponseView::FontList { .. } => lemma_round_trip_font_list(v),
        ResponseView::LayoutList { .. } => lemma_round_trip_layout_list(v),
        ResponseView::LayoutGet { .. } => lemma_round_trip_layout_get(v),
        ResponseView::GaugeList { .. } => lemma_round_trip_gauge_list(v),
        ResponseView::GaugeGet { .. } => lemma_round_trip_gauge_get(v),
        ResponseView::PageGet { .. } => lemma_round_trip_page_get(v),
        ResponseView::PageList { .. } => lemma_round_trip_page_list(v),
        ResponseView::AnimList { .. } => lemma_round_trip_anim_list(v),
        ResponseView::PixelCount { .. } => lemma_round_trip_pixel_count(v),
        ResponseView::CfgRead { .. } => lemma_round_trip_cfg_read(v),
        ResponseView::CfgList { .. } => lemma_round_trip_cfg_list(v),
        ResponseView::CfgFreeSpace { .. } => lemma_round_trip_cfg_free_space(v),
        ResponseView::CfgGetNb { .. } => lemma_round_trip_cfg_get_nb(v),
        ResponseView::CmdError { .. } => lemma_round_trip_cmd_error(v),
        ResponseView::RdDevInfo { .. } => lemma_round_trip_rd_dev_info(v),
    }
}

/// The catalog registers each variant under the tag that its values carry:
/// whatever decodes under `tag` has that tag.
#[verifier::spinoff_prover]
#[verifier::rlimit(100)]
pub proof fn lemma_response_tag_fidelity(tag: u8, d: Seq<u8>)
    ensures
        ResponseView::parse(tag, d) matches Ok(v) ==> v.tag() == tag,
{
}

impl Response {
    /// The operation tag of the variant.
    pub fn tag(&self) -> (r: u8)
        ensures
            r == self@.tag(),
    {
        match self {
            Response::Battery { .. } => 0x05,
            Response::Version { .. } => 0x06,
            Response::Settings { .. } => 0x0A,
            Response::ImgList { .. } => 0x47,
            Response::FontList { .. } => 0x50,
            Response::LayoutList { .. } => 0x64,
            Response::LayoutGet { .. } => 0x67,
            Response::GaugeList { .. } => 0x73,
            Response::GaugeGet { .. } => 0x74,
            Response::PageGet { .. } => 0x81,
            Response::PageList { .. } => 0x85,
            Response::AnimList { .. } => 0x99,
            Response::PixelCount { .. } => 0xA5,
            Response::CfgRead { .. } => 0xD2,
            Response::CfgList { .. } => 0xD3,
            Response::CfgFreeSpace { .. } => 0xD7,
            Response::CfgGetNb { .. } => 0xD8,
            Response::CmdError { .. } => 0xE2,
            Response::RdDevInfo { .. } => 0xE3,
        }
    }

    /// A copy with the same contents.
    pub fn duplicate(&self) -> (r: Response)
        ensures
            r@ == self@,
    {
        match self {
            Response::Battery { level } => Response::Battery { level: *level },
            Response::Version {
                fw_version,
                mfc_year,
                mfc_week,
                serial_number,
            } => Response::Version {
                fw_version: *fw_version,
                mfc_year: *mfc_year,
                mfc_week: *mfc_week,
                serial_number: *serial_number,
            },
            Response::Settings {
                x,
                y,
                luma,
                als_enable,
                gesture_enable,
            } => Response::Settings {
                x: *x,
                y: *y,
                luma: *luma,
                als_enable: *als_enable,
                gesture_enable: *gesture_enable,
            },
            Response::ImgList { list } => Response::ImgList { list: vstd::slice::slice_to_vec(list.as_slice()) },
            Response::FontList { list } => Response::FontList { list: vstd::slice::slice_to_vec(list.as_slice()) },
            Response::LayoutList { list } => Response::LayoutList { list: vstd::slice::slice_to_vec(list.as_slice()) },
            Response::LayoutGet { params } => Response::LayoutGet { params: params.duplicate() },
            Response::GaugeList { list } => Response::GaugeList { list: vstd::slice::slice_to_vec(list.as_slice()) },
            Response::GaugeGet {
                pos,
                radius,
                inner,
                start,
                end,
                clockwise,
            } => Response::GaugeGet {
                pos: *pos,
                radius: *radius,
                inner: *inner,
                start: *start,
                end: *end,
                clockwise: *clockwise,
            },
            Response::PageGet { id } => Response::PageGet { id: *id },
            Response::PageList { list } => Response::PageList { list: vstd::slice::slice_to_vec(list.as_slice()) },
            Response::AnimList { list } => Response::AnimList { list: vstd::slice::slice_to_vec(list.as_slice()) },
            Response::PixelCount { count } => Response::PixelCount { count: *count },
            Response::CfgRead {
                version,
                nb_img,
                nb_layout,
                nb_font,
                nb_page,
                nb_gauge,
            } => Response::CfgRead {
                version: *version,
                nb_img: *nb_img,
                nb_layout: *nb_layout,
                nb_font: *nb_font,
                nb_page: *nb_page,
                nb_gauge: *nb_gauge,
            },
            Response::CfgList { list } => Response::CfgList { list: duplicate_cfg_list(list) },
            Response::CfgFreeSpace {
                total_size,
                free_space,
            } => Response::CfgFreeSpace { total_size: *total_size, free_space: *free_space },
            Response::CfgGetNb { nb_config } => Response::CfgGetNb { nb_config: *nb_config },
            Response::CmdError {
                cmd_id,
                error,
                sub_error,
            } => Response::CmdError { cmd_id: *cmd_id, error: *error, sub_error: *sub_error },
            Response::RdDevInfo { parameters } => Response::RdDevInfo { parameters: vstd::slice::slice_to_vec(parameters.as_slice()) },
        }
    }

    /// The payload of the value; the tag travels apart from it.
    pub fn encode(&self) -> (r: Vec<u8>)
        ensures
            r@ == self@.payload(),
    {
        let mut out: Vec<u8> = Vec::new();
        match self {
            Response::Battery { level } => {
                put_u8(&mut out, *level);
            },
            Response::Version { fw_version, mfc_year, mfc_week, serial_number } => {
                put_bytes(&mut out, fw_version.as_slice());
                put_u8(&mut out, *mfc_year);
                put_u8(&mut out, *mfc_week);
                put_bytes(&mut out, serial_number.as_slice());
            },
            Response::Settings { x, y, luma, als_enable, gesture_enable } => {
                put_i8(&mut out, *x);
                put_i8(&mut out, *y);
                put_u8(&mut out, *luma);
                put_u8(&mut out, *als_enable);
                put_u8(&mut out, *gesture_enable);
            },
            Response::ImgList { list } => {
                write_img_list(&mut out, list);
            },
            Response::FontList { list } => {
                write_font_list(&mut out, list);
            },
            Response::LayoutList { list } => {
                put_bytes(&mut out, list.as_slice());
            },
            Response::LayoutGet { params } => {
                params.write(&mut out);
            },
            Response::GaugeList { list } => {
                put_bytes(&mut out, list.as_slice());
            },
            Response::GaugeGet { pos, radius, inner, start, end, clockwise } => {
                put_point(&mut out, *pos);
                put_u16(&mut out, *radius);
                put_u16(&mut out, *inner);
                put_u8(&mut out, *start);
                put_u8(&mut out, *end);
                put_u8(&mut out, *clockwise);
            },
            Response::PageGet { id } => {
                put_u8(&mut out, *id);
            },
            Response::PageList { list } => {
                put_bytes(&mut out, list.as_slice());
            },
            Response::AnimList { list } => {
                put_bytes(&mut out, list.as_slice());
            },
            Response::PixelCount { count } => {
                put_u32(&mut out, *count);
            },
            Response::CfgRead { version, nb_img, nb_layout, nb_font, nb_page, nb_gauge } => {
                put_u32(&mut out, *version);
                put_u8(&mut out, *nb_img);
                put_u8(&mut out, *nb_layout);
                put_u8(&mut out, *nb_font);
                put_u8(&mut out, *nb_page);
                put_u8(&mut out, *nb_gauge);
            },
            Response::CfgList { list } => {
                write_cfg_list(&mut out, list);
            },
            Response::CfgFreeSpace { total_size, free_space } => {
                put_u32(&mut out, *total_size);
                put_u32(&mut out, *free_space);
            },
            Response::CfgGetNb { nb_config } => {
                put_u8(&mut out, *nb_config);
            },
            Response::CmdError { cmd_id, error, sub_error } => {
                put_u8(&mut out, *cmd_id);
                put_u8(&mut out, error.id());
                put_u8(&mut out, *sub_error);
            },
            Response::RdDevInfo { parameters } => {
                put_bytes(&mut out, parameters.as_slice());
            },
        }
        assert(out@ =~= self@.payload());
        out
    }

    /// Decodes the payload `d` of a value with operation tag `tag`.
    #[verifier::rlimit(100)]
    pub fn decode(tag: u8, d: &[u8]) -> (r: Result<Response, CodecError>)
        ensures
            match r {
                Ok(v) => ResponseView::parse(tag, d@) == Ok::<ResponseView, CodecError>(v@),
                Err(e) => ResponseView::parse(tag, d@) == Err::<ResponseView, CodecError>(e),
            },
    {
        match tag {
            0x05 => {
                if d.len() < 1 {
                    return Err(CodecError::Incomplete);
                }
                let level = d[0];
                Ok(Response::Battery { level })
            },
            0x06 => {
                if d.len() < 9 {
                    return Err(CodecError::Incomplete);
                }
                let fw_version = get_array4(d, 0);
                let mfc_year = d[4];
                let mfc_week = d[5];
                let serial_number = get_array3(d, 6);
                Ok(Response::Version { fw_version, mfc_year, mfc_week, serial_number })
            },
            0x0A => {
                if d.len() < 5 {
                    return Err(CodecError::Incomplete);
                }
                let x = get_i8(d[0]);
                let y = get_i8(d[1]);
                let luma = d[2];
                let als_enable = d[3];
                let gesture_enable = d[4];
                Ok(Response::Settings { x, y, luma, als_enable, gesture_enable })
            },
            0x47 => {
                let list = read_img_list(d, 0)?;
                Ok(Response::ImgList { list })
            },
            0x50 => {
                let list = read_font_list(d, 0)?;
                Ok(Response::FontList { list })
            },
            0x64 => {
                let list = get_bytes(d, 0, d.len());
                Ok(Response::LayoutList { list })
            },
            0x67 => {
                let (params, _) = LayoutParameters::read(d, 0)?;
                Ok(Response::LayoutGet { params })
            },
            0x73 => {
                let list = get_bytes(d, 0, d.len());
                Ok(Response::GaugeList { list })
            },
            0x74 => {
                if d.len() < 11 {
                    return Err(CodecError::Incomplete);
                }
                let pos = get_point(d, 0);
                let radius = get_u16(d, 4);
                let inner = get_u16(d, 6);
                let start = d[8];
                let end = d[9];
                let clockwise = d[10];
                Ok(Response::GaugeGet { pos, radius, inner, start, end, clockwise })
            },
            0x81 => {
                if d.len() < 1 {
                    return Err(CodecError::Incomplete);
                }
                let id = d[0];
                Ok(Response::PageGet { id })
            },
            0x85 => {
                let list = get_bytes(d, 0, d.len());
                Ok(Response::PageList { list })
            },
            0x99 => {
                let list = get_bytes(d, 0, d.len());
                Ok(Response::AnimList { list })
            },
            0xA5 => {
                if d.len() < 4 {
                    return Err(CodecError::Incomplete);
                }
                let count = get_u32(d, 0);
                Ok(Response::PixelCount { count })
            },
            0xD2 => {
                if d.len() < 9 {
                    return Err(CodecError::Incomplete);
                }
                let version = get_u32(d, 0);
                let nb_img = d[4];
                let nb_layout = d[5];
                let nb_font = d[6];
                let nb_page = d[7];
                let nb_gauge = d[8];
                Ok(Response::CfgRead { version, nb_img, nb_layout, nb_font, nb_page, nb_gauge })
            },
            0xD3 => {
                let list = read_cfg_list(d, 0)?;
                Ok(Response::CfgList { list })
            },
            0xD7 => {
                if d.len() < 8 {
                    return Err(CodecError::Incomplete);
                }
                let total_size = get_u32(d, 0);
                let free_space = get_u32(d, 4);
                Ok(Response::CfgFreeSpace { total_size, free_space })
            },
            0xD8 => {
                if d.len() < 1 {
                    return Err(CodecError::Incomplete);
                }
                let nb_config = d[0];
                Ok(Response::CfgGetNb { nb_config })
            },
            0xE2 => {
                if d.len() < 3 {
                    return Err(CodecError::Incomplete);
                }
                let cmd_id = d[0];
                let error = match CmdError::from_id(d[1]) {
                    Some(v) => v,
                    None => return Err(CodecError::InvalidValue),
                };
                let sub_error = d[2];
                Ok(Response::CmdError { cmd_id, error, sub_error })
            },
            0xE3 => {
                let parameters = get_bytes(d, 0, d.len());
                Ok(Response::RdDevInfo { parameters })
            },
            _ => Err(CodecError::UnknownId),
        }
    }
}
} // verus!
