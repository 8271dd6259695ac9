use activelook::commands::Command;
use activelook::fields::{
    CfgItem, DemoID, ImgFormat, LayoutParameters, LayoutPosition, Point, StreamImgFormat, NAME_LEN,
    TEXT_LEN,
};
use activelook::responses::Response;
use activelook::traits::{Deserializable, Serializable};
use activelook::wire::CodecError;

#[test]
fn commands_test_id() {
    assert_eq!(0, Command::PowerDisplay { en: true as u8 }.id().unwrap());
    assert_eq!(1, Command::Clear.id().unwrap());
    assert_eq!(0x0A, Command::Settings.id().unwrap());
}

#[test]
fn test_simple_serialization() {
    // Serialization
    let expected: &[u8] = &[0x00, 0x01];
    let cmd = Command::PowerDisplay { en: true as u8 };
    let (id, payload) = cmd.as_bytes().unwrap();
    let mut bytes = vec![id];
    bytes.extend(payload);
    assert_eq!(expected, bytes);

    let data = cmd.data_bytes().unwrap();
    assert_eq!(expected[1..], data);

    // Deserialization
    let other = Command::from_data(0x00, Some(&[0x01])).unwrap();
    assert_eq!(cmd, other);
}

#[test]
fn test_deserialization_no_data() {
    let bytes = [0x01];
    let expected = Command::Clear;

    let cmd = Command::from_data(bytes[0], None).unwrap();
    assert_eq!(expected, cmd);
}

#[test]
fn test_vec_serialization() {
    let bytes: &[u8] = &[1, 2, 3];
    let expected = Response::RdDevInfo { parameters: vec![1, 2, 3] };
    // Serialization
    let data = expected.data_bytes().unwrap();
    assert_eq!(bytes, data);

    // Deserialization
    let res = Response::from_data(0xE3, Some(bytes)).unwrap();
    assert_eq!(expected, res);
}

#[test]
fn test_fixed_string_short() {
    let bytes: &[u8] = &[
        42, // id
        0x30, 0x31, 0x32, 0x00, // text
    ];
    let expected = Command::LayoutDisplay { id: 42, text: String::from("012") };
    let data = expected.data_bytes().unwrap();
    assert_eq!(bytes, data);

    let cmd = Command::from_data(0x62, Some(bytes)).unwrap();
    assert_eq!(expected, cmd);

    match cmd {
        Command::LayoutDisplay { id, text } => {
            assert_eq!(id, 42);
            assert_eq!(text, "012")
        },
        _ => assert!(false),
    }
}

#[test]
fn test_fixed_string_exact() {
    let bytes: &[u8] = &[0x30; TEXT_LEN + 1];
    let expected = Command::LayoutDisplay {
        id: 0x30,
        text: String::from_utf8(vec![0x30; TEXT_LEN]).unwrap(),
    };
    let data = expected.data_bytes().unwrap();
    assert_eq!(bytes, data);

    let cmd = Command::from_data(0x62, Some(bytes)).unwrap();
    assert_eq!(expected, cmd);
}

#[test]
fn test_endianness() {
    let point = Point { x: 0x1234, y: 0x5678 };
    let cmd = Command::Point { coord: point };
    let expected: &[u8] = &[0x12, 0x34, 0x56, 0x78];
    let data = cmd.data_bytes().unwrap();
    assert_eq!(expected, data);
}

#[test]
fn test_img_format_bytes() {
    let a = ImgFormat::Img1bpp;
    assert_eq!(a.nb_of_bytes(7), 1);
    assert_eq!(a.nb_of_bytes(8), 1);
    assert_eq!(a.nb_of_bytes(9), 2);
}

#[test]
fn test_image_split_big_chunk_size() {
    let cmd = Command::ImgSave {
        id: 0,
        size: 10, // 10 data bytes
        width: 8,
        format: ImgFormat::Img1bpp,
        data: vec![0; 10],
    };

    let (id, split) = cmd.as_bytes_chunks(255).unwrap();
    assert_eq!(0x41, id);
    assert_eq!(2, split.len());
    assert_eq!(8, split[0].len());
    assert_eq!(10, split[1].len());
}

#[test]
fn test_image_split_small_chunk_size() {
    let cmd = Command::ImgSave {
        id: 0,
        size: 10, // 10 data bytes
        width: 7,
        format: ImgFormat::Img1bpp,
        data: vec![0; 10],
    };

    let (_id, split) = cmd.as_bytes_chunks(3).unwrap();
    assert_eq!(5, split.len());
    assert_eq!(8, split[0].len());
    assert_eq!(3, split[1].len());
    assert_eq!(3, split[2].len());
    assert_eq!(3, split[3].len());
    assert_eq!(1, split[4].len());
}

#[test]
fn commands_binrw_test_id() {
    assert_eq!(0, Command::PowerDisplay { en: true as u8 }.tag());
    assert_eq!(1, Command::Clear.tag());
    assert_eq!(0x0A, Command::Settings.tag());
}

#[test]
fn test_serialization() {
    let expected: &[u8] = &[0x00, 0x01];
    let cmd = Command::PowerDisplay { en: true as u8 };
    let mut writer = vec![cmd.tag()];
    writer.extend(cmd.encode());
    assert_eq!(expected, &writer[..]);
}

// ---------------------------------------------------------------------------
// Round trips through the payload codec
// ---------------------------------------------------------------------------

fn command_round_trip(cmd: Command) {
    let (id, data) = cmd.as_bytes().unwrap();
    let back = Command::from_data(id, Some(&data)).unwrap();
    assert_eq!(cmd, back);
}

fn response_round_trip(resp: Response) {
    let (id, data) = resp.as_bytes().unwrap();
    let back = Response::from_data(id, Some(&data)).unwrap();
    assert_eq!(resp, back);
}

fn params() -> LayoutParameters {
    LayoutParameters {
        size: 3,
        pos: LayoutPosition { x: 300, y: 20 },
        width: 200,
        height: 40,
        fore_color: 15,
        back_color: 0,
        font: 2,
        text_valid: 1,
        text_pos: LayoutPosition { x: 1, y: 2 },
        text_rotation: 4,
        text_opacity: 1,
        commands: vec![7, 8, 9],
    }
}

#[test]
fn round_trip_of_command_variants() {
    command_round_trip(Command::Clear);
    command_round_trip(Command::Demo { demo_id: DemoID::Images });
    command_round_trip(Command::Sensor { en: true });
    command_round_trip(Command::Line { from: Point { x: -1, y: -32768 }, to: Point { x: 32767, y: 0 } });
    command_round_trip(Command::Arc {
        center: Point { x: 10, y: -10 },
        r: 5,
        angle_start: -90,
        angle_end: 270,
        thickness: 2,
    });
    command_round_trip(Command::Txt {
        pos: Point { x: 5, y: 6 },
        rotation: 4,
        font_size: 1,
        color: 15,
        string: String::from("hello"),
    });
    command_round_trip(Command::Polyline { thickness: 1, _reserved: 0, points: vec![] });
    command_round_trip(Command::Polyline {
        thickness: 1,
        _reserved: 0,
        points: vec![Point { x: 1, y: 2 }, Point { x: -3, y: 4 }],
    });
    command_round_trip(Command::ImgSave {
        id: 3,
        size: 4,
        width: 8,
        format: ImgFormat::Img8bpp,
        data: vec![1, 2, 3, 4],
    });
    command_round_trip(Command::ImgStream {
        size: 2,
        width: 16,
        coord: Point { x: 0, y: 0 },
        format: StreamImgFormat::Img1bpp,
        data: vec![0xF0, 0x0F],
    });
    command_round_trip(Command::LayoutSave { id: 9, params: params() });
    command_round_trip(Command::LayoutDisplayExtended {
        id: 1,
        pos: LayoutPosition { x: 2, y: 3 },
        text: String::from("abc"),
        extra_cmd: vec![],
    });
    command_round_trip(Command::LayoutClearAndDisplayExtended {
        id: 1,
        pos: LayoutPosition { x: 2, y: 3 },
        text: String::from("abc"),
        extra_cmd: vec![1, 2, 3],
    });
    command_round_trip(Command::AnimSave {
        id: 1,
        total_size: 0x01020304,
        img_size: 0xFFFF_FFFF,
        width: 0xABCD,
        fmt: 2,
        img_compressed_size: 0,
    });
    command_round_trip(Command::CfgWrite {
        name: String::from("config"),
        version: 7,
        password: 0xDEADBEEF,
    });
    command_round_trip(Command::CfgRename {
        old_name: String::from("a"),
        new_name: String::from("b"),
        password: 1,
    });
    command_round_trip(Command::Shutdown { key: [0x6f, 0x7f, 0xc4, 0xee] });
    command_round_trip(Command::Info { id: activelook::fields::DeviceInfo::Certification6 });
}

#[test]
fn round_trip_of_text_at_and_under_capacity() {
    // exactly at capacity: no NUL on the wire
    let full = "N".repeat(NAME_LEN);
    let cmd = Command::CfgSet { name: full.clone() };
    assert_eq!(NAME_LEN, cmd.data_bytes().unwrap().len());
    command_round_trip(cmd);
    // one byte under capacity: one NUL after the text
    let short = "N".repeat(NAME_LEN - 1);
    let cmd = Command::CfgSet { name: short };
    assert_eq!(NAME_LEN, cmd.data_bytes().unwrap().len());
    command_round_trip(cmd);
}

#[test]
fn text_longer_than_capacity_is_truncated() {
    let cmd = Command::CfgSet { name: String::from("0123456789ABCDEF") };
    let data = cmd.data_bytes().unwrap();
    assert_eq!(b"0123456789AB".to_vec(), data);
    let back = Command::from_data(0xD2, Some(&data)).unwrap();
    assert_eq!(Command::CfgSet { name: String::from("0123456789AB") }, back);
}

#[test]
fn round_trip_of_response_variants() {
    response_round_trip(Response::Battery { level: 0x64 });
    response_round_trip(Response::Version {
        fw_version: [3, 5, 0, 0x62],
        mfc_year: 21,
        mfc_week: 12,
        serial_number: [0, 0, 2],
    });
    response_round_trip(Response::Settings { x: -5, y: 127, luma: 15, als_enable: 1, gesture_enable: 0 });
    response_round_trip(Response::ImgList {
        list: vec![
            activelook::fields::ImgListItem { id: 1, height: 20, width: 30 },
            activelook::fields::ImgListItem { id: 2, height: 0x0102, width: 0xFFFF },
        ],
    });
    response_round_trip(Response::FontList {
        list: vec![activelook::fields::FontItem { id: 1, height: 24 }],
    });
    response_round_trip(Response::LayoutGet { params: params() });
    response_round_trip(Response::CfgList {
        list: vec![
            CfgItem {
                name: String::from("first"),
                size: 100,
                version: 2,
                usage_counter: 3,
                install_counter: 4,
                is_system: 0,
            },
            CfgItem {
                name: "x".repeat(NAME_LEN),
                size: 1,
                version: 1,
                usage_counter: 1,
                install_counter: 1,
                is_system: 1,
            },
        ],
    });
    response_round_trip(Response::CfgList { list: vec![] });
    response_round_trip(Response::CmdError {
        cmd_id: 0x41,
        error: activelook::fields::CmdError::MemoryAccess,
        sub_error: 9,
    });
    response_round_trip(Response::RdDevInfo { parameters: vec![] });
}

#[test]
fn tags_follow_the_catalog() {
    assert_eq!(0x37, Command::Txt { pos: Point { x: 0, y: 0 }, rotation: 0, font_size: 0, color: 0, string: String::new() }.id().unwrap());
    assert_eq!(0xE3, Command::Info { id: activelook::fields::DeviceInfo::Model }.as_bytes().unwrap().0);
    assert_eq!(0xD2, Response::CfgRead { version: 0, nb_img: 0, nb_layout: 0, nb_font: 0, nb_page: 0, nb_gauge: 0 }.id().unwrap());
    assert_eq!(0xD2, Command::CfgSet { name: String::new() }.id().unwrap());
    assert_eq!(0xE2, Response::CmdError { cmd_id: 0, error: activelook::fields::CmdError::Generic, sub_error: 0 }.as_bytes().unwrap().0);
}

#[test]
fn name_field_takes_text_and_one_nul() {
    let cmd = Command::CfgWrite { name: String::from("ABC"), version: 0x01020304, password: 0x05060708 };
    let data = cmd.data_bytes().unwrap();
    assert_eq!(vec![0x41, 0x42, 0x43, 0x00, 1, 2, 3, 4, 5, 6, 7, 8], data);
    let cmd = Command::CfgRead { name: String::from("ABC") };
    assert_eq!(vec![0x41, 0x42, 0x43, 0x00], cmd.data_bytes().unwrap());
}

#[test]
fn decode_errors() {
    assert_eq!(Err(CodecError::UnknownId), Command::from_data(0x04, None));
    assert_eq!(Err(CodecError::UnknownId), Response::from_data(0x00, Some(&[1])));
    assert_eq!(Err(CodecError::Incomplete), Command::from_data(0x02, None));
    assert_eq!(Err(CodecError::Incomplete), Command::from_data(0x32, Some(&[0, 1, 2, 3, 4, 5, 6])));
    assert_eq!(Err(CodecError::InvalidValue), Command::from_data(0x03, Some(&[9])));
    assert_eq!(Err(CodecError::InvalidValue), Command::from_data(0x20, Some(&[2])));
    // a text field that runs off the payload before its NUL
    assert_eq!(Err(CodecError::Incomplete), Command::from_data(0x62, Some(&[1, 0x41, 0x42])));
    // pixel data shorter than the declared size
    assert_eq!(
        Err(CodecError::Incomplete),
        Command::from_data(0x41, Some(&[0, 0, 0, 0, 5, 0, 8, 1, 1, 2]))
    );
    // a point list that ends in the middle of a point
    assert_eq!(Err(CodecError::Incomplete), Command::from_data(0x38, Some(&[1, 0, 0, 1, 2, 3])));
}

#[test]
fn bytes_after_the_last_field_are_ignored() {
    assert_eq!(Ok(Command::Clear), Command::from_data(0x01, Some(&[1, 2, 3])));
    assert_eq!(Ok(Command::Grey { lvl: 7 }), Command::from_data(0x02, Some(&[7, 8])));
}

#[test]
fn text_bytes_are_read_as_characters() {
    let cmd = Command::from_data(0x62, Some(&[1, 0xE9, 0x41, 0x00])).unwrap();
    assert_eq!(Command::LayoutDisplay { id: 1, text: String::from("\u{e9}A") }, cmd);
}
