use activelook::commands::Command;
use activelook::fields::{ImgFormat, StreamImgFormat};
use activelook::font::DefaultFont;
use activelook::protocol::{
    encode_frame, CmdFormat, CommandPacket, FlowErrorCtrl, Packet, ProtocolError, RawPacket,
    ResponsePacket,
};
use activelook::responses::Response;
use activelook::traits::Serializable;
use activelook::wire::CodecError;

#[test]
fn test_packet_too_small() {
    let bytes = [0xFF, 0xAA];
    assert_eq!(Some(ProtocolError::PacketLengthTooSmall), RawPacket::from_bytes(&bytes).err());
}

#[test]
fn test_packet_incorrect_length() {
    let bytes = [
        0xFF, // start
        0x01, // CmdID
        0x00, // CmdFormat
        0x42, // Incorrect length
        // No query ID
        // No data
        0xAA, // end
    ];
    assert_eq!(Some(ProtocolError::InvalidPacketLength), RawPacket::from_bytes(&bytes).err());
}

#[test]
fn test_raw_to_command_conversion_without_data() {
    let cmd = Command::Clear;
    let raw = RawPacket {
        cmd_id: cmd.id().unwrap(),
        format: CmdFormat::default(),
        length: 1,
        query_id: None,
        data: None,
    };

    let packet = CommandPacket::from(raw);
    assert_eq!(packet.cmd_id, 0x01);
    assert_eq!(packet.data, cmd);
}

#[test]
fn test_raw_to_command_conversion_with_data() {
    let cmd = Command::PowerDisplay { en: 1 };
    let raw = RawPacket {
        cmd_id: cmd.id().unwrap(),
        format: CmdFormat::default(),
        length: 1,
        query_id: None,
        data: Some(&[0x01]),
    };

    let packet = CommandPacket::from(raw);
    assert_eq!(packet.cmd_id, 0x00);
    assert_eq!(packet.data, cmd);
}

#[test]
fn test_packet_creation() {
    let cmd = Command::PowerDisplay { en: 1 };
    let packet = Packet::new(&cmd);
    assert_eq!(packet.cmd_id, 0x00);
}

#[test]
fn test_packet_serialization() {
    let expected = [0xFF, 0x00, 0x00, 0x06, 0x01, 0xAA];
    let expected_cmd = Command::PowerDisplay { en: 1 };
    let cmd = Command::PowerDisplay { en: 1 };
    let packet = Packet::new(&cmd);
    // Serialization
    let bytes = packet.to_bytes();
    assert_eq!(expected, bytes[..]);

    // Deserialization
    let newpkt = CommandPacket::from_bytes(&bytes).expect("Should be able to deserialize");
    assert_eq!(expected_cmd, newpkt.data);
}

#[test]
fn test_command_format() {
    let decoded = CmdFormat::from_byte(0b000_1_0011u8);
    assert_eq!(1, decoded.long);
    assert_eq!(3, decoded.query_id_size);
}

#[test]
fn test_full_command_decoding() {
    let bytes = [0xFF, 0x00, 0x00, 0x06, 0x01, 0xAA];
    let expected = Command::PowerDisplay { en: 1 };
    let packet = CommandPacket::from_bytes(&bytes).unwrap();
    assert_eq!(0x00, packet.cmd_id);
    assert_eq!(0x06, packet.length);
    assert_eq!(expected, packet.data);
}

// ---------------------------------------------------------------------------
// Framing
// ---------------------------------------------------------------------------

#[test]
fn frame_round_trip_with_four_byte_id() {
    let payload = [0x10, 0x20, 0x30];
    let id = [0x00, 0x00, 0x01, 0x02];
    let frame = encode_frame(0x37, &id, &payload);
    assert_eq!(
        vec![0xFF, 0x37, 0x04, 12, 0x00, 0x00, 0x01, 0x02, 0x10, 0x20, 0x30, 0xAA],
        frame
    );
    let raw = RawPacket::from_bytes(&frame).unwrap();
    assert_eq!(0x37, raw.cmd_id);
    assert_eq!(0, raw.format.long);
    assert_eq!(4, raw.format.query_id_size);
    assert_eq!(12, raw.length);
    assert_eq!(Some(id.to_vec()), raw.query_id);
    assert_eq!(Some(&payload[..]), raw.data);
}

#[test]
fn frame_with_extended_length() {
    let payload = vec![7u8; 300];
    let id = [1, 2, 3, 4];
    let frame = encode_frame(0x41, &id, &payload);
    // 2 delimiters + tag + format + 2 length bytes + 4 id bytes + 300
    assert_eq!(310, frame.len());
    assert_eq!(0x14, frame[2]);
    assert_eq!([0x01, 0x36], frame[3..5]);
    let raw = RawPacket::from_bytes(&frame).unwrap();
    assert_eq!(1, raw.format.long);
    assert_eq!(310, raw.length);
    assert_eq!(Some(&payload[..]), raw.data);
}

#[test]
fn frame_at_the_one_byte_length_limit() {
    // 5 + 250 = 255 still fits one length byte
    let frame = encode_frame(0x01, &[], &vec![0u8; 250]);
    assert_eq!(255, frame.len());
    assert_eq!(0x00, frame[2]);
    assert_eq!(255, frame[3]);
    // one byte more takes the extended length
    let frame = encode_frame(0x01, &[], &vec![0u8; 251]);
    assert_eq!(257, frame.len());
    assert_eq!(0x10, frame[2]);
    assert_eq!([0x01, 0x01], frame[3..5]);
    assert!(RawPacket::from_bytes(&frame).is_ok());
}

#[test]
fn frame_rejections() {
    assert_eq!(Some(ProtocolError::PacketLengthTooSmall), RawPacket::from_bytes(&[]).err());
    assert_eq!(
        Some(ProtocolError::PacketLengthTooSmall),
        RawPacket::from_bytes(&[0xFF, 0, 0, 4]).err()
    );
    assert_eq!(Some(ProtocolError::FrameError), RawPacket::from_bytes(&[0xFE, 0, 0, 5, 0xAA]).err());
    assert_eq!(Some(ProtocolError::FrameError), RawPacket::from_bytes(&[0xFF, 0, 0, 5, 0xAB]).err());
    assert_eq!(
        Some(ProtocolError::InvalidPacketLength),
        RawPacket::from_bytes(&[0xFF, 0, 0, 6, 0xAA]).err()
    );
    // a correlation id longer than the frame
    assert_eq!(
        Some(ProtocolError::InvalidPacketLength),
        RawPacket::from_bytes(&[0xFF, 0, 0x0F, 5, 0xAA]).err()
    );
    // the smallest frame
    let raw = RawPacket::from_bytes(&[0xFF, 0x01, 0x00, 0x05, 0xAA]).unwrap();
    assert_eq!(None, raw.data);
    assert_eq!(None, raw.query_id);
}

#[test]
fn reserved_bits_are_ignored() {
    let raw = RawPacket::from_bytes(&[0xFF, 0x01, 0xE0, 0x05, 0xAA]).unwrap();
    assert_eq!(0, raw.format.long);
    assert_eq!(0, raw.format.query_id_size);
    assert_eq!(0, raw.format.to_byte());
}

#[test]
fn undecodable_payload_is_a_parse_error() {
    let frame = [0xFF, 0x03, 0x00, 0x06, 0x09, 0xAA];
    assert_eq!(
        Some(ProtocolError::ParseError(CodecError::InvalidValue)),
        CommandPacket::from_bytes(&frame).err()
    );
    let frame = [0xFF, 0x77, 0x00, 0x05, 0xAA];
    assert_eq!(
        Some(ProtocolError::ParseError(CodecError::UnknownId)),
        ResponsePacket::from_bytes(&frame).err()
    );
}

#[test]
fn packet_with_query_id_serialization() {
    let resp = Response::Battery { level: 0x64 };
    let packet = Packet::new_with_query_id(&resp, &[0, 0, 0, 9]);
    let bytes = packet.to_bytes();
    assert_eq!(vec![0xFF, 0x05, 0x04, 10, 0, 0, 0, 9, 0x64, 0xAA], bytes);
    let back = ResponsePacket::from_bytes(&bytes).unwrap();
    assert_eq!(resp, back.data);
    assert_eq!(Some(vec![0, 0, 0, 9]), back.query_id);
}

#[test]
fn clear_scenario() {
    let (id, data) = Command::Clear.as_bytes().unwrap();
    assert_eq!(0x01, id);
    assert!(data.is_empty());
    let frame = Packet::new(&Command::Clear).to_bytes();
    assert_eq!(vec![0xFF, 0x01, 0x00, 0x05, 0xAA], frame);
    assert_eq!(Command::Clear, CommandPacket::from_bytes(&frame).unwrap().data);
}

// ---------------------------------------------------------------------------
// Small tables
// ---------------------------------------------------------------------------

#[test]
fn default_fonts() {
    assert_eq!(DefaultFont::ComputerModernSansSerif35, DefaultFont::from(2));
    assert_eq!(DefaultFont::Default24, DefaultFont::from(77));
    let id: u8 = DefaultFont::ComputerModernSansSerif49.into();
    assert_eq!(3, id);
}

#[test]
fn flow_control_codes() {
    assert_eq!(Some(FlowErrorCtrl::ClientCanSend), FlowErrorCtrl::from_code(1));
    assert_eq!(Some(FlowErrorCtrl::MissingCfgWrite), FlowErrorCtrl::from_code(6));
    assert_eq!(None, FlowErrorCtrl::from_code(0));
    assert_eq!(None, FlowErrorCtrl::from_code(7));
}

#[test]
fn row_widths() {
    assert_eq!(10, ImgFormat::Img8bpp.nb_of_bytes(10));
    assert_eq!(5, ImgFormat::Img4bpp.nb_of_bytes(9));
    assert_eq!(4, ImgFormat::Img4bpp.nb_of_bytes(8));
    assert_eq!(0, ImgFormat::Img1bpp.nb_of_bytes(0));
    assert_eq!(12, ImgFormat::Img4bppDecompressBeforeDisplaying.nb_of_bytes(12));
    assert_eq!(2, StreamImgFormat::Img1bpp.nb_of_bytes(9));
    assert_eq!(9, StreamImgFormat::Img4bppDecompressBeforeSaving.nb_of_bytes(9));
    assert_eq!(Ok(StreamImgFormat::Img1bpp), StreamImgFormat::try_from(ImgFormat::Img1bpp));
    assert_eq!(Err(()), StreamImgFormat::try_from(ImgFormat::Img8bpp));
}

#[test]
fn packet_keeps_the_value() {
    let cmd = Command::LayoutDisplay { id: 7, text: String::from("hi") };
    let packet = Packet::new_with_query_id(&cmd, &[0, 0, 0, 1]);
    assert_eq!(cmd, packet.data);
    let bytes = packet.to_bytes();
    let back = CommandPacket::from_bytes(&bytes).unwrap();
    assert_eq!(cmd, back.data);
    assert_eq!(Some(vec![0, 0, 0, 1]), back.query_id);
    assert_eq!(bytes.len(), back.length as usize);
}

#[test]
fn duplicate_keeps_every_field() {
    let resp = Response::CfgList {
        list: vec![activelook::fields::CfgItem {
            name: String::from("cfg"),
            size: 1,
            version: 2,
            usage_counter: 3,
            install_counter: 4,
            is_system: 5,
        }],
    };
    assert_eq!(resp, resp.duplicate());
    let cmd = Command::ImgSave { id: 1, size: 2, width: 3, format: ImgFormat::Img4bpp, data: vec![9, 8] };
    assert_eq!(cmd, cmd.duplicate());
}
