use activelook::commands::Command;
use activelook::fields::{ImgFormat, Point, StreamImgFormat};
use activelook::responses::Response;
use activelook::traits::Serializable;

fn joined(chunks: &[Vec<u8>]) -> Vec<u8> {
    chunks.iter().flatten().copied().collect()
}

fn image(width: u16, n: usize) -> Command {
    Command::ImgSave {
        id: 1,
        size: n as u32,
        width,
        format: ImgFormat::Img8bpp,
        data: (0..n).map(|i| i as u8).collect(),
    }
}

#[test]
fn default_rule_cuts_equal_pieces() {
    let cmd = Command::Polyline {
        thickness: 1,
        _reserved: 0,
        points: vec![Point { x: 1, y: 2 }, Point { x: 3, y: 4 }],
    };
    let payload = cmd.data_bytes().unwrap();
    let (id, chunks) = cmd.as_bytes_chunks(4).unwrap();
    assert_eq!(0x38, id);
    let lens: Vec<usize> = chunks.iter().map(|c| c.len()).collect();
    assert_eq!(vec![4, 4, 3], lens);
    assert_eq!(payload, joined(&chunks));
}

#[test]
fn image_rows_smaller_equal_and_larger_than_chunk() {
    // rows of 4 bytes, 10 bytes of pixels
    let cmd = image(4, 10);
    let payload = cmd.data_bytes().unwrap();

    // chunk larger than a row: two whole rows per piece
    let (_, chunks) = cmd.as_bytes_chunks(9).unwrap();
    let lens: Vec<usize> = chunks.iter().map(|c| c.len()).collect();
    assert_eq!(vec![8, 8, 2], lens);
    assert_eq!(payload, joined(&chunks));

    // chunk equal to a row
    let (_, chunks) = cmd.as_bytes_chunks(4).unwrap();
    let lens: Vec<usize> = chunks.iter().map(|c| c.len()).collect();
    assert_eq!(vec![8, 4, 4, 2], lens);
    assert_eq!(payload, joined(&chunks));

    // chunk smaller than a row: each row cut on its own
    let (_, chunks) = cmd.as_bytes_chunks(3).unwrap();
    let lens: Vec<usize> = chunks.iter().map(|c| c.len()).collect();
    assert_eq!(vec![8, 3, 1, 3, 1, 2], lens);
    assert_eq!(payload, joined(&chunks));
}

#[test]
fn image_stream_keeps_its_header() {
    let cmd = Command::ImgStream {
        size: 5,
        width: 16,
        coord: Point { x: 0, y: 0 },
        format: StreamImgFormat::Img1bpp,
        data: vec![1, 2, 3, 4, 5],
    };
    let payload = cmd.data_bytes().unwrap();
    let (id, chunks) = cmd.as_bytes_chunks(5).unwrap();
    assert_eq!(0x44, id);
    let lens: Vec<usize> = chunks.iter().map(|c| c.len()).collect();
    // rows of 2 bytes: two rows per piece
    assert_eq!(vec![11, 4, 1], lens);
    assert_eq!(payload, joined(&chunks));
}

#[test]
fn image_without_pixels_is_its_header() {
    let (_, chunks) = image(4, 0).as_bytes_chunks(16).unwrap();
    assert_eq!(1, chunks.len());
    assert_eq!(8, chunks[0].len());
}

#[test]
fn image_of_zero_width_cuts_like_the_default() {
    let cmd = image(0, 5);
    let (_, chunks) = cmd.as_bytes_chunks(2).unwrap();
    let lens: Vec<usize> = chunks.iter().map(|c| c.len()).collect();
    assert_eq!(vec![8, 2, 2, 1], lens);
}

#[test]
fn response_chunks() {
    let resp = Response::RdDevInfo { parameters: (0..7).collect() };
    let (id, chunks) = resp.as_bytes_chunks(3).unwrap();
    assert_eq!(0xE3, id);
    assert_eq!(vec![vec![0, 1, 2], vec![3, 4, 5], vec![6]], chunks);
    let (_, chunks) = resp.as_bytes_chunks(100).unwrap();
    assert_eq!(vec![(0..7).collect::<Vec<u8>>()], chunks);
}
