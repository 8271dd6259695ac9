//! Images: pixel formats and the width in bytes of a row of pixels.

use vstd::prelude::*;

use crate::fields::{ImgFormat, StreamImgFormat};

verus! {

/// An image to send to the glasses.
pub struct Image<'a> {
    pub width: u16,
    pub format: ImgFormat,
    pub data: &'a [u8],
}

/// Number of bytes that hold `width` pixels at `per_byte` pixels per byte.
pub open spec fn bytes_for(width: nat, per_byte: nat) -> nat
    recommends
        per_byte > 0,
{
    ((width + per_byte - 1) / per_byte as int) as nat
}

impl ImgFormat {
    /// Bytes of one row of `width` pixels: one pixel per byte at 8 bits per
    /// pixel, two at 4 bits, eight at 1 bit. The compressed formats count one
    /// byte per pixel.
    pub open spec fn row_bytes(self, width: nat) -> nat {
        match self {
            ImgFormat::Img8bpp => width,
            ImgFormat::Img4bpp => bytes_for(width, 2),
            ImgFormat::Img1bpp => bytes_for(width, 8),
            ImgFormat::Img4bppDecompressBeforeSaving => width,
            ImgFormat::Img4bppDecompressBeforeDisplaying => width,
        }
    }

    pub fn nb_of_bytes(&self, width: usize) -> (r: usize)
        ensures
            r == self.row_bytes(width as nat),
    {
        match self {
            ImgFormat::Img8bpp => width,
            ImgFormat::Img4bpp => width / 2 + width % 2,
            ImgFormat::Img1bpp => width / 8 + if width % 8 == 0 { 0 } else { 1 },
            ImgFormat::Img4bppDecompressBeforeSaving => width,
            ImgFormat::Img4bppDecompressBeforeDisplaying => width,
        }
    }
}

impl StreamImgFormat {
    /// Bytes of one row of `width` pixels: eight pixels per byte at 1 bit per
    /// pixel; the compressed format counts one byte per pixel.
    pub open spec fn row_bytes(self, width: nat) -> nat {
        match self {
            StreamImgFormat::Img1bpp => bytes_for(width, 8),
            StreamImgFormat::Img4bppDecompressBeforeSaving => width,
        }
    }

    pub fn nb_of_bytes(&self, width: usize) -> (r: usize)
        ensures
            r == self.row_bytes(width as nat),
    {
        match self {
            StreamImgFormat::Img1bpp => width / 8 + if width % 8 == 0 { 0 } else { 1 },
            StreamImgFormat::Img4bppDecompressBeforeSaving => width,
        }
    }

    /// The streaming format that an image format stands for, if it can be
    /// streamed.
    pub open spec fn spec_from_img_format(f: ImgFormat) -> Option<StreamImgFormat> {
        match f {
            ImgFormat::Img1bpp => Some(StreamImgFormat::Img1bpp),
            ImgFormat::Img4bppDecompressBeforeSaving => Some(
                StreamImgFormat::Img4bppDecompressBeforeSaving,
            ),
            _ => None,
        }
    }

    pub fn try_from(value: ImgFormat) -> (r: Result<StreamImgFormat, ()>)
        ensures
            match StreamImgFormat::spec_from_img_format(value) {
                Some(s) => r == Ok::<StreamImgFormat, ()>(s),
                None => r is Err,
            },
    {
        match value {
            ImgFormat::Img1bpp => Ok(StreamImgFormat::Img1bpp),
            ImgFormat::Img4bppDecompressBeforeSaving => Ok(
                StreamImgFormat::Img4bppDecompressBeforeSaving,
            ),
            _ => Err(()),
        }
    }
}

} // verus!
