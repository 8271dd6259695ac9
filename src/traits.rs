//! The codec seen from the framer: a value gives its tag and its payload, and
//! a tag with a payload gives a value.

use vstd::prelude::*;

use crate::chunk::{
    align_of, chunks_view, lemma_split_every_lossless, lemma_split_every_shape,
    lemma_split_image_lossless, piece, pieces_count, push_split_every, push_split_image,
    split_every, split_image,
};
use crate::commands::{Command, CommandView};
use crate::responses::{Response, ResponseView};
use crate::wire::{get_bytes, CodecError};

verus! {

/// The payload given as an optional slice; no payload is an empty one.
pub open spec fn opt_bytes(data: Option<&[u8]>) -> Seq<u8> {
    match data {
        Some(d) => d@,
        None => Seq::empty(),
    }
}

/// Serialize to a bytestream.
pub trait Serializable: Clone {
    /// The operation tag of the value.
    spec fn spec_id(&self) -> u8;

    /// The payload of the value.
    spec fn spec_data(&self) -> Seq<u8>;

    /// The payload cut into chunks of at most `chunk_size` bytes.
    spec fn spec_chunks(&self, chunk_size: nat) -> Seq<Seq<u8>>;

    /// `other` is the same value as `self`.
    spec fn same_value(&self, other: &Self) -> bool;

    /// A copy of the value.
    fn duplicate(&self) -> (r: Self)
        ensures
            r.same_value(self),
            r.spec_id() == self.spec_id(),
            r.spec_data() == self.spec_data(),
    ;

    /// Returns the operation tag of the [Command] or [Response].
    fn id(&self) -> (r: Result<u8, CodecError>)
        ensures
            r == Ok::<u8, CodecError>(self.spec_id()),
    ;

    /// Returns the payload.
    fn data_bytes(&self) -> (r: Result<Vec<u8>, CodecError>)
        ensures
            match r {
                Ok(v) => v@ == self.spec_data(),
                Err(_) => false,
            },
    ;

    /// Returns the operation tag and the payload.
    fn as_bytes(&self) -> (r: Result<(u8, Vec<u8>), CodecError>)
        ensures
            match r {
                Ok((id, v)) => id == self.spec_id() && v@ == self.spec_data(),
                Err(_) => false,
            },
    ;

    /// Returns the operation tag and the payload cut into chunks, to send
    /// values larger than one write on the link.
    fn as_bytes_chunks(&self, chunk_size: usize) -> (r: Result<(u8, Vec<Vec<u8>>), CodecError>)
        requires
            chunk_size > 0,
        ensures
            match r {
                Ok((id, v)) => id == self.spec_id() && chunks_view(v@) == self.spec_chunks(
                    chunk_size as nat,
                ),
                Err(_) => false,
            },
    ;
}

/// Deserialize from a bytestream.
pub trait Deserializable {
    type Item;

    /// `r` is what decoding `data` under tag `id` gives.
    spec fn spec_decoded(id: u8, data: Seq<u8>, r: Result<Self::Item, CodecError>) -> bool;

    fn from_data(id: u8, data: Option<&[u8]>) -> (r: Result<Self::Item, CodecError>)
        ensures
            Self::spec_decoded(id, opt_bytes(data), r),
    ;
}

impl CommandView {
    /// The payload cut into chunks. Image commands keep their header whole in
    /// the first chunk and cut their pixel data on row boundaries; every other
    /// command is cut into pieces of `chunk_size` bytes.
    pub open spec fn chunks(self, chunk_size: nat) -> Seq<Seq<u8>> {
        let d = self.payload();
        match self {
            CommandView::ImgSave { width, format, .. } => seq![d.subrange(0, 8)] + split_image(
                d.subrange(8, d.len() as int),
                format.row_bytes(width as nat),
                chunk_size,
            ),
            CommandView::ImgStream { width, format, .. } => seq![d.subrange(0, 11)] + split_image(
                d.subrange(11, d.len() as int),
                format.row_bytes(width as nat),
                chunk_size,
            ),
            _ => split_every(d, chunk_size),
        }
    }
}

/// Putting the chunks of a command back together gives its payload, for the
/// default rule and for the row-aligned rule of images alike.
pub proof fn lemma_command_chunks_lossless(v: CommandView, chunk_size: nat)
    requires
        chunk_size > 0,
    ensures
        v.chunks(chunk_size).flatten() == v.payload(),
{
    let d = v.payload();
    match v {
        CommandView::ImgSave { width, format, .. } => {
            let rest = d.subrange(8, d.len() as int);
            lemma_split_image_lossless(rest, format.row_bytes(width as nat), chunk_size);
            vstd::seq_lib::lemma_flatten_concat(
                seq![d.subrange(0, 8)],
                split_image(rest, format.row_bytes(width as nat), chunk_size),
            );
            seq![d.subrange(0, 8)].lemma_flatten_one_element();
            assert(d.subrange(0, 8) + rest =~= d);
        },
        CommandView::ImgStream { width, format, .. } => {
            let rest = d.subrange(11, d.len() as int);
            lemma_split_image_lossless(rest, format.row_bytes(width as nat), chunk_size);
            vstd::seq_lib::lemma_flatten_concat(
                seq![d.subrange(0, 11)],
                split_image(rest, format.row_bytes(width as nat), chunk_size),
            );
            seq![d.subrange(0, 11)].lemma_flatten_one_element();
            assert(d.subrange(0, 11) + rest =~= d);
        },
        _ => {
            lemma_split_every_lossless(d, chunk_size);
        },
    }
}

/// Header length and row width of the commands that carry an image.
pub open spec fn image_layout(v: CommandView) -> Option<(nat, nat)> {
    match v {
        CommandView::ImgSave { width, format, .. } => Some((8, format.row_bytes(width as nat))),
        CommandView::ImgStream { width, format, .. } => Some((11, format.row_bytes(width as nat))),
        _ => None,
    }
}

/// The shape of a command's chunks. Without an image: pieces of `chunk_size`
/// bytes, the last one possibly shorter. With an image: the header whole,
/// then, when a row fits in `chunk_size`, pieces of the largest number of whole
/// rows that fits, the last one possibly shorter.
pub proof fn lemma_command_chunks_shape(v: CommandView, chunk_size: nat)
    requires
        chunk_size > 0,
    ensures
        match image_layout(v) {
            None => {
                &&& v.chunks(chunk_size).len() == pieces_count(v.payload().len(), chunk_size)
                &&& forall|i: int|
                    0 <= i < v.chunks(chunk_size).len() ==> #[trigger] v.chunks(chunk_size)[i]
                        == piece(v.payload(), chunk_size, i)
            },
            Some((h, row)) => {
                let d = v.payload();
                let k = (chunk_size / align_of(row)) * align_of(row);
                &&& v.chunks(chunk_size)[0] == d.subrange(0, h as int)
                &&& chunk_size >= align_of(row) ==> {
                    &&& v.chunks(chunk_size).len() == 1 + pieces_count((d.len() - h) as nat, k)
                    &&& forall|i: int|
                        1 <= i < v.chunks(chunk_size).len() ==> #[trigger] v.chunks(chunk_size)[i]
                            == piece(d.subrange(h as int, d.len() as int), k, i - 1)
                }
            },
        },
{
    let d = v.payload();
    match image_layout(v) {
        None => {
            lemma_split_every_shape(d, chunk_size);
        },
        Some((h, row)) => {
            let a = align_of(row);
            let k = (chunk_size / a) * a;
            let px = d.subrange(h as int, d.len() as int);
            if chunk_size >= a {
                assert(k > 0) by (nonlinear_arith)
                    requires
                        chunk_size >= a,
                        a > 0,
                        k == (chunk_size / a) * a,
                ;
                lemma_split_every_shape(px, k);
                assert(v.chunks(chunk_size) == seq![d.subrange(0, h as int)] + split_every(px, k));
            }
        },
    }
}

/// The shape of a response's chunks: pieces of `chunk_size` bytes, the last
/// one possibly shorter.
pub proof fn lemma_response_chunks_shape(v: ResponseView, chunk_size: nat)
    requires
        chunk_size > 0,
    ensures
        split_every(v.payload(), chunk_size).len() == pieces_count(v.payload().len(), chunk_size),
        forall|i: int|
            0 <= i < split_every(v.payload(), chunk_size).len() ==> #[trigger] split_every(
                v.payload(),
                chunk_size,
            )[i] == piece(v.payload(), chunk_size, i),
{
    lemma_split_every_shape(v.payload(), chunk_size);
}

/// Putting the chunks of a response back together gives its payload.
pub proof fn lemma_response_chunks_lossless(v: ResponseView, chunk_size: nat)
    requires
        chunk_size > 0,
    ensures
        split_every(v.payload(), chunk_size).flatten() == v.payload(),
{
    lemma_split_every_lossless(v.payload(), chunk_size);
}

impl Serializable for Command {
    open spec fn spec_id(&self) -> u8 {
        self@.tag()
    }

    open spec fn spec_data(&self) -> Seq<u8> {
        self@.payload()
    }

    open spec fn spec_chunks(&self, chunk_size: nat) -> Seq<Seq<u8>> {
        self@.chunks(chunk_size)
    }

    open spec fn same_value(&self, other: &Command) -> bool {
        self@ == other@
    }

    fn duplicate(&self) -> (r: Self) {
        Self::duplicate(self)
    }

    fn id(&self) -> (r: Result<u8, CodecError>) {
        Ok(self.tag())
    }

    fn data_bytes(&self) -> (r: Result<Vec<u8>, CodecError>) {
        Ok(self.encode())
    }

    fn as_bytes(&self) -> (r: Result<(u8, Vec<u8>), CodecError>) {
        let data = self.encode();
        Ok((self.tag(), data))
    }

    fn as_bytes_chunks(&self, chunk_size: usize) -> (r: Result<(u8, Vec<Vec<u8>>), CodecError>) {
        let data = self.encode();
        let mut res: Vec<Vec<u8>> = Vec::new();
        match self {
            Command::ImgSave { width, format, .. } => {
                res.push(get_bytes(data.as_slice(), 0, 8));
                let row = format.nb_of_bytes(*width as usize);
                push_split_image(&mut res, data.as_slice(), 8, row, chunk_size);
            },
            Command::ImgStream { width, format, .. } => {
                res.push(get_bytes(data.as_slice(), 0, 11));
                let row = format.nb_of_bytes(*width as usize);
                push_split_image(&mut res, data.as_slice(), 11, row, chunk_size);
            },
            _ => {
                push_split_every(&mut res, data.as_slice(), 0, chunk_size);
            },
        }
        proof {
            let empty = Seq::<Seq<u8>>::empty();
            assert(empty + split_every(data@.subrange(0, data@.len() as int), chunk_size as nat)
                =~= split_every(data@, chunk_size as nat)) by {
                assert(data@.subrange(0, data@.len() as int) =~= data@);
            }
        }
        Ok((self.tag(), res))
    }
}

impl Deserializable for Command {
    type Item = Command;

    open spec fn spec_decoded(id: u8, data: Seq<u8>, r: Result<Command, CodecError>) -> bool {
        match r {
            Ok(c) => CommandView::parse(id, data) == Ok::<CommandView, CodecError>(c@),
            Err(e) => CommandView::parse(id, data) == Err::<CommandView, CodecError>(e),
        }
    }

    /// Creates a command from its operation tag and its payload.
    fn from_data(id: u8, data: Option<&[u8]>) -> (r: Result<Command, CodecError>) {
        match data {
            Some(d) => Command::decode(id, d),
            None => {
                let empty: Vec<u8> = Vec::new();
                Command::decode(id, empty.as_slice())
            },
        }
    }
}

impl Serializable for Response {
    open spec fn spec_id(&self) -> u8 {
        self@.tag()
    }

    open spec fn spec_data(&self) -> Seq<u8> {
        self@.payload()
    }

    open spec fn spec_chunks(&self, chunk_size: nat) -> Seq<Seq<u8>> {
        split_every(self@.payload(), chunk_size)
    }

    open spec fn same_value(&self, other: &Response) -> bool {
        self@ == other@
    }

    fn duplicate(&self) -> (r: Self) {
        Self::duplicate(self)
    }

    fn id(&self) -> (r: Result<u8, CodecError>) {
        Ok(self.tag())
    }

    fn data_bytes(&self) -> (r: Result<Vec<u8>, CodecError>) {
        Ok(self.encode())
    }

    fn as_bytes(&self) -> (r: Result<(u8, Vec<u8>), CodecError>) {
        let data = self.encode();
        Ok((self.tag(), data))
    }

    fn as_bytes_chunks(&self, chunk_size: usize) -> (r: Result<(u8, Vec<Vec<u8>>), CodecError>) {
        let data = self.encode();
        let mut res: Vec<Vec<u8>> = Vec::new();
        push_split_every(&mut res, data.as_slice(), 0, chunk_size);
        proof {
            assert(data@.subrange(0, data@.len() as int) =~= data@);
            assert(Seq::<Seq<u8>>::empty() + split_every(data@, chunk_size as nat) =~= split_every(
                data@,
                chunk_size as nat,
            ));
        }
        Ok((self.tag(), res))
    }
}

impl Deserializable for Response {
    type Item = Response;

    open spec fn spec_decoded(id: u8, data: Seq<u8>, r: Result<Response, CodecError>) -> bool {
        match r {
            Ok(c) => ResponseView::parse(id, data) == Ok::<ResponseView, CodecError>(c@),
            Err(e) => ResponseView::parse(id, data) == Err::<ResponseView, CodecError>(e),
        }
    }

    /// Creates a response from its operation tag and its payload.
    fn from_data(id: u8, data: Option<&[u8]>) -> (r: Result<Response, CodecError>) {
        match data {
            Some(d) => Response::decode(id, d),
            None => {
                let empty: Vec<u8> = Vec::new();
                Response::decode(id, empty.as_slice())
            },
        }
    }
}

} // verus!
