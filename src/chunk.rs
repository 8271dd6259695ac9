//! Cutting a payload into transport-sized chunks.
//!
//! A payload may exceed what one write on the link can carry. By default it is
//! cut into pieces of a fixed size. Image payloads keep their header whole and
//! cut their pixel data on row boundaries, because the glasses reassemble rows
//! one by one.

use vstd::prelude::*;
use vstd::seq_lib::lemma_flatten_concat;

verus! {

/// `d` cut into pieces of `n` bytes; the last piece may be shorter.
pub open spec fn split_every(d: Seq<u8>, n: nat) -> Seq<Seq<u8>>
    decreases d.len(),
{
    if d.len() == 0 || n == 0 {
        Seq::empty()
    } else if d.len() <= n {
        seq![d]
    } else {
        seq![d.subrange(0, n as int)] + split_every(d.subrange(n as int, d.len() as int), n)
    }
}

/// `d` cut into rows of `row` bytes, and each row cut into pieces of `n` bytes.
pub open spec fn split_rows(d: Seq<u8>, row: nat, n: nat) -> Seq<Seq<u8>>
    decreases d.len(),
{
    if d.len() == 0 || row == 0 {
        Seq::empty()
    } else if d.len() <= row {
        split_every(d, n)
    } else {
        split_every(d.subrange(0, row as int), n) + split_rows(
            d.subrange(row as int, d.len() as int),
            row,
            n,
        )
    }
}

/// Row width used for alignment: a row of no byte aligns like a row of one.
pub open spec fn align_of(row: nat) -> nat {
    if row == 0 { 1 } else { row }
}

/// Pixel data cut on row boundaries: pieces of as many whole rows as fit in
/// `chunk_size`, or, when not one row fits, every row cut on its own.
pub open spec fn split_image(d: Seq<u8>, row: nat, chunk_size: nat) -> Seq<Seq<u8>> {
    let a = align_of(row);
    if chunk_size >= a {
        split_every(d, (chunk_size / a) * a)
    } else {
        split_rows(d, a, chunk_size)
    }
}

/// Piece `i` of `d` cut every `n` bytes: `d[i * n .. min((i + 1) * n, d.len())]`.
pub open spec fn piece(d: Seq<u8>, n: nat, i: int) -> Seq<u8> {
    d.subrange(i * n, if (i + 1) * n < d.len() { (i + 1) * n } else { d.len() as int })
}

/// Number of pieces of `n` bytes (the last one may be shorter) in `len` bytes.
pub open spec fn pieces_count(len: nat, n: nat) -> nat
    recommends
        n > 0,
{
    ((len + n - 1) / n as int) as nat
}

/// The contents of a list of chunks.
pub open spec fn chunks_view(v: Seq<Vec<u8>>) -> Seq<Seq<u8>> {
    v.map_values(|c: Vec<u8>| c@)
}

/// Cutting loses nothing: the pieces put back together give `d`.
pub proof fn lemma_split_every_lossless(d: Seq<u8>, n: nat)
    requires
        n > 0,
    ensures
        split_every(d, n).flatten() == d,
    decreases d.len(),
{
    if d.len() == 0 {
        assert(d =~= Seq::<u8>::empty());
    } else if d.len() <= n {
        seq![d].lemma_flatten_one_element();
    } else {
        let rest = d.subrange(n as int, d.len() as int);
        lemma_split_every_lossless(rest, n);
        lemma_flatten_concat(seq![d.subrange(0, n as int)], split_every(rest, n));
        seq![d.subrange(0, n as int)].lemma_flatten_one_element();
        assert(d.subrange(0, n as int) + rest =~= d);
    }
}

/// The shape of a cut: as many pieces as `n` bytes fill, the last one
/// possibly shorter, and piece `i` is `d[i * n .. min((i + 1) * n, d.len())]`.
pub proof fn lemma_split_every_shape(d: Seq<u8>, n: nat)
    requires
        n > 0,
    ensures
        split_every(d, n).len() == pieces_count(d.len(), n),
        forall|i: int|
            0 <= i < split_every(d, n).len() ==> #[trigger] split_every(d, n)[i] == piece(d, n, i),
    decreases d.len(),
{
    let len = d.len() as int;
    let ni = n as int;
    if len == 0 {
        assert((0 + ni - 1) / ni == 0) by (nonlinear_arith)
            requires
                ni > 0,
        ;
    } else if len <= ni {
        assert((len + ni - 1) / ni == 1) by (nonlinear_arith)
            requires
                ni > 0,
                0 < len <= ni,
        ;
        assert(piece(d, n, 0) =~= d);
    } else {
        let rest = d.subrange(ni, len);
        lemma_split_every_shape(rest, n);
        assert((len + ni - 1) / ni == 1 + (len - ni + ni - 1) / ni) by (nonlinear_arith)
            requires
                ni > 0,
                len > ni,
        ;
        let s = split_every(d, n);
        assert forall|i: int| 0 <= i < s.len() implies #[trigger] s[i] == piece(d, n, i) by {
            if i == 0 {
                assert(piece(d, n, 0) =~= d.subrange(0, ni));
            } else {
                let a = (i - 1) * ni;
                let b = i * ni;
                let c = (i + 1) * ni;
                assert(a + ni == b && b + ni == c && (i - 1 + 1) * ni == b) by (nonlinear_arith)
                    requires
                        a == (i - 1) * ni,
                        b == i * ni,
                        c == (i + 1) * ni,
                ;
                let rl = rest.len() as int;
                assert(0 <= a < rl) by (nonlinear_arith)
                    requires
                        ni > 0,
                        i >= 1,
                        a == (i - 1) * ni,
                        i - 1 < (rl + ni - 1) / ni,
                ;
                let e = if b < rl { b } else { rl };
                assert(piece(rest, n, i - 1) == rest.subrange(a, e));
                assert(piece(d, n, i) == d.subrange(b, if c < len { c } else { len }));
                assert(s[i] == split_every(rest, n)[i - 1]);
                assert(rest.subrange(a, e) =~= d.subrange(b, if c < len { c } else { len }));
            }
        }
    }
}

/// Cutting row by row loses nothing either.
pub proof fn lemma_split_rows_lossless(d: Seq<u8>, row: nat, n: nat)
    requires
        row > 0,
        n > 0,
    ensures
        split_rows(d, row, n).flatten() == d,
    decreases d.len(),
{
    if d.len() == 0 {
        assert(d =~= Seq::<u8>::empty());
    } else if d.len() <= row {
        lemma_split_every_lossless(d, n);
    } else {
        let first = d.subrange(0, row as int);
        let rest = d.subrange(row as int, d.len() as int);
        lemma_split_every_lossless(first, n);
        lemma_split_rows_lossless(rest, row, n);
        lemma_flatten_concat(split_every(first, n), split_rows(rest, row, n));
        assert(first + rest =~= d);
    }
}

/// Row-aligned cutting loses nothing, whatever the chunk size and row width.
pub proof fn lemma_split_image_lossless(d: Seq<u8>, row: nat, chunk_size: nat)
    requires
        chunk_size > 0,
    ensures
        split_image(d, row, chunk_size).flatten() == d,
{
    let a = align_of(row);
    if chunk_size >= a {
        assert((chunk_size / a) * a > 0) by (nonlinear_arith)
            requires
                chunk_size >= a,
                a > 0,
        ;
        lemma_split_every_lossless(d, (chunk_size / a) * a);
    } else {
        lemma_split_rows_lossless(d, a, chunk_size);
    }
}

/// Appends to `res` the pieces of `n` bytes of `d[from..]`.
pub fn push_split_every(res: &mut Vec<Vec<u8>>, d: &[u8], from: usize, n: usize)
    requires
        n > 0,
        from <= d@.len(),
    ensures
        chunks_view(final(res)@) == chunks_view(old(res)@) + split_every(
            d@.subrange(from as int, d@.len() as int),
            n as nat,
        ),
{
    let mut i: usize = from;
    while i < d.len()
        invariant
            n > 0,
            from <= i <= d@.len(),
            chunks_view(res@) + split_every(d@.subrange(i as int, d@.len() as int), n as nat)
                == chunks_view(old(res)@) + split_every(
                d@.subrange(from as int, d@.len() as int),
                n as nat,
            ),
        decreases d@.len() - i,
    {
        let end: usize = if d.len() - i <= n { d.len() } else { i + n };
        let ghost t = d@.subrange(i as int, d@.len() as int);
        let ghost before = chunks_view(res@);
        let piece = vstd::slice::slice_to_vec(&d[i..end]);
        res.push(piece);
        proof {
            let rest = d@.subrange(end as int, d@.len() as int);
            assert(chunks_view(res@) =~= before.push(piece@));
            if t.len() <= n {
                assert(piece@ =~= t);
                assert(rest =~= Seq::<u8>::empty());
                assert(split_every(rest, n as nat) =~= Seq::<Seq<u8>>::empty());
                assert(chunks_view(res@) + split_every(rest, n as nat) =~= before + split_every(
                    t,
                    n as nat,
                ));
            } else {
                assert(piece@ =~= t.subrange(0, n as int));
                assert(t.subrange(n as int, t.len() as int) =~= rest);
                assert(chunks_view(res@) + split_every(rest, n as nat) =~= before + split_every(
                    t,
                    n as nat,
                ));
            }
        }
        i = end;
    }
    proof {
        assert(d@.subrange(i as int, d@.len() as int) =~= Seq::<u8>::empty());
        assert(chunks_view(res@) + Seq::<Seq<u8>>::empty() =~= chunks_view(res@));
    }
}

/// Appends to `res` the pieces of `d[from..]` cut into rows of `row` bytes,
/// each row cut into pieces of `n` bytes.
pub fn push_split_rows(res: &mut Vec<Vec<u8>>, d: &[u8], from: usize, row: usize, n: usize)
    requires
        n > 0,
        row > 0,
        from <= d@.len(),
    ensures
        chunks_view(final(res)@) == chunks_view(old(res)@) + split_rows(
            d@.subrange(from as int, d@.len() as int),
            row as nat,
            n as nat,
        ),
{
    let mut i: usize = from;
    while i < d.len()
        invariant
            n > 0,
            row > 0,
            from <= i <= d@.len(),
            chunks_view(res@) + split_rows(
                d@.subrange(i as int, d@.len() as int),
                row as nat,
                n as nat,
            ) == chunks_view(old(res)@) + split_rows(
                d@.subrange(from as int, d@.len() as int),
                row as nat,
                n as nat,
            ),
        decreases d@.len() - i,
    {
        let end: usize = if d.len() - i <= row { d.len() } else { i + row };
        let ghost t = d@.subrange(i as int, d@.len() as int);
        let ghost before = chunks_view(res@);
        let line = vstd::slice::slice_to_vec(&d[i..end]);
        push_split_every(res, line.as_slice(), 0, n);
        proof {
            let rest = d@.subrange(end as int, d@.len() as int);
            assert(line@.subrange(0, line@.len() as int) =~= line@);
            if t.len() <= row {
                assert(line@ =~= t);
                assert(rest =~= Seq::<u8>::empty());
            } else {
                assert(line@ =~= t.subrange(0, row as int));
                assert(t.subrange(row as int, t.len() as int) =~= rest);
            }
            assert(chunks_view(res@) + split_rows(rest, row as nat, n as nat) =~= before
                + split_rows(t, row as nat, n as nat));
        }
        i = end;
    }
    proof {
        assert(d@.subrange(i as int, d@.len() as int) =~= Seq::<u8>::empty());
        assert(chunks_view(res@) + Seq::<Seq<u8>>::empty() =~= chunks_view(res@));
    }
}

/// Appends to `res` the pixel data `d[from..]` cut on rows of `row` bytes.
pub fn push_split_image(
    res: &mut Vec<Vec<u8>>,
    d: &[u8],
    from: usize,
    row: usize,
    chunk_size: usize,
)
    requires
        chunk_size > 0,
        from <= d@.len(),
    ensures
        chunks_view(final(res)@) == chunks_view(old(res)@) + split_image(
            d@.subrange(from as int, d@.len() as int),
            row as nat,
            chunk_size as nat,
        ),
{
    let align: usize = if row == 0 { 1 } else { row };
    if chunk_size >= align {
        let lines: usize = chunk_size / align;
        assert(lines * align <= chunk_size) by (nonlinear_arith)
            requires
                align > 0,
                lines == chunk_size / align,
        ;
        let step: usize = lines * align;
        assert(step > 0 && step <= chunk_size) by (nonlinear_arith)
            requires
                chunk_size >= align,
                align > 0,
                lines == chunk_size / align,
                step == lines * align,
        ;
        push_split_every(res, d, from, step);
    } else {
        push_split_rows(res, d, from, align, chunk_size);
    }
}

} // verus!
