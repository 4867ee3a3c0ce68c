//! Functions on the cells of a content table: its content arrives as base64
//! text and is kept as bytes, with its size beside it.

use base64::prelude::{Engine, BASE64_STANDARD_NO_PAD};
use vstd::prelude::*;
use vstd::utf8::encode_utf8;

verus! {

/// The bytes that `input` stands for in base64, with the standard alphabet
/// and without padding; `None` where `input` is no such encoding.
pub uninterp spec fn base64_decoded(input: Seq<u8>) -> Option<Seq<u8>>;

/// The size of a buffer that is sure to hold what `encoded_len` base64
/// symbols decode to: three bytes for every four symbols or part of four.
pub open spec fn estimate(encoded_len: nat) -> nat {
    (encoded_len / 4 + if encoded_len % 4 > 0 {
        1nat
    } else {
        0nat
    }) * 3
}

/// `base64::decoded_len_estimate`: three bytes for every four symbols or
/// part of four.
#[verifier::external_body]
fn decoded_len_estimate(encoded_len: usize) -> (len: usize)
    ensures
        len == estimate(encoded_len as nat),
{
    base64::decoded_len_estimate(encoded_len)
}

/// `Engine::decode_slice` of the standard engine without padding: decodes
/// `input` into the front of `output` and returns how many bytes it wrote.
/// It writes nothing behind them.  Given a buffer of the estimated size or
/// more, it fails on those inputs only that are no base64.
#[verifier::external_body]
fn decode_into(input: &str, output: &mut Vec<u8>) -> (written: Option<usize>)
    ensures
        final(output).len() == old(output).len(),
        old(output).len() >= estimate(encode_utf8(input@).len()) ==> (written is Some
            <==> base64_decoded(encode_utf8(input@)) is Some),
        written matches Some(n) ==> n <= final(output).len() && base64_decoded(
            encode_utf8(input@),
        ) == Some(final(output)@.take(n as int)) && final(output)@.skip(n as int) == old(
            output,
        )@.skip(n as int),
{
    BASE64_STANDARD_NO_PAD.decode_slice(input, output.as_mut_slice()).ok()
}

/// `decoded`, followed by zeros up to a length of `len`.
pub open spec fn padded(decoded: Seq<u8>, len: nat) -> Seq<u8> {
    Seq::new(
        len,
        |i: int|
            if i < decoded.len() {
                decoded[i]
            } else {
                0u8
            },
    )
}

/// The cell that a decoding leaves: the whole buffer where it succeeded,
/// nothing where it failed.
pub fn keep_decoded(buffer: Vec<u8>, written: Option<usize>) -> (blob: Option<Vec<u8>>)
    ensures
        written is Some ==> blob == Some(buffer),
        written is None ==> blob is None,
{
    match written {
        Some(_) => Some(buffer),
        None => None,
    }
}

/// Turns a cell of base64 text into a cell of bytes.
///
/// An empty cell gives no bytes.  A cell with text gives a buffer of the
/// estimated size, with the decoded bytes in front and zeros behind them;
/// text that is no base64 gives nothing.
pub fn to_binary(cell: Option<&str>) -> (blob: Option<Vec<u8>>)
    ensures
        cell is None ==> (blob matches Some(b) && b@ == Seq::<u8>::empty()),
        cell matches Some(v) ==> match base64_decoded(encode_utf8(v@)) {
            Some(d) => blob matches Some(b) && b@ == padded(d, estimate(encode_utf8(v@).len())),
            None => blob is None,
        },
{
    match cell {
        None => Some(Vec::new()),
        Some(v) => {
            let len = decoded_len_estimate(v.as_bytes().len());
            let mut buffer: Vec<u8> = vec![0u8; len];
            let ghost zeros = buffer@;
            let written = decode_into(v, &mut buffer);
            proof {
                if let Some(n) = written {
                    let d = buffer@.take(n as int);
                    assert forall|i: int| 0 <= i < buffer@.len() implies buffer@[i] == padded(
                        d,
                        buffer@.len(),
                    )[i] by {
                        if i >= n {
                            assert(buffer@[i] == buffer@.skip(n as int)[i - n]);
                            assert(zeros[i] == zeros.skip(n as int)[i - n]);
                        }
                    }
                    assert(buffer@ =~= padded(d, buffer@.len()));
                }
            }
            keep_decoded(buffer, written)
        },
    }
}

/// The size of each cell of bytes: an empty cell has none.
pub fn binary_size(cells: &Vec<Option<Vec<u8>>>) -> (sizes: Vec<Option<u64>>)
    ensures
        sizes.len() == cells.len(),
        forall|i: int|
            0 <= i < cells.len() ==> #[trigger] sizes[i] == match cells[i] {
                Some(bytes) => Some(bytes.len() as u64),
                None => None,
            },
{
    let mut sizes: Vec<Option<u64>> = Vec::new();
    let mut i: usize = 0;
    while i < cells.len()
        invariant
            i <= cells.len(),
            sizes.len() == i,
            forall|k: int|
                0 <= k < i ==> #[trigger] sizes[k] == match cells[k] {
                    Some(bytes) => Some(bytes.len() as u64),
                    None => None,
                },
        decreases cells.len() - i,
    {
        let size = match &cells[i] {
            Some(bytes) => Some(bytes.len() as u64),
            None => None,
        };
        sizes.push(size);
        i += 1;
    }
    sizes
}

} // verus!
