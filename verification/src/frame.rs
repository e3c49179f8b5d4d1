//! Message framing around the block cipher: the length byte that travels
//! with every plaintext, and the zero bytes that a fixed receive buffer
//! leaves behind a ciphertext.

use vstd::prelude::*;
use vstd::slice::slice_subrange;
use vstd::slice::slice_to_vec;

verus! {

/// Block size of the cipher in bytes.
pub const BLOCK_LEN: usize = 16;

/// The longest plaintext whose length the length byte can hold.
pub const MAX_EXACT_LEN: usize = 255;

/// What goes into the cipher: the plaintext, then its length modulo 256.
pub open spec fn framed(plaintext: Seq<u8>) -> Seq<u8> {
    plaintext.push((plaintext.len() % 256) as u8)
}

/// What comes out of a decrypted frame: everything before the last byte,
/// cut down to the length that the last byte gives. A frame without a
/// length byte holds no message.
pub open spec fn unframed(decrypted: Seq<u8>) -> Option<Seq<u8>> {
    if decrypted.len() == 0 {
        None
    } else {
        let body = decrypted.drop_last();
        let claimed = decrypted.last() as int;
        if claimed < body.len() {
            Some(body.subrange(0, claimed))
        } else {
            Some(body)
        }
    }
}

/// Length of `data` without the zero bytes at its end.
pub open spec fn content_len(data: Seq<u8>) -> nat
    decreases data.len(),
{
    if data.len() == 0 || data.last() != 0 {
        data.len()
    } else {
        content_len(data.drop_last())
    }
}

/// `len` rounded up to whole cipher blocks.
pub open spec fn whole_blocks(len: nat) -> nat {
    ((len + BLOCK_LEN - 1) / (BLOCK_LEN as int) * BLOCK_LEN) as nat
}

/// How much of a receive buffer is ciphertext: its content without trailing
/// zero bytes, rounded up to whole blocks, since a ciphertext may itself end
/// in zero bytes; the whole buffer where it ends before that.
pub open spec fn kept_len(data: Seq<u8>) -> nat {
    let blocks = whole_blocks(content_len(data));
    if blocks <= data.len() {
        blocks
    } else {
        data.len()
    }
}

/// A receive buffer without the zero bytes that follow the ciphertext.
pub open spec fn stripped(data: Seq<u8>) -> Seq<u8> {
    data.subrange(0, kept_len(data) as int)
}

/// Trailing zero bytes are not content.
pub proof fn lemma_content_len_bounds(data: Seq<u8>)
    ensures
        content_len(data) <= data.len(),
        content_len(data) > 0 ==> data[content_len(data) - 1] != 0,
        forall|i: int| content_len(data) <= i < data.len() ==> data[i] == 0,
    decreases data.len(),
{
    if data.len() != 0 && data.last() == 0 {
        let front = data.drop_last();
        lemma_content_len_bounds(front);
        assert forall|i: int| content_len(data) <= i < data.len() implies data[i] == 0 by {
            if i < front.len() {
                assert(front[i] == data[i]);
            }
        }
    }
}

/// The content ends behind the last byte that is not zero.
pub proof fn lemma_content_len_at(data: Seq<u8>, end: int)
    requires
        0 <= end <= data.len(),
        end > 0 ==> data[end - 1] != 0,
        forall|i: int| end <= i < data.len() ==> data[i] == 0,
    ensures
        content_len(data) == end,
    decreases data.len(),
{
    if end < data.len() {
        lemma_content_len_at(data.drop_last(), end);
    }
}

/// Framing and unframing a message of at most 255 bytes gives it back.
pub proof fn lemma_unframed_framed(plaintext: Seq<u8>)
    requires
        plaintext.len() <= MAX_EXACT_LEN,
    ensures
        unframed(framed(plaintext)) == Some(plaintext),
{
    assert(framed(plaintext).drop_last() =~= plaintext);
}

/// Nothing is stripped from whole blocks whose last block holds a byte
/// that is not zero.
pub proof fn lemma_stripped_whole_blocks(data: Seq<u8>, witness: int)
    requires
        data.len() % BLOCK_LEN as nat == 0,
        data.len() - BLOCK_LEN <= witness < data.len(),
        0 <= witness,
        data[witness] != 0,
    ensures
        stripped(data) == data,
{
    lemma_content_len_bounds(data);
    let content = content_len(data);
    assert(content > witness);
    assert(stripped(data) =~= data);
}

/// Appends the length byte to a copy of the plaintext.
pub fn frame(plaintext: &[u8]) -> (out: Vec<u8>)
    ensures
        out@ == framed(plaintext@),
{
    let mut out = slice_to_vec(plaintext);
    let len: usize = plaintext.len();
    out.push((len % 256) as u8);
    out
}

/// Takes the length byte off a decrypted frame and cuts the rest down to
/// that length; `None` for a frame that holds no length byte.
pub fn unframe(decrypted: Vec<u8>) -> (out: Option<Vec<u8>>)
    ensures
        match out {
            Some(message) => unframed(decrypted@) == Some(message@),
            None => unframed(decrypted@) is None,
        },
{
    let mut body = decrypted;
    match body.pop() {
        None => None,
        Some(claimed) => {
            body.truncate(claimed as usize);
            proof {
                if claimed >= decrypted@.len() - 1 {
                    assert(body@ =~= decrypted@.drop_last());
                }
            }
            Some(body)
        },
    }
}

/// Cuts a receive buffer down to the ciphertext in it.
pub fn strip_buffer_padding(data: &[u8]) -> (out: &[u8])
    ensures
        out@ == stripped(data@),
{
    let mut end: usize = data.len();
    while end > 0 && data[end - 1] == 0
        invariant
            end <= data@.len(),
            forall|i: int| end <= i < data@.len() ==> data@[i] == 0,
        decreases end,
    {
        end = end - 1;
    }
    proof {
        lemma_content_len_at(data@, end as int);
    }
    let partial: usize = end % BLOCK_LEN;
    let keep: usize = if partial == 0 {
        end
    } else if BLOCK_LEN - partial <= data.len() - end {
        end + (BLOCK_LEN - partial)
    } else {
        data.len()
    };
    slice_subrange(data, 0, keep)
}

/// Whether a frame would come whole out of a receive buffer: whether
/// nothing of it would be taken for the zero bytes behind a ciphertext.
/// A frame that ends in a block of zero bytes does not.
pub fn survives_stripping(frame: &[u8]) -> (whole: bool)
    ensures
        whole == (stripped(frame@) == frame@),
{
    let kept = strip_buffer_padding(frame);
    proof {
        lemma_content_len_bounds(frame@);
        if kept@.len() == frame@.len() {
            assert(stripped(frame@) =~= frame@);
        }
    }
    kept.len() == frame.len()
}

} // verus!
