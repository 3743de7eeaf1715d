use vstd::prelude::*;

verus! {

/// Bytes of the length prefix of a frame.
pub const HEADER_LEN: usize = 8;

/// Byte `k` (0 = most significant) of the big-endian encoding of `n`.
pub open spec fn be_byte(n: u64, k: int) -> u8 {
    ((n >> ((56 - 8 * k) as u64)) & 0xffu64) as u8
}

/// The big-endian encoding of `n` in eight bytes.
pub open spec fn be_bytes(n: u64) -> Seq<u8> {
    Seq::new(8, |k: int| be_byte(n, k))
}

/// The number that eight big-endian bytes encode.
pub open spec fn be_value(b: Seq<u8>) -> u64 {
    (b[0] as u64) << 56u64 | (b[1] as u64) << 48u64 | (b[2] as u64) << 40u64 | (b[3] as u64) << 32u64
        | (b[4] as u64) << 24u64 | (b[5] as u64) << 16u64 | (b[6] as u64) << 8u64 | (b[7] as u64)
}

/// A frame: the payload's length as a big-endian `u64`, then the payload.
pub open spec fn framed(payload: Seq<u8>) -> Seq<u8> {
    be_bytes(payload.len() as u64) + payload
}

/// What a byte stream that starts with a frame yields: the payload and the
/// number of bytes the frame takes, or nothing when the header or the
/// payload is incomplete.
pub open spec fn unframed(bytes: Seq<u8>) -> Option<(Seq<u8>, int)> {
    if bytes.len() < HEADER_LEN {
        None
    } else {
        let n = be_value(bytes.subrange(0, 8));
        if n > bytes.len() - HEADER_LEN {
            None
        } else {
            Some((bytes.subrange(8, 8 + n), 8 + n))
        }
    }
}

/// Frames a payload for the peer stream.
pub fn encode_frame(payload: &[u8]) -> (r: Vec<u8>)
    ensures
        r@ == framed(payload@),
{
    let n = payload.len() as u64;
    let mut r: Vec<u8> = Vec::new();
    let mut k: usize = 0;
    while k < HEADER_LEN
        invariant
            k <= HEADER_LEN,
            n == payload@.len(),
            r@ == be_bytes(n).subrange(0, k as int),
        decreases HEADER_LEN - k,
    {
        let shift = (56 - 8 * k) as u64;
        r.push(((n >> shift) & 0xff) as u8);
        proof {
            assert(r@ =~= be_bytes(n).subrange(0, k + 1));
        }
        k += 1;
    }
    let mut j: usize = 0;
    while j < payload.len()
        invariant
            j <= payload@.len(),
            r@ == be_bytes(n) + payload@.subrange(0, j as int),
        decreases payload@.len() - j,
    {
        r.push(payload[j]);
        proof {
            assert(r@ =~= be_bytes(n) + payload@.subrange(0, j + 1));
        }
        j += 1;
    }
    proof {
        assert(r@ =~= framed(payload@));
    }
    r
}

/// The payload length that an eight-byte header announces; nothing when
/// fewer than eight bytes are given.
pub fn frame_length(header: &[u8]) -> (r: Option<u64>)
    ensures
        r == if header@.len() < HEADER_LEN {
            None
        } else {
            Some(be_value(header@.subrange(0, 8)))
        },
{
    if header.len() < HEADER_LEN {
        return None;
    }
    let v = (header[0] as u64) << 56u64 | (header[1] as u64) << 48u64 | (header[2] as u64) << 40u64 | (
    header[3] as u64) << 32u64 | (header[4] as u64) << 24u64 | (header[5] as u64) << 16u64 | (header[6] as u64)
        << 8u64 | (header[7] as u64);
    Some(v)
}

/// Splits the frame at the start of `bytes` into its payload and the number
/// of bytes it takes; nothing when the frame is truncated.
pub fn decode_frame(bytes: &[u8]) -> (r: Option<(Vec<u8>, usize)>)
    ensures
        match (r, unframed(bytes@)) {
            (Some((p, used)), Some((q, n))) => p@ == q && used == n,
            (None, None) => true,
            _ => false,
        },
{
    let n = match frame_length(bytes) {
        Some(n) => n,
        None => return None,
    };
    if n > (bytes.len() - HEADER_LEN) as u64 {
        return None;
    }
    let end = HEADER_LEN + n as usize;
    let payload = vstd::slice::slice_to_vec(&bytes[HEADER_LEN..end]);
    Some((payload, end))
}

/// Round trip: the frame of any payload decodes to that payload and is
/// consumed whole.
pub proof fn lemma_frame_round_trip(payload: Seq<u8>)
    requires
        payload.len() <= u64::MAX,
    ensures
        unframed(framed(payload)) == Some((payload, framed(payload).len() as int)),
        framed(payload).len() == HEADER_LEN + payload.len(),
{
    let n = payload.len() as u64;
    let f = framed(payload);
    assert(f.subrange(0, 8) =~= be_bytes(n));
    assert(be_value(be_bytes(n)) == n) by {
        let b0 = be_byte(n, 0);
        let b1 = be_byte(n, 1);
        let b2 = be_byte(n, 2);
        let b3 = be_byte(n, 3);
        let b4 = be_byte(n, 4);
        let b5 = be_byte(n, 5);
        let b6 = be_byte(n, 6);
        let b7 = be_byte(n, 7);
        assert((((n >> 56u64) & 0xffu64) as u8 as u64) << 56u64 | (((n >> 48u64) & 0xffu64) as u8 as u64)
            << 48u64 | (((n >> 40u64) & 0xffu64) as u8 as u64) << 40u64 | (((n >> 32u64) & 0xffu64) as u8
            as u64) << 32u64 | (((n >> 24u64) & 0xffu64) as u8 as u64) << 24u64 | (((n >> 16u64)
            & 0xffu64) as u8 as u64) << 16u64 | (((n >> 8u64) & 0xffu64) as u8 as u64) << 8u64 | (((n
            >> 0u64) & 0xffu64) as u8 as u64) == n) by (bit_vector);
    }
    assert(f.subrange(8, 8 + n) =~= payload);
}

} // verus!
