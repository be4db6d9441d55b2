//! Stream framing: each message crosses the wire as a four-byte big-endian
//! length followed by that many bytes. A connection buffer accumulates
//! partial reads and yields only complete frames.

use vstd::prelude::*;

verus! {

/// The value of a four-byte big-endian length header.
pub open spec fn be32(b0: u8, b1: u8, b2: u8, b3: u8) -> int {
    b0 * 0x100_0000 + b1 * 0x1_0000 + b2 * 0x100 + b3
}

/// Splits a connection buffer into its complete frames and the remainder:
/// frames are peeled off the front while a whole header and payload are
/// there; the tail that is still incomplete stays.
pub open spec fn frame_split(buffer: Seq<u8>) -> (Seq<Seq<u8>>, Seq<u8>)
    decreases buffer.len(),
{
    if buffer.len() < 4 {
        (Seq::empty(), buffer)
    } else {
        let mlen = be32(buffer[0], buffer[1], buffer[2], buffer[3]);
        if buffer.len() - 4 < mlen {
            (Seq::empty(), buffer)
        } else {
            let rest = frame_split(buffer.skip(4 + mlen));
            (seq![buffer.subrange(4, 4 + mlen)] + rest.0, rest.1)
        }
    }
}

/// The deep content of a list of frames.
pub open spec fn frames_view(frames: Seq<Vec<u8>>) -> Seq<Seq<u8>> {
    frames.map_values(|f: Vec<u8>| f@)
}

/// Takes every complete frame off the front of the buffer, leaving the
/// incomplete tail in place.
pub fn extract_frames(buffer: &mut Vec<u8>) -> (frames: Vec<Vec<u8>>)
    ensures
        (frames_view(frames@), final(buffer)@) == frame_split(old(buffer)@),
{
    let ghost orig = buffer@;
    let mut frames: Vec<Vec<u8>> = Vec::new();
    proof {
        assert(frames_view(frames@) =~= Seq::<Seq<u8>>::empty());
    }
    loop
        invariant
            frame_split(orig).0 =~= frames_view(frames@) + frame_split(buffer@).0,
            frame_split(orig).1 == frame_split(buffer@).1,
        ensures
            frame_split(orig).0 =~= frames_view(frames@),
            frame_split(orig).1 == buffer@,
        decreases buffer@.len(),
    {
        if buffer.len() < 4 {
            proof {
                assert(frame_split(buffer@).0 =~= Seq::<Seq<u8>>::empty());
                assert(frames_view(frames@) + frame_split(buffer@).0 =~= frames_view(frames@));
            }
            break ;
        }
        let b0 = buffer[0];
        let b1 = buffer[1];
        let b2 = buffer[2];
        let b3 = buffer[3];
        let mlen: usize = (b0 as usize) * 0x100_0000 + (b1 as usize) * 0x1_0000 + (b2 as usize)
            * 0x100 + (b3 as usize);
        if buffer.len() - 4 < mlen {
            proof {
                assert(frame_split(buffer@).0 =~= Seq::<Seq<u8>>::empty());
                assert(frames_view(frames@) + frame_split(buffer@).0 =~= frames_view(frames@));
            }
            break ;
        }
        let ghost before = buffer@;
        let mut message: Vec<u8> = Vec::new();
        let mut i: usize = 4;
        while i < 4 + mlen
            invariant
                4 <= i <= 4 + mlen,
                buffer@ == before,
                buffer@.len() >= 4 + mlen,
                mlen + 4 <= usize::MAX,
                message@ =~= before.subrange(4, i as int),
            decreases 4 + mlen - i,
        {
            message.push(buffer[i]);
            i = i + 1;
        }
        let mut rest: Vec<u8> = Vec::new();
        let mut i: usize = 4 + mlen;
        while i < buffer.len()
            invariant
                4 + mlen <= i <= buffer@.len(),
                buffer@ == before,
                buffer@.len() >= 4 + mlen,
                mlen + 4 <= usize::MAX,
                rest@ =~= before.subrange(4 + mlen as int, i as int),
            decreases buffer@.len() - i,
        {
            rest.push(buffer[i]);
            i = i + 1;
        }
        proof {
            assert(message@ =~= before.subrange(4, 4 + mlen as int));
            assert(rest@ =~= before.skip(4 + mlen as int));
            assert(frame_split(before).0 =~= seq![before.subrange(4, 4 + mlen as int)]
                + frame_split(before.skip(4 + mlen as int)).0);
        }
        *buffer = rest;
        frames.push(message);
        proof {
            assert(frames_view(frames@) =~= frames_view(frames@.drop_last()) + seq![
                before.subrange(4, 4 + mlen as int),
            ]);
            assert(frames_view(frames@) + frame_split(buffer@).0 =~= frames_view(
                frames@.drop_last(),
            ) + (seq![before.subrange(4, 4 + mlen as int)] + frame_split(buffer@).0));
        }
    }
    proof {
        assert((frames_view(frames@), buffer@) == frame_split(orig));
    }
    frames
}

/// Wraps one message for the wire: its length as four big-endian bytes, then
/// its bytes.
pub fn encode_frame(message: &Vec<u8>) -> (r: Vec<u8>)
    requires
        message@.len() <= 0xFFFF_FFFF,
    ensures
        r@.len() == message@.len() + 4,
        be32(r@[0], r@[1], r@[2], r@[3]) == message@.len(),
        r@.subrange(4, r@.len() as int) == message@,
{
    let len: usize = message.len();
    let mut out: Vec<u8> = Vec::new();
    let b0: u8 = (len / 0x100_0000 % 0x100) as u8;
    let b1: u8 = (len / 0x1_0000 % 0x100) as u8;
    let b2: u8 = (len / 0x100 % 0x100) as u8;
    let b3: u8 = (len % 0x100) as u8;
    out.push(b0);
    out.push(b1);
    out.push(b2);
    out.push(b3);
    proof {
        assert(b0 == len as int / 0x100_0000 % 0x100 && b1 == len as int / 0x1_0000 % 0x100 && b2
            == len as int / 0x100 % 0x100 && b3 == len as int % 0x100);
        lemma_be32_round_trip(len as int);
    }
    let mut i: usize = 0;
    while i < message.len()
        invariant
            0 <= i <= message@.len(),
            out@.len() == i + 4,
            out@.subrange(0, 4) =~= seq![b0, b1, b2, b3],
            out@.subrange(4, out@.len() as int) =~= message@.subrange(0, i as int),
        decreases message@.len() - i,
    {
        out.push(message[i]);
        i = i + 1;
    }
    proof {
        assert(out@.subrange(4, out@.len() as int) =~= message@);
        assert(out@[0] == b0 && out@[1] == b1 && out@[2] == b2 && out@[3] == b3);
    }
    out
}

/// The four big-endian bytes of a length put its value back together.
proof fn lemma_be32_round_trip(len: int)
    requires
        0 <= len <= 0xFFFF_FFFF,
    ensures
        (len / 0x100_0000 % 0x100) * 0x100_0000 + (len / 0x1_0000 % 0x100) * 0x1_0000 + (len
            / 0x100 % 0x100) * 0x100 + len % 0x100 == len,
{
    assert((len / 0x100_0000 % 0x100) * 0x100_0000 + (len / 0x1_0000 % 0x100) * 0x1_0000 + (len
        / 0x100 % 0x100) * 0x100 + len % 0x100 == len) by (nonlinear_arith)
        requires
            0 <= len <= 0xFFFF_FFFF,
    ;
}

/// A frame on the front of a buffer is peeled off exactly: framing and
/// splitting round-trip.
pub proof fn lemma_frame_round_trip(message: Seq<u8>, encoded: Seq<u8>, rest: Seq<u8>)
    requires
        message.len() <= 0xFFFF_FFFF,
        encoded.len() == message.len() + 4,
        be32(encoded[0], encoded[1], encoded[2], encoded[3]) == message.len(),
        encoded.subrange(4, encoded.len() as int) == message,
    ensures
        frame_split(encoded + rest).0 =~= seq![message] + frame_split(rest).0,
        frame_split(encoded + rest).1 == frame_split(rest).1,
{
    let whole = encoded + rest;
    assert(whole.len() >= 4);
    assert(whole[0] == encoded[0] && whole[1] == encoded[1] && whole[2] == encoded[2] && whole[3]
        == encoded[3]);
    let mlen = be32(whole[0], whole[1], whole[2], whole[3]);
    assert(mlen == message.len());
    assert(whole.len() - 4 >= mlen);
    assert(whole.subrange(4, 4 + mlen) =~= message) by {
        assert(forall|i: int|
            0 <= i < mlen ==> whole.subrange(4, 4 + mlen)[i] == encoded.subrange(
                4,
                encoded.len() as int,
            )[i]);
    }
    assert(whole.skip(4 + mlen) =~= rest);
}


/// The value of a two-byte big-endian extended length.
pub open spec fn be16(b0: u8, b1: u8) -> int {
    b0 * 0x100 + b1
}

/// The value of the eight-byte big-endian extended length at `i`.
pub open spec fn be64(b: Seq<u8>, i: int) -> int {
    b[i] * 0x100_0000_0000_0000 + b[i + 1] * 0x1_0000_0000_0000 + b[i + 2] * 0x100_0000_0000 + b[i
        + 3] * 0x1_0000_0000 + b[i + 4] * 0x100_0000 + b[i + 5] * 0x1_0000 + b[i + 6] * 0x100 + b[i
        + 7]
}

/// The complete client frame at the front of `b` once its header is read:
/// after the four mask bytes at `off` come `len` payload bytes, each unmasked
/// with its quarter of the mask.
pub open spec fn ws_frame_at(b: Seq<u8>, opcode: u8, len: int, off: int) -> Option<
    (int, u8, Seq<u8>),
> {
    if b.len() < off + 4 + len {
        None
    } else {
        Some((off + 4 + len, opcode, Seq::new(len as nat, |i: int| b[off + 4 + i] ^ b[off + i % 4])))
    }
}

/// Splits one complete client frame off the front of the buffer, by the
/// WebSocket wire format: the frame must be final (no continuations), free of
/// extension bits and masked, its payload length in the 7-, 16- or 64-bit
/// form; the bytes consumed, the opcode and the unmasked payload come back.
/// `None` stands for a buffer whose front is no such frame, or not yet one.
pub open spec fn ws_frame_split(b: Seq<u8>) -> Option<(int, u8, Seq<u8>)> {
    if b.len() < 2 {
        None
    } else if b[0] & 0x80 == 0 {
        None
    } else if b[0] & 0x70 != 0 {
        None
    } else if b[1] & 0x80 == 0 {
        None
    } else {
        let opcode = b[0] & 0x0f;
        let raw = b[1] & 0x7f;
        if raw <= 125 {
            ws_frame_at(b, opcode, raw as int, 2)
        } else if raw == 126 {
            if b.len() < 4 {
                None
            } else {
                ws_frame_at(b, opcode, be16(b[2], b[3]), 4)
            }
        } else {
            if b.len() < 10 {
                None
            } else {
                ws_frame_at(b, opcode, be64(b, 2), 10)
            }
        }
    }
}

/// Parses one complete client frame off the front of the buffer.
pub fn ws_read_frame(buffer: &Vec<u8>) -> (r: Option<(usize, u8, Vec<u8>)>)
    ensures
        match r {
            Some(f) => ws_frame_split(buffer@) == Some((f.0 as int, f.1, f.2@)),
            None => ws_frame_split(buffer@) is None,
        },
{
    if buffer.len() < 2 {
        return None;
    }
    let b0 = buffer[0];
    let b1 = buffer[1];
    if b0 & 0x80 == 0 {
        return None;
    }
    if b0 & 0x70 != 0 {
        return None;
    }
    if b1 & 0x80 == 0 {
        return None;
    }
    let opcode = b0 & 0x0f;
    let raw = b1 & 0x7f;
    let len: u64;
    let off: usize;
    if raw <= 125 {
        len = raw as u64;
        off = 2;
    } else if raw == 126 {
        if buffer.len() < 4 {
            return None;
        }
        len = (buffer[2] as u64) * 0x100 + (buffer[3] as u64);
        off = 4;
    } else {
        if buffer.len() < 10 {
            return None;
        }
        len = (buffer[2] as u64) * 0x100_0000_0000_0000 + (buffer[3] as u64) * 0x1_0000_0000_0000
            + (buffer[4] as u64) * 0x100_0000_0000 + (buffer[5] as u64) * 0x1_0000_0000 + (
        buffer[6] as u64) * 0x100_0000 + (buffer[7] as u64) * 0x1_0000 + (buffer[8] as u64) * 0x100
            + (buffer[9] as u64);
        off = 10;
    }
    if (buffer.len() as u128) < (off as u128) + 4 + (len as u128) {
        return None;
    }
    proof {
        assert(len <= buffer@.len());
    }
    let len_us: usize = len as usize;
    let blen: usize = buffer.len();
    let mut payload: Vec<u8> = Vec::new();
    let mut i: usize = 0;
    while i < len_us
        invariant
            0 <= i <= len_us,
            len_us as u64 == len,
            blen == buffer@.len(),
            off + 4 + len_us <= blen,
            payload@.len() == i,
            forall|j: int|
                0 <= j < i ==> (#[trigger] payload@[j]) == (buffer@[off + 4 + j] ^ buffer@[off + j
                    % 4]),
        decreases len_us - i,
    {
        let m = buffer[off + (i % 4)];
        payload.push(buffer[off + 4 + i] ^ m);
        i = i + 1;
    }
    proof {
        assert(payload@ =~= Seq::new(
            len as nat,
            |j: int| buffer@[off + 4 + j] ^ buffer@[off + j % 4],
        ));
    }
    Some((off + 4 + len_us, opcode, payload))
}

} // verus!

