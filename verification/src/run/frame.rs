//! Framing of messages on a connection: each message travels as a frame,
//! its length in four bytes, most significant first, and then its bytes.

use vstd::prelude::*;

verus! {

/// The number of bytes that give the length of a frame's payload.
pub const PREFIX_LENGTH: usize = 4;

/// The longest payload that a frame can carry.
pub const MAX_PAYLOAD: usize = 0xffff_ffff;

/// The four bytes that stand for `length`, most significant first.
pub open spec fn prefix_of(length: nat) -> Seq<u8>
    recommends
        length <= MAX_PAYLOAD,
{
    seq![
        (length / 0x100_0000) as u8,
        (length / 0x1_0000 % 0x100) as u8,
        (length / 0x100 % 0x100) as u8,
        (length % 0x100) as u8,
    ]
}

/// The length that the first four bytes of `buffer` stand for.
pub open spec fn length_in(buffer: Seq<u8>) -> nat
    recommends
        buffer.len() >= PREFIX_LENGTH,
{
    (buffer[0] * 0x100_0000 + buffer[1] * 0x1_0000 + buffer[2] * 0x100 + buffer[3]) as nat
}

/// The frame that carries `payload`.
pub open spec fn framed(payload: Seq<u8>) -> Seq<u8>
    recommends
        payload.len() <= MAX_PAYLOAD,
{
    prefix_of(payload.len()) + payload
}

/// Whether `buffer` starts with a whole frame.
pub open spec fn starts_with_frame(buffer: Seq<u8>) -> bool {
    buffer.len() >= PREFIX_LENGTH && buffer.len() >= PREFIX_LENGTH + length_in(buffer)
}

/// The payload of the frame that `buffer` starts with.
pub open spec fn first_payload(buffer: Seq<u8>) -> Seq<u8>
    recommends
        starts_with_frame(buffer),
{
    buffer.subrange(PREFIX_LENGTH as int, PREFIX_LENGTH + length_in(buffer))
}

/// Puts `payload` in a frame. A payload whose length does not fit in four
/// bytes gets none.
pub fn frame(payload: &Vec<u8>) -> (res: Option<Vec<u8>>)
    ensures
        match res {
            Some(bytes) => payload@.len() <= MAX_PAYLOAD && bytes@ == framed(payload@),
            None => payload@.len() > MAX_PAYLOAD,
        },
{
    let length = payload.len();
    if length > MAX_PAYLOAD {
        return None;
    }
    let mut bytes: Vec<u8> = Vec::new();
    bytes.push((length / 0x100_0000) as u8);
    bytes.push((length / 0x1_0000 % 0x100) as u8);
    bytes.push((length / 0x100 % 0x100) as u8);
    bytes.push((length % 0x100) as u8);
    assert(bytes@ =~= prefix_of(length as nat));
    let mut i: usize = 0;
    while i < length
        invariant
            i <= length == payload@.len(),
            bytes@ == prefix_of(length as nat) + payload@.subrange(0, i as int),
        decreases length - i,
    {
        bytes.push(payload[i]);
        assert(bytes@ =~= prefix_of(length as nat) + payload@.subrange(0, i + 1));
        i = i + 1;
    }
    assert(payload@.subrange(0, length as int) =~= payload@);
    Some(bytes)
}

/// Takes the first frame out of what was read so far: its payload and the
/// number of bytes that the frame takes in `buffer`. There is none while
/// the frame is not whole.
pub fn unframe(buffer: &Vec<u8>) -> (res: Option<(Vec<u8>, usize)>)
    ensures
        match res {
            Some((payload, taken)) => {
                &&& starts_with_frame(buffer@)
                &&& payload@ == first_payload(buffer@)
                &&& taken == PREFIX_LENGTH + length_in(buffer@)
            },
            None => !starts_with_frame(buffer@),
        },
{
    if buffer.len() < PREFIX_LENGTH {
        return None;
    }
    let b0: u64 = buffer[0] as u64;
    let b1: u64 = buffer[1] as u64;
    let b2: u64 = buffer[2] as u64;
    let b3: u64 = buffer[3] as u64;
    let length: u64 = b0 * 0x100_0000 + b1 * 0x1_0000 + b2 * 0x100 + b3;
    let left = buffer.len() - PREFIX_LENGTH;
    if length > left as u64 {
        return None;
    }
    let length = length as usize;
    let mut payload: Vec<u8> = Vec::new();
    let mut i: usize = 0;
    while i < length
        invariant
            i <= length,
            PREFIX_LENGTH + length <= buffer.len(),
            payload@ == buffer@.subrange(PREFIX_LENGTH as int, PREFIX_LENGTH + i),
        decreases length - i,
    {
        payload.push(buffer[PREFIX_LENGTH + i]);
        assert(payload@ =~= buffer@.subrange(PREFIX_LENGTH as int, PREFIX_LENGTH + i + 1));
        i = i + 1;
    }
    Some((payload, PREFIX_LENGTH + length))
}

/// What is put in a frame comes out of it unchanged, whatever follows the
/// frame: the payload is the first payload of the frame followed by `rest`,
/// and the frame is what is taken.
pub proof fn law_frame_round_trip(payload: Seq<u8>, rest: Seq<u8>)
    requires
        payload.len() <= MAX_PAYLOAD,
    ensures
        starts_with_frame(framed(payload) + rest),
        first_payload(framed(payload) + rest) == payload,
        PREFIX_LENGTH + length_in(framed(payload) + rest) == framed(payload).len(),
{
    let buffer = framed(payload) + rest;
    let length = payload.len();
    assert(buffer[0] == prefix_of(length)[0]);
    assert(buffer[1] == prefix_of(length)[1]);
    assert(buffer[2] == prefix_of(length)[2]);
    assert(buffer[3] == prefix_of(length)[3]);
    assert(length_in(buffer) == length) by (nonlinear_arith)
        requires
            length <= 0xffff_ffff,
            buffer[0] == (length / 0x100_0000) as u8,
            buffer[1] == (length / 0x1_0000 % 0x100) as u8,
            buffer[2] == (length / 0x100 % 0x100) as u8,
            buffer[3] == (length % 0x100) as u8,
            length_in(buffer) == (buffer[0] * 0x100_0000 + buffer[1] * 0x1_0000 + buffer[2] * 0x100
                + buffer[3]) as nat,
    ;
    assert(first_payload(buffer) =~= payload);
}

} // verus!
