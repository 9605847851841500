//! Delivery handles: what the destination gave back for a post that was
//! sent, as it is kept between rounds.
//!
//! A handle is sixteen bytes: the id of the channel as eight bytes, then the
//! id of the message as eight bytes, both big-endian and in two's complement.

use vstd::prelude::*;

verus! {

/// The eight bytes of `x`, most significant first.
pub open spec fn be_bytes(x: i64) -> Seq<u8> {
    let u = x as u64;
    seq![
        (u >> 56) as u8,
        (u >> 48) as u8,
        (u >> 40) as u8,
        (u >> 32) as u8,
        (u >> 24) as u8,
        (u >> 16) as u8,
        (u >> 8) as u8,
        u as u8,
    ]
}

/// The number that eight bytes write, most significant first.
pub open spec fn from_be_bytes(b: Seq<u8>) -> i64 {
    ((b[0] as u64) << 56 | (b[1] as u64) << 48 | (b[2] as u64) << 40 | (b[3] as u64) << 32 | (
    b[4] as u64) << 24 | (b[5] as u64) << 16 | (b[6] as u64) << 8 | (b[7] as u64)) as i64
}

/// The handle of message `msg_id` in channel `chat_id`.
pub open spec fn handle_of(chat_id: i64, msg_id: i32) -> Seq<u8> {
    be_bytes(chat_id) + be_bytes(msg_id as i64)
}

/// The channel and the message that a handle of sixteen bytes names. Of the
/// message id the low four bytes count.
pub open spec fn ids_of(handle: Seq<u8>) -> (i64, i32) {
    (from_be_bytes(handle.subrange(0, 8)), from_be_bytes(handle.subrange(8, 16)) as i32)
}

/// Eight bytes written from a number read back as that number.
pub proof fn lemma_be_bytes_round_trip(x: i64)
    ensures
        be_bytes(x).len() == 8,
        from_be_bytes(be_bytes(x)) == x,
{
    let u = x as u64;
    assert((((u >> 56) as u8 as u64) << 56 | ((u >> 48) as u8 as u64) << 48 | ((u >> 40) as u8
        as u64) << 40 | ((u >> 32) as u8 as u64) << 32 | ((u >> 24) as u8 as u64) << 24 | ((u
        >> 16) as u8 as u64) << 16 | ((u >> 8) as u8 as u64) << 8 | (u as u8 as u64)) == u)
        by (bit_vector);
    assert((x as u64) as i64 == x) by (bit_vector);
}

/// A handle names the channel and the message that it was made of.
pub proof fn lemma_handle_round_trip(chat_id: i64, msg_id: i32)
    ensures
        handle_of(chat_id, msg_id).len() == 16,
        ids_of(handle_of(chat_id, msg_id)) == (chat_id, msg_id),
{
    let h = handle_of(chat_id, msg_id);
    lemma_be_bytes_round_trip(chat_id);
    lemma_be_bytes_round_trip(msg_id as i64);
    assert(h.subrange(0, 8) =~= be_bytes(chat_id));
    assert(h.subrange(8, 16) =~= be_bytes(msg_id as i64));
    assert((msg_id as i64) as i32 == msg_id) by (bit_vector);
}

fn push_be_bytes(out: &mut Vec<u8>, x: i64)
    ensures
        final(out)@ == old(out)@ + be_bytes(x),
{
    let u = x as u64;
    out.push((u >> 56) as u8);
    out.push((u >> 48) as u8);
    out.push((u >> 40) as u8);
    out.push((u >> 32) as u8);
    out.push((u >> 24) as u8);
    out.push((u >> 16) as u8);
    out.push((u >> 8) as u8);
    out.push(u as u8);
    assert(out@ =~= old(out)@ + be_bytes(x));
}

fn read_be_bytes(b: &[u8], at: usize) -> (x: i64)
    requires
        at + 8 <= b@.len(),
    ensures
        x == from_be_bytes(b@.subrange(at as int, at + 8)),
{
    let u: u64 = (b[at] as u64) << 56 | (b[at + 1] as u64) << 48 | (b[at + 2] as u64) << 40 | (
    b[at + 3] as u64) << 32 | (b[at + 4] as u64) << 24 | (b[at + 5] as u64) << 16 | (b[at
        + 6] as u64) << 8 | (b[at + 7] as u64);
    u as i64
}

/// The handle of message `msg_id` in channel `chat_id`.
pub fn ser_tg_msg_id(chat_id: i64, msg_id: i32) -> (handle: Vec<u8>)
    ensures
        handle@ == handle_of(chat_id, msg_id),
        handle@.len() == 16,
{
    let mut handle: Vec<u8> = Vec::new();
    push_be_bytes(&mut handle, chat_id);
    push_be_bytes(&mut handle, msg_id as i64);
    handle
}

/// The channel and the message that a handle names.
pub fn de_tg_msg_id(id: &[u8]) -> (ids: (i64, i32))
    requires
        id@.len() == 16,
    ensures
        ids == ids_of(id@),
{
    let chat_id = read_be_bytes(id, 0);
    let msg_id = read_be_bytes(id, 8) as i32;
    (chat_id, msg_id)
}

} // verus!
