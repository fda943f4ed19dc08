//! The UDP wire format of discovery messages.
//!
//! A packet is the magic word `dnet`, one byte for the message type
//! (`U` for an update, `R` for a removal) and a UTF-8 payload: the JSON text
//! of the sender's properties for an update, its instance name for a removal.

use vstd::prelude::*;
use vstd::utf8::*;
use vstd::string::*;

verus! {

/// Message type byte of an update message (`U`).
pub const MSG_TYPE_UPDATE: u8 = 85;

/// Message type byte of a removal message (`R`).
pub const MSG_TYPE_REMOVE: u8 = 82;

/// Number of bytes before the payload: the magic word and the type byte.
pub const HEADER_LEN: usize = 5;

/// The magic word `dnet` that starts every packet.
pub open spec fn magic_word() -> Seq<u8> {
    seq![100u8, 110u8, 101u8, 116u8]
}

/// The bytes of a packet of the given type and payload.
pub open spec fn frame(kind: u8, payload: Seq<u8>) -> Seq<u8> {
    magic_word().push(kind) + payload
}

/// A packet whose payload has been checked to be UTF-8.
///
/// The JSON text of an update is not interpreted here.
#[derive(Debug)]
pub enum UdpPacket {
    /// The JSON text of the sender's properties.
    Update(String),
    /// The instance name of a peer that shuts down.
    Remove(String),
}

/// The mathematical content of a packet.
pub enum PacketView {
    Update(Seq<char>),
    Remove(Seq<char>),
}

impl View for UdpPacket {
    type V = PacketView;

    open spec fn view(&self) -> PacketView {
        match self {
            UdpPacket::Update(s) => PacketView::Update(s@),
            UdpPacket::Remove(s) => PacketView::Remove(s@),
        }
    }
}

/// Why a packet with a known header was refused.
#[derive(Debug, Clone, Copy, PartialEq, Eq, Structural)]
pub enum PacketError {
    /// The payload of an update is not UTF-8.
    UpdateNotUtf8,
    /// The payload of a removal is not UTF-8.
    RemoveNotUtf8,
}

/// The bytes that encode a packet.
pub open spec fn spec_encode(p: PacketView) -> Seq<u8> {
    match p {
        PacketView::Update(json) => frame(MSG_TYPE_UPDATE, encode_utf8(json)),
        PacketView::Remove(name) => frame(MSG_TYPE_REMOVE, encode_utf8(name)),
    }
}

/// What receiving the given bytes yields: `Ok(None)` for a packet that is
/// ignored (too short, another magic word, an unknown type), an error for a
/// payload that is not UTF-8, and the packet otherwise.
pub open spec fn spec_decode(b: Seq<u8>) -> Result<Option<PacketView>, PacketError> {
    if b.len() < HEADER_LEN {
        Ok(None)
    } else if b.take(4) != magic_word() {
        Ok(None)
    } else {
        let payload = b.skip(5);
        if b[4] == MSG_TYPE_UPDATE {
            if valid_utf8(payload) {
                Ok(Some(PacketView::Update(decode_utf8(payload))))
            } else {
                Err(PacketError::UpdateNotUtf8)
            }
        } else if b[4] == MSG_TYPE_REMOVE {
            if valid_utf8(payload) {
                Ok(Some(PacketView::Remove(decode_utf8(payload))))
            } else {
                Err(PacketError::RemoveNotUtf8)
            }
        } else {
            Ok(None)
        }
    }
}

/// The view of a decoding result.
pub open spec fn decoded_view(r: Result<Option<UdpPacket>, PacketError>) -> Result<Option<PacketView>, PacketError> {
    match r {
        Ok(Some(p)) => Ok(Some(p@)),
        Ok(None) => Ok(None),
        Err(e) => Err(e),
    }
}

/// Reading the bytes of an encoded packet gives back that packet: a removal
/// carries its instance name, an update its JSON text, unchanged.
pub proof fn lemma_decode_encode(p: PacketView)
    ensures
        spec_decode(spec_encode(p)) == Ok::<Option<PacketView>, PacketError>(Some(p)),
{
    let (kind, text) = match p {
        PacketView::Update(t) => (MSG_TYPE_UPDATE, t),
        PacketView::Remove(t) => (MSG_TYPE_REMOVE, t),
    };
    let b = spec_encode(p);
    assert(b == frame(kind, encode_utf8(text)));
    assert(b.take(4) =~= magic_word());
    assert(b[4] == kind);
    assert(b.skip(5) =~= encode_utf8(text));
    encode_utf8_valid_utf8(text);
    encode_utf8_decode_utf8(text);
}

/// A packet that is read as a message is exactly the encoding of that
/// message: no other bytes are accepted for it.
pub proof fn lemma_encode_decode(b: Seq<u8>, p: PacketView)
    requires
        spec_decode(b) == Ok::<Option<PacketView>, PacketError>(Some(p)),
    ensures
        spec_encode(p) == b,
{
    let payload = b.skip(5);
    decode_utf8_encode_utf8(payload);
    assert(b.take(4) == magic_word());
    assert(b =~= magic_word().push(b[4]) + payload) by {
        assert(b =~= b.take(4).push(b[4]) + b.skip(5));
    }
}

/// `std::str::from_utf8`: its documentation says that it succeeds exactly
/// when the bytes are valid UTF-8, and that the string it gives back is
/// made of those bytes.
#[verifier::external_body]
fn str_from_utf8(bytes: &[u8]) -> (r: Option<&str>)
    ensures
        r is Some <==> valid_utf8(bytes@),
        r matches Some(s) ==> s.spec_bytes() == bytes@,
{
    std::str::from_utf8(bytes).ok()
}

/// Appends the bytes of `src` to `out`.
fn append_bytes(out: &mut Vec<u8>, src: &[u8])
    ensures
        final(out)@ == old(out)@ + src@,
{
    let ghost start = out@;
    let mut i: usize = 0;
    while i < src.len()
        invariant
            i <= src@.len(),
            out@ == start + src@.take(i as int),
        decreases src@.len() - i,
    {
        out.push(src[i]);
        i = i + 1;
        assert(out@ =~= start + src@.take(i as int));
    }
    assert(src@.take(src@.len() as int) =~= src@);
}

/// Builds a packet of the given type around the bytes of `payload`.
fn encode_frame(kind: u8, payload: &str) -> (r: Vec<u8>)
    ensures
        r@ == frame(kind, payload.spec_bytes()),
{
    let mut out: Vec<u8> = Vec::new();
    out.push(100u8);
    out.push(110u8);
    out.push(101u8);
    out.push(116u8);
    out.push(kind);
    append_bytes(&mut out, payload.as_bytes());
    assert(out@ =~= frame(kind, payload.spec_bytes()));
    out
}

/// Builds an update packet that carries the JSON text of a service's
/// properties.
pub fn encode_update(json: &str) -> (r: Vec<u8>)
    ensures
        r@ == spec_encode(PacketView::Update(json@)),
{
    encode_frame(MSG_TYPE_UPDATE, json)
}

/// Builds a removal packet that carries the instance name of a service
/// that shuts down.
pub fn encode_remove(instance: &str) -> (r: Vec<u8>)
    ensures
        r@ == spec_encode(PacketView::Remove(instance@)),
{
    encode_frame(MSG_TYPE_REMOVE, instance)
}

/// Reads a received packet.
pub fn decode_packet(data: &[u8]) -> (r: Result<Option<UdpPacket>, PacketError>)
    ensures
        decoded_view(r) == spec_decode(data@),
{
    if data.len() < HEADER_LEN {
        return Ok(None);
    }
    if !(data[0] == 100u8 && data[1] == 110u8 && data[2] == 101u8 && data[3] == 116u8) {
        assert(data@.take(4) != magic_word()) by {
            if data@.take(4) == magic_word() {
                assert(data@.take(4)[0] == data@[0]);
                assert(data@.take(4)[1] == data@[1]);
                assert(data@.take(4)[2] == data@[2]);
                assert(data@.take(4)[3] == data@[3]);
            }
        }
        return Ok(None);
    }
    assert(data@.take(4) =~= magic_word());
    let kind = data[4];
    if kind != MSG_TYPE_UPDATE && kind != MSG_TYPE_REMOVE {
        return Ok(None);
    }
    let (_, payload) = data.split_at(HEADER_LEN);
    assert(payload@ =~= data@.skip(5));
    match str_from_utf8(payload) {
        None => {
            if kind == MSG_TYPE_UPDATE {
                Err(PacketError::UpdateNotUtf8)
            } else {
                Err(PacketError::RemoveNotUtf8)
            }
        },
        Some(s) => {
            proof {
                encode_utf8_decode_utf8(s@);
            }
            let text = s.to_owned();
            if kind == MSG_TYPE_UPDATE {
                Ok(Some(UdpPacket::Update(text)))
            } else {
                Ok(Some(UdpPacket::Remove(text)))
            }
        },
    }
}

} // verus!
