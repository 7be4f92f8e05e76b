use vstd::prelude::*;
use arrayvec::ArrayVec;
use arrayvec::CapacityError;
use pnet::packet::ethernet::{EtherTypes, MutableEthernetPacket};
use pnet::util::MacAddr;
use crate::error::WolError;

verus! {

#[verifier::external_type_specification]
#[verifier::external_body]
#[verifier::reject_recursive_types(T)]
pub struct ExArrayVec<T, const CAP: usize>(ArrayVec<T, CAP>);

#[verifier::external_type_specification]
#[verifier::external_body]
#[verifier::reject_recursive_types(T)]
pub struct ExCapacityError<T>(CapacityError<T>);

/// The bytes held by a frame buffer, in order.
pub uninterp spec fn frame_bytes(v: ArrayVec<u8, 122>) -> Seq<u8>;

/// Relies on `ArrayVec::new`: a new buffer holds nothing.
#[verifier::external_body]
fn new_buffer() -> (r: ArrayVec<u8, 122>)
    ensures
        frame_bytes(r) == Seq::<u8>::empty(),
{
    ArrayVec::new()
}

/// Relies on `ArrayVec::try_extend_from_slice`: the slice is appended when it
/// fits in the remaining capacity, and nothing changes otherwise.
#[verifier::external_body]
fn append_bytes(v: &mut ArrayVec<u8, 122>, s: &[u8]) -> (r: Result<(), CapacityError>)
    ensures
        frame_bytes(*old(v)).len() + s@.len() <= 122 <==> r is Ok,
        r is Ok ==> frame_bytes(*final(v)) == frame_bytes(*old(v)) + s@,
        r is Err ==> frame_bytes(*final(v)) == frame_bytes(*old(v)),
{
    v.try_extend_from_slice(s)
}

/// Relies on pnet's `MutableEthernetPacket`: `new` opens a view on a buffer
/// of at least 14 bytes and refuses a shorter one; `set_destination`,
/// `set_source` and `set_ethertype` write bytes 0 to 5, 6 to 11, and 12 to 13
/// (big-endian), leaving the rest as it was.
#[verifier::external_body]
fn write_ethernet_header(v: &mut ArrayVec<u8, 122>, dst: [u8; 6], src: [u8; 6]) -> (r: bool)
    ensures
        r == (frame_bytes(*old(v)).len() >= 14),
        r ==> frame_bytes(*final(v)) == ethernet_header(dst@, src@) + frame_bytes(*old(v)).skip(
            14,
        ),
        !r ==> frame_bytes(*final(v)) == frame_bytes(*old(v)),
{
    match MutableEthernetPacket::new(&mut v[..]) {
        Some(mut p) => {
            p.set_destination(MacAddr::new(dst[0], dst[1], dst[2], dst[3], dst[4], dst[5]));
            p.set_source(MacAddr::new(src[0], src[1], src[2], src[3], src[4], src[5]));
            p.set_ethertype(EtherTypes::WakeOnLan);
            true
        },
        None => false,
    }
}

/// The Wake-on-LAN EtherType, 0x0842, as it stands on the wire.
pub open spec fn ethertype_bytes() -> Seq<u8> {
    seq![0x08u8, 0x42u8]
}

/// Six bytes of 0xFF that open every magic payload.
pub open spec fn sync_stream() -> Seq<u8> {
    Seq::new(6, |i: int| 0xFFu8)
}

/// `mac` written `n` times in a row.
pub open spec fn mac_repeat(mac: Seq<u8>, n: nat) -> Seq<u8> {
    Seq::new(6 * n, |i: int| mac[i % 6])
}

/// The magic payload: the synchronization stream, the target address sixteen
/// times, then the password bytes, if any.
pub open spec fn magic_payload(target: Seq<u8>, secret: Seq<u8>) -> Seq<u8> {
    sync_stream() + mac_repeat(target, 16) + secret
}

/// An Ethernet header addressed to `dst` from `src`, of type Wake-on-LAN.
pub open spec fn ethernet_header(dst: Seq<u8>, src: Seq<u8>) -> Seq<u8> {
    dst + src + ethertype_bytes()
}

/// The whole frame that wakes `target`, sent from `source`.
pub open spec fn magic_frame(target: Seq<u8>, source: Seq<u8>, secret: Seq<u8>) -> Seq<u8> {
    ethernet_header(target, source) + magic_payload(target, secret)
}

proof fn lemma_mac_repeat_step(mac: Seq<u8>, n: nat)
    requires
        mac.len() == 6,
    ensures
        mac_repeat(mac, n + 1) == mac_repeat(mac, n) + mac,
{
    assert forall|i: int| 6 * n <= i < 6 * n + 6 implies #[trigger] (i % 6) == i - 6 * n by {
        assert(i % 6 == i - 6 * n) by (nonlinear_arith)
            requires
                6 * n <= i < 6 * n + 6,
        ;
    }
    assert(mac_repeat(mac, n + 1) =~= mac_repeat(mac, n) + mac);
}

/// Builds the Wake-on-LAN frame for `target`, sent from `source`, with
/// `secret` appended after the payload. The frame buffer holds at most six
/// password bytes; a longer secret does not fit and is refused.
pub fn frame_with_secret(target: [u8; 6], source: [u8; 6], secret: &[u8]) -> (r: Result<
    ArrayVec<u8, 122>,
    WolError,
>)
    ensures
        r is Ok <==> secret@.len() <= 6,
        r matches Ok(f) ==> frame_bytes(f) == magic_frame(target@, source@, secret@),
        r is Err ==> r == Err::<ArrayVec<u8, 122>, WolError>(WolError::FrameTooSmall),
{
    let mut pkt = new_buffer();
    let blank: [u8; 14] = [0; 14];
    let sync: [u8; 6] = [0xff; 6];
    let _ = append_bytes(&mut pkt, &blank);
    let _ = append_bytes(&mut pkt, &sync);
    assert(frame_bytes(pkt) == blank@ + sync_stream()) by {
        assert(sync@ =~= sync_stream());
    }
    let mut k: usize = 0;
    while k < 16
        invariant
            k <= 16,
            frame_bytes(pkt) == blank@ + sync_stream() + mac_repeat(target@, k as nat),
        decreases 16 - k,
    {
        proof {
            lemma_mac_repeat_step(target@, k as nat);
        }
        let _ = append_bytes(&mut pkt, &target);
        assert(frame_bytes(pkt) =~= blank@ + sync_stream() + mac_repeat(target@, (k + 1) as nat));
        k = k + 1;
    }
    let tail = append_bytes(&mut pkt, secret);
    if tail.is_err() {
        return Err(WolError::FrameTooSmall);
    }
    assert(frame_bytes(pkt) == blank@ + magic_payload(target@, secret@));
    if !write_ethernet_header(&mut pkt, target, source) {
        return Err(WolError::FrameTooSmall);
    }
    assert(frame_bytes(pkt) =~= magic_frame(target@, source@, secret@));
    Ok(pkt)
}

/// Without a password the payload is 102 bytes: six bytes of 0xFF, then the
/// target address sixteen times over; the frame adds the 14-byte header.
pub proof fn lemma_payload_without_password(target: Seq<u8>, source: Seq<u8>)
    requires
        target.len() == 6,
        source.len() == 6,
    ensures
        magic_frame(target, source, Seq::empty()).len() == 116,
        magic_frame(target, source, Seq::empty()).skip(14) == magic_payload(target, Seq::empty()),
        magic_payload(target, Seq::empty()).len() == 102,
        forall|i: int| 0 <= i < 6 ==> #[trigger] magic_payload(target, Seq::empty())[i] == 0xFF,
        forall|i: int|
            6 <= i < 102 ==> #[trigger] magic_payload(target, Seq::empty())[i] == target[(i - 6)
                % 6],
{
    let frame = magic_frame(target, source, Seq::empty());
    assert(frame.skip(14) =~= magic_payload(target, Seq::empty()));
}

/// A password's bytes follow the 102-byte block of the synchronization
/// stream and the repeated address, unchanged, and nothing follows them.
pub proof fn lemma_secret_appended(target: Seq<u8>, secret: Seq<u8>)
    requires
        target.len() == 6,
    ensures
        magic_payload(target, secret).len() == 102 + secret.len(),
        magic_payload(target, secret).take(102) == magic_payload(target, Seq::empty()),
        magic_payload(target, secret).skip(102) == secret,
{
    assert(magic_payload(target, secret).take(102) =~= magic_payload(target, Seq::empty()));
    assert(magic_payload(target, secret).skip(102) =~= secret);
}

} // verus!
