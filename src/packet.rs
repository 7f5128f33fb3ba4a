//! Datagram payloads, raw Ethernet/IPv4/UDP frames and spoofed source addresses.
use crate::bytes::{be16, be32, le64, lemma_be32_round_trip};
use crate::relay::session_of;
use crate::config::IpStrategy;
use crate::constants::{CMAC_BYTES, ETH_HEADER_LEN, FRAME_HEADERS_LEN, IPV4_HEADER_LEN, RTP_BYTES, SSRC_START, UDP_HEADER_LEN};
use crate::random::{random_bytes, random_u64_inclusive};
use vstd::prelude::*;

verus! {

/// `s` with the bytes from `off` on replaced by `b`.
pub open spec fn write_at(s: Seq<u8>, off: int, b: Seq<u8>) -> Seq<u8> {
    s.take(off) + b + s.skip(off + b.len())
}

/// Writes `bytes` into `buf` from `off` on.
pub fn put_bytes(buf: &mut Vec<u8>, off: usize, bytes: &[u8])
    requires
        off + bytes@.len() <= old(buf)@.len(),
    ensures
        final(buf)@ == write_at(old(buf)@, off as int, bytes@),
{
    let len = buf.len();
    let mut i: usize = 0;
    while i < bytes.len()
        invariant
            len == buf@.len(),
            buf@.len() == old(buf)@.len(),
            off + bytes@.len() <= len,
            i <= bytes@.len(),
            buf@ == old(buf)@.take(off as int) + bytes@.take(i as int) + old(buf)@.skip(off + i),
        decreases bytes@.len() - i,
    {
        buf.set(off + i, bytes[i]);
        i = i + 1;
        assert(buf@ =~= old(buf)@.take(off as int) + bytes@.take(i as int) + old(buf)@.skip(off + i));
    }
    assert(bytes@.take(i as int) =~= bytes@);
}

/// The addresses written into the headers of a raw frame.
#[derive(Clone, Copy, Debug, PartialEq, Eq)]
pub struct FrameAddrs {
    /// The interface's hardware address, when it has one.
    pub src_mac: Option<[u8; 6]>,
    pub src_ip: [u8; 4],
    pub src_port: u16,
    pub dst_ip: [u8; 4],
    pub dst_port: u16,
}

/// The fixed fields of the headers of a raw frame: Ethernet to the broadcast
/// address from the interface, IPv4 version 4 with a 20-byte header, time to
/// live 64 and protocol UDP, the two addresses, the two ports and an unset UDP
/// checksum. Lengths and the IPv4 checksum are left for each send.
pub open spec fn frame_template(buf: Seq<u8>, a: FrameAddrs) -> Seq<u8> {
    let s1 = write_at(buf, 0, seq![0xffu8, 0xff, 0xff, 0xff, 0xff, 0xff]);
    let s2 = match a.src_mac {
        Some(m) => write_at(s1, 6, m@),
        None => s1,
    };
    let s3 = write_at(s2, 12, seq![0x08u8, 0x00]);
    let s4 = write_at(s3, 14, seq![0x45u8]);
    let s5 = write_at(s4, 22, seq![64u8, 17]);
    let s6 = write_at(s5, 26, a.src_ip@);
    let s7 = write_at(s6, 30, a.dst_ip@);
    let s8 = write_at(s7, 34, be16(a.src_port) + be16(a.dst_port));
    write_at(s8, 40, seq![0u8, 0])
}

/// Writes the fixed header fields of a raw frame into `buf` and returns where
/// the UDP payload starts; in socket mode (`addrs` is `None`) the payload starts
/// at once and nothing is written.
pub fn prep_packet(buf: &mut Vec<u8>, addrs: Option<&FrameAddrs>) -> (r: usize)
    requires
        old(buf)@.len() >= FRAME_HEADERS_LEN,
    ensures
        match addrs {
            Some(a) => r == FRAME_HEADERS_LEN && final(buf)@ == frame_template(old(buf)@, *a),
            None => r == 0 && final(buf)@ == old(buf)@,
        },
{
    match addrs {
        Some(a) => {
            let broadcast: [u8; 6] = [0xff, 0xff, 0xff, 0xff, 0xff, 0xff];
            put_bytes(buf, 0, &broadcast);
            assert(broadcast@ =~= seq![0xffu8, 0xff, 0xff, 0xff, 0xff, 0xff]);
            if let Some(mac) = a.src_mac {
                put_bytes(buf, 6, &mac);
            }
            let ethertype: [u8; 2] = [0x08, 0x00];
            put_bytes(buf, 12, &ethertype);
            assert(ethertype@ =~= seq![0x08u8, 0x00]);
            let version: [u8; 1] = [0x45];
            put_bytes(buf, 14, &version);
            assert(version@ =~= seq![0x45u8]);
            let ttl_proto: [u8; 2] = [64, 17];
            put_bytes(buf, 22, &ttl_proto);
            assert(ttl_proto@ =~= seq![64u8, 17]);
            put_bytes(buf, 26, &a.src_ip);
            put_bytes(buf, 30, &a.dst_ip);
            let ports: [u8; 4] = [
                (a.src_port >> 8u16) as u8,
                (a.src_port & 0xff) as u8,
                (a.dst_port >> 8u16) as u8,
                (a.dst_port & 0xff) as u8,
            ];
            put_bytes(buf, 34, &ports);
            assert(ports@ =~= be16(a.src_port) + be16(a.dst_port));
            let checksum: [u8; 2] = [0, 0];
            put_bytes(buf, 40, &checksum);
            assert(checksum@ =~= seq![0u8, 0]);
            FRAME_HEADERS_LEN
        },
        None => 0,
    }
}

/// The IPv4 header checksum of a 20-byte header, as pnet computes it.
pub uninterp spec fn ipv4_header_checksum(header: Seq<u8>) -> u16;

/// Relies on pnet's `ipv4::checksum` over `Ipv4Packet::new(header)`: the
/// checksum depends on the 20 header bytes alone (pnet clamps the header length
/// to the slice, and `Ipv4Packet::new` accepts any slice of 20 bytes or more).
#[verifier::external_body]
fn header_checksum(header: &[u8]) -> (r: u16)
    requires
        header@.len() == IPV4_HEADER_LEN,
    ensures
        r == ipv4_header_checksum(header@),
{
    pnet::packet::ipv4::checksum(&pnet::packet::ipv4::Ipv4Packet::new(header).unwrap())
}

/// A copy of `buf[from..to]`.
fn copy_range(buf: &[u8], from: usize, to: usize) -> (r: Vec<u8>)
    requires
        from <= to <= buf@.len(),
    ensures
        r@ == buf@.subrange(from as int, to as int),
{
    let mut out: Vec<u8> = Vec::new();
    let mut i: usize = from;
    while i < to
        invariant
            from <= i <= to,
            to <= buf@.len(),
            out@ == buf@.subrange(from as int, i as int),
        decreases to - i,
    {
        out.push(buf[i]);
        i = i + 1;
        assert(out@ =~= buf@.subrange(from as int, i as int));
    }
    out
}

/// A raw frame ready to send with a UDP payload of `udp_len` bytes: the IPv4
/// total length, then the IPv4 checksum over the header so filled, then the
/// UDP length.
pub open spec fn finished_frame(buf: Seq<u8>, udp_len: nat) -> Seq<u8> {
    let s1 = write_at(buf, 16, be16((IPV4_HEADER_LEN + UDP_HEADER_LEN + udp_len) as u16));
    let s2 = write_at(s1, 24, be16(ipv4_header_checksum(s1.subrange(14, 34))));
    write_at(s2, 38, be16((UDP_HEADER_LEN + udp_len) as u16))
}

/// Fills in the lengths and the IPv4 checksum of a raw frame whose UDP payload
/// is `udp_len` bytes long.
pub fn finish_frame(buf: &mut Vec<u8>, udp_len: usize)
    requires
        old(buf)@.len() >= FRAME_HEADERS_LEN,
        IPV4_HEADER_LEN + UDP_HEADER_LEN + udp_len <= u16::MAX,
    ensures
        final(buf)@ == finished_frame(old(buf)@, udp_len as nat),
{
    let total = (IPV4_HEADER_LEN + UDP_HEADER_LEN + udp_len) as u16;
    let total_bytes: [u8; 2] = [(total >> 8u16) as u8, (total & 0xff) as u8];
    put_bytes(buf, 16, &total_bytes);
    assert(total_bytes@ =~= be16(total));
    let header = copy_range(buf, ETH_HEADER_LEN, ETH_HEADER_LEN + IPV4_HEADER_LEN);
    let csum = header_checksum(&header);
    let csum_bytes: [u8; 2] = [(csum >> 8u16) as u8, (csum & 0xff) as u8];
    put_bytes(buf, 24, &csum_bytes);
    assert(csum_bytes@ =~= be16(csum));
    let udp = (UDP_HEADER_LEN + udp_len) as u16;
    let udp_bytes: [u8; 2] = [(udp >> 8u16) as u8, (udp & 0xff) as u8];
    put_bytes(buf, 38, &udp_bytes);
    assert(udp_bytes@ =~= be16(udp));
}

/// A raw frame: the prepared headers, then the payload, with lengths and
/// checksum filled in.
pub fn frame_for(template: &[u8], payload: &[u8]) -> (r: Vec<u8>)
    requires
        template@.len() == FRAME_HEADERS_LEN,
        IPV4_HEADER_LEN + UDP_HEADER_LEN + payload@.len() <= u16::MAX,
    ensures
        r@ == finished_frame(template@ + payload@, payload@.len()),
{
    let mut frame = copy_range(template, 0, template.len());
    let mut i: usize = 0;
    while i < payload.len()
        invariant
            i <= payload@.len(),
            frame@ == template@ + payload@.take(i as int),
        decreases payload@.len() - i,
    {
        frame.push(payload[i]);
        i = i + 1;
        assert(frame@ =~= template@ + payload@.take(i as int));
    }
    assert(template@.subrange(0, template@.len() as int) =~= template@);
    assert(payload@.take(i as int) =~= payload@);
    finish_frame(&mut frame, payload.len());
    frame
}

/// Payload length of a voice datagram carrying `audio` bytes: voice header,
/// audio and authentication tag.
pub open spec fn voice_len(audio: nat) -> nat {
    (audio + RTP_BYTES + CMAC_BYTES) as nat
}

/// A voice payload: the noise bytes, with the session identifier in its slot.
pub fn voice_payload(ssrc: u32, noise: Vec<u8>) -> (r: Vec<u8>)
    requires
        noise@.len() >= RTP_BYTES,
    ensures
        r@ == write_at(noise@, SSRC_START as int, be32(ssrc)),
{
    let mut out = noise;
    let id: [u8; 4] = [
        (ssrc >> 24u32) as u8,
        ((ssrc >> 16u32) & 0xff) as u8,
        ((ssrc >> 8u32) & 0xff) as u8,
        (ssrc & 0xff) as u8,
    ];
    put_bytes(&mut out, SSRC_START, &id);
    assert(id@ =~= be32(ssrc));
    out
}

/// A voice payload for `audio` bytes of audio: random bytes throughout, but for
/// the session identifier `ssrc` in its slot.
pub fn make_voice_payload(audio: u16, ssrc: u32) -> (r: Vec<u8>)
    ensures
        r@.len() == voice_len(audio as nat),
        r@.subrange(SSRC_START as int, SSRC_START + 4) == be32(ssrc),
{
    let noise = random_bytes(audio as usize + RTP_BYTES + CMAC_BYTES);
    let r = voice_payload(ssrc, noise);
    assert(r@.subrange(SSRC_START as int, SSRC_START + 4) =~= be32(ssrc));
    r
}

/// A keepalive payload: the counter, least significant byte first.
pub fn keepalive_payload(count: u64) -> (r: Vec<u8>)
    ensures
        r@ == le64(count),
{
    let mut out: Vec<u8> = Vec::new();
    out.push((count & 0xff) as u8);
    out.push(((count >> 8u64) & 0xff) as u8);
    out.push(((count >> 16u64) & 0xff) as u8);
    out.push(((count >> 24u64) & 0xff) as u8);
    out.push(((count >> 32u64) & 0xff) as u8);
    out.push(((count >> 40u64) & 0xff) as u8);
    out.push(((count >> 48u64) & 0xff) as u8);
    out.push((count >> 56u64) as u8);
    assert(out@ =~= le64(count));
    out
}

/// The first octet for a draw `d` from 1 to 220: draws at or above 10, 127 and
/// 172 (after the earlier shifts) move up by one, so those three octets never
/// come out and every other octet from 1 to 223 comes from exactly one draw.
pub open spec fn shift_first_octet(d: nat) -> nat {
    let a = if d >= 10 { d + 1 } else { d };
    let b = if a >= 127 { a + 1 } else { a };
    if b >= 172 { b + 1 } else { b }
}

/// The last octet under a strategy: its low bit cleared for even addresses, set
/// for odd ones.
pub open spec fn strategy_octet(b: u8, strat: IpStrategy) -> u8 {
    match strat {
        IpStrategy::Even => b & 0xfe,
        IpStrategy::Odd => b | 1,
        IpStrategy::Vanilla => b,
    }
}

/// Distinct draws give distinct first octets, so a uniform draw stays uniform.
pub proof fn lemma_first_octet_injective(d1: nat, d2: nat)
    requires
        d1 != d2,
    ensures
        shift_first_octet(d1) != shift_first_octet(d2),
{
}

/// The address made of the draws: the shifted first octet, two octets as drawn,
/// and the last as the strategy makes it.
pub fn ip4_from_draws(first: u8, b1: u8, b2: u8, b3: u8, strat: IpStrategy) -> (r: [u8; 4])
    requires
        1 <= first <= 220,
    ensures
        r@ == seq![shift_first_octet(first as nat) as u8, b1, b2, strategy_octet(b3, strat)],
        1 <= r@[0] <= 223,
        r@[0] != 10 && r@[0] != 127 && r@[0] != 172,
        strat == IpStrategy::Even ==> r@[3] % 2 == 0,
        strat == IpStrategy::Odd ==> r@[3] % 2 == 1,
{
    let mut a = first;
    if a >= 10 {
        a = a + 1;
    }
    if a >= 127 {
        a = a + 1;
    }
    if a >= 172 {
        a = a + 1;
    }
    let last = match strat {
        IpStrategy::Even => b3 & 0xfe,
        IpStrategy::Odd => b3 | 1,
        IpStrategy::Vanilla => b3,
    };
    assert((b3 & 0xfe) % 2 == 0) by (bit_vector);
    assert((b3 | 1) % 2 == 1) by (bit_vector);
    let r = [a, b1, b2, last];
    assert(r@ =~= seq![shift_first_octet(first as nat) as u8, b1, b2, strategy_octet(b3, strat)]);
    r
}

/// A random spoofed source address: the first octet uniform over 1 to 223 but
/// for 10, 127 and 172, the other three uniform, the last then made even or odd
/// as the strategy asks.
pub fn generate_ip4(strat: IpStrategy) -> (r: [u8; 4])
    ensures
        1 <= r@[0] <= 223,
        r@[0] != 10 && r@[0] != 127 && r@[0] != 172,
        strat == IpStrategy::Even ==> r@[3] % 2 == 0,
        strat == IpStrategy::Odd ==> r@[3] % 2 == 1,
        exists|d: nat| 1 <= d <= 220 && r@[0] == #[trigger] shift_first_octet(d),
{
    let first = random_u64_inclusive(1, 220) as u8;
    let rest = random_bytes(3);
    ip4_from_draws(first, rest[0], rest[1], rest[2], strat)
}

/// Lowest source port of a spoofed identity.
pub const EPHEMERAL_PORT_MIN: u16 = 31000;

/// Highest source port of a spoofed identity.
pub const EPHEMERAL_PORT_MAX: u16 = 61000;

/// A random source port from `EPHEMERAL_PORT_MIN` to `EPHEMERAL_PORT_MAX`.
pub fn random_port() -> (r: u16)
    ensures
        EPHEMERAL_PORT_MIN <= r <= EPHEMERAL_PORT_MAX,
{
    random_u64_inclusive(EPHEMERAL_PORT_MIN as u64, EPHEMERAL_PORT_MAX as u64) as u16
}

/// A random session identifier.
pub fn random_ssrc() -> (r: u32) {
    random_u64_inclusive(0, u32::MAX as u64) as u32
}

/// The relay reads back the session identifier that a voice payload carries.
pub proof fn lemma_session_round_trip(ssrc: u32, noise: Seq<u8>)
    requires
        noise.len() >= RTP_BYTES,
    ensures
        session_of(write_at(noise, SSRC_START as int, be32(ssrc))) == Some(ssrc),
{
    let p = write_at(noise, SSRC_START as int, be32(ssrc));
    assert(p[8] == be32(ssrc)[0] && p[9] == be32(ssrc)[1] && p[10] == be32(ssrc)[2] && p[11] == be32(ssrc)[3]);
    lemma_be32_round_trip(ssrc);
}

} // verus!
