//! The binary trace format: a little-endian `u32` link count, then each link as a
//! little-endian `u32` tag (0 packet, 1 missing, 2 silence) and its payload
//! (`u16`, `u16` or `u32`, little-endian).
use crate::bytes::{le16, le16_value, le32, le32_value, lemma_le16_bytes, lemma_le16_round_trip, lemma_le32_bytes, lemma_le32_round_trip, push_le16, push_le32, read_le16, read_le32};
use crate::trace::PacketChainLink;
use vstd::prelude::*;

verus! {

pub const TAG_PACKET: u32 = 0;

pub const TAG_MISSING: u32 = 1;

pub const TAG_SILENCE: u32 = 2;

/// The bytes of one link.
pub open spec fn link_bytes(l: PacketChainLink) -> Seq<u8> {
    match l {
        PacketChainLink::Packet(n) => le32(TAG_PACKET) + le16(n),
        PacketChainLink::Missing(n) => le32(TAG_MISSING) + le16(n),
        PacketChainLink::Silence(d) => le32(TAG_SILENCE) + le32(d),
    }
}

/// The bytes of a run of links, one after the other.
pub open spec fn links_bytes(s: Seq<PacketChainLink>) -> Seq<u8>
    decreases s.len(),
{
    if s.len() == 0 {
        Seq::empty()
    } else {
        link_bytes(s[0]) + links_bytes(s.drop_first())
    }
}

/// The encoding of a whole trace.
pub open spec fn trace_bytes(s: Seq<PacketChainLink>) -> Seq<u8> {
    le32(s.len() as u32) + links_bytes(s)
}

/// The link at the start of `b`, with the number of bytes it takes.
pub open spec fn parse_link(b: Seq<u8>) -> Option<(PacketChainLink, nat)> {
    if b.len() < 4 {
        None
    } else {
        let tag = le32_value(b[0], b[1], b[2], b[3]);
        if tag == TAG_PACKET && b.len() >= 6 {
            Some((PacketChainLink::Packet(le16_value(b[4], b[5])), 6))
        } else if tag == TAG_MISSING && b.len() >= 6 {
            Some((PacketChainLink::Missing(le16_value(b[4], b[5])), 6))
        } else if tag == TAG_SILENCE && b.len() >= 8 {
            Some((PacketChainLink::Silence(le32_value(b[4], b[5], b[6], b[7])), 8))
        } else {
            None
        }
    }
}

/// Exactly `n` links that take up all of `b`.
pub open spec fn parse_links(b: Seq<u8>, n: nat) -> Option<Seq<PacketChainLink>>
    decreases n,
{
    if n == 0 {
        if b.len() == 0 {
            Some(Seq::empty())
        } else {
            None
        }
    } else {
        match parse_link(b) {
            Some((l, k)) => match parse_links(b.skip(k as int), (n - 1) as nat) {
                Some(rest) => Some(seq![l] + rest),
                None => None,
            },
            None => None,
        }
    }
}

/// The trace that `b` encodes, if it is one; trailing bytes are refused.
pub open spec fn parse_trace(b: Seq<u8>) -> Option<Seq<PacketChainLink>> {
    if b.len() < 4 {
        None
    } else {
        parse_links(b.skip(4), le32_value(b[0], b[1], b[2], b[3]) as nat)
    }
}

proof fn lemma_parse_link_bytes(l: PacketChainLink, rest: Seq<u8>)
    ensures
        parse_link(link_bytes(l) + rest) == Some((l, link_bytes(l).len())),
        (link_bytes(l) + rest).skip(link_bytes(l).len() as int) == rest,
{
    let b = link_bytes(l) + rest;
    lemma_le32_round_trip(TAG_PACKET);
    lemma_le32_round_trip(TAG_MISSING);
    lemma_le32_round_trip(TAG_SILENCE);
    match l {
        PacketChainLink::Packet(n) => {
            lemma_le16_round_trip(n);
        },
        PacketChainLink::Missing(n) => {
            lemma_le16_round_trip(n);
        },
        PacketChainLink::Silence(d) => {
            lemma_le32_round_trip(d);
        },
    }
    assert(b.skip(link_bytes(l).len() as int) =~= rest);
}

proof fn lemma_parse_links_bytes(s: Seq<PacketChainLink>)
    ensures
        parse_links(links_bytes(s), s.len()) == Some(s),
    decreases s.len(),
{
    if s.len() > 0 {
        let rest = links_bytes(s.drop_first());
        lemma_parse_link_bytes(s[0], rest);
        lemma_parse_links_bytes(s.drop_first());
        assert(seq![s[0]] + s.drop_first() =~= s);
    }
}

/// Decoding an encoded trace gives back the same links, whatever they are.
pub proof fn lemma_trace_round_trip(s: Seq<PacketChainLink>)
    requires
        s.len() <= u32::MAX,
    ensures
        parse_trace(trace_bytes(s)) == Some(s),
{
    let b = trace_bytes(s);
    lemma_le32_round_trip(s.len() as u32);
    assert(b.skip(4) =~= links_bytes(s));
    lemma_parse_links_bytes(s);
}

proof fn lemma_parsed_link_bytes(b: Seq<u8>)
    requires
        parse_link(b) is Some,
    ensures
        parse_link(b).unwrap().1 <= b.len(),
        b.take(parse_link(b).unwrap().1 as int) == link_bytes(parse_link(b).unwrap().0),
{
    lemma_le32_bytes(b[0], b[1], b[2], b[3]);
    let (l, k) = parse_link(b).unwrap();
    match l {
        PacketChainLink::Silence(_) => {
            lemma_le32_bytes(b[4], b[5], b[6], b[7]);
        },
        _ => {
            lemma_le16_bytes(b[4], b[5]);
        },
    }
    assert(b.take(k as int) =~= link_bytes(l));
}

proof fn lemma_parsed_links_bytes(b: Seq<u8>, n: nat)
    requires
        parse_links(b, n) is Some,
    ensures
        parse_links(b, n).unwrap().len() == n,
        links_bytes(parse_links(b, n).unwrap()) == b,
    decreases n,
{
    if n == 0 {
        assert(b =~= Seq::<u8>::empty());
    } else {
        let (l, k) = parse_link(b).unwrap();
        lemma_parsed_link_bytes(b);
        lemma_parsed_links_bytes(b.skip(k as int), (n - 1) as nat);
        let s = parse_links(b, n).unwrap();
        let rest = parse_links(b.skip(k as int), (n - 1) as nat).unwrap();
        assert(s[0] == l);
        assert(s.drop_first() =~= rest);
        assert(b =~= b.take(k as int) + b.skip(k as int));
    }
}

/// Only encodings decode: whatever a trace decodes to encodes back to the same bytes.
pub proof fn lemma_trace_canonical(b: Seq<u8>)
    requires
        parse_trace(b) is Some,
    ensures
        trace_bytes(parse_trace(b).unwrap()) == b,
{
    let n = le32_value(b[0], b[1], b[2], b[3]);
    lemma_parsed_links_bytes(b.skip(4), n as nat);
    lemma_le32_bytes(b[0], b[1], b[2], b[3]);
    assert(parse_trace(b).unwrap().len() as u32 == n);
    assert(b =~= b.take(4) + b.skip(4));
    assert(b.take(4) =~= seq![b[0], b[1], b[2], b[3]]);
}

proof fn lemma_links_bytes_push(s: Seq<PacketChainLink>, l: PacketChainLink)
    ensures
        links_bytes(s.push(l)) == links_bytes(s) + link_bytes(l),
    decreases s.len(),
{
    if s.len() == 0 {
        let e = Seq::<PacketChainLink>::empty();
        assert(s.push(l).drop_first() =~= e);
        assert(s.push(l)[0] == l);
        assert(links_bytes(e) == Seq::<u8>::empty());
        assert(links_bytes(s.push(l)) =~= links_bytes(s) + link_bytes(l));
    } else {
        lemma_links_bytes_push(s.drop_first(), l);
        assert(s.push(l).drop_first() =~= s.drop_first().push(l));
        assert(s.push(l)[0] == s[0]);
        let a = link_bytes(s[0]);
        let b = links_bytes(s.drop_first());
        let c = link_bytes(l);
        assert(links_bytes(s.push(l)) == a + (b + c));
        assert(a + (b + c) =~= (a + b) + c);
    }
}

/// Appends the bytes of one link.
pub fn encode_link(out: &mut Vec<u8>, l: PacketChainLink)
    ensures
        final(out)@ == old(out)@ + link_bytes(l),
{
    match l {
        PacketChainLink::Packet(n) => {
            push_le32(out, TAG_PACKET);
            push_le16(out, n);
        },
        PacketChainLink::Missing(n) => {
            push_le32(out, TAG_MISSING);
            push_le16(out, n);
        },
        PacketChainLink::Silence(d) => {
            push_le32(out, TAG_SILENCE);
            push_le32(out, d);
        },
    }
    assert(final(out)@ =~= old(out)@ + link_bytes(l));
}

/// Encodes a trace in the binary trace format.
pub fn encode_trace(trace: &[PacketChainLink]) -> (r: Vec<u8>)
    requires
        trace@.len() <= u32::MAX,
    ensures
        r@ == trace_bytes(trace@),
{
    let mut out: Vec<u8> = Vec::new();
    push_le32(&mut out, trace.len() as u32);
    let mut i: usize = 0;
    while i < trace.len()
        invariant
            i <= trace@.len(),
            out@ == le32(trace@.len() as u32) + links_bytes(trace@.take(i as int)),
        decreases trace@.len() - i,
    {
        proof {
            lemma_links_bytes_push(trace@.take(i as int), trace@[i as int]);
            assert(trace@.take(i as int).push(trace@[i as int]) =~= trace@.take(i + 1));
        }
        encode_link(&mut out, trace[i]);
        i = i + 1;
    }
    assert(trace@.take(i as int) =~= trace@);
    out
}

/// The link that starts at `pos`, with the number of bytes it takes.
pub fn decode_link(b: &[u8], pos: usize) -> (r: Option<(PacketChainLink, usize)>)
    requires
        pos <= b@.len(),
    ensures
        match parse_link(b@.skip(pos as int)) {
            Some((l, k)) => r == Some((l, k as usize)),
            None => r is None,
        },
        r matches Some((_, k)) ==> pos + k <= b@.len(),
{
    let s = Ghost(b@.skip(pos as int));
    if b.len() - pos < 4 {
        return None;
    }
    let tag = read_le32(b, pos);
    assert(tag == le32_value(s@[0], s@[1], s@[2], s@[3]));
    if tag == TAG_PACKET && b.len() - pos >= 6 {
        Some((PacketChainLink::Packet(read_le16(b, pos + 4)), 6))
    } else if tag == TAG_MISSING && b.len() - pos >= 6 {
        Some((PacketChainLink::Missing(read_le16(b, pos + 4)), 6))
    } else if tag == TAG_SILENCE && b.len() - pos >= 8 {
        Some((PacketChainLink::Silence(read_le32(b, pos + 4)), 8))
    } else {
        None
    }
}

/// Decodes a trace from the binary trace format; `None` when `b` is not exactly
/// the encoding of one.
pub fn decode_trace(b: &[u8]) -> (r: Option<Vec<PacketChainLink>>)
    ensures
        match parse_trace(b@) {
            Some(s) => r matches Some(v) && v@ == s,
            None => r is None,
        },
{
    if b.len() < 4 {
        return None;
    }
    let n = read_le32(b, 0);
    let len = b.len();
    let mut out: Vec<PacketChainLink> = Vec::new();
    let mut pos: usize = 4;
    let mut i: u32 = 0;
    while i < n
        invariant
            4 <= pos <= b@.len(),
            len == b@.len(),
            i <= n,
            n == le32_value(b@[0], b@[1], b@[2], b@[3]),
            parse_trace(b@) == match parse_links(b@.skip(pos as int), (n - i) as nat) {
                Some(rest) => Some(out@ + rest),
                None => None::<Seq<PacketChainLink>>,
            },
        decreases n - i,
    {
        let ghost before = b@.skip(pos as int);
        match decode_link(b, pos) {
            Some((l, k)) => {
                assert(pos + k <= len);
                assert(before.skip(k as int) =~= b@.skip(pos + k));
                proof {
                    if let Some(rest) = parse_links(b@.skip(pos + k), (n - i - 1) as nat) {
                        assert(out@ + (seq![l] + rest) =~= out@.push(l) + rest);
                    }
                }
                out.push(l);
                pos = pos + k;
                i = i + 1;
            },
            None => {
                return None;
            },
        }
    }
    if pos == b.len() {
        assert(b@.skip(pos as int).len() == 0);
        assert(out@ + Seq::<PacketChainLink>::empty() =~= out@);
        Some(out)
    } else {
        None
    }
}

} // verus!
