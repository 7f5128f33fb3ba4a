//! The packet-chain model: one recorded call as a sequence of timesteps.
use vstd::prelude::*;

verus! {

/// One timestep of a recorded call.
#[derive(Clone, Copy, Debug, PartialEq, Eq, Structural)]
pub enum PacketChainLink {
    /// A voice packet carrying this many payload bytes.
    Packet(u16),
    /// A lost or unrecorded packet; the value is an advisory size hint.
    Missing(u16),
    /// A gap without packets, lasting this many milliseconds.
    Silence(u32),
}

} // verus!

verus! {

/// A packet size that is never zero.
#[derive(Clone, Copy, Debug, PartialEq, Eq, Structural)]
pub struct NonZeroSize {
    value: u16,
}

impl NonZeroSize {
    #[verifier::type_invariant]
    spec fn positive(self) -> bool {
        self.value > 0
    }

    pub closed spec fn view(self) -> u16 {
        self.value
    }

    /// The size `v`, or `None` when it is zero.
    pub fn new(v: u16) -> (r: Option<NonZeroSize>)
        ensures
            v == 0 <==> r is None,
            r matches Some(s) ==> s@ == v,
    {
        if v == 0 {
            None
        } else {
            Some(NonZeroSize { value: v })
        }
    }

    pub fn get(&self) -> (r: u16)
        ensures
            r == self@,
            r > 0,
    {
        proof {
            use_type_invariant(self);
        }
        self.value
    }
}

/// One timestep of a call in the legacy trace format, where a packet is never empty.
#[derive(Clone, Copy, Debug, PartialEq, Eq, Structural)]
pub enum OldPacketChainLink {
    Packet(NonZeroSize),
    Missing(u16),
    Silence(u32),
}

/// The current form of a legacy link: the packet size passes through, the
/// other variants unchanged.
pub open spec fn upgrade_link(a: OldPacketChainLink) -> PacketChainLink {
    match a {
        OldPacketChainLink::Packet(p) => PacketChainLink::Packet(p@),
        OldPacketChainLink::Missing(h) => PacketChainLink::Missing(h),
        OldPacketChainLink::Silence(d) => PacketChainLink::Silence(d),
    }
}

impl From<OldPacketChainLink> for PacketChainLink {
    fn from(a: OldPacketChainLink) -> (r: PacketChainLink) {
        match a {
            OldPacketChainLink::Packet(p) => PacketChainLink::Packet(p.get()),
            OldPacketChainLink::Missing(h) => PacketChainLink::Missing(h),
            OldPacketChainLink::Silence(d) => PacketChainLink::Silence(d),
        }
    }
}

impl vstd::std_specs::convert::FromSpecImpl<OldPacketChainLink> for PacketChainLink {
    open spec fn obeys_from_spec() -> bool {
        true
    }

    open spec fn from_spec(a: OldPacketChainLink) -> PacketChainLink {
        upgrade_link(a)
    }
}

/// Upgrades a whole legacy trace, link by link.
pub fn upgrade_trace(old: &[OldPacketChainLink]) -> (r: Vec<PacketChainLink>)
    ensures
        r@ == old@.map_values(|a: OldPacketChainLink| upgrade_link(a)),
{
    let mut out: Vec<PacketChainLink> = Vec::new();
    let mut i: usize = 0;
    while i < old.len()
        invariant
            i <= old@.len(),
            out@ == old@.take(i as int).map_values(|a: OldPacketChainLink| upgrade_link(a)),
        decreases old@.len() - i,
    {
        out.push(PacketChainLink::from(old[i]));
        i = i + 1;
        assert(out@ =~= old@.take(i as int).map_values(|a: OldPacketChainLink| upgrade_link(a)));
    }
    assert(old@.take(i as int) =~= old@);
    out
}

/// Whether link `l` is a voice packet of `n` bytes.
pub open spec fn is_packet_of(l: PacketChainLink, n: u16) -> bool {
    l == PacketChainLink::Packet(n)
}

/// Whether `s` holds any voice packet.
pub open spec fn has_packet(s: Seq<PacketChainLink>) -> bool {
    exists|i: int, n: u16| 0 <= i < s.len() && #[trigger] is_packet_of(s[i], n)
}

/// Whether `m` is the size of a voice packet in `s` and no voice packet in `s` is larger.
pub open spec fn is_largest_packet(s: Seq<PacketChainLink>, m: u16) -> bool {
    &&& exists|j: int| 0 <= j < s.len() && #[trigger] is_packet_of(s[j], m)
    &&& forall|j: int, n: u16| 0 <= j < s.len() && #[trigger] is_packet_of(s[j], n) ==> n <= m
}

/// The size of the largest voice packet in the trace, or `None` when it holds none.
pub fn largest_packet(trace: &[PacketChainLink]) -> (r: Option<u16>)
    ensures
        r is None <==> !has_packet(trace@),
        r matches Some(m) ==> is_largest_packet(trace@, m),
{
    let mut out: Option<u16> = None;
    let mut i: usize = 0;
    while i < trace.len()
        invariant
            i <= trace@.len(),
            out is None <==> !has_packet(trace@.take(i as int)),
            out matches Some(m) ==> is_largest_packet(trace@.take(i as int), m),
        decreases trace@.len() - i,
    {
        let ghost pre = trace@.take(i as int);
        let ghost post = trace@.take(i + 1);
        assert forall|j: int| 0 <= j < pre.len() implies post[j] == pre[j] by {}
        assert(post[i as int] == trace@[i as int]);
        let ghost old_out = out;
        if let PacketChainLink::Packet(size) = trace[i] {
            assert(is_packet_of(post[i as int], size));
            match out {
                Some(m) => {
                    if size > m {
                        out = Some(size);
                        assert forall|j: int, n: u16| 0 <= j < post.len() && #[trigger] is_packet_of(post[j], n) implies n <= size by {
                            if j < i {
                                assert(is_packet_of(pre[j], n));
                            }
                        }
                    } else {
                        let ghost w = choose|j: int| 0 <= j < pre.len() && #[trigger] is_packet_of(pre[j], m);
                        assert(is_packet_of(post[w], m));
                        assert forall|j: int, n: u16| 0 <= j < post.len() && #[trigger] is_packet_of(post[j], n) implies n <= m by {
                            if j < i {
                                assert(is_packet_of(pre[j], n));
                            }
                        }
                    }
                },
                None => {
                    out = Some(size);
                    assert forall|j: int, n: u16| 0 <= j < post.len() && #[trigger] is_packet_of(post[j], n) implies n <= size by {
                        if j < i {
                            assert(is_packet_of(pre[j], n));
                            assert(has_packet(pre));
                        }
                    }
                },
            }
            assert(has_packet(post));
        } else {
            assert forall|j: int, n: u16| 0 <= j < post.len() && #[trigger] is_packet_of(post[j], n) implies 0 <= j < pre.len() && is_packet_of(pre[j], n) by {}
            proof {
                if let Some(m) = out {
                    let w = choose|j: int| 0 <= j < pre.len() && #[trigger] is_packet_of(pre[j], m);
                    assert(is_packet_of(post[w], m));
                }
                if has_packet(pre) {
                    let (w, n) = choose|j: int, n: u16| 0 <= j < pre.len() && #[trigger] is_packet_of(pre[j], n);
                    assert(is_packet_of(post[w], n));
                }
            }
        }
        i = i + 1;
    }
    assert(trace@.take(i as int) =~= trace@);
    out
}

} // verus!
