use opus_voip_traffic::stats::{handle_link, CallStats, StatsPass};
use opus_voip_traffic::PacketChainLink;

fn replay(trace: &[PacketChainLink], cap: Option<u64>, predicted: u32) -> (u64, u64, Vec<Option<u64>>) {
    let mut pass = StatsPass::new(cap);
    let mut samples = vec![];
    for link in trace {
        samples.push(pass.replay_link(*link, predicted));
    }
    (pass.bytes(), pass.elapsed_ms(), samples)
}

#[test]
fn replay_twice_is_identical() {
    let trace = [
        PacketChainLink::Packet(100),
        PacketChainLink::Silence(12000),
        PacketChainLink::Missing(5),
        PacketChainLink::Packet(2),
        PacketChainLink::Silence(7),
    ];
    assert_eq!(replay(&trace, None, 60), replay(&trace, None, 60));
    assert_eq!(replay(&trace, Some(300), 60), replay(&trace, Some(300), 60));
}

#[test]
fn replay_exact_totals() {
    let trace = [
        PacketChainLink::Packet(100),
        PacketChainLink::Silence(3000),
        PacketChainLink::Missing(5),
        PacketChainLink::Packet(2),
    ];
    let (bytes, elapsed, samples) = replay(&trace, None, 0);
    assert_eq!(elapsed, 3080);
    assert_eq!(bytes, 156 + 58 + 36);
    assert_eq!(samples, vec![Some(156), None, None, None]);

    let (bytes, elapsed, _) = replay(&trace, Some(100), 0);
    assert_eq!(elapsed, 180);
    assert_eq!(bytes, 250);

    let (bytes, elapsed, _) = replay(&trace, None, 44);
    assert_eq!(elapsed, 3080);
    assert_eq!(bytes, 156 + 100 + 58 + 36);
}

#[test]
fn replay_counts_keepalives() {
    let (bytes, elapsed, _) = replay(&[PacketChainLink::Silence(10000)], None, 0);
    assert_eq!(elapsed, 10020);
    assert_eq!(bytes, 3 * 36);
    let (bytes, elapsed, _) = replay(&[PacketChainLink::Silence(4980)], None, 0);
    assert_eq!(elapsed, 5000);
    assert_eq!(bytes, 2 * 36);
    assert_eq!(replay(&[], None, 0), (0, 0, vec![]));
}

#[test]
fn handle_link_clamps_silence() {
    let mut stat = CallStats::new();
    assert_eq!(handle_link(PacketChainLink::Silence(900), &mut stat, Some(250), 0), (270, 0, None));
    assert_eq!(handle_link(PacketChainLink::Silence(900), &mut stat, None, 0), (920, 0, None));
    assert_eq!(stat.size, 0);
    assert_eq!(handle_link(PacketChainLink::Missing(1), &mut stat, None, 30), (20, 30, None));
    assert_eq!(stat.size, 86);
    assert_eq!(handle_link(PacketChainLink::Packet(4), &mut stat, None, 30), (20, 4, Some(60)));
    assert_eq!(stat.size, 146);
}

#[test]
fn call_stats_counts() {
    let mut stat = CallStats::new();
    stat.register_keepalive();
    assert_eq!(stat.register_voice(3, false), None);
    assert_eq!(stat.register_voice(200, true), None);
    assert_eq!(stat.register_voice(200, false), Some(256));
    stat.sleep(40);
    assert_eq!(stat.size, 36 + 59 + 256 + 256);
    assert_eq!(stat.len_ms, 40);
}
