use opus_voip_traffic::engine::{draw_trace_index, plan_call, plan_with_draw, CallAction, CallConfigError, CallEngine, CallPlan};
use opus_voip_traffic::PacketChainLink;

fn plan(lb: u64, ub: Option<u64>, constant: bool) -> CallPlan {
    plan_call(lb, ub, false, constant).unwrap()
}

#[test]
fn one_walk_without_duration_bounds() {
    let trace = vec![PacketChainLink::Packet(100)];
    let mut call = CallEngine::new(plan(0, None, false), None, false);
    assert_eq!(call.next(&[], 0, false), CallAction::StartTrace { refresh: false });
    assert_eq!(call.next(&trace, 0, false), CallAction::SendVoice { audio: 100 });
    assert_eq!(call.next(&trace, 0, false), CallAction::SendKeepalive { count: 1 });
    assert_eq!(call.next(&trace, 0, false), CallAction::Sleep { ms: 20 });
    assert_eq!(call.next(&trace, 20, false), CallAction::Finish);
    assert_eq!(call.next(&trace, 40, false), CallAction::Finish);
}

#[test]
fn lower_bound_draws_more_traces() {
    let trace = vec![PacketChainLink::Packet(10)];
    let mut call = CallEngine::new(plan(30, None, false), None, false);
    assert_eq!(call.next(&[], 0, false), CallAction::StartTrace { refresh: false });
    assert_eq!(call.next(&trace, 0, false), CallAction::SendVoice { audio: 10 });
    assert_eq!(call.next(&trace, 0, false), CallAction::SendKeepalive { count: 1 });
    assert_eq!(call.next(&trace, 0, false), CallAction::Sleep { ms: 20 });
    assert_eq!(call.next(&trace, 20, false), CallAction::StartTrace { refresh: false });
    assert_eq!(call.next(&trace, 20, false), CallAction::SendVoice { audio: 10 });
    assert_eq!(call.next(&trace, 20, false), CallAction::Sleep { ms: 20 });
    assert_eq!(call.next(&trace, 40, false), CallAction::Finish);
}

#[test]
fn waits_are_sliced_and_silence_clamped() {
    let trace = vec![PacketChainLink::Silence(1000), PacketChainLink::Missing(50)];
    let mut call = CallEngine::new(plan(0, None, false), Some(25), false);
    assert_eq!(call.next(&[], 0, false), CallAction::StartTrace { refresh: false });
    assert_eq!(call.next(&trace, 0, false), CallAction::SendKeepalive { count: 1 });
    assert_eq!(call.next(&trace, 0, false), CallAction::Sleep { ms: 20 });
    assert_eq!(call.next(&trace, 20, false), CallAction::Sleep { ms: 20 });
    assert_eq!(call.next(&trace, 40, false), CallAction::Sleep { ms: 5 });
    assert_eq!(call.next(&trace, 45, false), CallAction::Sleep { ms: 20 });
    assert_eq!(call.next(&trace, 65, false), CallAction::Finish);
}

#[test]
fn keepalives_every_five_seconds() {
    let trace = vec![PacketChainLink::Silence(6000)];
    let mut call = CallEngine::new(plan(0, None, false), None, false);
    call.next(&[], 0, false);
    assert_eq!(call.next(&trace, 0, false), CallAction::SendKeepalive { count: 1 });
    let mut now = 0;
    let mut keepalives = vec![];
    loop {
        match call.next(&trace, now, false) {
            CallAction::Sleep { ms } => now += ms,
            CallAction::SendKeepalive { count } => keepalives.push((count, now)),
            CallAction::Finish => break,
            other => panic!("unexpected {:?}", other),
        }
    }
    assert_eq!(keepalives, vec![(2, 5000)]);
    assert_eq!(now, 6020);
}

#[test]
fn stop_and_end_finish_at_once() {
    let trace = vec![PacketChainLink::Silence(1000)];
    let mut call = CallEngine::new(plan(0, None, true), None, false);
    call.next(&[], 0, false);
    call.next(&trace, 0, false);
    assert_eq!(call.next(&trace, 20, true), CallAction::Finish);

    let mut call = CallEngine::new(plan(0, Some(50), false), None, false);
    call.next(&[], 0, false);
    call.next(&trace, 0, false);
    assert_eq!(call.next(&trace, 20, false), CallAction::Sleep { ms: 20 });
    assert_eq!(call.next(&trace, 50, false), CallAction::Finish);
}

#[test]
fn constant_calls_and_refresh_resets_keepalives() {
    let trace = vec![PacketChainLink::Packet(1)];
    let mut call = CallEngine::new(plan(0, None, true), None, true);
    assert_eq!(call.next(&[], 0, false), CallAction::StartTrace { refresh: true });
    call.next(&trace, 0, false);
    assert_eq!(call.next(&trace, 0, false), CallAction::SendKeepalive { count: 1 });
    assert_eq!(call.next(&trace, 0, false), CallAction::Sleep { ms: 20 });
    assert_eq!(call.next(&trace, 20, false), CallAction::StartTrace { refresh: true });
    assert_eq!(call.next(&trace, 20, false), CallAction::SendVoice { audio: 1 });
    assert_eq!(call.next(&trace, 20, false), CallAction::SendKeepalive { count: 1 });
}

#[test]
fn plans() {
    assert_eq!(plan_call(0, None, true, false), Err(CallConfigError::NoUpperBound));
    assert_eq!(plan_call(10, Some(10), true, false), Err(CallConfigError::EmptyDurationRange));
    assert_eq!(
        plan_with_draw(0, Some(100), true, false, 42),
        Ok(CallPlan { duration_lb_ms: 0, end_ms: Some(42), randomise: true, constant: false })
    );
    assert_eq!(
        plan_call(5, Some(9), false, true),
        Ok(CallPlan { duration_lb_ms: 5, end_ms: Some(9), randomise: false, constant: true })
    );
    for _ in 0..200 {
        let p = plan_call(10, Some(13), true, false).unwrap();
        let end = p.end_ms.unwrap();
        assert!((10..13).contains(&end));
    }
}

#[test]
fn trace_draws_stay_in_range() {
    assert_eq!(draw_trace_index(0), None);
    assert_eq!(draw_trace_index(1), Some(0));
    for _ in 0..500 {
        assert!(draw_trace_index(7).unwrap() < 7);
    }
}
