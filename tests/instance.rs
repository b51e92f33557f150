use hostess::instance::{Admission, Delivery, InstanceState};
use hostess::protocol::{InstanceInfo, ServerMsg};
use hostess::server::{Config, Ctx, InMsg, OutMsg};
use hostess::tick_period_micros;

fn started(max_players: u32) -> (InstanceState, Ctx) {
    let config = Config { tick_rate: 20, max_players };
    (InstanceState::new(7, 1, config, 0), Ctx::new())
}

fn pairs(d: &[Delivery]) -> Vec<(u128, Vec<u8>)> {
    d.iter().map(|x| (x.client_id, x.msg.clone())).collect()
}

#[test]
fn new_instance_publishes_config() {
    let (s, _) = started(4);
    assert_eq!(
        s.info(),
        InstanceInfo { id: 7, creator: 1, max_players: 4, current_players: 0 }
    );
}

#[test]
fn join_is_counted_and_delivered() {
    let (mut s, mut ctx) = started(2);
    let a = s.transfer(&mut ctx, 10, "Tester".to_string());
    let info = InstanceInfo { id: 7, creator: 1, max_players: 2, current_players: 1 };
    assert_eq!(a, Admission::Joined(info));
    assert_eq!(a.reply(), ServerMsg::JoinedInstance { instance: info });
    assert!(s.is_attached(10));
    assert_eq!(
        ctx.pop_all(),
        vec![InMsg::ClientJoined { client_id: 10, client_name: "Tester".to_string() }]
    );
}

#[test]
fn capacity_and_rejection() {
    let (mut s, mut ctx) = started(1);
    assert!(matches!(s.transfer(&mut ctx, 1, "A".to_string()), Admission::Joined(_)));
    let b = s.transfer(&mut ctx, 2, "B".to_string());
    match b {
        Admission::Rejected(info) => assert_eq!(info.current_players, 1),
        Admission::Joined(_) => panic!("second client admitted"),
    }
    assert!(matches!(b.reply(), ServerMsg::JoinRejected { .. }));
    assert!(!s.is_attached(2));
    assert_eq!(ctx.in_messages.len(), 1);
    let (mut other, mut other_ctx) = started(1);
    assert!(matches!(other.transfer(&mut other_ctx, 2, "B".to_string()), Admission::Joined(_)));
}

#[test]
fn zero_capacity_rejects_everyone() {
    let (mut s, mut ctx) = started(0);
    assert!(matches!(s.transfer(&mut ctx, 1, "A".to_string()), Admission::Rejected(_)));
    assert_eq!(ctx.in_messages.len(), 0);
}

#[test]
fn same_client_cannot_attach_twice() {
    let (mut s, mut ctx) = started(5);
    assert!(matches!(s.transfer(&mut ctx, 3, "A".to_string()), Admission::Joined(_)));
    assert!(matches!(s.transfer(&mut ctx, 3, "A".to_string()), Admission::Rejected(_)));
    assert_eq!(s.info().current_players, 1);
}

#[test]
fn leave_and_rejoin_order() {
    let (mut s, mut ctx) = started(1);
    s.transfer(&mut ctx, 5, "Tester".to_string());
    assert!(s.client_left(&mut ctx, 5));
    assert_eq!(s.info().current_players, 0);
    assert!(matches!(s.transfer(&mut ctx, 5, "Tester".to_string()), Admission::Joined(_)));
    assert_eq!(
        ctx.pop_all(),
        vec![
            InMsg::ClientJoined { client_id: 5, client_name: "Tester".to_string() },
            InMsg::ClientLeft { client_id: 5 },
            InMsg::ClientJoined { client_id: 5, client_name: "Tester".to_string() },
        ]
    );
}

#[test]
fn leave_of_unknown_client_is_ignored() {
    let (mut s, mut ctx) = started(1);
    assert!(!s.client_left(&mut ctx, 99));
    assert_eq!(ctx.in_messages.len(), 0);
}

#[test]
fn payload_only_from_attached_clients() {
    let (mut s, mut ctx) = started(2);
    assert!(!s.custom(&mut ctx, 4, vec![1]));
    s.transfer(&mut ctx, 4, "A".to_string());
    assert!(s.custom(&mut ctx, 4, vec![1, 2]));
    assert!(s.custom(&mut ctx, 4, vec![3]));
    let all = ctx.pop_all();
    assert_eq!(all.len(), 3);
    assert_eq!(all[1], InMsg::CustomMsg { client_id: 4, msg: vec![1, 2] });
    assert_eq!(all[2], InMsg::CustomMsg { client_id: 4, msg: vec![3] });
}

#[test]
fn instance_answers_ping_while_attached() {
    let (mut s, mut ctx) = started(2);
    let tick = 123.456f64.to_bits();
    assert_eq!(s.ping(8, tick, 10, 20), None);
    s.transfer(&mut ctx, 8, "A".to_string());
    match s.ping(8, tick, 10, 20) {
        Some(ServerMsg::Pong { tick: t, server_bytes_sec, client_bytes_sec }) => {
            assert_eq!(f64::from_bits(t), 123.456);
            assert_eq!(server_bytes_sec, 10);
            assert_eq!(client_bytes_sec, 20);
        }
        other => panic!("unexpected {:?}", other),
    }
}

#[test]
fn tick_timing() {
    let (mut s, mut ctx) = started(1);
    s.begin_tick(&mut ctx, 50_000);
    assert_eq!(ctx.delta_micros, 50_000);
    assert_eq!(ctx.time_micros, 50_000);
    s.begin_tick(&mut ctx, 2_050_000);
    assert_eq!(ctx.delta_micros, 2_000_000);
    assert_eq!(ctx.time_micros, 2_050_000);
    s.begin_tick(&mut ctx, 1_000);
    assert_eq!(ctx.delta_micros, 0);
}

#[test]
fn tick_period_at_twenty_per_second() {
    assert_eq!(tick_period_micros(20), 50_000);
    assert_eq!(tick_period_micros(1), 1_000_000);
    assert_eq!(tick_period_micros(3), 333_333);
}

#[test]
fn fan_out_in_order() {
    let (mut s, mut ctx) = started(3);
    s.transfer(&mut ctx, 1, "A".to_string());
    s.transfer(&mut ctx, 2, "B".to_string());
    ctx.push_msg(OutMsg::CustomTo { client_id: 2, msg: vec![9] });
    ctx.push_msg(OutMsg::CustomToAll { msg: vec![1, 2] });
    ctx.push_msg(OutMsg::CustomTo { client_id: 3, msg: vec![5] });
    ctx.push_msg(OutMsg::CustomTo { client_id: 1, msg: vec![4] });
    let sends = s.finish_tick(&mut ctx);
    assert_eq!(
        pairs(&sends),
        vec![(2, vec![9]), (1, vec![1, 2]), (2, vec![1, 2]), (1, vec![4])]
    );
    assert_eq!(ctx.in_messages.len(), 0);
    assert_eq!(ctx.out_messages.len(), 0);
}

#[test]
fn echo_custom_back_to_sender() {
    let (mut s, mut ctx) = started(1);
    s.transfer(&mut ctx, 0, "Tester".to_string());
    s.custom(&mut ctx, 0, vec![1, 2, 3, 4]);
    s.begin_tick(&mut ctx, 50_000);
    for m in ctx.pop_all() {
        if let InMsg::CustomMsg { client_id, msg } = m {
            ctx.push_msg(OutMsg::CustomTo { client_id, msg });
        }
    }
    let sends = s.finish_tick(&mut ctx);
    assert_eq!(pairs(&sends), vec![(0, vec![1, 2, 3, 4])]);
}

#[test]
fn ctx_pop_msg_is_fifo() {
    let mut ctx = Ctx::new();
    assert_eq!(ctx.pop_msg(), None);
    let (mut s, _) = started(2);
    s.transfer(&mut ctx, 1, "A".to_string());
    s.custom(&mut ctx, 1, vec![7]);
    assert!(matches!(ctx.pop_msg(), Some(InMsg::ClientJoined { .. })));
    assert_eq!(ctx.pop_msg(), Some(InMsg::CustomMsg { client_id: 1, msg: vec![7] }));
    assert_eq!(ctx.pop_msg(), None);
}

#[test]
fn player_count_follows_attachments() {
    let (mut s, mut ctx) = started(3);
    for c in [1u128, 2, 3, 4] {
        s.transfer(&mut ctx, c, "p".to_string());
    }
    assert_eq!(s.info().current_players, 3);
    assert!(!s.is_attached(4));
    s.client_left(&mut ctx, 2);
    assert_eq!(s.info().current_players, 2);
    assert!(s.is_attached(1) && !s.is_attached(2) && s.is_attached(3));
    s.client_left(&mut ctx, 2);
    assert_eq!(s.info().current_players, 2);
    assert!(s.info().current_players <= s.info().max_players);
}
