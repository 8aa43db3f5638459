use escalon::implementations::balance::BALANCE_SLACK;
use escalon::net::{destination, BROADCAST_PORT};
use escalon::{
    Action, CheckContent, ClientState, DoneContent, Escalon, EscalonClient, EscalonError,
    FoundDeadContent, IpAddress, JobTake, JoinContent, Message, NoManager, Redistribution,
    SocketAddress, TakeJobsContent, Timestamp,
};

fn ip(a: u8, b: u8, c: u8, d: u8) -> IpAddress {
    IpAddress::V4([a, b, c, d])
}

fn addr(last: u8) -> SocketAddress {
    SocketAddress { ip: ip(10, 0, 0, last), port: 65056 }
}

fn ts(secs: u64) -> Timestamp {
    Timestamp { secs, nanos: 0 }
}

fn node(id: &str) -> Escalon<NoManager> {
    Escalon::new()
        .set_id(id.to_string())
        .set_addr(ip(127, 0, 0, 1))
        .set_svc(ip(255, 255, 255, 255))
        .set_port(0)
        .set_manager(NoManager)
        .build(ip(10, 0, 0, 1), bound(), ts(1000))
}

fn bound() -> SocketAddress {
    SocketAddress { ip: ip(0, 0, 0, 0), port: 41000 }
}

fn client(last: u8, last_seen: i64, start: u64, jobs: usize) -> EscalonClient {
    EscalonClient { address: addr(last), last_seen, start_time: ts(start), state: ClientState { jobs } }
}

fn take(from: &str, start_at: usize, n_jobs: usize) -> JobTake {
    JobTake { take_from: from.to_string(), start_at, n_jobs }
}

#[test]
fn builder_sets_every_part() {
    let builder = Escalon::new()
        .set_id("test".to_string())
        .set_addr(ip(127, 0, 0, 1))
        .set_svc(ip(255, 255, 255, 255))
        .set_port(7000)
        .set_manager(3u8);
    assert_eq!(builder.id.0, "test");
    assert_eq!(builder.bind_address(), SocketAddress { ip: ip(127, 0, 0, 1), port: 7000 });
    let e = builder.build(ip(192, 168, 1, 2), bound(), ts(5));
    assert_eq!(e.id, "test");
    assert_eq!(e.address, SocketAddress { ip: ip(192, 168, 1, 2), port: 7000 });
    assert_eq!(e.bound_address, bound());
    assert_eq!(e.start_time, ts(5));
    assert_eq!(e.service, ip(255, 255, 255, 255));
    assert_eq!(e.manager, 3u8);
    assert_eq!(e.clients.len(), 0);
    assert_eq!(e.distribution.len(), 0);
}

#[test]
fn test_intercept_before_send_join() {
    let server = node("test");
    let msg = server.join_message();
    assert_eq!(destination(None), SocketAddress { ip: ip(255, 255, 255, 255), port: BROADCAST_PORT });
    assert_eq!(
        msg.action,
        Action::Join(JoinContent { sender_id: "test".to_string(), address: server.address, start_time: server.start_time })
    );
}

#[test]
fn test_intercept_before_hertbeat() {
    let server = node("test");
    let msg = server.heartbeat_message(3);
    assert!(matches!(msg.action, Action::Check(..)));
    assert_eq!(msg.action, Action::Check(CheckContent { sender_id: "test".to_string(), jobs: 3 }));
}

#[test]
fn destination_keeps_a_given_receiver() {
    assert_eq!(destination(Some(addr(9))), addr(9));
}

#[test]
fn message_constructors() {
    assert_eq!(
        Message::new_found_dead("a".to_string(), "b".to_string()).action,
        Action::FoundDead(FoundDeadContent { sender_id: "a".to_string(), dead_id: "b".to_string() })
    );
    assert_eq!(
        Message::new_take_jobs("a".to_string(), "b".to_string(), 4, 2).action,
        Action::TakeJobs(TakeJobsContent { sender_id: "a".to_string(), dead_id: "b".to_string(), start_at: 4, jobs: 2 })
    );
    assert_eq!(
        Message::new_done("a".to_string(), "b".to_string()).action,
        Action::Done(DoneContent { sender_id: "a".to_string(), dead_id: "b".to_string() })
    );
    assert_eq!(
        Message::new_check("a".to_string(), 7).action,
        Action::Check(CheckContent { sender_id: "a".to_string(), jobs: 7 })
    );
}

#[test]
fn timestamps_order_by_seconds_then_nanos() {
    assert!(ts(1).is_before(&ts(2)));
    assert!(!ts(2).is_before(&ts(2)));
    assert!(Timestamp { secs: 2, nanos: 1 }.is_before(&Timestamp { secs: 2, nanos: 2 }));
    assert!(!Timestamp { secs: 3, nanos: 0 }.is_before(&Timestamp { secs: 2, nanos: 9 }));
}

#[test]
fn join_from_stranger_is_answered_and_recorded() {
    let mut e = node("a");
    let content = JoinContent { sender_id: "b".to_string(), address: addr(2), start_time: ts(7) };
    let reply = e.register_join(content, addr(2), 50).unwrap();
    assert_eq!(reply.1, Some(addr(2)));
    assert_eq!(
        reply.0.action,
        Action::Join(JoinContent { sender_id: "a".to_string(), address: e.address, start_time: e.start_time })
    );
    assert_eq!(e.clients.get(&"b".to_string()), Some(client(2, 50, 7, 0)));
    // a second announcement gets no answer and resets what is known; the
    // client is reached where the datagram came from
    let again = JoinContent { sender_id: "b".to_string(), address: addr(2), start_time: ts(8) };
    assert!(e.register_join(again, addr(3), 60).is_none());
    assert_eq!(e.clients.get(&"b".to_string()), Some(client(3, 60, 8, 0)));
    assert_eq!(e.clients.len(), 1);
}

#[test]
fn check_updates_known_clients_only() {
    let mut e = node("a");
    e.register_join(JoinContent { sender_id: "b".to_string(), address: addr(2), start_time: ts(7) }, addr(2), 50);
    e.record_check(CheckContent { sender_id: "b".to_string(), jobs: 9 }, 55);
    assert_eq!(e.clients.get(&"b".to_string()), Some(client(2, 55, 7, 9)));
    e.record_check(CheckContent { sender_id: "z".to_string(), jobs: 9 }, 55);
    assert!(!e.clients.contains_key(&"z".to_string()));
    assert_eq!(e.clients.len(), 1);
}

#[test]
fn own_messages_are_ignored() {
    let mut e = node("a");
    let r = e.handle_action(Message::new_join("a".to_string(), addr(1), ts(1)), addr(1), 10);
    assert!(r.reply.is_none());
    assert!(r.take.is_none());
    assert_eq!(e.clients.len(), 0);
}

#[test]
fn handle_action_join_and_check() {
    let mut e = node("a");
    let r = e.handle_action(Message::new_join("b".to_string(), addr(2), ts(1)), addr(2), 40);
    let (m, to) = r.reply.unwrap();
    assert_eq!(to, Some(addr(2)));
    assert!(matches!(m.action, Action::Join(..)));
    assert_eq!(e.clients.get(&"b".to_string()), Some(client(2, 40, 1, 0)));
    let r = e.handle_action(Message::new_check("b".to_string(), 4), addr(2), 45);
    assert!(r.reply.is_none() && r.take.is_none());
    assert_eq!(e.clients.get(&"b".to_string()), Some(client(2, 45, 1, 4)));
}

#[test]
fn found_dead_about_self_is_answered_with_join() {
    let mut e = node("a");
    e.clients.insert("b".to_string(), client(2, 10, 500, 0));
    let r = e.handle_action(Message::new_found_dead("b".to_string(), "a".to_string()), addr(7), 20);
    let (m, to) = r.reply.unwrap();
    // the answer goes back where the report came from, not to the address
    // recorded for its sender
    assert_eq!(to, Some(addr(7)));
    assert_eq!(
        m.action,
        Action::Join(JoinContent { sender_id: "a".to_string(), address: e.address, start_time: e.start_time })
    );
    // from an unknown sender too
    let r = e.handle_action(Message::new_found_dead("q".to_string(), "a".to_string()), addr(8), 20);
    assert_eq!(r.reply.unwrap().1, Some(addr(8)));
}

#[test]
fn found_dead_from_older_sender_forgets_the_node() {
    let mut e = node("a");
    e.clients.insert("old".to_string(), client(2, 10, 500, 0));
    e.clients.insert("young".to_string(), client(3, 10, 2000, 0));
    e.clients.insert("c".to_string(), client(4, 10, 600, 0));
    let r = e.handle_action(Message::new_found_dead("young".to_string(), "c".to_string()), addr(3), 20);
    assert!(r.reply.is_none());
    assert!(e.clients.contains_key(&"c".to_string()));
    let r = e.handle_action(Message::new_found_dead("old".to_string(), "c".to_string()), addr(2), 20);
    assert!(r.reply.is_none());
    assert!(!e.clients.contains_key(&"c".to_string()));
    assert_eq!(e.clients.len(), 2);
}

#[test]
fn take_jobs_is_taken_and_reported() {
    let mut e = node("a");
    e.clients.insert("b".to_string(), client(2, 10, 500, 0));
    let r = e.handle_action(Message::new_take_jobs("b".to_string(), "c".to_string(), 3, 2), addr(9), 20);
    assert_eq!(r.take, Some(take("c", 3, 2)));
    let (m, to) = r.reply.unwrap();
    assert_eq!(to, Some(addr(9)));
    assert_eq!(m.action, Action::Done(DoneContent { sender_id: "a".to_string(), dead_id: "c".to_string() }));
    // a request from an unknown sender is answered the same way
    let r = e.handle_action(Message::new_take_jobs("q".to_string(), "c".to_string(), 0, 1), addr(5), 20);
    assert_eq!(r.take, Some(take("c", 0, 1)));
    assert_eq!(r.reply.unwrap().1, Some(addr(5)));
}

#[test]
fn scanner_finds_silent_clients() {
    let mut e = node("a");
    e.clients.insert("b".to_string(), client(2, 100, 1, 0));
    e.clients.insert("c".to_string(), client(3, 96, 1, 0));
    e.clients.insert("d".to_string(), client(4, 97, 1, 0));
    e.clients.insert("f".to_string(), client(5, 10, 1, 0));
    // silent: more than three seconds
    assert_eq!(e.dead_clients(100), vec!["c".to_string(), "f".to_string()]);
    let m = e.found_dead_message("c".to_string());
    assert_eq!(m.action, Action::FoundDead(FoundDeadContent { sender_id: "a".to_string(), dead_id: "c".to_string() }));
}

#[test]
fn redistribution_of_a_silent_node() {
    let mut e = node("a");
    e.clients.insert("b".to_string(), client(2, 99, 1, 1));
    e.clients.insert("c".to_string(), client(3, 0, 1, 4));
    let h = match e.redistribute_jobs("c".to_string(), 100, 2).unwrap() {
        Redistribution::Planned(h) => h,
        _ => panic!("expected a plan"),
    };
    // 7 jobs over 2 nodes: average 3; b (1 job) gets 2, a (2 jobs) gets 1
    assert_eq!(h.messages.len(), 1);
    assert_eq!(h.messages[0].1, addr(2));
    assert_eq!(
        h.messages[0].0.action,
        Action::TakeJobs(TakeJobsContent { sender_id: "a".to_string(), dead_id: "c".to_string(), start_at: 0, jobs: 2 })
    );
    assert_eq!(h.takes, vec![take("c", 2, 1)]);
    assert!(!e.clients.contains_key(&"c".to_string()));
    assert_eq!(e.distribution.len(), 1);
    assert_eq!(e.distribution[0].client_id, "b");
    assert_eq!(e.distribution[0].take_from, "c");
    assert_eq!(e.distribution[0].start_at, 0);
    assert_eq!(e.distribution[0].n_jobs, 2);
    assert!(!e.distribution[0].done);
    // b reports it is done: the record goes
    e.handle_action(Message::new_done("b".to_string(), "c".to_string()), addr(2), 101);
    assert_eq!(e.distribution.len(), 0);
}

#[test]
fn redistribution_with_an_idle_peer() {
    // this node "s" holds 2 jobs; "a" holds none, "d" held 4 and went silent
    let mut e = node("s");
    e.clients.insert("a".to_string(), client(1, 0, 0, 0));
    e.clients.insert("d".to_string(), client(4, 0, 0, 4));
    let h = match e.redistribute_jobs("d".to_string(), 10, 2).unwrap() {
        Redistribution::Planned(h) => h,
        _ => panic!("expected a plan"),
    };
    assert!(!e.clients.contains_key(&"d".to_string()));
    assert_eq!(e.clients.len(), 1);
    assert_eq!(h.messages.len(), 1);
    assert_eq!(
        h.messages[0].0.action,
        Action::TakeJobs(TakeJobsContent { sender_id: "s".to_string(), dead_id: "d".to_string(), start_at: 0, jobs: 3 })
    );
    assert_eq!(h.messages[0].1, addr(1));
    assert_eq!(h.takes, vec![take("d", 3, 1)]);
    assert_eq!(e.distribution.len(), 1);
    assert_eq!(e.distribution[0].client_id, "a");
    assert_eq!(e.distribution[0].n_jobs, 3);
}

#[test]
fn redistribution_skips_recent_and_unknown_clients() {
    let mut e = node("a");
    e.clients.insert("b".to_string(), client(2, 98, 1, 1));
    assert!(matches!(e.redistribute_jobs("b".to_string(), 100, 2), Ok(Redistribution::Skipped)));
    assert!(e.clients.contains_key(&"b".to_string()));
    assert!(matches!(e.redistribute_jobs("z".to_string(), 100, 2), Ok(Redistribution::NotFound)));
    // exactly at the threshold it is neither recent nor left alone
    assert!(matches!(e.redistribute_jobs("b".to_string(), 101, 2), Ok(Redistribution::Planned(_))));
    assert!(!e.clients.contains_key(&"b".to_string()));
}

#[test]
fn redistribution_reaching_a_loaded_client_fails() {
    // loads 2 (own), 2 and 3; the silent node holds 1: the average is 2 and
    // the share of the client holding 3 cannot be computed
    let mut e = node("a");
    e.clients.insert("b".to_string(), client(2, 100, 1, 2));
    e.clients.insert("d".to_string(), client(4, 100, 1, 3));
    e.clients.insert("c".to_string(), client(3, 0, 1, 1));
    let r = e.redistribute_jobs("c".to_string(), 100, 2);
    assert_eq!(r.err(), Some(EscalonError::AboveAverage));
    assert!(!e.clients.contains_key(&"c".to_string()));
    assert_eq!(e.distribution.len(), 0);
}

#[test]
fn redistribution_with_too_many_jobs_overflows() {
    let mut e = node("a");
    e.clients.insert("c".to_string(), client(3, 0, 1, 1));
    let r = e.redistribute_jobs("c".to_string(), 100, usize::MAX);
    assert_eq!(r.err(), Some(EscalonError::Overflow));
    assert!(!e.clients.contains_key(&"c".to_string()));
    assert_eq!(e.distribution.len(), 0);
}

#[test]
fn job_counts_and_average() {
    let mut e = node("a");
    e.clients.insert("b".to_string(), client(2, 1, 1, 3));
    e.clients.insert("c".to_string(), client(3, 1, 1, 4));
    assert_eq!(e.calculate_job_counts(5).unwrap(), (5, 7));
    assert_eq!(e.calculate_avg_jobs_client(12), 4);
    assert_eq!(e.calculate_avg_jobs_client(14), 4);
    assert_eq!(e.balance_counts(5).unwrap(), (5, 4));
    assert_eq!(e.balance_counts(usize::MAX).err(), Some(EscalonError::Overflow));
}

#[test]
fn jobs_to_add_is_capped() {
    let e = node("a");
    assert_eq!(e.calculate_jobs_to_add(1, 5, 10), 4);
    assert_eq!(e.calculate_jobs_to_add(1, 5, 2), 2);
    assert_eq!(e.calculate_jobs_to_add(5, 5, 2), 0);
}

#[test]
fn clients_sorted_by_jobs() {
    let mut e = node("a");
    e.clients.insert("b".to_string(), client(2, 1, 1, 3));
    e.clients.insert("c".to_string(), client(3, 1, 1, 1));
    e.clients.insert("d".to_string(), client(4, 1, 1, 3));
    let sorted = e.sort_clients_by_jobs(2);
    let ids: Vec<(&str, usize)> = sorted.iter().map(|(id, jobs, _)| (id.as_str(), *jobs)).collect();
    assert_eq!(ids, vec![("c", 1), ("a", 2), ("b", 3), ("d", 3)]);
    // this node is reached at the address its socket is bound to
    assert_eq!(sorted[1].2, bound());
    assert_ne!(sorted[1].2, e.address);
}

#[test]
fn plan_hands_out_consecutive_shares() {
    let e = node("a");
    let sorted = vec![("x".to_string(), 0, addr(2)), ("y".to_string(), 1, addr(3)), ("z".to_string(), 4, addr(4))];
    let shares = e.plan_redistribution(&sorted, 4, 6, &"dead".to_string()).unwrap();
    let got: Vec<(&str, usize, usize)> =
        shares.iter().map(|(d, _)| (d.client_id.as_str(), d.start_at, d.n_jobs)).collect();
    assert_eq!(got, vec![("x", 0, 4), ("y", 4, 2)]);
    assert!(shares.iter().all(|(d, _)| d.take_from == "dead" && !d.done));
    // when room runs out before the jobs do, the client above the average fails
    let sorted = vec![("x".to_string(), 3, addr(2)), ("y".to_string(), 5, addr(3))];
    assert_eq!(e.plan_redistribution(&sorted, 4, 2, &"dead".to_string()).err(), Some(EscalonError::AboveAverage));
    // a share may hold no job
    let sorted = vec![("x".to_string(), 4, addr(2))];
    let shares = e.plan_redistribution(&sorted, 4, 1, &"dead".to_string()).unwrap();
    assert_eq!(shares.len(), 1);
    assert_eq!(shares[0].0.n_jobs, 0);
}

#[test]
fn balance_hands_out_own_excess() {
    let mut e = node("a");
    e.clients.insert("b".to_string(), client(2, 1, 1, 0));
    e.clients.insert("c".to_string(), client(3, 1, 1, 1));
    let (own, avg) = e.balance_counts(20).unwrap();
    assert_eq!((own, avg), (20, 7));
    let h = e.balance_jobs(own, avg, true).unwrap();
    assert_eq!(h.messages.len(), 2);
    assert!(h.takes.is_empty());
    assert_eq!(h.messages[0].0.action, Action::TakeJobs(TakeJobsContent { sender_id: "a".to_string(), dead_id: "a".to_string(), start_at: 0, jobs: 7 }));
    assert_eq!(h.messages[0].1, addr(2));
    assert_eq!(h.messages[1].0.action, Action::TakeJobs(TakeJobsContent { sender_id: "a".to_string(), dead_id: "a".to_string(), start_at: 7, jobs: 6 }));
    assert_eq!(e.distribution.len(), 2);
}

#[test]
fn balance_needs_margin_and_slack() {
    let mut e = node("a");
    e.clients.insert("b".to_string(), client(2, 1, 1, 0));
    assert_eq!(e.balance_jobs(20, 10, false).unwrap().messages.len(), 0);
    assert_eq!(e.balance_jobs(10 + BALANCE_SLACK, 10, true).unwrap().messages.len(), 0);
    assert_eq!(e.balance_jobs(5, 10, true).err(), Some(EscalonError::BelowAverage));
    // 12 and 5: average 8, the excess of 4 does not fit below the average
    let mut e = node("a");
    e.clients.insert("b".to_string(), client(2, 1, 1, 5));
    assert_eq!(e.balance_jobs(12, 8, true).err(), Some(EscalonError::AboveAverage));
    assert_eq!(e.distribution.len(), 0);
}

#[test]
fn client_table_operations() {
    let mut t = escalon::ClientTable::new();
    t.insert("b".to_string(), client(2, 1, 1, 1));
    t.insert("c".to_string(), client(3, 1, 1, 2));
    t.insert("b".to_string(), client(4, 2, 1, 5));
    assert_eq!(t.len(), 2);
    assert_eq!(t.key_at(0), "b");
    assert_eq!(t.client_at(0), client(4, 2, 1, 5));
    assert_eq!(t.total_jobs(), Some(7));
    assert_eq!(t.remove(&"b".to_string()), Some(client(4, 2, 1, 5)));
    assert_eq!(t.remove(&"b".to_string()), None);
    assert_eq!(t.len(), 1);
    t.insert("big".to_string(), client(5, 1, 1, usize::MAX));
    assert_eq!(t.total_jobs(), None);
}

#[test]
fn pending_distribution_cleared_only_for_matching_share() {
    let mut e = node("a");
    e.clients.insert("b".to_string(), client(2, 99, 1, 1));
    e.clients.insert("c".to_string(), client(3, 0, 1, 4));
    e.redistribute_jobs("c".to_string(), 100, 2).unwrap();
    e.handle_action(Message::new_done("b".to_string(), "other".to_string()), addr(2), 100);
    assert_eq!(e.distribution.len(), 1);
    e.handle_action(Message::new_done("x".to_string(), "c".to_string()), addr(6), 100);
    assert_eq!(e.distribution.len(), 1);
}

#[test]
fn heard_client_stays_alive_for_the_threshold() {
    let mut e = node("a");
    e.register_join(JoinContent { sender_id: "b".to_string(), address: addr(2), start_time: ts(1) }, addr(2), 90);
    e.record_check(CheckContent { sender_id: "b".to_string(), jobs: 1 }, 100);
    assert!(e.dead_clients(103).is_empty());
    assert_eq!(e.dead_clients(104), vec!["b".to_string()]);
}

#[test]
fn rounding_leaves_at_most_one_job_per_remaining_client() {
    // one job over two idle nodes: the average rounds down to zero
    let mut e = node("a");
    e.clients.insert("b".to_string(), client(2, 100, 1, 0));
    e.clients.insert("c".to_string(), client(3, 0, 1, 1));
    let h = match e.redistribute_jobs("c".to_string(), 100, 0).unwrap() {
        Redistribution::Planned(h) => h,
        _ => panic!("expected a plan"),
    };
    assert_eq!(h.messages.len(), 1);
    assert_eq!(
        h.messages[0].0.action,
        Action::TakeJobs(TakeJobsContent { sender_id: "a".to_string(), dead_id: "c".to_string(), start_at: 0, jobs: 0 })
    );
    assert_eq!(h.takes, vec![take("c", 0, 0)]);
}
