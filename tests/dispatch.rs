use emg_core::dispatch::{parse_sensors, CommandDispatcher, PendingRequests};
use emg_core::packet::{CommandType, Packet, RequestId};

fn response(id: RequestId, command: CommandType, payload: &[u8]) -> Packet {
    Packet::with_payload(command, id, payload).unwrap()
}

#[test]
fn out_of_order_responses_reach_their_own_waiters() {
    let mut d: CommandDispatcher<&str> = CommandDispatcher::new(4);
    let a = d.begin_request(CommandType::SetSpeed, &[1, 0], "first").unwrap();
    let b = d.begin_request(CommandType::StartMotion, &[1], "second").unwrap();
    assert_ne!(a.request_id(), b.request_id());
    assert_eq!(d.in_flight(), 2);

    let (dest, p) = d.complete(response(b.request_id(), CommandType::StartMotion, &[])).unwrap();
    assert_eq!(dest, "second");
    assert_eq!(p.request_id(), b.request_id());
    let (dest, _) = d.complete(response(a.request_id(), CommandType::SetSpeed, &[])).unwrap();
    assert_eq!(dest, "first");
    assert_eq!(d.in_flight(), 0);
}

#[test]
fn duplicate_and_unsolicited_responses_are_dropped() {
    let mut d: CommandDispatcher<u32> = CommandDispatcher::new(2);
    let a = d.begin_request(CommandType::StopMotion, &[], 1).unwrap();
    assert!(d.complete(response(a.request_id(), CommandType::StopMotion, &[])).is_some());
    assert!(d.complete(response(a.request_id(), CommandType::StopMotion, &[])).is_none());
    assert!(d.complete(response(RequestId(999), CommandType::StopMotion, &[])).is_none());
}

#[test]
fn full_table_refuses_without_blocking() {
    let mut d: CommandDispatcher<u32> = CommandDispatcher::new(2);
    assert!(d.begin_request(CommandType::StopMotion, &[], 1).is_some());
    assert!(d.begin_request(CommandType::StopMotion, &[], 2).is_some());
    assert!(d.begin_request(CommandType::StopMotion, &[], 3).is_none());
    assert_eq!(d.in_flight(), 2);
}

#[test]
fn timeouts_leak_no_slot() {
    let capacity = 3;
    let mut d: CommandDispatcher<u32> = CommandDispatcher::new(capacity);
    for k in 0..capacity + 1 {
        let p = d.begin_get_sensors(k as u32).expect("slot is free");
        assert!(d.expire(p.request_id()));
        assert_eq!(d.in_flight(), 0);
    }
}

#[test]
fn late_response_after_timeout_is_dropped() {
    let mut d: CommandDispatcher<u32> = CommandDispatcher::new(1);
    let p = d.begin_get_sensors(5).unwrap();
    assert!(d.expire(p.request_id()));
    assert!(!d.expire(p.request_id()));
    assert!(d.complete(response(p.request_id(), CommandType::GetSensors, &[0; 18])).is_none());
}

#[test]
fn oversized_request_draws_no_id() {
    let mut d: CommandDispatcher<u32> = CommandDispatcher::new(2);
    assert!(d.begin_request(CommandType::StopMotion, &[1], 1).is_none());
    let p = d.begin_request(CommandType::StopMotion, &[], 1).unwrap();
    assert_eq!(p.request_id(), RequestId(0));
}

#[test]
fn get_sensors_request_frame() {
    let mut d: CommandDispatcher<u32> = CommandDispatcher::new(2);
    let p = d.begin_get_sensors(0).unwrap();
    assert_eq!(p.command(), CommandType::GetSensors);
    assert_eq!(p.body(), &[0xFF]);
    let frame = p.serialize();
    assert_eq!(&frame[36..38], &[0xCB, 0x3D]);
}

#[test]
fn parse_sensors_reads_nine_le_i16() {
    let mut payload = Vec::new();
    let values: [i16; 9] = [0, 1, -1, 256, -256, i16::MAX, i16::MIN, 1234, -4321];
    for v in values {
        payload.extend_from_slice(&v.to_le_bytes());
    }
    let p = response(RequestId(3), CommandType::GetSensors, &payload);
    assert_eq!(parse_sensors(&p), Some(values));
    let short = response(RequestId(3), CommandType::GetSensors, &payload[..17]);
    assert_eq!(parse_sensors(&short), None);
}

#[test]
fn pending_table_register_and_take() {
    let mut t: PendingRequests<char> = PendingRequests::new(1);
    assert!(t.register(RequestId(1), 'a').is_ok());
    assert_eq!(t.register(RequestId(2), 'b'), Err('b'));
    assert_eq!(t.take(RequestId(1)), Some('a'));
    assert!(t.register(RequestId(1), 'c').is_ok());
    assert_eq!(t.register(RequestId(1), 'd'), Err('d'));
    assert_eq!(t.len(), 1);
}
