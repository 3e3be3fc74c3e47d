use vo_lang::channel;
use vo_lang::port::{self, RecvResult, SendResult, WaiterInfo};
use vo_lang::value::{ValueKind, ValueMeta};

#[test]
fn channel_buffers_in_order_and_keeps_its_settings() {
    let mut ch = channel::create(5, 7, 2);
    assert_eq!(channel::try_send(&mut ch, 10), Ok(None));
    assert_eq!(channel::len(&ch), 1);
    assert_eq!(channel::try_send(&mut ch, 20), Ok(None));
    assert_eq!(channel::len(&ch), 2);
    assert_eq!(channel::try_send(&mut ch, 30), Err(30));
    assert_eq!(channel::len(&ch), 2);
    assert_eq!(channel::try_recv(&mut ch), Ok(Some(10)));
    assert!(!channel::is_closed(&ch));
    channel::close(&mut ch);
    assert!(channel::is_closed(&ch));
    assert_eq!(channel::try_recv(&mut ch), Ok(Some(20)));
    assert_eq!(channel::try_recv(&mut ch), Ok(None));
    assert!(channel::is_closed(&ch));
    assert_eq!(channel::capacity(&ch), 2);
    assert_eq!(channel::elem_type(&ch), 7);
}

#[test]
fn channel_recv_on_empty_open_blocks() {
    let mut ch = channel::create(1, 2, 0);
    assert_eq!(channel::try_recv(&mut ch), Err(()));
    assert_eq!(channel::try_send(&mut ch, 1), Err(1));
    assert_eq!(channel::len(&ch), 0);
}

#[test]
fn port_stays_closed_and_keeps_its_capacity() {
    let meta = ValueMeta::new(0, ValueKind::Int);
    let mut p: port::PortData<u64> = port::create(meta, 1, 3);
    assert_eq!(port::try_send(&mut p, 4), SendResult::Buffered);
    port::close(&mut p);
    assert!(port::is_closed(&p));
    assert_eq!(port::try_send(&mut p, 5), SendResult::Closed);
    port::register_receiver(&mut p, WaiterInfo { island_id: 0, fiber_id: 9 });
    assert_eq!(port::take_waiting_receivers(&mut p), vec![WaiterInfo { island_id: 0, fiber_id: 9 }]);
    assert_eq!(port::try_recv(&mut p), (RecvResult::Success(None), Some(4)));
    assert_eq!(port::try_recv(&mut p), (RecvResult::Closed, None));
    assert!(port::is_closed(&p));
    assert_eq!(port::capacity(&p), 3);
    assert_eq!(port::get_metadata(&p), (3, meta, 1));
}
