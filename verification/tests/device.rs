use shuru::device::{received_frame, VZDevice, VZRxToken, MAX_PENDING_FRAMES, MTU, RECV_BUF_SIZE};
use shuru::network::NETWORK_MTU;

#[test]
fn frames_are_consumed_in_order() {
    let mut device = VZDevice::new(3);
    assert_eq!(device.fd(), 3);
    assert!(device.receive().is_none());
    assert!(device.drain_recv(Some(vec![1])));
    assert!(device.drain_recv(Some(vec![2, 2])));
    assert!(!device.drain_recv(None));
    assert_eq!(device.pending_frames(), &vec![vec![1], vec![2, 2]]);
    assert_eq!(device.receive().unwrap().consume(|f: &[u8]| f.to_vec()), vec![1]);
    assert!(device.drain_recv(Some(vec![3])));
    assert_eq!(device.receive().unwrap().consume(|f: &[u8]| f.len()), 2);
    assert_eq!(device.receive().unwrap().consume(|f: &[u8]| f[0]), 3);
    assert!(device.receive().is_none());
}

#[test]
fn no_more_than_a_queue_full_is_read_ahead() {
    let mut device = VZDevice::new(3);
    for i in 0..MAX_PENDING_FRAMES {
        assert!(device.wants_frame());
        let more = device.drain_recv(Some(vec![i as u8]));
        assert_eq!(more, i + 1 < MAX_PENDING_FRAMES);
    }
    assert!(!device.wants_frame());
    assert_eq!(device.pending_frames().len(), 256);
    assert!(!device.drain_recv(Some(vec![9])));
    assert_eq!(device.pending_frames().len(), 256);
}

#[test]
fn a_frame_is_what_was_received() {
    let buffer = vec![7u8; RECV_BUF_SIZE];
    assert_eq!(received_frame(&buffer, 3), Some(vec![7, 7, 7]));
    assert_eq!(received_frame(&buffer, 0), None);
    assert_eq!(received_frame(&buffer, -1), None);
    assert_eq!(MTU as i64, NETWORK_MTU + 14);
    assert_eq!(RECV_BUF_SIZE, MTU + 64);
    assert_eq!(VZRxToken::new(vec![5]).consume(|f: &[u8]| f.to_vec()), vec![5]);
}
