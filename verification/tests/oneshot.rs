use async_local_channel::oneshot::channel;
use async_local_channel::{Poll, RecvError};

#[test]
fn oneshot_send_before() {
    let (mut chan, tx, rx) = channel::<bool, u32>();
    let rx = rx.activate(&mut chan);
    let (result, woken) = tx.send(&mut chan, true);
    assert_eq!(result.unwrap(), Some(0));
    assert_eq!(woken, None);
    match rx.recv().poll(&mut chan, 0) {
        Poll::Ready(Ok(value)) => assert!(value),
        _ => panic!("value not received"),
    }
}

#[test]
fn oneshot_send_after() {
    let (mut chan, tx, rx) = channel::<bool, u32>();
    let rx = rx.activate(&mut chan);
    assert_eq!(rx.recv().poll(&mut chan, 4), Poll::Pending);
    let (result, woken) = tx.send(&mut chan, true);
    assert_eq!(result.unwrap(), Some(1));
    assert_eq!(woken, Some(4));
    assert_eq!(rx.recv().poll(&mut chan, 4), Poll::Ready(Ok(true)));
}

#[test]
fn oneshot_send_before_activation_is_dropped() {
    let (mut chan, tx, rx) = channel::<i32, u32>();
    let (result, woken) = tx.send(&mut chan, 3);
    assert_eq!(result.unwrap(), None);
    assert_eq!(woken, None);
    let rx = rx.activate(&mut chan);
    assert!(rx.is_closed(&chan));
    assert_eq!(rx.try_recv(&mut chan), None);
    assert_eq!(rx.recv().poll(&mut chan, 0), Poll::Ready(Err(RecvError)));
}

#[test]
fn oneshot_send_after_receiver_gone() {
    let (mut chan, tx, rx) = channel::<i32, u32>();
    let rx = rx.activate(&mut chan);
    assert!(!tx.is_closed(&chan));
    rx.release(&mut chan);
    assert!(tx.is_closed(&chan));
    let (result, _) = tx.send(&mut chan, 8);
    match result {
        Err(err) => {
            assert_eq!(err.message(), "channel closed");
            assert_eq!(err.into_inner(), 8);
        }
        Ok(_) => panic!("send to a dropped receiver succeeded"),
    }
}

#[test]
fn oneshot_sender_dropped_wakes_receiver() {
    let (mut chan, tx, rx) = channel::<i32, u32>();
    let rx = rx.activate(&mut chan);
    assert_eq!(rx.recv().poll(&mut chan, 9), Poll::Pending);
    assert_eq!(tx.release(&mut chan), Some(9));
    assert_eq!(rx.recv().poll(&mut chan, 9), Poll::Ready(Err(RecvError)));
    assert_eq!(RecvError.message(), "channel closed");
}

#[test]
fn oneshot_deactivated_receiver_still_counts_as_activated() {
    let (mut chan, tx, rx) = channel::<i32, u32>();
    let rx = rx.activate(&mut chan).deactivate();
    let (result, _) = tx.send(&mut chan, 6);
    assert_eq!(result.unwrap(), Some(0));
    let rx = rx.activate(&mut chan);
    assert_eq!(rx.try_recv(&mut chan), Some(6));
    assert_eq!(rx.try_recv(&mut chan), None);
}
