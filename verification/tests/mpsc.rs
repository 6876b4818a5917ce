use async_local_channel::mpsc::channel;
use async_local_channel::{Poll, RecvError};

#[test]
fn mpsc_receives_in_send_order() {
    let (mut chan, tx, rx) = channel::<i32, ()>();
    let tx2 = tx.duplicate(&mut chan);
    tx.send(&mut chan, 1).0.unwrap();
    tx2.send(&mut chan, 2).0.unwrap();
    tx.send(&mut chan, 3).0.unwrap();
    assert_eq!(rx.try_recv(&mut chan), Some(1));
    assert_eq!(rx.recv().poll(&mut chan, ()), Poll::Ready(Ok(2)));
    assert_eq!(rx.try_recv(&mut chan), Some(3));
    assert_eq!(rx.recv().poll(&mut chan, ()), Poll::Pending);
    tx.release(&mut chan);
    assert_eq!(tx2.release(&mut chan), vec![()]);
    assert_eq!(rx.recv().poll(&mut chan, ()), Poll::Ready(Err(RecvError)));
}

#[test]
fn mpsc_receiver_is_active_from_the_start() {
    let (mut chan, tx, rx) = channel::<i32, ()>();
    assert_eq!(tx.send(&mut chan, 9).0.unwrap(), Some(0));
    assert_eq!(rx.try_recv(&mut chan), Some(9));
    rx.release(&mut chan);
    assert_eq!(tx.send(&mut chan, 9).0.unwrap(), None);
}
