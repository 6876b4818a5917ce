use async_local_channel::watch::{channel, Receiver};
use async_local_channel::{Poll, RecvError};

#[test]
fn wait_for_change() {
    let (mut chan, tx, rx) = channel::<i32, u32>();
    let rx = rx.activate(&mut chan);
    tx.send(&mut chan, 1).0.unwrap();
    assert_eq!(rx.recv().poll(&mut chan, 0), Poll::Ready(Ok(1)));
    assert_eq!(rx.recv().poll(&mut chan, 3), Poll::Pending);
    let (result, woken) = tx.send(&mut chan, 2);
    assert_eq!(result.unwrap(), Some(1));
    assert_eq!(woken, vec![3]);
    assert_eq!(rx.recv().poll(&mut chan, 0), Poll::Ready(Ok(2)));
}

#[test]
fn keep_last() {
    let (mut chan, tx, rx) = channel::<i32, u32>();
    let rx = rx.activate(&mut chan);
    for i in 0..10 {
        tx.send(&mut chan, i).0.unwrap();
    }
    assert_eq!(rx.recv().poll(&mut chan, 0), Poll::Ready(Ok(9)));
    tx.send(&mut chan, 10).0.unwrap();
    assert_eq!(rx.recv().poll(&mut chan, 0), Poll::Ready(Ok(10)));
}

#[test]
fn watch_send_before() {
    let (mut chan, tx, rx) = channel::<i32, u32>();
    for i in 0..10 {
        tx.send(&mut chan, i).0.unwrap();
    }
    let receivers: Vec<Receiver<i32>> = (0..10)
        .map(|_| rx.duplicate(&mut chan).activate(&mut chan))
        .collect();
    tx.release(&mut chan);
    for rx in receivers.iter() {
        assert!(matches!(rx.recv().poll(&mut chan, 0), Poll::Ready(Err(_))));
    }
}

#[test]
fn watch_send_after() {
    let (mut chan, tx, rx) = channel::<i32, u32>();
    let receivers: Vec<Receiver<i32>> = (0..10)
        .map(|_| rx.duplicate(&mut chan).activate(&mut chan))
        .collect();
    for i in 0..10 {
        tx.send(&mut chan, i).0.unwrap();
    }
    for rx in receivers.iter() {
        assert_eq!(rx.recv().poll(&mut chan, 0), Poll::Ready(Ok(9)));
    }
    tx.release(&mut chan);
}

#[test]
fn watch_try_recv_reads_latest_without_marking_seen() {
    let (mut chan, tx, rx) = channel::<i32, u32>();
    let rx = rx.activate(&mut chan);
    assert_eq!(rx.try_recv(&chan), None);
    tx.send(&mut chan, 4).0.unwrap();
    assert_eq!(rx.try_recv(&chan), Some(4));
    assert_eq!(rx.try_recv(&chan), Some(4));
    assert_eq!(rx.seen(&chan), 0);
    assert_eq!(rx.recv().poll(&mut chan, 0), Poll::Ready(Ok(4)));
    assert_eq!(rx.seen(&chan), 1);
    tx.release(&mut chan);
    assert_eq!(rx.recv().poll(&mut chan, 0), Poll::Ready(Err(RecvError)));
}

#[test]
fn watch_new_receiver_waits_for_next_version() {
    let (mut chan, tx, rx) = channel::<i32, u32>();
    let a = rx.activate(&mut chan);
    tx.send(&mut chan, 1).0.unwrap();
    let b = a.duplicate(&mut chan);
    assert_eq!(b.recv().poll(&mut chan, 5), Poll::Pending);
    assert_eq!(a.recv().poll(&mut chan, 5), Poll::Ready(Ok(1)));
    tx.send(&mut chan, 2).0.unwrap();
    assert_eq!(b.recv().poll(&mut chan, 5), Poll::Ready(Ok(2)));
    a.release(&mut chan);
    assert!(chan.holds(&b));
}
