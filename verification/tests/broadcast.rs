use async_local_channel::broadcast::{channel, Receiver, Shared};
use async_local_channel::{Poll, RecvError};

fn drain(rx: &Receiver<i32>, chan: &mut Shared<i32, u32>) -> Vec<i32> {
    let mut values = Vec::new();
    loop {
        match rx.recv().poll(chan, 0) {
            Poll::Ready(Ok(value)) => values.push(value),
            Poll::Ready(Err(RecvError)) => return values,
            Poll::Pending => panic!("receive waits on a closed channel"),
        }
    }
}

#[test]
fn broadcast_send_before() {
    let (mut chan, tx, rx) = channel::<i32, u32>();
    for i in 0..10 {
        tx.send(&mut chan, i).0.unwrap();
    }
    let receivers: Vec<Receiver<i32>> = (0..10)
        .map(|_| rx.duplicate(&mut chan).activate(&mut chan))
        .collect();
    tx.release(&mut chan);
    for rx in receivers.iter() {
        assert!(matches!(rx.recv().poll(&mut chan, 0), Poll::Ready(Err(_))));
    }
}

#[test]
fn broadcast_send_after() {
    let (mut chan, tx, rx) = channel::<i32, u32>();
    let receivers: Vec<Receiver<i32>> = (0..10)
        .map(|_| rx.duplicate(&mut chan).activate(&mut chan))
        .collect();
    for i in 0..10 {
        tx.send(&mut chan, i).0.unwrap();
    }
    tx.release(&mut chan);
    for rx in receivers.iter() {
        let values = drain(rx, &mut chan);
        assert_eq!(values, (0..10).collect::<Vec<i32>>());
        assert_eq!(values.iter().sum::<i32>(), 45);
    }
    assert!(chan.is_well_formed());
}

#[test]
fn broadcast_every_receiver_reads_every_value() {
    let (mut chan, tx, rx) = channel::<i32, u32>();
    let a = rx.activate(&mut chan);
    let b = a.duplicate(&mut chan);
    tx.send(&mut chan, 1).0.unwrap();
    tx.send(&mut chan, 2).0.unwrap();
    assert_eq!(a.try_recv(&mut chan), Some(1));
    assert_eq!(a.index(&chan), 1);
    assert_eq!(a.try_recv(&mut chan), Some(2));
    assert_eq!(a.try_recv(&mut chan), None);
    assert_eq!(chan.len(), 2);
    assert_eq!(b.recv().poll(&mut chan, 0), Poll::Ready(Ok(1)));
    assert_eq!(b.recv().poll(&mut chan, 0), Poll::Ready(Ok(2)));
    assert_eq!(chan.len(), 0);
}

#[test]
fn broadcast_no_value_twice_after_waiting() {
    let (mut chan, tx, rx) = channel::<i32, u32>();
    let a = rx.duplicate(&mut chan).activate(&mut chan);
    let b = rx.activate(&mut chan);
    tx.send(&mut chan, 1).0.unwrap();
    assert_eq!(a.recv().poll(&mut chan, 0), Poll::Ready(Ok(1)));
    assert_eq!(a.recv().poll(&mut chan, 7), Poll::Pending);
    let (result, woken) = tx.send(&mut chan, 2);
    assert_eq!(result.unwrap(), Some(1));
    assert_eq!(woken, vec![7]);
    assert_eq!(a.recv().poll(&mut chan, 0), Poll::Ready(Ok(2)));
    assert_eq!(b.recv().poll(&mut chan, 0), Poll::Ready(Ok(1)));
    assert_eq!(b.recv().poll(&mut chan, 0), Poll::Ready(Ok(2)));
    assert_eq!(chan.len(), 0);
    tx.release(&mut chan);
    assert_eq!(a.recv().poll(&mut chan, 0), Poll::Ready(Err(RecvError)));
    assert_eq!(b.recv().poll(&mut chan, 0), Poll::Ready(Err(RecvError)));
}

#[test]
fn broadcast_queue_emptied_once_all_have_read() {
    let (mut chan, tx, rx) = channel::<i32, u32>();
    let a = rx.activate(&mut chan);
    let b = a.duplicate(&mut chan);
    tx.send(&mut chan, 5).0.unwrap();
    assert_eq!(a.recv().poll(&mut chan, 0), Poll::Ready(Ok(5)));
    assert_eq!(chan.len(), 1);
    assert_eq!(a.recv().poll(&mut chan, 1), Poll::Pending);
    assert_eq!(a.recv().poll(&mut chan, 1), Poll::Pending);
    assert_eq!(chan.len(), 1);
    assert_eq!(b.recv().poll(&mut chan, 0), Poll::Ready(Ok(5)));
    assert_eq!(chan.len(), 0);
    assert_eq!(a.index(&chan), 0);
    assert_eq!(b.index(&chan), 0);
    let (result, woken) = tx.send(&mut chan, 6);
    assert_eq!(result.unwrap(), Some(2));
    assert_eq!(woken, vec![1, 1]);
    assert_eq!(a.recv().poll(&mut chan, 1), Poll::Ready(Ok(6)));
    assert_eq!(b.recv().poll(&mut chan, 2), Poll::Ready(Ok(6)));
}

#[test]
fn broadcast_new_receiver_reads_queued_values() {
    let (mut chan, tx, rx) = channel::<i32, u32>();
    let a = rx.duplicate(&mut chan).activate(&mut chan);
    tx.send(&mut chan, 3).0.unwrap();
    let b = rx.activate(&mut chan);
    assert_eq!(b.try_recv(&mut chan), Some(3));
    assert_eq!(a.try_recv(&mut chan), Some(3));
    a.release(&mut chan);
    assert!(chan.holds(&b));
}

#[test]
fn broadcast_inactive_receiver_keeps_nothing() {
    let (mut chan, tx, rx) = channel::<i32, u32>();
    assert!(tx.is_closed(&chan));
    assert_eq!(tx.send(&mut chan, 1).0.unwrap(), None);
    let a = rx.activate(&mut chan);
    assert!(!a.is_closed(&chan));
    let inactive = a.deactivate(&mut chan);
    assert!(tx.is_closed(&chan));
    inactive.release(&mut chan);
    assert!(!tx.is_closed(&chan));
}
