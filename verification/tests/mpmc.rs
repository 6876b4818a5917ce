use async_local_channel::mpmc::{channel, Receiver, Shared};
use async_local_channel::{Poll, RecvError};

fn drain(rx: &Receiver<i32>, chan: &mut Shared<i32, u32>, waker: u32) -> (i32, usize) {
    let mut sum = 0;
    let mut count = 0;
    loop {
        match rx.recv().poll(chan, waker) {
            Poll::Ready(Ok(value)) => {
                sum += value;
                count += 1;
            }
            Poll::Ready(Err(RecvError)) => return (sum, count),
            Poll::Pending => panic!("receive waits on a closed channel"),
        }
    }
}

#[test]
fn mpmc_send_before() {
    let (mut chan, tx, rx) = channel::<i32, u32>();
    let rx = rx.activate(&mut chan);
    for i in 0..10 {
        tx.send(&mut chan, i).0.unwrap();
    }
    let woken = tx.release(&mut chan);
    assert!(woken.is_empty());
    assert_eq!(drain(&rx, &mut chan, 0), (45, 10));
}

#[test]
fn mpmc_send_after() {
    let (mut chan, tx, rx) = channel::<i32, u32>();
    let rx = rx.activate(&mut chan);
    assert_eq!(rx.recv().poll(&mut chan, 7), Poll::Pending);
    let (result, woken) = tx.send(&mut chan, 0);
    assert_eq!(result.unwrap(), Some(1));
    assert_eq!(woken, vec![7]);
    for i in 1..10 {
        let (result, woken) = tx.send(&mut chan, i);
        assert_eq!(result.unwrap(), Some(0));
        assert!(woken.is_empty());
    }
    tx.release(&mut chan);
    assert_eq!(drain(&rx, &mut chan, 0), (45, 10));
}

#[test]
fn mpmc_send_without_active_receiver_is_dropped() {
    let (mut chan, tx, rx) = channel::<i32, u32>();
    assert!(tx.is_closed(&chan));
    let (result, woken) = tx.send(&mut chan, 5);
    assert_eq!(result.unwrap(), None);
    assert!(woken.is_empty());
    assert_eq!(chan.len(), 0);
    let rx = rx.activate(&mut chan);
    assert!(!tx.is_closed(&chan));
    assert_eq!(rx.try_recv(&mut chan), None);
}

#[test]
fn mpmc_values_shared_among_receivers_in_order() {
    let (mut chan, tx, rx) = channel::<i32, u32>();
    let a = rx.activate(&mut chan);
    let b = a.duplicate(&mut chan);
    for i in 1..=4 {
        tx.send(&mut chan, i).0.unwrap();
    }
    assert_eq!(a.try_recv(&mut chan), Some(1));
    assert_eq!(b.try_recv(&mut chan), Some(2));
    assert_eq!(b.recv().poll(&mut chan, 0), Poll::Ready(Ok(3)));
    assert_eq!(a.recv().poll(&mut chan, 0), Poll::Ready(Ok(4)));
    assert_eq!(a.try_recv(&mut chan), None);
}

#[test]
fn mpmc_last_sender_wakes_waiting_receives() {
    let (mut chan, tx, rx) = channel::<i32, u32>();
    let tx2 = tx.duplicate(&mut chan);
    let a = rx.activate(&mut chan);
    let b = a.duplicate(&mut chan);
    assert_eq!(a.recv().poll(&mut chan, 1), Poll::Pending);
    assert_eq!(b.recv().poll(&mut chan, 2), Poll::Pending);
    assert!(tx.release(&mut chan).is_empty());
    assert!(!a.is_closed(&chan));
    assert_eq!(tx2.release(&mut chan), vec![1, 2]);
    assert!(a.is_closed(&chan));
    assert_eq!(a.recv().poll(&mut chan, 1), Poll::Ready(Err(RecvError)));
}

#[test]
fn mpmc_deactivated_receiver_closes_sender() {
    let (mut chan, tx, rx) = channel::<i32, u32>();
    let active = rx.activate(&mut chan);
    assert!(!tx.is_closed(&chan));
    let inactive = active.deactivate(&mut chan);
    assert!(tx.is_closed(&chan));
    assert_eq!(tx.send(&mut chan, 3).0.unwrap(), None);
    inactive.release(&mut chan);
    assert!(!tx.is_closed(&chan));
}

#[test]
fn mpmc_deactivate_then_activate_restores_counts() {
    let (mut chan, tx, rx) = channel::<i32, u32>();
    let rx = rx.activate(&mut chan);
    let counts = (chan.senders(), chan.receivers(), chan.inactive_receivers());
    let rx = rx.deactivate(&mut chan).activate(&mut chan);
    assert_eq!((chan.senders(), chan.receivers(), chan.inactive_receivers()), counts);
    assert_eq!(counts, (1, 1, 0));
    tx.send(&mut chan, 2).0.unwrap();
    assert_eq!(rx.try_recv(&mut chan), Some(2));
    let tx2 = tx.duplicate(&mut chan);
    assert!(tx2.release(&mut chan).is_empty());
    assert_eq!(chan.senders(), 1);
}
