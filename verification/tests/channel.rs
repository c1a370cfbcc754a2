use std::future::{poll_fn, Future};
use std::time::Duration;

use ingest_core::mem_bounded::{
    channel, BatchReceiver, EstimatedSize, Receiver, RecvBatch, SendError, SendErrorKind, Sender,
};
use tokio::time::timeout;

/// A message whose estimated size is just the wrapped byte count.
#[derive(Debug, Clone, PartialEq, Eq)]
struct Sized(u32);

impl EstimatedSize for Sized {
    fn estimated_size(&self) -> u32 {
        self.0
    }
}

fn run<F: Future>(future: F) -> F::Output {
    tokio::runtime::Builder::new_current_thread()
        .enable_time()
        .start_paused(true)
        .build()
        .unwrap()
        .block_on(future)
}

async fn recv(rx: &mut Receiver<Sized>) -> Option<Sized> {
    poll_fn(|cx| rx.poll_recv(cx)).await
}

async fn recv_many(
    rx: &mut BatchReceiver<Sized>,
    buf: &mut Vec<Sized>,
    byte_limit: usize,
    max_count: usize,
) -> RecvBatch {
    poll_fn(|cx| rx.poll_recv_many_with_buf(cx, buf, byte_limit, max_count)).await
}

#[test]
fn respects_byte_budget() {
    run(async {
        let (tx, mut rx) = channel::<Sized>(10);
        assert_eq!(rx.len(), 0);
        assert_eq!(tx.capacity(), 10);

        // Two 4-byte messages fit within the 10-byte budget.
        tx.send(Sized(4)).await.unwrap();
        assert_eq!(tx.capacity(), 6);
        tx.send(Sized(4)).await.unwrap();
        assert_eq!(rx.len(), 2);
        assert_eq!(tx.capacity(), 2);

        // A third message would exceed the budget (8 + 4 > 10), so the send
        // must block until capacity is freed.
        assert!(timeout(Duration::from_millis(50), tx.send(Sized(4)))
            .await
            .is_err());

        // Draining one message frees 4 bytes, so the same send now succeeds.
        assert_eq!(recv(&mut rx).await.unwrap().0, 4);
        assert_eq!(tx.capacity(), 6);

        tx.send(Sized(4)).await.unwrap();
        assert_eq!(rx.len(), 2);
        assert_eq!(tx.capacity(), 2);
    });
}

#[test]
fn fifo_order() {
    run(async {
        let (tx, mut rx) = channel::<Sized>(10);

        tx.send(Sized(6)).await.unwrap();

        // Trying to send 5 bytes will block.
        let mut send_fut1 = Box::pin(tx.send(Sized(5)));
        assert!(timeout(Duration::from_millis(50), send_fut1.as_mut())
            .await
            .is_err());

        // Trying to acquire any other permit (even if it fits) will block because
        // there's a waiter waiting for a blocked permit.
        let mut send_fut2 = Box::pin(tx.send(Sized(1)));
        assert!(timeout(Duration::from_millis(50), send_fut2.as_mut())
            .await
            .is_err());
        // Similarly, a try reserve will fail.
        assert!(matches!(
            tx.try_reserve(1),
            Err(SendError {
                kind: SendErrorKind::InsufficientCapacity,
                ..
            })
        ));

        // Now drain the big message.
        assert_eq!(recv(&mut rx).await.unwrap().0, 6);

        // Sends can now proceed.
        send_fut1.await.unwrap();
        send_fut2.await.unwrap();

        assert_eq!(recv(&mut rx).await.unwrap().0, 5);
        assert_eq!(recv(&mut rx).await.unwrap().0, 1);
    });
}

#[test]
fn reserve_works() {
    run(async {
        let (tx, mut rx) = channel::<Sized>(10);

        let mut permit = tx.reserve(6).await.unwrap();
        assert_eq!(tx.capacity(), 4);

        // Sends more than the capacity blocks.
        assert!(timeout(Duration::from_millis(50), tx.send(Sized(5)))
            .await
            .is_err());

        // Sends within the capacity should still succeed because reservations
        // guarantee capacity, not an ordering slot.
        tx.send(Sized(4)).await.unwrap();
        assert_eq!(tx.capacity(), 0);

        // Sending less than what was reserved, refunds the difference.
        // We reserved 6 bytes, but only sending 2. We should refund
        // the remaining 4 to the queue.
        permit.send(Sized(2)).unwrap();
        assert_eq!(tx.capacity(), 4);

        // Reserving and dropping the permit before sending returns the capcity.
        permit = tx.reserve(4).await.unwrap();
        assert_eq!(tx.capacity(), 0);
        drop(permit);
        assert_eq!(tx.capacity(), 4);

        // Reserve many
        let mut permits = tx.reserve_many(4).await.unwrap();
        assert_eq!(tx.capacity(), 0);
        permits.send(Sized(2)).unwrap();
        permits.send(Sized(1)).unwrap();
        // We had one byte left, dropping the permits should return it.
        drop(permits);
        assert_eq!(tx.capacity(), 1);

        // Now drain:
        assert_eq!(recv(&mut rx).await.unwrap().0, 4);
        assert_eq!(recv(&mut rx).await.unwrap().0, 2);
        assert_eq!(recv(&mut rx).await.unwrap().0, 2);
        assert_eq!(recv(&mut rx).await.unwrap().0, 1);
        assert_eq!(rx.len(), 0);
        assert_eq!(tx.capacity(), 10);
    });
}

#[test]
fn reserve_errors() {
    run(async {
        let (tx, _rx) = channel::<Sized>(10);

        // Bigger than what this channel can ever hold, fails with SendErrorKind::EntryTooLarge
        assert!(matches!(
            tx.try_reserve(15),
            Err(SendError {
                kind: SendErrorKind::EntryTooLarge,
                ..
            })
        ));

        let permit = tx.reserve(6).await.unwrap();

        // Not enouch capacity for now
        assert!(matches!(
            tx.try_reserve(6),
            Err(SendError {
                kind: SendErrorKind::InsufficientCapacity,
                ..
            })
        ));

        // Sending more than what's reserved will fail, and the capacity
        // will be returned.
        assert!(matches!(
            permit.send(Sized(7)),
            Err(SendError {
                kind: SendErrorKind::PermitEntryTooLarge,
                ..
            })
        ));
        assert_eq!(tx.capacity(), 10);

        // Reserve many
        let mut permits = tx.reserve_many(7).await.unwrap();

        // Sending more than what's reserved will fail, but the reserved
        // capacity will remain.
        assert!(matches!(
            permits.send(Sized(9)),
            Err(SendError {
                kind: SendErrorKind::PermitEntryTooLarge,
                ..
            })
        ));
        assert_eq!(permits.capacity(), 7);

        // After consuming some permits, capacity drops.
        permits.send(Sized(4)).unwrap();
        assert_eq!(permits.capacity(), 3);
        assert!(matches!(
            permits.send(Sized(4)),
            Err(SendError {
                kind: SendErrorKind::PermitEntryTooLarge,
                ..
            })
        ));
    });
}

async fn prep_full_channel() -> (Sender<Sized>, Receiver<Sized>) {
    let (tx, rx) = channel::<Sized>(50);

    // Enqueue 10 5-byte messages
    for _ in 0..10 {
        tx.send(Sized(5)).await.unwrap();
    }
    (tx, rx)
}

#[test]
fn try_recv_many_with_buf() {
    run(async {
        // Count only limit
        {
            let (_tx, rx) = prep_full_channel().await;
            let mut rx = BatchReceiver::new(rx);
            let mut buf = Vec::new();
            let batch = rx.try_recv_many_with_buf(&mut buf, usize::MAX, 3);
            assert_eq!(batch.count, 3);
            assert_eq!(batch.bytes, 15);
            assert_eq!(batch.next_entry_bytes, None);

            assert_eq!(buf, vec![Sized(5); 3]);
        }

        // Byte only limit
        {
            let (tx, rx) = prep_full_channel().await;
            let mut rx = BatchReceiver::new(rx);
            let mut buf = Vec::new();
            let batch = rx.try_recv_many_with_buf(&mut buf, 4, usize::MAX);
            assert_eq!(batch.count, 0);
            assert_eq!(batch.bytes, 0);
            assert_eq!(batch.next_entry_bytes, Some(5));
            assert_eq!(rx.len(), 10);
            assert_eq!(tx.capacity(), 0);

            let batch = rx.try_recv_many_with_buf(&mut buf, 7, usize::MAX);
            assert_eq!(batch.count, 1);
            assert_eq!(batch.bytes, 5);
            assert_eq!(batch.next_entry_bytes, Some(5));
            assert_eq!(buf, vec![Sized(5)]);
            let batch = rx.try_recv_many_with_buf(&mut buf, usize::MAX, 1);
            assert_eq!(batch.count, 1);
            assert_eq!(buf, vec![Sized(5); 2]);
            assert_eq!(tx.capacity(), 10);
        }

        // Byte and count limit
        {
            let (_tx, rx) = prep_full_channel().await;
            let mut rx = BatchReceiver::new(rx);
            let mut buf = Vec::new();
            let batch = rx.try_recv_many_with_buf(&mut buf, 13, 4);
            assert_eq!(batch.count, 2);
            assert_eq!(batch.bytes, 10);
            assert_eq!(batch.next_entry_bytes, Some(5));
            assert_eq!(buf, vec![Sized(5); 2]);
        }

        // No limit (drain)
        {
            let (_tx, rx) = prep_full_channel().await;
            let mut rx = BatchReceiver::new(rx);
            let mut buf = Vec::new();
            let batch = rx.try_recv_many_with_buf(&mut buf, usize::MAX, usize::MAX);
            assert_eq!(batch.count, 10);
            assert_eq!(batch.bytes, 50);
            assert_eq!(batch.next_entry_bytes, None);
            assert_eq!(buf, vec![Sized(5); 10]);
        }
    });
}

#[test]
fn closing_works() {
    run(async {
        let (tx, mut rx) = channel::<Sized>(10);
        tx.send(Sized(3)).await.unwrap();
        tx.send(Sized(4)).await.unwrap();

        let tx1 = tx.clone();
        let tx2 = tx.clone();
        let tx3 = tx.clone();

        let j1 = tokio::spawn(async move {
            // Will block
            tx1.send(Sized(4)).await
        });
        let j2 = tokio::spawn(async move {
            // Will block
            let _p = tx2.reserve(4).await?;
            Ok(())
        });
        let j3 = tokio::spawn(async move {
            // Will block until closed
            tx3.closed().await
        });

        rx.close();
        assert!(rx.is_closed());

        assert!(matches!(
            j1.await.unwrap(),
            Err(SendError {
                kind: SendErrorKind::Closed,
                ..
            })
        ));
        assert!(matches!(
            j2.await.unwrap(),
            Err(SendError {
                kind: SendErrorKind::Closed,
                ..
            })
        ));
        assert_eq!(j3.await.unwrap(), ());
    });
}

#[test]
fn waiting_batch_receive_returns_what_is_there() {
    run(async {
        let (tx, rx) = channel::<Sized>(50);
        let mut rx = BatchReceiver::new(rx);
        let mut buf = Vec::new();

        // Nothing is there yet.
        assert!(timeout(
            Duration::from_millis(50),
            recv_many(&mut rx, &mut buf, usize::MAX, usize::MAX)
        )
        .await
        .is_err());
        assert!(buf.is_empty());

        for size in 1..=4 {
            tx.send(Sized(size)).await.unwrap();
        }
        let batch = recv_many(&mut rx, &mut buf, usize::MAX, usize::MAX).await;
        assert_eq!(
            batch,
            RecvBatch {
                count: 4,
                bytes: 10,
                next_entry_bytes: None
            }
        );
        assert_eq!(buf, vec![Sized(1), Sized(2), Sized(3), Sized(4)]);
        assert_eq!(tx.capacity(), 50);
    });
}

#[test]
fn waiting_and_trying_receive_the_same_batch() {
    run(async {
        for (byte_limit, max_count) in [(usize::MAX, usize::MAX), (12, 10), (50, 3), (4, 10)] {
            let (tx, rx) = prep_full_channel().await;
            let mut waiting = BatchReceiver::new(rx);
            let (other_tx, rx) = prep_full_channel().await;
            let mut trying = BatchReceiver::new(rx);
            let (mut left, mut right) = (Vec::new(), Vec::new());
            assert_eq!(
                recv_many(&mut waiting, &mut left, byte_limit, max_count).await,
                trying.try_recv_many_with_buf(&mut right, byte_limit, max_count)
            );
            assert_eq!(left, right);
            assert_eq!(waiting.len(), trying.len());
            assert_eq!(tx.capacity(), other_tx.capacity());
        }
    });
}

#[test]
fn two_batches_in_a_row_make_one() {
    run(async {
        for (first, second) in [(3, 4), (0, 5), (8, 8), (10, 0)] {
            let (tx, rx) = prep_full_channel().await;
            let mut twice = BatchReceiver::new(rx);
            let (other_tx, rx) = prep_full_channel().await;
            let mut once = BatchReceiver::new(rx);
            let (mut left, mut right) = (Vec::new(), Vec::new());
            let early = twice.try_recv_many_with_buf(&mut left, usize::MAX, first);
            let late = twice.try_recv_many_with_buf(&mut left, usize::MAX, second);
            let single = once.try_recv_many_with_buf(&mut right, usize::MAX, first + second);
            assert_eq!(early.count + late.count, single.count);
            assert_eq!(early.bytes + late.bytes, single.bytes);
            assert_eq!(single.next_entry_bytes, None);
            assert_eq!(left, right);
            assert_eq!(twice.len(), once.len());
            assert_eq!(tx.capacity(), other_tx.capacity());
        }
    });
}

#[test]
fn a_receiver_that_waits_is_woken() {
    run(async {
        let (tx, mut rx) = channel::<Sized>(10);
        let waiting = tokio::spawn(async move { (recv(&mut rx).await, rx) });
        tokio::task::yield_now().await;
        tx.send(Sized(3)).await.unwrap();
        let (received, rx) = waiting.await.unwrap();
        assert_eq!(received, Some(Sized(3)));

        let mut rx = BatchReceiver::new(rx);
        let waiting = tokio::spawn(async move {
            let mut buf = Vec::new();
            let batch = recv_many(&mut rx, &mut buf, usize::MAX, usize::MAX).await;
            (batch, buf)
        });
        tokio::task::yield_now().await;
        tx.send(Sized(4)).await.unwrap();
        let (batch, buf) = waiting.await.unwrap();
        assert_eq!((batch.count, batch.bytes), (1, 4));
        assert_eq!(buf, vec![Sized(4)]);
    });
}

#[test]
fn messages_that_come_after_a_drain_wait_for_the_next_one() {
    run(async {
        let (tx, rx) = channel::<Sized>(10);
        let mut rx = BatchReceiver::new(rx);
        let mut buf = Vec::new();
        tx.send(Sized(1)).await.unwrap();
        tx.send(Sized(2)).await.unwrap();
        assert_eq!(rx.try_recv_many_with_buf(&mut buf, usize::MAX, usize::MAX).count, 2);
        tx.send(Sized(3)).await.unwrap();
        assert_eq!(buf, vec![Sized(1), Sized(2)]);
        assert_eq!(recv_many(&mut rx, &mut buf, usize::MAX, usize::MAX).await.count, 1);
        assert_eq!(buf, vec![Sized(1), Sized(2), Sized(3)]);
    });
}

#[test]
fn waiting_takes_no_more_than_is_asked_for() {
    run(async {
        let (tx, mut rx) = channel::<Sized>(10);
        let mut permits = tx.reserve_many(4).await.unwrap();
        let permit = tx.reserve(3).await.unwrap();
        tx.send(Sized(3)).await.unwrap();
        assert_eq!(tx.capacity(), 0);

        // Messages of one reservation stay in order, whatever else is sent.
        permits.send(Sized(1)).unwrap();
        permit.send(Sized(2)).unwrap();
        permits.send(Sized(0)).unwrap();
        for size in [3, 1, 2, 0] {
            assert_eq!(recv(&mut rx).await, Some(Sized(size)));
        }
        assert_eq!(tx.capacity(), 7);
    });
}

#[test]
fn clones_report_the_same_capacity() {
    run(async {
        let (tx, mut rx) = channel::<Sized>(10);
        let other = tx.clone();
        tx.send(Sized(3)).await.unwrap();
        assert_eq!(other.capacity(), 7);
        let permits = other.reserve_many(2).await.unwrap();
        assert_eq!(tx.capacity(), 5);
        assert_eq!(recv(&mut rx).await, Some(Sized(3)));
        assert_eq!((tx.capacity(), other.capacity()), (8, 8));
        drop(permits);
        assert_eq!((tx.capacity(), other.capacity()), (10, 10));
    });
}

#[test]
fn waiting_batch_receive_reports_an_element_that_does_not_fit() {
    run(async {
        let (tx, rx) = channel::<Sized>(50);
        let mut rx = BatchReceiver::new(rx);
        let mut buf = Vec::new();
        tx.send(Sized(9)).await.unwrap();

        let batch = recv_many(&mut rx, &mut buf, 8, 5).await;
        assert_eq!(batch.count, 0);
        assert_eq!(batch.next_entry_bytes, Some(9));
        assert!(!rx.is_empty());
        assert_eq!(rx.len(), 1);
        // The element still holds its capacity.
        assert_eq!(tx.capacity(), 41);

        let batch = recv_many(&mut rx, &mut buf, 9, 5).await;
        assert_eq!(batch.count, 1);
        assert_eq!(batch.bytes, 9);
        assert_eq!(buf, vec![Sized(9)]);
        assert!(rx.is_empty());
        assert_eq!(tx.capacity(), 50);
    });
}

#[test]
fn waiting_batch_receive_ends_with_the_channel() {
    run(async {
        let (tx, rx) = channel::<Sized>(50);
        let mut rx = BatchReceiver::new(rx);
        let mut buf = Vec::new();
        tx.send(Sized(2)).await.unwrap();
        assert!(!rx.is_closed());
        drop(tx);
        assert!(rx.is_closed());

        // What was sent before is still received.
        assert_eq!(recv_many(&mut rx, &mut buf, 10, 10).await.count, 1);
        assert_eq!(
            recv_many(&mut rx, &mut buf, 10, 10).await,
            RecvBatch::default()
        );
        // Asking for nothing never waits.
        assert_eq!(
            recv_many(&mut rx, &mut buf, 10, 0).await,
            RecvBatch::default()
        );
        assert_eq!(buf, vec![Sized(2)]);
    });
}

#[test]
fn receive_ends_with_the_channel() {
    run(async {
        let (tx, mut rx) = channel::<Sized>(10);
        tx.send(Sized(1)).await.unwrap();
        tx.send(Sized(2)).await.unwrap();
        rx.close();
        assert_eq!(recv(&mut rx).await, Some(Sized(1)));
        assert_eq!(recv(&mut rx).await, Some(Sized(2)));
        assert_eq!(recv(&mut rx).await, None);
        // Received messages give their capacity back to a closed channel, too.
        assert_eq!(tx.capacity(), 10);
    });
}

#[test]
fn dropping_the_receiver_closes_the_channel() {
    run(async {
        let (tx, rx) = channel::<Sized>(4);
        tx.send(Sized(4)).await.unwrap();
        let waiter = tx.clone();
        let waiting = tokio::spawn(async move { waiter.send(Sized(1)).await });
        tokio::task::yield_now().await;
        drop(rx);
        let error = waiting.await.unwrap().unwrap_err();
        assert_eq!(error.kind, SendErrorKind::Closed);
        assert_eq!(error.value, Sized(1));
        tx.closed().await;
    });
}

#[test]
fn dropping_a_batch_receiver_closes_the_channel() {
    run(async {
        let (tx, rx) = channel::<Sized>(4);
        let rx = BatchReceiver::new(rx);
        drop(rx);
        let error = tx.send(Sized(1)).await.unwrap_err();
        assert_eq!(error.kind, SendErrorKind::Closed);
    });
}

#[test]
fn a_message_of_the_full_size_passes() {
    run(async {
        let (tx, mut rx) = channel::<Sized>(10);
        tx.send(Sized(10)).await.unwrap();
        assert_eq!(tx.capacity(), 0);
        assert_eq!(recv(&mut rx).await, Some(Sized(10)));
        assert_eq!(tx.capacity(), 10);

        let error = tx.send(Sized(11)).await.unwrap_err();
        assert_eq!(error.kind, SendErrorKind::EntryTooLarge);
        assert_eq!(error.value, Sized(11));
        assert_eq!(tx.capacity(), 10);
    });
}

#[test]
fn concurrent_senders_stay_within_the_budget() {
    run(async {
        let (tx, mut rx) = channel::<Sized>(8);
        let mut senders = Vec::new();
        for _ in 0..4 {
            let tx = tx.clone();
            senders.push(tokio::spawn(async move {
                for size in 1..=5 {
                    tx.send(Sized(size)).await.unwrap();
                }
            }));
        }
        let mut received = 0;
        let mut bytes = 0;
        while received < 20 {
            let value = recv(&mut rx).await.unwrap();
            assert!(tx.capacity() <= 8);
            assert!(value.0 <= 8);
            received += 1;
            bytes += value.0;
        }
        for sender in senders {
            sender.await.unwrap();
        }
        assert_eq!(bytes, 60);
        assert_eq!(tx.capacity(), 8);
    });
}
