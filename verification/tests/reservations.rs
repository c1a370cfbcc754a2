use std::future::Future;

use ingest_core::mem_bounded::{
    channel, sent_or_returned, BatchReceiver, EstimatedSize, RecvBatch, SendError, SendErrorKind,
    MAX_ENTRY_SIZE_BYTES, MAX_SIZE_BYTES,
};
use tokio::sync::mpsc;
use tokio::sync::mpsc::error::TryRecvError;
use tokio::sync::{Semaphore, TryAcquireError};

#[derive(Debug, Clone, PartialEq, Eq)]
struct Text(String);

impl EstimatedSize for Text {
    fn estimated_size(&self) -> u32 {
        self.0.len() as u32
    }
}

fn block_on<F: Future>(future: F) -> F::Output {
    let rt = tokio::runtime::Builder::new_current_thread().build().unwrap();
    rt.block_on(future)
}

fn text(s: &str) -> Text {
    Text(s.to_string())
}

#[test]
fn limits_are_those_of_the_semaphore() {
    assert_eq!(MAX_SIZE_BYTES, Semaphore::MAX_PERMITS);
    assert_eq!(MAX_ENTRY_SIZE_BYTES, 4294967295);
    let (tx, _rx) = channel::<Text>(MAX_SIZE_BYTES);
    assert_eq!(tx.capacity(), MAX_SIZE_BYTES);
}

#[test]
fn error_kinds_have_messages() {
    assert_eq!(
        SendErrorKind::InsufficientCapacity.message(),
        "insufficient capacity"
    );
    assert_eq!(SendErrorKind::Closed.message(), "channel has been closed");
    assert_eq!(
        SendErrorKind::EntryTooLarge.message(),
        "entry is langer than the channel's max capacity. This send will never succeed"
    );
    assert_eq!(
        SendErrorKind::PermitEntryTooLarge.message(),
        "entry is larger than remaining capacity in the permit"
    );
}

#[test]
fn errors_convert() {
    assert_eq!(
        SendErrorKind::from(TryAcquireError::Closed),
        SendErrorKind::Closed
    );
    assert_eq!(
        SendErrorKind::from(TryAcquireError::NoPermits),
        SendErrorKind::InsufficientCapacity
    );
    let error: SendError<()> = SendError::from(TryAcquireError::NoPermits);
    assert_eq!(error.kind, SendErrorKind::InsufficientCapacity);

    let error: SendError<u8> = SendError::from(mpsc::error::SendError(7u8));
    assert_eq!((error.kind, error.value), (SendErrorKind::Closed, 7));

    let error: SendError<u8> = SendError::from(mpsc::error::SendError((3u32, 7u8)));
    assert_eq!((error.kind, error.value), (SendErrorKind::Closed, 7));

    let semaphore = Semaphore::new(1);
    semaphore.close();
    let closed = block_on(semaphore.acquire_many(1)).unwrap_err();
    let error: SendError<()> = SendError::from(closed);
    assert_eq!(error.kind, SendErrorKind::Closed);
}

#[test]
fn the_queue_decides_whether_a_value_was_sent() {
    assert!(sent_or_returned::<u8>(Ok(())).is_ok());
    let error = sent_or_returned(Err(mpsc::error::SendError((2, 9u8)))).unwrap_err();
    assert_eq!((error.kind, error.value), (SendErrorKind::Closed, 9));
}

#[test]
fn failed_acquisitions_become_errors() {
    let (tx, _rx) = channel::<Text>(10);
    let closed = tx.grant(Err(TryAcquireError::Closed)).err().unwrap();
    assert_eq!(closed.kind, SendErrorKind::Closed);
    let full = tx.grant(Err(TryAcquireError::NoPermits)).err().unwrap();
    assert_eq!(full.kind, SendErrorKind::InsufficientCapacity);
    let closed = tx.grant_many(Err(TryAcquireError::Closed)).err().unwrap();
    assert_eq!(closed.kind, SendErrorKind::Closed);
    let full = tx.grant_many(Err(TryAcquireError::NoPermits)).err().unwrap();
    assert_eq!(full.kind, SendErrorKind::InsufficientCapacity);

    let acquire_error = || {
        let semaphore = Semaphore::new(1);
        semaphore.close();
        block_on(semaphore.acquire_many(1)).err().unwrap()
    };
    let closed = tx.finish_reserve(Err(acquire_error())).err().unwrap();
    assert_eq!(closed.kind, SendErrorKind::Closed);
    let closed = tx.finish_reserve_many(Err(acquire_error())).err().unwrap();
    assert_eq!(closed.kind, SendErrorKind::Closed);
    let pending = tx.begin_send(2, text("ab")).ok().unwrap();
    let error = tx.finish_send(pending, Err(acquire_error())).unwrap_err();
    assert_eq!(error.kind, SendErrorKind::Closed);
    assert_eq!(error.value, text("ab"));
}

#[test]
fn a_permit_refunds_what_the_message_does_not_need() {
    let (tx, mut rx) = channel::<Text>(10);
    tx.try_reserve(8).unwrap().send(text("abc")).unwrap();
    assert_eq!(tx.capacity(), 7);
    // Exactly what was reserved.
    tx.try_reserve(7).unwrap().send(text("abcdefg")).unwrap();
    assert_eq!(tx.capacity(), 0);
    assert_eq!(rx.try_recv().unwrap(), text("abc"));
    assert_eq!(tx.capacity(), 3);
    assert_eq!(rx.try_recv().unwrap(), text("abcdefg"));
    assert_eq!(tx.capacity(), 10);
}

#[test]
fn a_permit_takes_the_size_it_is_told() {
    let (tx, mut rx) = channel::<Text>(10);
    let (sent, _) = tx.try_reserve(6).unwrap().send_sized(2, text("abc"));
    sent.unwrap();
    assert_eq!(tx.capacity(), 8);
    assert_eq!(rx.try_recv().unwrap(), text("abc"));
    assert_eq!(tx.capacity(), 10);

    let (sent, _) = tx.try_reserve(6).unwrap().send_sized(7, text("abc"));
    let error = sent.unwrap_err();
    assert_eq!(error.kind, SendErrorKind::PermitEntryTooLarge);
    assert_eq!(error.value, text("abc"));
    assert_eq!(tx.capacity(), 10);

    let mut permits = tx.try_reserve_many(6).unwrap();
    permits.send_sized(5, text("abc")).unwrap();
    assert_eq!(permits.capacity(), 1);
    assert_eq!(
        permits.send_sized(2, text("x")).unwrap_err().kind,
        SendErrorKind::PermitEntryTooLarge
    );
    assert_eq!(permits.capacity(), 1);
}

#[test]
fn empty_messages_need_no_capacity() {
    let (tx, mut rx) = channel::<Text>(0);
    let mut permits = tx.try_reserve_many(0).unwrap();
    permits.send(text("")).unwrap();
    tx.try_reserve(0).unwrap().send(text("")).unwrap();
    assert_eq!(rx.len(), 2);
    assert_eq!(rx.try_recv().unwrap(), text(""));
    assert_eq!(
        tx.try_reserve(1).err().unwrap().kind,
        SendErrorKind::EntryTooLarge
    );
}

#[test]
fn reservations_of_many_report_their_errors() {
    let (tx, mut rx) = channel::<Text>(10);
    assert_eq!(
        tx.try_reserve_many(11).err().unwrap().kind,
        SendErrorKind::EntryTooLarge
    );
    let _held = tx.try_reserve_many(8).unwrap();
    assert_eq!(
        tx.try_reserve_many(3).err().unwrap().kind,
        SendErrorKind::InsufficientCapacity
    );
    rx.close();
    assert_eq!(
        tx.try_reserve_many(1).err().unwrap().kind,
        SendErrorKind::Closed
    );
    assert_eq!(tx.try_reserve(0).err().unwrap().kind, SendErrorKind::Closed);
}

#[test]
fn sends_on_a_closed_channel_return_the_value() {
    let (tx, mut rx) = channel::<Text>(10);
    let permit = tx.try_reserve(5).unwrap();
    let mut permits = tx.try_reserve_many(5).unwrap();
    rx.close();
    let error = permit.send(text("abc")).unwrap_err();
    assert_eq!(error.kind, SendErrorKind::Closed);
    assert_eq!(error.value, text("abc"));
    let error = permits.send(text("de")).unwrap_err();
    assert_eq!(error.kind, SendErrorKind::Closed);
    assert_eq!(error.value, text("de"));
    // The reservation was used up all the same.
    assert_eq!(permits.capacity(), 3);
}

#[test]
fn sends_and_reservations_that_wait_report_their_errors() {
    let (tx, mut rx) = channel::<Text>(4);
    let error = block_on(tx.send(text("abcde"))).unwrap_err();
    assert_eq!(error.kind, SendErrorKind::EntryTooLarge);
    assert_eq!(error.value, text("abcde"));
    let error = block_on(tx.reserve(5)).err().unwrap();
    assert_eq!(error.kind, SendErrorKind::EntryTooLarge);
    let error = block_on(tx.reserve_many(5)).err().unwrap();
    assert_eq!(error.kind, SendErrorKind::EntryTooLarge);
    assert_eq!(tx.capacity(), 4);

    block_on(tx.send(text("abc"))).unwrap();
    assert_eq!(tx.capacity(), 1);
    assert_eq!(rx.try_recv().unwrap(), text("abc"));
    let mut permits = block_on(tx.reserve_many(3)).unwrap();
    assert_eq!(permits.capacity(), 3);
    assert_eq!(tx.capacity(), 1);
    permits.send(text("ab")).unwrap();
    drop(permits);
    assert_eq!(tx.capacity(), 2);

    rx.close();
    let error = block_on(tx.send(text("x"))).unwrap_err();
    assert_eq!(error.kind, SendErrorKind::Closed);
    assert_eq!(error.value, text("x"));
    let error = block_on(tx.reserve(1)).err().unwrap();
    assert_eq!(error.kind, SendErrorKind::Closed);
    let error = block_on(tx.reserve_many(1)).err().unwrap();
    assert_eq!(error.kind, SendErrorKind::Closed);
    // What could never succeed is told apart from what came too late.
    let error = block_on(tx.send(text("abcde"))).unwrap_err();
    assert_eq!(error.kind, SendErrorKind::EntryTooLarge);
}

#[test]
fn a_future_that_is_dropped_takes_no_capacity() {
    let (tx, rx) = channel::<Text>(4);
    drop(tx.send(text("abc")));
    drop(tx.reserve(2));
    assert_eq!(tx.capacity(), 4);
    assert!(rx.is_empty());
}

#[test]
fn what_may_wait_is_decided_before_the_wait() {
    let (tx, _rx) = channel::<Text>(4);
    let pending = tx.begin_send(4, text("x")).ok().unwrap();
    assert_eq!(pending.size(), 4);
    let error = tx.begin_send(5, text("x")).err().unwrap();
    assert_eq!(error.kind, SendErrorKind::EntryTooLarge);
    assert_eq!(error.value, text("x"));
    assert_eq!(
        tx.begin_reserve(5).unwrap_err().kind,
        SendErrorKind::EntryTooLarge
    );
    assert!(tx.begin_reserve(4).is_ok());
}

#[test]
fn receiving_without_waiting_tells_why_there_is_nothing() {
    let (tx, mut rx) = channel::<Text>(10);
    assert!(rx.is_empty());
    assert_eq!(rx.try_recv(), Err(TryRecvError::Empty));
    tx.try_reserve(2).unwrap().send(text("ab")).unwrap();
    assert!(!rx.is_empty());
    assert!(!rx.is_closed());
    drop(tx);
    assert!(rx.is_closed());
    assert_eq!(rx.try_recv(), Ok(text("ab")));
    assert_eq!(rx.try_recv(), Err(TryRecvError::Disconnected));
}

#[test]
fn a_channel_is_not_empty_until_the_last_message_is_taken() {
    let (tx, mut rx) = channel::<Text>(10);
    tx.try_reserve(2).unwrap().send(text("ab")).unwrap();
    tx.try_reserve(2).unwrap().send(text("cd")).unwrap();
    assert_eq!(rx.len(), 2);
    assert_eq!(rx.try_recv(), Ok(text("ab")));
    assert!(!rx.is_empty());
    assert_eq!(rx.try_recv(), Ok(text("cd")));
    assert!(rx.is_empty());
    assert_eq!(tx.capacity(), 10);
}

#[test]
fn without_senders_everything_that_is_left_can_be_received() {
    let (tx, rx) = channel::<Text>(10);
    let mut rx = BatchReceiver::new(rx);
    tx.try_reserve(2).unwrap().send(text("ab")).unwrap();
    tx.try_reserve(2).unwrap().send(text("cd")).unwrap();
    assert!(!rx.is_closed());
    drop(tx);
    assert!(rx.is_closed());
    let mut buf = Vec::new();
    let batch = rx.try_recv_many_with_buf(&mut buf, usize::MAX, usize::MAX);
    assert_eq!(batch.count, 2);
    assert_eq!(buf, vec![text("ab"), text("cd")]);
    assert!(rx.is_closed());
    assert!(rx.is_empty());
}

#[test]
fn batches_of_nothing_change_nothing() {
    let (tx, rx) = channel::<Text>(10);
    let mut rx = BatchReceiver::new(rx);
    let mut buf = vec![text("kept")];
    let nothing = RecvBatch {
        count: 0,
        bytes: 0,
        next_entry_bytes: None,
    };
    assert_eq!(rx.try_recv_many_with_buf(&mut buf, 100, 100), nothing);
    assert_eq!(
        rx.try_recv_many_with_buf(&mut buf, usize::MAX, usize::MAX),
        nothing
    );
    tx.try_reserve(2).unwrap().send(text("ab")).unwrap();
    assert_eq!(rx.try_recv_many_with_buf(&mut buf, 100, 0), nothing);
    assert_eq!(buf, vec![text("kept")]);
    assert_eq!(rx.len(), 1);
    assert_eq!(tx.capacity(), 8);
}

#[test]
fn batches_continue_where_the_last_one_ended() {
    let (tx, rx) = channel::<Text>(100);
    let mut permits = tx.try_reserve_many(100).unwrap();
    for word in ["a", "bb", "ccc", "dddd", "eeeee"] {
        permits.send(text(word)).unwrap();
    }
    drop(permits);
    assert_eq!(tx.capacity(), 85);

    let mut rx = BatchReceiver::new(rx);
    let mut buf = Vec::new();
    let batch = rx.try_recv_many_with_buf(&mut buf, 5, 10);
    assert_eq!(
        batch,
        RecvBatch {
            count: 2,
            bytes: 3,
            next_entry_bytes: Some(3)
        }
    );
    assert_eq!(rx.len(), 3);
    assert_eq!(tx.capacity(), 88);

    // A limit of zero bytes leaves the element that was set aside where it is.
    let batch = rx.try_recv_many_with_buf(&mut buf, 0, 10);
    assert_eq!(batch.count, 0);
    assert_eq!(batch.next_entry_bytes, Some(3));
    assert_eq!(rx.len(), 3);

    let batch = rx.try_recv_many_with_buf(&mut buf, 7, 10);
    assert_eq!(
        batch,
        RecvBatch {
            count: 2,
            bytes: 7,
            next_entry_bytes: Some(5)
        }
    );
    rx.close();
    assert!(rx.is_closed());
    let batch = rx.try_recv_many_with_buf(&mut buf, usize::MAX, usize::MAX);
    assert_eq!(
        batch,
        RecvBatch {
            count: 1,
            bytes: 5,
            next_entry_bytes: None
        }
    );
    let words: Vec<&str> = buf.iter().map(|word| word.0.as_str()).collect();
    assert_eq!(words, vec!["a", "bb", "ccc", "dddd", "eeeee"]);
    assert_eq!(tx.capacity(), 100);
    assert!(rx.is_empty());
}

#[test]
fn an_element_that_was_set_aside_counts() {
    let (tx, rx) = channel::<Text>(10);
    let mut rx = BatchReceiver::new(rx);
    assert_eq!(rx.len_given(4), 4);
    assert!(rx.is_empty_given(true));
    assert!(!rx.is_empty_given(false));

    tx.try_reserve(3).unwrap().send(text("abc")).unwrap();
    let mut buf = Vec::new();
    rx.try_recv_many_with_buf(&mut buf, 2, 10);
    assert_eq!(rx.len_given(4), 5);
    assert_eq!(rx.len_given(0), 1);
    assert!(!rx.is_empty_given(true));
    assert!(!rx.is_empty());
}

#[test]
fn a_batch_without_limits_holds_what_is_buffered() {
    type Batches = BatchReceiver<Text>;
    assert_eq!(Batches::batch_limit(usize::MAX, usize::MAX, 4), 4);
    assert_eq!(Batches::batch_limit(usize::MAX, 9, 4), 9);
    assert_eq!(Batches::batch_limit(7, usize::MAX, 4), usize::MAX);
    assert_eq!(Batches::batch_limit(7, 9, 4), 9);
}

#[test]
fn what_waits_is_received() {
    let (tx, mut rx) = channel::<Text>(20);
    for word in ["one", "two", "three"] {
        tx.try_reserve(5).unwrap().send(text(word)).unwrap();
    }
    for n in (1..=3).rev() {
        assert_eq!(rx.len(), n);
        assert!(rx.try_recv().is_ok());
    }
    assert_eq!(rx.len(), 0);
}

#[test]
fn capacity_is_conserved() {
    let (tx, rx) = channel::<Text>(30);
    let mut rx = BatchReceiver::new(rx);
    let mut permits = tx.try_reserve_many(12).unwrap();
    permits.send(text("abcd")).unwrap();
    let permit = tx.try_reserve(10).unwrap();
    // 30 = 8 available + 8 and 10 reserved + 4 in flight
    assert_eq!(tx.capacity() + permits.capacity() + 10 + 4, 30);
    permit.send(text("xyz")).unwrap();
    assert_eq!(tx.capacity() + permits.capacity() + 4 + 3, 30);
    let mut buf = Vec::new();
    let batch = rx.try_recv_many_with_buf(&mut buf, 6, 10);
    assert_eq!((batch.bytes, batch.next_entry_bytes), (4, Some(3)));
    assert_eq!(tx.capacity() + permits.capacity() + 3, 30);
    drop(permits);
    assert_eq!(tx.capacity(), 27);
    rx.try_recv_many_with_buf(&mut buf, 6, 10);
    assert_eq!(tx.capacity(), 30);
    assert_eq!(buf, vec![text("abcd"), text("xyz")]);
}

#[test]
fn a_refused_message_keeps_its_capacity() {
    let (tx, mut rx) = channel::<Text>(10);
    let permit = tx.try_reserve(6).unwrap();
    rx.close();
    assert!(permit.send(text("abcd")).is_err());
    // The difference went back; what was paid for did not.
    assert_eq!(tx.capacity(), 6);
}
