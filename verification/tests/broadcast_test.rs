//! The lossy-latest summary bus and the subscriber decisions.

use orderbook_aggregator::events::{on_bus_event, BusEvent, SubscriberAction};
use tokio::sync::broadcast;
use tokio::sync::broadcast::error::{RecvError, TryRecvError};

#[test]
fn subscriber_decisions_follow_the_table() {
    assert_eq!(on_bus_event(&BusEvent::Message), SubscriberAction::Forward);
    assert_eq!(on_bus_event(&BusEvent::Lagged(100)), SubscriberAction::Skip);
    assert_eq!(on_bus_event(&BusEvent::Closed), SubscriberAction::End);
}

#[test]
fn slow_subscriber_lags_and_fast_subscriber_sees_all() {
    // One bounded bus, one fast and one slow subscriber.  The producer
    // never blocks; the fast subscriber sees the full sequence in order;
    // the slow one is told it lagged and then reads a suffix.
    let runtime = tokio::runtime::Builder::new_current_thread().build().unwrap();
    runtime.block_on(async {
        let (tx, mut fast) = broadcast::channel::<u64>(16);
        let mut slow = tx.subscribe();

        // The slow subscriber reads one summary, then stalls, while the
        // fast subscriber keeps up and observes the full sequence in
        // order.  send never awaits: a slow subscriber cannot stall the
        // producer.
        tx.send(0).unwrap();
        assert_eq!(slow.recv().await, Ok(0));
        assert_eq!(fast.recv().await, Ok(0));
        for i in 1..100u64 {
            tx.send(i).unwrap();
            assert_eq!(fast.recv().await, Ok(i));
        }

        // The slow subscriber is told how much it missed, keeps the
        // subscription, and resumes on a suffix of the sequence.
        match slow.recv().await {
            Err(RecvError::Lagged(missed)) => {
                assert_eq!(on_bus_event(&BusEvent::Lagged(missed)), SubscriberAction::Skip);
                assert_eq!(missed, 83);
            }
            other => panic!("expected a lag report, got {:?}", other),
        }
        let resumed = slow.recv().await.unwrap();
        assert_eq!(resumed, 84);

        // New subscribers see nothing historical.
        let mut late = tx.subscribe();
        assert!(matches!(late.try_recv(), Err(TryRecvError::Empty)));

        // Dropping the producer ends every subscriber loop.
        drop(tx);
        assert_eq!(fast.recv().await, Err(RecvError::Closed));
        assert_eq!(on_bus_event(&BusEvent::Closed), SubscriberAction::End);
    });
}
