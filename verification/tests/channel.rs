use core::future::poll_fn;
use core::task::Poll;

use embassy_futures::block_on;
use mqttrust::pubsub::{
    Error, FrameGrantR, FrameGrantW, FramePublisher, FrameSubscriber, PubSubChannel,
    StaticBufferProvider, Wake,
};

/// Fills a granted buffer with consecutive numbers.
fn fill(buf: &mut [u8], first: usize) {
    for (i, by) in buf.iter_mut().enumerate() {
        *by = (first + i) as u8;
    }
}

/// Checks that a buffer holds consecutive numbers.
fn check(buf: &[u8], first: usize) {
    for (i, by) in buf.iter().enumerate() {
        assert_eq!(*by, (first + i) as u8);
    }
}

/// Waits for a grant.
async fn grant_async<const N: usize, const SUBS: usize>(
    publisher: &mut FramePublisher,
    channel: &mut PubSubChannel<StaticBufferProvider<N>, SUBS>,
    max_sz: usize,
) -> Result<FrameGrantW, Error> {
    poll_fn(|cx| match publisher.grant(channel, max_sz) {
        Ok(grant) => Poll::Ready(Ok(grant)),
        Err(_) => {
            cx.waker().wake_by_ref();
            Poll::Pending
        }
    })
    .await
}

/// Waits for a message.
async fn read_async<const N: usize, const SUBS: usize>(
    subscriber: &mut FrameSubscriber,
    channel: &mut PubSubChannel<StaticBufferProvider<N>, SUBS>,
) -> Result<FrameGrantR, Error> {
    poll_fn(|cx| match subscriber.read(channel) {
        Ok(grant) => Poll::Ready(Ok(grant)),
        _ => {
            cx.waker().wake_by_ref();
            Poll::Pending
        }
    })
    .await
}

#[test]
fn mod_frame_wrong_size() {
    let mut pubsub: PubSubChannel<StaticBufferProvider<256>, 1> =
        PubSubChannel::new(StaticBufferProvider::new());
    let mut publisher = pubsub.publisher().unwrap();
    let mut subscriber = pubsub.subscriber().unwrap();

    // Create largeish grants
    let mut wgr = publisher.grant(&mut pubsub, 127).unwrap();
    fill(wgr.buf(&mut pubsub), 0);
    wgr.commit(&mut pubsub, 256);

    let rgr = subscriber.read(&mut pubsub).unwrap();
    assert_eq!(rgr.buf(&mut pubsub).len(), 127);
    check(rgr.buf(&mut pubsub), 0);
    rgr.release(&mut pubsub);
}

#[test]
fn mod_full_size() {
    let mut pubsub: PubSubChannel<StaticBufferProvider<256>, 1> =
        PubSubChannel::new(StaticBufferProvider::new());
    let mut publisher = pubsub.publisher().unwrap();
    let mut subscriber = pubsub.subscriber().unwrap();
    let mut ctr = 0;

    for _ in 0..100 {
        // Create largeish grants
        if let Ok(mut wgr) = publisher.grant(&mut pubsub, 127) {
            ctr += 1;
            fill(wgr.buf(&mut pubsub), 0);
            wgr.commit(&mut pubsub, 127);

            let rgr = subscriber.read(&mut pubsub).unwrap();
            assert_eq!(rgr.buf(&mut pubsub).len(), 127);
            check(rgr.buf(&mut pubsub), 0);
            rgr.release(&mut pubsub);
        } else {
            // Create smallish grants
            let mut wgr = publisher.grant(&mut pubsub, 1).unwrap();
            fill(wgr.buf(&mut pubsub), 0);
            wgr.commit(&mut pubsub, 1);

            let rgr = subscriber.read(&mut pubsub).unwrap();
            assert_eq!(rgr.buf(&mut pubsub).len(), 1);
            check(rgr.buf(&mut pubsub), 0);
            rgr.release(&mut pubsub);
        };
    }

    assert!(ctr > 1);
}

#[test]
fn mod_frame_overcommit() {
    let mut pubsub: PubSubChannel<StaticBufferProvider<256>, 3> =
        PubSubChannel::new(StaticBufferProvider::new());
    let mut publisher = pubsub.publisher().unwrap();
    let mut subscriber = pubsub.subscriber().unwrap();

    // Create largeish grants
    let mut wgr = publisher.grant(&mut pubsub, 128).unwrap();
    assert_eq!(wgr.buf(&mut pubsub).len(), 128);
    fill(wgr.buf(&mut pubsub), 0);
    wgr.commit(&mut pubsub, 255);

    let mut wgr = publisher.grant(&mut pubsub, 64).unwrap();
    assert_eq!(wgr.buf(&mut pubsub).len(), 64);
    fill(wgr.buf(&mut pubsub), 128);
    wgr.commit(&mut pubsub, 127);

    let rgr = subscriber.read(&mut pubsub).unwrap();
    assert_eq!(rgr.buf(&mut pubsub).len(), 128);
    rgr.release(&mut pubsub);

    let rgr = subscriber.read(&mut pubsub).unwrap();
    assert_eq!(rgr.buf(&mut pubsub).len(), 64);
    rgr.release(&mut pubsub);
}

#[test]
fn mod_frame_undercommit() {
    let mut pubsub: PubSubChannel<StaticBufferProvider<512>, 1> =
        PubSubChannel::new(StaticBufferProvider::new());
    let mut publisher = pubsub.publisher().unwrap();
    let mut subscriber = pubsub.subscriber().unwrap();

    for _ in 0..100 {
        // Create largeish grants
        let mut wgr = publisher.grant(&mut pubsub, 128).unwrap();
        fill(wgr.buf(&mut pubsub), 0);
        wgr.commit(&mut pubsub, 13);

        let mut wgr = publisher.grant(&mut pubsub, 64).unwrap();
        fill(wgr.buf(&mut pubsub), 128);
        wgr.commit(&mut pubsub, 7);

        let mut wgr = publisher.grant(&mut pubsub, 32).unwrap();
        fill(wgr.buf(&mut pubsub), 192);
        wgr.commit(&mut pubsub, 0);

        let rgr = subscriber.read(&mut pubsub).unwrap();
        assert_eq!(rgr.buf(&mut pubsub).len(), 13);
        rgr.release(&mut pubsub);

        let rgr = subscriber.read(&mut pubsub).unwrap();
        assert_eq!(rgr.buf(&mut pubsub).len(), 7);
        rgr.release(&mut pubsub);

        let rgr = subscriber.read(&mut pubsub).unwrap();
        assert_eq!(rgr.buf(&mut pubsub).len(), 0);
        rgr.release(&mut pubsub);
    }
}

#[test]
fn mod_frame_auto_commit_release() {
    let mut pubsub: PubSubChannel<StaticBufferProvider<256>, 1> =
        PubSubChannel::new(StaticBufferProvider::new());
    let mut publisher = pubsub.publisher().unwrap();
    let mut subscriber = pubsub.subscriber().unwrap();

    for _ in 0..100 {
        let mut wgr = publisher.grant(&mut pubsub, 64).unwrap();
        wgr.to_commit(64);
        assert_eq!(wgr.buf(&mut pubsub).len(), 64);
        fill(wgr.buf(&mut pubsub), 0);
        wgr.finish(&mut pubsub);

        let mut rgr = subscriber.read(&mut pubsub).unwrap();
        rgr.auto_release(true);
        check(rgr.buf(&mut pubsub), 0);
        assert_eq!(rgr.buf(&mut pubsub).len(), 64);
        rgr.finish(&mut pubsub);
    }

    assert!(subscriber.read(&mut pubsub).is_err());
}

#[test]
fn mod_async_frame_wrong_size() {
    block_on(async {
        let mut pubsub: PubSubChannel<StaticBufferProvider<256>, 1> =
            PubSubChannel::new(StaticBufferProvider::new());
        let mut publisher = pubsub.publisher().unwrap();
        let mut subscriber = pubsub.subscriber().unwrap();

        // Create largeish grants
        let mut wgr = grant_async(&mut publisher, &mut pubsub, 127).await.unwrap();
        fill(wgr.buf(&mut pubsub), 0);
        wgr.commit(&mut pubsub, 256);

        let rgr = read_async(&mut subscriber, &mut pubsub).await.unwrap();
        assert_eq!(rgr.buf(&mut pubsub).len(), 127);
        check(rgr.buf(&mut pubsub), 0);
        rgr.release(&mut pubsub);
    });
}

#[test]
fn mod_async_frame_overcommit() {
    block_on(async {
        let mut pubsub: PubSubChannel<StaticBufferProvider<256>, 1> =
            PubSubChannel::new(StaticBufferProvider::new());
        let mut publisher = pubsub.publisher().unwrap();
        let mut subscriber = pubsub.subscriber().unwrap();

        // Create largeish grants
        let mut wgr = grant_async(&mut publisher, &mut pubsub, 128).await.unwrap();
        fill(wgr.buf(&mut pubsub), 0);
        wgr.commit(&mut pubsub, 255);

        let mut wgr = grant_async(&mut publisher, &mut pubsub, 64).await.unwrap();
        fill(wgr.buf(&mut pubsub), 128);
        wgr.commit(&mut pubsub, 127);

        let rgr = read_async(&mut subscriber, &mut pubsub).await.unwrap();
        assert_eq!(rgr.buf(&mut pubsub).len(), 128);
        rgr.release(&mut pubsub);

        let rgr = read_async(&mut subscriber, &mut pubsub).await.unwrap();
        assert_eq!(rgr.buf(&mut pubsub).len(), 64);
        rgr.release(&mut pubsub);
    });
}

#[test]
fn mod_async_frame_undercommit() {
    block_on(async {
        let mut pubsub: PubSubChannel<StaticBufferProvider<512>, 1> =
            PubSubChannel::new(StaticBufferProvider::new());
        let mut publisher = pubsub.publisher().unwrap();
        let mut subscriber = pubsub.subscriber().unwrap();

        for _ in 0..100 {
            // Create largeish grants
            let mut wgr = grant_async(&mut publisher, &mut pubsub, 128).await.unwrap();
            fill(wgr.buf(&mut pubsub), 0);
            wgr.commit(&mut pubsub, 13);

            let mut wgr = grant_async(&mut publisher, &mut pubsub, 64).await.unwrap();
            fill(wgr.buf(&mut pubsub), 128);
            wgr.commit(&mut pubsub, 7);

            let mut wgr = grant_async(&mut publisher, &mut pubsub, 32).await.unwrap();
            fill(wgr.buf(&mut pubsub), 192);
            wgr.commit(&mut pubsub, 0);

            let rgr = read_async(&mut subscriber, &mut pubsub).await.unwrap();
            assert_eq!(rgr.buf(&mut pubsub).len(), 13);
            rgr.release(&mut pubsub);

            let rgr = read_async(&mut subscriber, &mut pubsub).await.unwrap();
            assert_eq!(rgr.buf(&mut pubsub).len(), 7);
            rgr.release(&mut pubsub);

            let rgr = read_async(&mut subscriber, &mut pubsub).await.unwrap();
            assert_eq!(rgr.buf(&mut pubsub).len(), 0);
            rgr.release(&mut pubsub);
        }
    });
}

#[test]
fn mod_async_frame_auto_commit_release() {
    block_on(async {
        let mut pubsub: PubSubChannel<StaticBufferProvider<256>, 1> =
            PubSubChannel::new(StaticBufferProvider::new());
        let mut publisher = pubsub.publisher().unwrap();
        let mut subscriber = pubsub.subscriber().unwrap();

        for _ in 0..100 {
            let mut wgr = grant_async(&mut publisher, &mut pubsub, 64).await.unwrap();
            wgr.to_commit(64);
            fill(wgr.buf(&mut pubsub), 0);
            wgr.finish(&mut pubsub);

            let mut rgr = read_async(&mut subscriber, &mut pubsub).await.unwrap();
            rgr.auto_release(true);
            check(rgr.buf(&mut pubsub), 0);
            assert_eq!(rgr.buf(&mut pubsub).len(), 64);
            rgr.finish(&mut pubsub);
        }

        assert!(subscriber.read(&mut pubsub).is_err());
    });
}

/// Publishes a message of 64 consecutive numbers.
fn publish<const SUBS: usize>(
    publisher: &mut FramePublisher,
    pubsub: &mut PubSubChannel<StaticBufferProvider<256>, SUBS>,
    first: usize,
) -> Wake {
    let mut wgr = publisher.grant(pubsub, 64).unwrap();
    fill(wgr.buf(pubsub), first);
    wgr.commit(pubsub, 64)
}

#[test]
fn dropped_subscribers_decrease_count() {
    let mut pubsub: PubSubChannel<StaticBufferProvider<256>, 3> =
        PubSubChannel::new(StaticBufferProvider::new());
    let mut publisher = pubsub.publisher().unwrap();

    // Create a subscriber and drop it immediately
    let subscriber1 = pubsub.subscriber().unwrap();

    // Create another subscriber
    let mut subscriber2 = pubsub.subscriber().unwrap();

    publish(&mut publisher, &mut pubsub, 0);

    subscriber1.close(&mut pubsub);

    // Read the message with the second subscriber
    let rgr = subscriber2.read(&mut pubsub).unwrap();
    assert_eq!(rgr.buf(&mut pubsub).len(), 64);
    rgr.release(&mut pubsub);

    // Ensure the message is released
    assert!(subscriber2.read(&mut pubsub).is_err());
    assert!(pubsub.is_empty());
}

#[test]
fn concurrency_test() {
    let mut pubsub: PubSubChannel<StaticBufferProvider<256>, 3> =
        PubSubChannel::new(StaticBufferProvider::new());
    let mut subscribers: Vec<(FrameSubscriber, usize)> = Vec::new();
    for _ in 0..3 {
        subscribers.push((pubsub.subscriber().unwrap(), 0));
    }

    let mut publisher = pubsub.publisher().unwrap();
    let mut published = 0;
    while published < 10 || subscribers.iter().any(|(_, read)| *read < 10) {
        if published < 10 {
            if let Ok(mut wgr) = publisher.grant(&mut pubsub, 64) {
                fill(wgr.buf(&mut pubsub), published * 10);
                wgr.commit(&mut pubsub, 64);
                published += 1;
            }
        }
        for (i, (subscriber, read)) in subscribers.iter_mut().enumerate() {
            // Let the subscribers run at different speeds
            if published < 10 && published % 3 == i {
                continue;
            }
            if let Ok(rgr) = subscriber.read(&mut pubsub) {
                assert_eq!(rgr.buf(&mut pubsub).len(), 64);
                check(rgr.buf(&mut pubsub), *read * 10);
                rgr.release(&mut pubsub);
                *read += 1;
            }
        }
    }
    assert!(pubsub.is_empty());
}

#[test]
fn not_polling_one_subscriber_does_not_block_others() {
    let mut pubsub: PubSubChannel<StaticBufferProvider<256>, 3> =
        PubSubChannel::new(StaticBufferProvider::new());
    let mut publisher = pubsub.publisher().unwrap();
    let mut subscriber1 = pubsub.subscriber().unwrap();
    let mut subscriber2 = pubsub.subscriber().unwrap();

    publish(&mut publisher, &mut pubsub, 0);

    // Read the message with the second subscriber
    let rgr2 = subscriber2.read(&mut pubsub).unwrap();
    assert_eq!(rgr2.buf(&mut pubsub).len(), 64);
    rgr2.release(&mut pubsub);

    // Ensure the first subscriber can still read the message
    let rgr1 = subscriber1.read(&mut pubsub).unwrap();
    assert_eq!(rgr1.buf(&mut pubsub).len(), 64);
    rgr1.release(&mut pubsub);
}

#[test]
fn multiple_read_grants_different_messages() {
    let mut pubsub: PubSubChannel<StaticBufferProvider<256>, 3> =
        PubSubChannel::new(StaticBufferProvider::new());
    let mut publisher = pubsub.publisher().unwrap();
    let mut subscriber1 = pubsub.subscriber().unwrap();
    let mut subscriber2 = pubsub.subscriber().unwrap();

    // Publish two messages
    for i in 0..2 {
        publish(&mut publisher, &mut pubsub, i * 10);
    }

    // Read the first message with the first subscriber
    let rgr1 = subscriber1.read(&mut pubsub).unwrap();
    assert_eq!(rgr1.buf(&mut pubsub).len(), 64);
    check(rgr1.buf(&mut pubsub), 0);
    rgr1.release(&mut pubsub);

    // Read the first message with the second subscriber
    let rgr2 = subscriber2.read(&mut pubsub).unwrap();
    assert_eq!(rgr2.buf(&mut pubsub).len(), 64);
    check(rgr2.buf(&mut pubsub), 0);

    let rgr3 = subscriber1.read(&mut pubsub).unwrap();
    assert_eq!(rgr3.buf(&mut pubsub).len(), 64);
    check(rgr3.buf(&mut pubsub), 10);

    rgr2.release(&mut pubsub);
    rgr3.release(&mut pubsub);
}

#[test]
fn multiple_read_grants_same_message() {
    let mut pubsub: PubSubChannel<StaticBufferProvider<256>, 3> =
        PubSubChannel::new(StaticBufferProvider::new());
    let mut publisher = pubsub.publisher().unwrap();
    let mut subscriber1 = pubsub.subscriber().unwrap();
    let mut subscriber2 = pubsub.subscriber().unwrap();

    publish(&mut publisher, &mut pubsub, 0);

    // Read the message with the first subscriber
    let rgr1 = subscriber1.read(&mut pubsub).unwrap();
    assert_eq!(rgr1.buf(&mut pubsub).len(), 64);
    check(rgr1.buf(&mut pubsub), 0);

    // Attempt to read the same message with the second subscriber
    assert!(matches!(
        subscriber2.read(&mut pubsub),
        Err(Error::GrantInProgress)
    ));

    rgr1.release(&mut pubsub);
}

#[test]
fn dropping_subscriber_with_active_read_grant() {
    let mut pubsub: PubSubChannel<StaticBufferProvider<256>, 3> =
        PubSubChannel::new(StaticBufferProvider::new());
    let mut publisher = pubsub.publisher().unwrap();
    let mut subscriber1 = pubsub.subscriber().unwrap();
    let subscriber2 = pubsub.subscriber().unwrap();

    publish(&mut publisher, &mut pubsub, 0);

    // Read the message with the first subscriber
    let rgr1 = subscriber1.read(&mut pubsub).unwrap();
    assert_eq!(rgr1.buf(&mut pubsub).len(), 64);
    check(rgr1.buf(&mut pubsub), 0);

    // Drop the second subscriber
    subscriber2.close(&mut pubsub);

    // Release the read grant from the first subscriber
    rgr1.release(&mut pubsub);

    // Ensure the message is released
    assert!(subscriber1.read(&mut pubsub).is_err());
}

#[test]
fn grants_never_overlap_unread_messages() {
    let mut pubsub: PubSubChannel<StaticBufferProvider<256>, 1> =
        PubSubChannel::new(StaticBufferProvider::new());
    let mut publisher = pubsub.publisher().unwrap();
    let mut subscriber = pubsub.subscriber().unwrap();

    for first in [0usize, 1] {
        let mut wgr = publisher.grant(&mut pubsub, 100).unwrap();
        fill(wgr.buf(&mut pubsub), first);
        wgr.commit(&mut pubsub, 100);
    }
    let rgr = subscriber.read(&mut pubsub).unwrap();
    assert_eq!(
        rgr.release(&mut pubsub),
        Wake {
            publisher: true,
            subscribers: true
        }
    );

    // The third message wraps around, and meets the second one
    let mut wgr = publisher.grant(&mut pubsub, 100).unwrap();
    fill(wgr.buf(&mut pubsub), 2);
    wgr.commit(&mut pubsub, 100);
    assert_eq!(pubsub.len(), 2);
    assert_eq!(pubsub.free_space(), 0);
    assert!(matches!(
        publisher.grant(&mut pubsub, 1),
        Err(Error::InsufficientSize)
    ));

    for first in [1usize, 2] {
        let rgr = subscriber.read(&mut pubsub).unwrap();
        check(rgr.buf(&mut pubsub), first);
        rgr.release(&mut pubsub);
    }
    assert!(pubsub.is_empty());
    assert_eq!(publisher.free_space(&pubsub), 256);
}

#[test]
fn only_one_grant_at_a_time() {
    let mut pubsub: PubSubChannel<StaticBufferProvider<256>, 1> =
        PubSubChannel::new(StaticBufferProvider::new());
    let mut publisher = pubsub.publisher().unwrap();
    let mut subscriber = pubsub.subscriber().unwrap();

    let wgr = publisher.grant(&mut pubsub, 10).unwrap();
    assert!(matches!(
        publisher.grant(&mut pubsub, 10),
        Err(Error::GrantInProgress)
    ));
    assert!(matches!(
        publisher.grant_immediate(&mut pubsub, 10),
        Err(Error::GrantInProgress)
    ));
    // Nothing is committed
    assert_eq!(
        wgr.finish(&mut pubsub),
        Wake {
            publisher: false,
            subscribers: false
        }
    );
    assert!(matches!(
        subscriber.read(&mut pubsub),
        Err(Error::InsufficientSize)
    ));
    assert!(publisher.grant(&mut pubsub, 10).is_ok());
}

#[test]
fn commit_without_subscribers_discards_the_frame() {
    let mut pubsub: PubSubChannel<StaticBufferProvider<256>, 1> =
        PubSubChannel::new(StaticBufferProvider::new());
    let mut publisher = pubsub.publisher().unwrap();

    let wgr = publisher.grant(&mut pubsub, 10).unwrap();
    let wake = wgr.commit(&mut pubsub, 10);
    assert!(!wake.subscribers);
    assert!(pubsub.is_empty());
    assert!(publisher.grant(&mut pubsub, 10).is_ok());
}

#[test]
fn grant_immediate_removes_the_oldest_messages() {
    let mut pubsub: PubSubChannel<StaticBufferProvider<256>, 1> =
        PubSubChannel::new(StaticBufferProvider::new());
    let mut publisher = pubsub.publisher().unwrap();
    let mut subscriber = pubsub.subscriber().unwrap();

    for i in 0..4 {
        publish(&mut publisher, &mut pubsub, i);
    }
    assert!(publisher.grant(&mut pubsub, 64).is_err());
    let mut wgr = publisher.grant_immediate(&mut pubsub, 64).unwrap();
    wgr.set_pid(7);
    fill(wgr.buf(&mut pubsub), 4);
    wgr.commit(&mut pubsub, 64);

    // The subscriber passes over what was removed
    for i in 1..5 {
        let rgr = subscriber.read(&mut pubsub).unwrap();
        check(rgr.buf(&mut pubsub), i);
        assert_eq!(rgr.pid(), if i == 4 { 7 } else { 0 });
        rgr.release(&mut pubsub);
    }
    assert!(subscriber.read(&mut pubsub).is_err());
}

#[test]
fn the_queue_of_messages_is_bounded() {
    let mut pubsub: PubSubChannel<StaticBufferProvider<256>, 1> =
        PubSubChannel::new(StaticBufferProvider::new());
    let mut publisher = pubsub.publisher().unwrap();
    let mut subscriber = pubsub.subscriber().unwrap();

    let mut n = 0;
    while let Ok(mut wgr) = publisher.grant(&mut pubsub, 1) {
        wgr.buf(&mut pubsub)[0] = n as u8;
        wgr.commit(&mut pubsub, 1);
        n += 1;
    }
    assert_eq!(n, mqttrust::crate_config::MAX_PUBSUB_MESSAGES);
    assert!(pubsub.is_full());
    assert!(publisher.is_full(&pubsub));
    assert_eq!(publisher.len(&pubsub), n);

    let mut rgr = subscriber.read(&mut pubsub).unwrap();
    rgr.buf_mut(&mut pubsub)[0] = 77;
    assert_eq!(rgr.buf(&mut pubsub), &[77]);
    rgr.release(&mut pubsub);
    assert!(!pubsub.is_full());

    pubsub.clear();
    assert!(publisher.is_empty(&pubsub));
    assert!(subscriber.read(&mut pubsub).is_err());
}

#[test]
fn publishers_and_subscribers_are_limited() {
    let mut buf = [1u8; 16];
    let mut pubsub: PubSubChannel<_, 2> = PubSubChannel::new_from_slice(&mut buf);
    let publisher = pubsub.publisher().unwrap();
    assert!(matches!(
        pubsub.publisher(),
        Err(Error::PublisherAlreadyTaken)
    ));
    publisher.close(&mut pubsub);
    assert!(pubsub.publisher().is_ok());

    let first = pubsub.subscriber().unwrap();
    let _second = pubsub.subscriber().unwrap();
    assert!(matches!(
        pubsub.subscriber(),
        Err(Error::MaximumSubscribersReached)
    ));
    assert_eq!(pubsub.subscribers(), 2);
    first.close(&mut pubsub);
    assert_eq!(pubsub.subscribers(), 1);
    assert!(pubsub.subscriber().is_ok());
}

#[test]
fn messages_released_in_any_order_free_their_space() {
    for order in [[0usize, 1, 2], [2, 1, 0], [1, 2, 0], [2, 0, 1]] {
        let mut pubsub: PubSubChannel<StaticBufferProvider<256>, 1> =
            PubSubChannel::new(StaticBufferProvider::new());
        let mut publisher = pubsub.publisher().unwrap();
        let mut subscriber = pubsub.subscriber().unwrap();

        for first in 0..3 {
            let mut wgr = publisher.grant(&mut pubsub, 64).unwrap();
            fill(wgr.buf(&mut pubsub), first);
            wgr.commit(&mut pubsub, 64);
        }
        let mut grants = Vec::new();
        for _ in 0..3 {
            grants.push(Some(subscriber.read(&mut pubsub).unwrap()));
        }
        assert_eq!(pubsub.len(), 3);

        for (released, i) in order.iter().enumerate() {
            // What is still being read has not been touched
            for (j, grant) in grants.iter().enumerate() {
                if let Some(grant) = grant {
                    check(grant.buf(&mut pubsub), j);
                }
            }
            let wake = grants[*i].take().unwrap().release(&mut pubsub);
            // Only what is released from the front on is free
            let mut gone = 0;
            while gone < 3 && order[..=released].contains(&gone) {
                gone += 1;
            }
            assert_eq!(pubsub.len(), 3 - gone);
            assert_eq!(wake.publisher, order[..=released].contains(&0));
        }
        assert!(pubsub.is_empty());
        assert_eq!(pubsub.free_space(), 256);
        assert_eq!(publisher.free_space(&pubsub), 256);
    }
}
