use core::future::poll_fn;
use core::task::Poll;

use embassy_futures::block_on;
use mqttrust::pubsub::framed::{FrameGrantR, FrameGrantW, FramePublisher, FrameSubscriber};
use mqttrust::pubsub::vusize::{decode_usize, decoded_len, encode_usize_to_slice, encoded_len};
use mqttrust::pubsub::{Error, PubSubChannel, StaticBufferProvider};

/// Fills a granted buffer with consecutive numbers.
fn fill(buf: &mut [u8], first: usize) {
    for (i, by) in buf.iter_mut().enumerate() {
        *by = (first + i) as u8;
    }
}

/// Checks that a buffer holds consecutive numbers.
fn check(buf: &[u8], first: usize) {
    for (i, by) in buf.iter().enumerate() {
        assert_eq!(*by, (first + i) as u8);
    }
}

/// Waits for a grant.
async fn grant_async<const N: usize, const SUBS: usize>(
    publisher: &mut FramePublisher,
    channel: &mut PubSubChannel<StaticBufferProvider<N>, SUBS>,
    max_sz: usize,
) -> Result<FrameGrantW, Error> {
    poll_fn(|cx| match publisher.grant(channel, max_sz) {
        Ok(grant) => Poll::Ready(Ok(grant)),
        Err(_) => {
            cx.waker().wake_by_ref();
            Poll::Pending
        }
    })
    .await
}

/// Waits for a message.
async fn read_async<const N: usize, const SUBS: usize>(
    subscriber: &mut FrameSubscriber,
    channel: &mut PubSubChannel<StaticBufferProvider<N>, SUBS>,
) -> Option<FrameGrantR> {
    poll_fn(|cx| match subscriber.read(channel) {
        Some(grant) => Poll::Ready(Some(grant)),
        _ => {
            cx.waker().wake_by_ref();
            Poll::Pending
        }
    })
    .await
}

#[test]
fn framed_frame_wrong_size() {
    let mut pubsub: PubSubChannel<StaticBufferProvider<256>, 1> =
        PubSubChannel::new(StaticBufferProvider::new());
    let mut publisher = FramePublisher::new(pubsub.publisher().unwrap());
    let mut subscriber = FrameSubscriber::new(pubsub.subscriber().unwrap());

    // Create largeish grants
    let mut wgr = publisher.grant(&mut pubsub, 127).unwrap();
    fill(wgr.buf(&mut pubsub), 0);
    wgr.commit(&mut pubsub, 256);

    let rgr = subscriber.read(&mut pubsub).unwrap();
    assert_eq!(rgr.buf(&mut pubsub).len(), 127);
    check(rgr.buf(&mut pubsub), 0);
    rgr.release(&mut pubsub);
}

#[test]
fn framed_full_size() {
    let mut pubsub: PubSubChannel<StaticBufferProvider<256>, 1> =
        PubSubChannel::new(StaticBufferProvider::new());
    let mut publisher = FramePublisher::new(pubsub.publisher().unwrap());
    let mut subscriber = FrameSubscriber::new(pubsub.subscriber().unwrap());
    let mut ctr = 0;

    for _ in 0..100 {
        // Create largeish grants
        if let Ok(mut wgr) = publisher.grant(&mut pubsub, 127) {
            ctr += 1;
            fill(wgr.buf(&mut pubsub), 0);
            wgr.commit(&mut pubsub, 127);

            let rgr = subscriber.read(&mut pubsub).unwrap();
            assert_eq!(rgr.buf(&mut pubsub).len(), 127);
            check(rgr.buf(&mut pubsub), 0);
            rgr.release(&mut pubsub);
        } else {
            // Create smallish grants
            let mut wgr = publisher.grant(&mut pubsub, 1).unwrap();
            fill(wgr.buf(&mut pubsub), 0);
            wgr.commit(&mut pubsub, 1);

            let rgr = subscriber.read(&mut pubsub).unwrap();
            assert_eq!(rgr.buf(&mut pubsub).len(), 1);
            check(rgr.buf(&mut pubsub), 0);
            rgr.release(&mut pubsub);
        };
    }

    assert!(ctr > 1);
}

#[test]
fn framed_frame_overcommit() {
    let mut pubsub: PubSubChannel<StaticBufferProvider<256>, 1> =
        PubSubChannel::new(StaticBufferProvider::new());
    let mut publisher = FramePublisher::new(pubsub.publisher().unwrap());
    let mut subscriber = FrameSubscriber::new(pubsub.subscriber().unwrap());

    // Create largeish grants
    let mut wgr = publisher.grant(&mut pubsub, 128).unwrap();
    fill(wgr.buf(&mut pubsub), 0);
    wgr.commit(&mut pubsub, 255);

    let mut wgr = publisher.grant(&mut pubsub, 64).unwrap();
    fill(wgr.buf(&mut pubsub), 128);
    wgr.commit(&mut pubsub, 127);

    let rgr = subscriber.read(&mut pubsub).unwrap();
    assert_eq!(rgr.buf(&mut pubsub).len(), 128);
    rgr.release(&mut pubsub);

    let rgr = subscriber.read(&mut pubsub).unwrap();
    assert_eq!(rgr.buf(&mut pubsub).len(), 64);
    rgr.release(&mut pubsub);
}

#[test]
fn framed_frame_undercommit() {
    let mut pubsub: PubSubChannel<StaticBufferProvider<512>, 1> =
        PubSubChannel::new(StaticBufferProvider::new());
    let mut publisher = FramePublisher::new(pubsub.publisher().unwrap());
    let mut subscriber = FrameSubscriber::new(pubsub.subscriber().unwrap());

    for _ in 0..100 {
        // Create largeish grants
        let mut wgr = publisher.grant(&mut pubsub, 128).unwrap();
        fill(wgr.buf(&mut pubsub), 0);
        wgr.commit(&mut pubsub, 13);

        let mut wgr = publisher.grant(&mut pubsub, 64).unwrap();
        fill(wgr.buf(&mut pubsub), 128);
        wgr.commit(&mut pubsub, 7);

        let mut wgr = publisher.grant(&mut pubsub, 32).unwrap();
        fill(wgr.buf(&mut pubsub), 192);
        wgr.commit(&mut pubsub, 0);

        let rgr = subscriber.read(&mut pubsub).unwrap();
        assert_eq!(rgr.buf(&mut pubsub).len(), 13);
        rgr.release(&mut pubsub);

        let rgr = subscriber.read(&mut pubsub).unwrap();
        assert_eq!(rgr.buf(&mut pubsub).len(), 7);
        rgr.release(&mut pubsub);

        let rgr = subscriber.read(&mut pubsub).unwrap();
        assert_eq!(rgr.buf(&mut pubsub).len(), 0);
        rgr.release(&mut pubsub);
    }
}

#[test]
fn framed_frame_auto_commit_release() {
    let mut pubsub: PubSubChannel<StaticBufferProvider<256>, 1> =
        PubSubChannel::new(StaticBufferProvider::new());
    let mut publisher = FramePublisher::new(pubsub.publisher().unwrap());
    let mut subscriber = FrameSubscriber::new(pubsub.subscriber().unwrap());

    for _ in 0..100 {
        let mut wgr = publisher.grant(&mut pubsub, 64).unwrap();
        wgr.to_commit(&mut pubsub, 64);
        fill(wgr.buf(&mut pubsub), 0);
        wgr.finish(&mut pubsub);

        let mut rgr = subscriber.read(&mut pubsub).unwrap();
        rgr.auto_release(true);
        check(rgr.buf(&mut pubsub), 0);
        assert_eq!(rgr.buf(&mut pubsub).len(), 64);
        rgr.finish(&mut pubsub);
    }

    assert!(subscriber.read(&mut pubsub).is_none());
}

#[test]
fn framed_async_frame_wrong_size() {
    block_on(async {
        let mut pubsub: PubSubChannel<StaticBufferProvider<256>, 1> =
            PubSubChannel::new(StaticBufferProvider::new());
        let mut publisher = FramePublisher::new(pubsub.publisher().unwrap());
        let mut subscriber = FrameSubscriber::new(pubsub.subscriber().unwrap());

        // Create largeish grants
        let mut wgr = grant_async(&mut publisher, &mut pubsub, 127).await.unwrap();
        fill(wgr.buf(&mut pubsub), 0);
        wgr.commit(&mut pubsub, 256);

        let rgr = read_async(&mut subscriber, &mut pubsub).await.unwrap();
        assert_eq!(rgr.buf(&mut pubsub).len(), 127);
        check(rgr.buf(&mut pubsub), 0);
        rgr.release(&mut pubsub);
    });
}

#[test]
fn async_full_size() {
    block_on(async {
        let mut pubsub: PubSubChannel<StaticBufferProvider<256>, 1> =
            PubSubChannel::new(StaticBufferProvider::new());
        let mut publisher = FramePublisher::new(pubsub.publisher().unwrap());
        let mut subscriber = FrameSubscriber::new(pubsub.subscriber().unwrap());
        let mut ctr = 0;

        for _ in 0..100 {
            // Create largeish grants
            if let Ok(mut wgr) = grant_async(&mut publisher, &mut pubsub, 127).await {
                ctr += 1;
                fill(wgr.buf(&mut pubsub), 0);
                wgr.commit(&mut pubsub, 127);

                let rgr = read_async(&mut subscriber, &mut pubsub).await.unwrap();
                assert_eq!(rgr.buf(&mut pubsub).len(), 127);
                check(rgr.buf(&mut pubsub), 0);
                rgr.release(&mut pubsub);
            } else {
                // Create smallish grants
                let mut wgr = grant_async(&mut publisher, &mut pubsub, 1).await.unwrap();
                fill(wgr.buf(&mut pubsub), 0);
                wgr.commit(&mut pubsub, 1);

                let rgr = read_async(&mut subscriber, &mut pubsub).await.unwrap();
                assert_eq!(rgr.buf(&mut pubsub).len(), 1);
                check(rgr.buf(&mut pubsub), 0);
                rgr.release(&mut pubsub);
            };
        }

        assert!(ctr > 1);
    });
}

#[test]
fn framed_async_frame_overcommit() {
    block_on(async {
        let mut pubsub: PubSubChannel<StaticBufferProvider<256>, 1> =
            PubSubChannel::new(StaticBufferProvider::new());
        let mut publisher = FramePublisher::new(pubsub.publisher().unwrap());
        let mut subscriber = FrameSubscriber::new(pubsub.subscriber().unwrap());

        // Create largeish grants
        let mut wgr = grant_async(&mut publisher, &mut pubsub, 128).await.unwrap();
        fill(wgr.buf(&mut pubsub), 0);
        wgr.commit(&mut pubsub, 255);

        let mut wgr = grant_async(&mut publisher, &mut pubsub, 64).await.unwrap();
        fill(wgr.buf(&mut pubsub), 128);
        wgr.commit(&mut pubsub, 127);

        let rgr = read_async(&mut subscriber, &mut pubsub).await.unwrap();
        assert_eq!(rgr.buf(&mut pubsub).len(), 128);
        rgr.release(&mut pubsub);

        let rgr = read_async(&mut subscriber, &mut pubsub).await.unwrap();
        assert_eq!(rgr.buf(&mut pubsub).len(), 64);
        rgr.release(&mut pubsub);
    });
}

#[test]
fn framed_async_frame_undercommit() {
    block_on(async {
        let mut pubsub: PubSubChannel<StaticBufferProvider<512>, 1> =
            PubSubChannel::new(StaticBufferProvider::new());
        let mut publisher = FramePublisher::new(pubsub.publisher().unwrap());
        let mut subscriber = FrameSubscriber::new(pubsub.subscriber().unwrap());

        for _ in 0..100 {
            // Create largeish grants
            let mut wgr = grant_async(&mut publisher, &mut pubsub, 128).await.unwrap();
            fill(wgr.buf(&mut pubsub), 0);
            wgr.commit(&mut pubsub, 13);

            let mut wgr = grant_async(&mut publisher, &mut pubsub, 64).await.unwrap();
            fill(wgr.buf(&mut pubsub), 128);
            wgr.commit(&mut pubsub, 7);

            let mut wgr = grant_async(&mut publisher, &mut pubsub, 32).await.unwrap();
            fill(wgr.buf(&mut pubsub), 192);
            wgr.commit(&mut pubsub, 0);

            let rgr = read_async(&mut subscriber, &mut pubsub).await.unwrap();
            assert_eq!(rgr.buf(&mut pubsub).len(), 13);
            rgr.release(&mut pubsub);

            let rgr = read_async(&mut subscriber, &mut pubsub).await.unwrap();
            assert_eq!(rgr.buf(&mut pubsub).len(), 7);
            rgr.release(&mut pubsub);

            let rgr = read_async(&mut subscriber, &mut pubsub).await.unwrap();
            assert_eq!(rgr.buf(&mut pubsub).len(), 0);
            rgr.release(&mut pubsub);
        }
    });
}

#[test]
fn framed_async_frame_auto_commit_release() {
    block_on(async {
        let mut pubsub: PubSubChannel<StaticBufferProvider<256>, 1> =
            PubSubChannel::new(StaticBufferProvider::new());
        let mut publisher = FramePublisher::new(pubsub.publisher().unwrap());
        let mut subscriber = FrameSubscriber::new(pubsub.subscriber().unwrap());

        for _ in 0..100 {
            let mut wgr = grant_async(&mut publisher, &mut pubsub, 64).await.unwrap();
            wgr.to_commit(&mut pubsub, 64);
            fill(wgr.buf(&mut pubsub), 0);
            wgr.finish(&mut pubsub);

            let mut rgr = read_async(&mut subscriber, &mut pubsub).await.unwrap();
            rgr.auto_release(true);
            check(rgr.buf(&mut pubsub), 0);
            assert_eq!(rgr.buf(&mut pubsub).len(), 64);
            rgr.finish(&mut pubsub);
        }

        assert!(subscriber.read(&mut pubsub).is_none());
    });
}

#[test]
fn header_sizes() {
    let sizes: Vec<(u64, usize)> = vec![
        (0, 1),
        (1, 1),
        (127, 1),
        (128, 2),
        (16383, 2),
        (16384, 3),
        ((1 << 21) - 1, 3),
        (1 << 21, 4),
        (1 << 28, 5),
        (1 << 35, 6),
        (1 << 42, 7),
        (1 << 49, 8),
        (1 << 56, 9),
        (u64::MAX, 9),
    ];
    for (value, len) in sizes {
        assert_eq!(encoded_len(value), len);
        for length in len..=9 {
            let mut buf = [0xffu8; 10];
            encode_usize_to_slice(value, length, &mut buf);
            assert_eq!(decoded_len(buf[0]), length);
            assert_eq!(decode_usize(&buf), value);
            assert_eq!(buf[9], 0xff);
        }
    }
}

#[test]
fn header_bytes() {
    let mut buf = [0u8; 2];
    encode_usize_to_slice(5, 1, &mut buf);
    assert_eq!(buf, [11, 0]);
    encode_usize_to_slice(5, 2, &mut buf);
    assert_eq!(buf, [22, 0]);
    encode_usize_to_slice(0x1234, 2, &mut buf);
    assert_eq!(buf, [0xd2, 0x48]);
}

#[test]
fn framed_grants_leave_room_for_the_header() {
    let mut pubsub: PubSubChannel<StaticBufferProvider<130>, 1> =
        PubSubChannel::new(StaticBufferProvider::new());
    let mut publisher = FramePublisher::new(pubsub.publisher().unwrap());
    let mut subscriber = FrameSubscriber::new(pubsub.subscriber().unwrap());

    assert!(matches!(
        publisher.grant(&mut pubsub, 129),
        Err(Error::InsufficientSize)
    ));
    let mut wgr = publisher.grant(&mut pubsub, 128).unwrap();
    assert!(matches!(
        publisher.grant(&mut pubsub, 1),
        Err(Error::GrantInProgress)
    ));
    fill(wgr.buf(&mut pubsub), 3);
    wgr.to_commit(&mut pubsub, 9);
    wgr.to_commit(&mut pubsub, 0);
    wgr.finish(&mut pubsub);
    assert!(subscriber.read(&mut pubsub).is_none());

    let mut wgr = publisher.grant(&mut pubsub, 128).unwrap();
    fill(wgr.buf(&mut pubsub), 3);
    wgr.commit(&mut pubsub, 32);
    let mut rgr = subscriber.read(&mut pubsub).unwrap();
    assert_eq!(rgr.buf(&mut pubsub).len(), 32);
    check(rgr.buf_mut(&mut pubsub), 3);
    rgr.release(&mut pubsub);
    assert_eq!(pubsub.free_space(), 130);
}

#[test]
fn framed_release_in_reverse_order() {
    let mut pubsub: PubSubChannel<StaticBufferProvider<256>, 1> =
        PubSubChannel::new(StaticBufferProvider::new());
    let mut publisher = FramePublisher::new(pubsub.publisher().unwrap());
    let mut subscriber = FrameSubscriber::new(pubsub.subscriber().unwrap());

    for first in [0, 10] {
        let mut wgr = publisher.grant(&mut pubsub, 64).unwrap();
        fill(wgr.buf(&mut pubsub), first);
        wgr.commit(&mut pubsub, 64);
    }
    let first = subscriber.read(&mut pubsub).unwrap();
    let second = subscriber.read(&mut pubsub).unwrap();

    assert!(!second.release(&mut pubsub).publisher);
    assert_eq!(pubsub.len(), 2);
    assert!(first.release(&mut pubsub).publisher);
    assert!(pubsub.is_empty());
    assert_eq!(pubsub.free_space(), 256);
}
