//! What holds of a channel over more than one call.
use vstd::prelude::*;

use super::buffer_provider::BufferProvider;
use super::channel::{
    committed, discounted, is_idle, lemma_frame_bounds, lemma_grant_bounds,
    lemma_messages_laid_out, lemma_splice_keeps_frame, lemma_subscriber_counted, lemma_waits_for,
    make_room, put_back, regions, released, settled, settled_idle, splice, taken, ChannelView,
    FrameGrantR, FrameGrantW, FramePublisher, FrameSubscriber, PubSubChannel, Wake,
};
use super::layout::{
    disjoint, free, law_laid_out_disjoint, lemma_laid_out_push, place, Region,
};
use super::queue::Header;
use super::Error;
use crate::crate_config::MAX_PUBSUB_MESSAGES;

verus! {

/// What is granted for writing holds no byte of a frame.
pub proof fn law_grant_overlaps_no_frame(view: ChannelView, len: int, i: int)
    requires
        view.valid(),
        0 <= len <= view.free_space(),
        0 <= i < view.messages.len(),
    ensures
        disjoint(
            view.messages[i].region(),
            Region {
                start: place(regions(view.messages), view.bytes.len() as int, len),
                len,
            },
        ),
{
    let capacity = view.bytes.len() as int;
    let frames = regions(view.messages);
    let region = Region { start: place(frames, capacity, len), len };
    lemma_messages_laid_out(view);
    lemma_laid_out_push(frames, capacity, len);
    law_laid_out_disjoint(frames.push(region), capacity, i, frames.len() as int);
    assert(frames.push(region)[i] == view.messages[i].region());
    assert(frames.push(region)[frames.len() as int] == region);
}

/// What is written into a grant and then committed is the frame of the newest
/// message. All other messages and their frames stay as they are.
pub proof fn law_read_gives_back_what_was_written(
    view: ChannelView,
    written: Seq<u8>,
    used: int,
    pid: u16,
    i: int,
)
    requires
        view.valid(),
        view.grant is Some,
        view.subscribers > 0,
        written.len() == view.grant->0.len,
        0 <= used <= written.len(),
        used <= u16::MAX,
        0 <= i < view.messages.len(),
    ensures
        ({
            let after = committed(
                ChannelView { bytes: splice(view.bytes, view.grant->0.start, written), ..view },
                used,
                pid,
            );
            &&& after.messages.len() == view.messages.len() + 1
            &&& after.messages.last().message_id == view.next_id
            &&& after.messages.last().subscriber_count == view.subscribers
            &&& after.frame(view.messages.len() as int) == written.take(used)
            &&& after.messages[i] == view.messages[i]
            &&& after.frame(i) == view.frame(i)
        }),
{
    let region = view.grant->0;
    let spliced = ChannelView { bytes: splice(view.bytes, region.start, written), ..view };
    let after = committed(spliced, used, pid);
    lemma_grant_bounds(view);
    lemma_frame_bounds(view, i);
    lemma_splice_keeps_frame(view, written, i);
    assert(after.frame(view.messages.len() as int) =~= written.take(used));
    assert(after.frame(i) =~= spliced.frame(i));
}

/// A subscriber that has read everything reads next what is committed next.
pub proof fn law_committed_message_is_read_next(
    view: ChannelView,
    subscriber: int,
    used: int,
    pid: u16,
)
    requires
        view.valid(),
        view.grant is Some,
        view.cursors.dom().contains(subscriber),
        view.cursors[subscriber] == view.next_id,
        view.next_id < u64::MAX,
        0 <= used <= view.grant->0.len,
        used <= u16::MAX,
    ensures
        ({
            let after = committed(view, used, pid);
            let index = after.cursors[subscriber] - after.start_id();
            &&& index == view.messages.len()
            &&& index < after.messages.len()
            &&& !after.messages[index].read_in_progress
            &&& after.frame(index) == view.bytes.subrange(
                view.grant->0.start,
                view.grant->0.start + used,
            )
        }),
{
    lemma_grant_bounds(view);
    if view.cursors.dom().len() == 0 {
        assert(view.cursors.dom() =~= Set::empty());
    }
}

/// Taking a message for reading changes no frame, and leaves the other
/// messages as they are.
pub proof fn law_reading_keeps_frames(view: ChannelView, index: int, i: int)
    requires
        0 <= index < view.messages.len(),
        0 <= i < view.messages.len(),
    ensures
        (ChannelView { messages: taken(view.messages, index), ..view }).frame(i) == view.frame(i),
        i != index ==> taken(view.messages, index)[i] == view.messages[i],
{
}

proof fn lemma_settled_keeps(messages: Seq<Header>, index: int)
    requires
        0 <= index < messages.len(),
        messages[index].subscriber_count > 0,
    ensures
        0 <= messages.len() - settled(messages).len() <= index,
        settled(messages) == messages.skip(messages.len() - settled(messages).len()),
    decreases messages.len(),
{
    if messages[0].subscriber_count == 0 {
        lemma_settled_keeps(messages.skip(1), index - 1);
        let rest = settled(messages.skip(1));
        assert(rest == settled(messages));
        assert(messages.skip(1).skip(messages.skip(1).len() - rest.len()) =~= messages.skip(
            messages.len() - rest.len(),
        ));
    } else {
        assert(messages.skip(0) =~= messages);
    }
}

proof fn lemma_settled_idle(messages: Seq<Header>)
    ensures
        settled_idle(messages).len() <= messages.len(),
        settled_idle(messages) == messages.skip(messages.len() - settled_idle(messages).len()),
        forall|i: int|
            0 <= i < messages.len() - settled_idle(messages).len() ==> is_idle(
                #[trigger] messages[i],
            ),
        settled_idle(messages).len() > 0 ==> !is_idle(settled_idle(messages)[0]),
    decreases messages.len(),
{
    if messages.len() > 0 && is_idle(messages[0]) {
        let tail = messages.skip(1);
        lemma_settled_idle(tail);
        let rest = settled_idle(tail);
        assert(tail.skip(tail.len() - rest.len()) =~= messages.skip(messages.len() - rest.len()));
        assert forall|i: int| 0 <= i < messages.len() - rest.len() implies is_idle(
            #[trigger] messages[i],
        ) by {
            if i > 0 {
                assert(messages[i] == tail[i - 1]);
            }
        }
    } else {
        assert(messages.skip(0) =~= messages);
    }
}

/// After a release, no message that every subscriber has read and nobody holds
/// stands at the front. Only such messages are removed, and all others keep
/// their order.
pub proof fn law_released_space_is_available(messages: Seq<Header>, index: int)
    requires
        0 <= index < messages.len(),
    ensures
        ({
            let after = released(messages, index);
            let removed = messages.len() - after.len();
            &&& after.len() > 0 ==> !is_idle(after[0])
            &&& 0 <= removed
            &&& after == put_back(messages, index).skip(removed)
            &&& forall|i: int|
                0 <= i < removed ==> is_idle(#[trigger] put_back(messages, index)[i])
        }),
{
    lemma_settled_idle(put_back(messages, index));
}

/// Once every message has been read by every subscriber and the last read
/// grant is released, whichever it is, nothing is left and all space is free.
pub proof fn law_last_release_frees_everything(view: ChannelView, index: int)
    requires
        view.valid(),
        0 <= index < view.messages.len(),
        forall|i: int|
            0 <= i < view.messages.len() ==> (#[trigger] view.messages[i]).subscriber_count == 0,
        forall|i: int|
            0 <= i < view.messages.len() && i != index ==> !(
            #[trigger] view.messages[i]).read_in_progress,
    ensures
        ({
            let after = ChannelView { messages: released(view.messages, index), ..view };
            &&& after.messages.len() == 0
            &&& after.free_space() == view.bytes.len()
        }),
{
    let idle = put_back(view.messages, index);
    lemma_settled_idle(idle);
    let rest = settled_idle(idle);
    if rest.len() > 0 {
        assert(rest[0] == idle[idle.len() - rest.len()]);
    }
}

/// A message that a subscriber has yet to read is removed neither when a read
/// grant is released, for that message or another one, nor when another
/// subscriber leaves.
pub proof fn law_unread_message_stays(view: ChannelView, subscriber: int, index: int, at: int)
    requires
        view.valid(),
        view.cursors.dom().contains(subscriber),
        0 <= index < view.messages.len(),
        0 <= at < view.messages.len(),
        view.cursors[subscriber] <= view.messages[index].message_id,
    ensures
        view.messages[index].subscriber_count > 0,
        view.messages.len() - released(view.messages, at).len() <= index,
        released(view.messages, at) == put_back(view.messages, at).skip(
            view.messages.len() - released(view.messages, at).len(),
        ),
        view.messages.len() - settled(view.messages).len() <= index,
        settled(view.messages) == view.messages.skip(
            view.messages.len() - settled(view.messages).len(),
        ),
{
    lemma_waits_for(view, subscriber, index);
    lemma_settled_keeps(view.messages, index);
    let idle = put_back(view.messages, at);
    lemma_settled_idle(idle);
    assert(!is_idle(idle[index]));
}

/// Messages lie in the order in which they were committed, and are numbered
/// without a gap.
pub proof fn law_messages_lie_in_order(view: ChannelView, i: int, j: int)
    requires
        view.valid(),
        0 <= i < j < view.messages.len(),
    ensures
        view.messages[i].message_id + (j - i) == view.messages[j].message_id,
{
}

proof fn lemma_make_room(messages: Seq<Header>, capacity: int, len: int)
    ensures
        ({
            let left = make_room(messages, capacity, len);
            let removed = messages.len() - left.len();
            &&& 0 <= removed
            &&& left == messages.skip(removed)
            &&& left.len() == 0 || (len <= free(regions(left), capacity) && left.len()
                < MAX_PUBSUB_MESSAGES)
            &&& forall|k: int|
                0 <= k < removed ==> !(len <= free(
                    regions(#[trigger] messages.skip(k)),
                    capacity,
                ) && messages.len() - k < MAX_PUBSUB_MESSAGES)
        }),
    decreases messages.len(),
{
    let left = make_room(messages, capacity, len);
    assert(messages.skip(0) =~= messages);
    if messages.len() > 0 && (free(regions(messages), capacity) < len || messages.len()
        >= MAX_PUBSUB_MESSAGES) {
        let tail = messages.skip(1);
        lemma_make_room(tail, capacity, len);
        assert(left == make_room(tail, capacity, len));
        let removed = messages.len() - left.len();
        assert(tail.skip(removed - 1) =~= messages.skip(removed));
        assert forall|k: int| 0 <= k < removed implies !(len <= free(
            regions(#[trigger] messages.skip(k)),
            capacity,
        ) && messages.len() - k < MAX_PUBSUB_MESSAGES) by {
            if k > 0 {
                assert(tail.skip(k - 1) =~= messages.skip(k));
            }
        }
    }
}

/// Making room for a frame removes the oldest messages, and none that could
/// have stayed: what is left is the longest rest of the messages beside which
/// the frame fits. If it fits as it is, nothing is removed.
pub proof fn law_nothing_is_removed_without_need(
    messages: Seq<Header>,
    capacity: int,
    len: int,
    kept: int,
)
    requires
        0 <= kept <= messages.len(),
        len <= free(regions(messages.skip(messages.len() - kept)), capacity),
        kept < MAX_PUBSUB_MESSAGES,
    ensures
        make_room(messages, capacity, len).len() >= kept,
        make_room(messages, capacity, len) == messages.skip(
            messages.len() - make_room(messages, capacity, len).len(),
        ),
        kept == messages.len() ==> make_room(messages, capacity, len) == messages,
        make_room(messages, capacity, len).len() > 0 ==> len <= free(
            regions(make_room(messages, capacity, len)),
            capacity,
        ) && make_room(messages, capacity, len).len() < MAX_PUBSUB_MESSAGES,
{
    lemma_make_room(messages, capacity, len);
    let removed = messages.len() - make_room(messages, capacity, len).len();
    let k = messages.len() - kept;
    if k < removed {
        assert(!(len <= free(regions(messages.skip(k)), capacity) && messages.len() - k
            < MAX_PUBSUB_MESSAGES));
    }
    assert(messages.skip(0) =~= messages);
}

/// A grant that waits for nothing is given unless there is one already. It has
/// the length that was asked for, lies within the buffer and overlaps no frame.
/// The messages that are left are the newest ones, as many as there are that
/// leave room for it. Nothing else of the channel changes.
pub proof fn law_immediate_grant<B: BufferProvider, const SUBS: usize>(
    publisher: &mut FramePublisher,
    channel: &mut PubSubChannel<B, SUBS>,
    max_sz: usize,
    res: Result<FrameGrantW, Error>,
    kept: int,
)
    requires
        call_ensures(
            FramePublisher::grant_immediate::<B, SUBS>,
            (publisher, channel, max_sz),
            res,
        ),
        old(channel)@.valid(),
        max_sz <= old(channel)@.bytes.len(),
        0 <= kept <= old(channel)@.messages.len(),
    ensures
        ({
            let before = old(channel)@;
            let after = final(channel)@;
            let removed = before.messages.len() - after.messages.len();
            &&& 0 <= removed
            &&& after.messages == before.messages.skip(removed)
            &&& max_sz <= before.free_space() && before.messages.len() < MAX_PUBSUB_MESSAGES
                ==> after.messages == before.messages
            &&& kept < MAX_PUBSUB_MESSAGES && max_sz <= (ChannelView {
                messages: before.messages.skip(before.messages.len() - kept),
                ..before
            }).free_space() ==> after.messages.len() >= kept
            &&& after == (ChannelView { messages: after.messages, grant: after.grant, ..before })
            &&& res is Ok <==> before.grant is None
            &&& res is Err ==> res == Err::<FrameGrantW, Error>(Error::GrantInProgress)
                && after.grant == before.grant
            &&& res matches Ok(grant) ==> {
                &&& after.grant == Some(grant@)
                &&& grant@.len == max_sz
                &&& 0 <= grant@.start
                &&& grant@.end() <= before.bytes.len()
                &&& forall|i: int|
                    0 <= i < after.messages.len() ==> disjoint(
                        (#[trigger] after.messages[i]).region(),
                        grant@,
                    )
            }
        }),
{
    let before = old(channel)@;
    let after = final(channel)@;
    let capacity = before.bytes.len() as int;
    lemma_make_room(before.messages, capacity, max_sz as int);
    assert(before.messages.skip(0) =~= before.messages);
    let rest = before.messages.skip(before.messages.len() - kept);
    if kept < MAX_PUBSUB_MESSAGES && max_sz <= free(regions(rest), capacity) {
        law_nothing_is_removed_without_need(before.messages, capacity, max_sz as int, kept);
    }
    if let Ok(grant) = res {
        final(channel).lemma_wf();
        lemma_grant_bounds(after);
        assert forall|i: int| 0 <= i < after.messages.len() implies disjoint(
            (#[trigger] after.messages[i]).region(),
            grant@,
        ) by {
            law_laid_out_disjoint(after.in_use(), capacity, i, after.messages.len() as int);
            assert(after.in_use()[i] == after.messages[i].region());
            assert(after.in_use()[after.messages.len() as int] == grant@);
        }
    }
}

/// A grant is given if and only if there is none already, there is room for
/// another message and the frame fits in the free space. It has the length that
/// was asked for, lies within the buffer and overlaps no frame. No message is
/// removed.
pub proof fn law_grant<B: BufferProvider, const SUBS: usize>(
    publisher: &mut FramePublisher,
    channel: &mut PubSubChannel<B, SUBS>,
    max_sz: usize,
    res: Result<FrameGrantW, Error>,
)
    requires
        call_ensures(FramePublisher::grant::<B, SUBS>, (publisher, channel, max_sz), res),
        old(channel)@.valid(),
    ensures
        ({
            let before = old(channel)@;
            let after = final(channel)@;
            &&& after == (ChannelView { grant: after.grant, ..before })
            &&& res is Ok <==> before.grant is None && max_sz <= before.free_space()
                && before.messages.len() < MAX_PUBSUB_MESSAGES
            &&& res is Err ==> after == before
            &&& res matches Ok(grant) ==> {
                &&& after.grant == Some(grant@)
                &&& grant@.len == max_sz
                &&& 0 <= grant@.start
                &&& grant@.end() <= before.bytes.len()
                &&& forall|i: int|
                    0 <= i < after.messages.len() ==> disjoint(
                        (#[trigger] after.messages[i]).region(),
                        grant@,
                    )
            }
        }),
{
    let after = final(channel)@;
    if let Ok(grant) = res {
        final(channel).lemma_wf();
        lemma_grant_bounds(after);
        assert forall|i: int| 0 <= i < after.messages.len() implies disjoint(
            (#[trigger] after.messages[i]).region(),
            grant@,
        ) by {
            law_laid_out_disjoint(
                after.in_use(),
                after.bytes.len() as int,
                i,
                after.messages.len() as int,
            );
            assert(after.in_use()[i] == after.messages[i].region());
            assert(after.in_use()[after.messages.len() as int] == grant@);
        }
    }
}

/// Committing a grant makes a message of the first bytes of it, at most as many
/// as were granted, that waits for every subscriber. All other messages stay
/// as they are. Without a subscriber the frame is gone.
pub proof fn law_commit<B: BufferProvider, const SUBS: usize>(
    grant: FrameGrantW,
    channel: &mut PubSubChannel<B, SUBS>,
    used: usize,
    wake: Wake,
)
    requires
        call_ensures(FrameGrantW::commit::<B, SUBS>, (grant, channel, used), wake),
        old(channel)@.valid(),
        old(channel)@.grant == Some(grant@),
        old(channel)@.next_id < u64::MAX,
        used <= u16::MAX,
    ensures
        ({
            let before = old(channel)@;
            let after = final(channel)@;
            let n = before.messages.len() as int;
            &&& after.grant is None
            &&& after.bytes == before.bytes
            &&& after.cursors == before.cursors
            &&& after.subscribers == before.subscribers
            &&& after.publisher_taken == before.publisher_taken
            &&& before.subscribers == 0 ==> after.messages == before.messages && after.next_id
                == before.next_id && !wake.subscribers
            &&& before.subscribers > 0 ==> {
                let frame = after.frame(n);
                &&& after.messages.len() == n + 1
                &&& after.messages.take(n) == before.messages
                &&& frame.len() == used || (used > grant@.len && frame.len() == grant@.len)
                &&& forall|i: int|
                    0 <= i < frame.len() ==> #[trigger] frame[i] == before.bytes[grant@.start + i]
                &&& after.messages[n].message_id == before.next_id
                &&& after.messages[n].subscriber_count == before.subscribers
                &&& after.messages[n].pid == grant.pid()
                &&& !after.messages[n].read_in_progress
                &&& after.next_id == before.next_id + 1
                &&& wake.subscribers
            }
        }),
{
    let before = old(channel)@;
    let after = final(channel)@;
    lemma_grant_bounds(before);
    if before.subscribers > 0 {
        assert(after.messages.take(before.messages.len() as int) =~= before.messages);
    }
}

/// Reading gives the frame of the message that the subscriber reads next, or of
/// the oldest one if that is gone, unless it is being read already. The message
/// then waits for one subscriber less, the subscriber reads the one behind it
/// next, and no other message and no byte changes.
pub proof fn law_read<B: BufferProvider, const SUBS: usize>(
    subscriber: &mut FrameSubscriber,
    channel: &mut PubSubChannel<B, SUBS>,
    res: Result<FrameGrantR, Error>,
    index: int,
)
    requires
        call_ensures(FrameSubscriber::read::<B, SUBS>, (subscriber, channel), res),
        old(channel)@.valid(),
        old(subscriber).of(old(channel)@),
        0 <= index < old(channel)@.messages.len(),
        old(channel)@.messages[index].message_id == old(subscriber).next_message_id() || (index == 0
            && old(subscriber).next_message_id() < old(channel)@.messages[0].message_id),
    ensures
        ({
            let before = old(channel)@;
            let after = final(channel)@;
            let id = before.messages[index].message_id;
            &&& res is Ok <==> !before.messages[index].read_in_progress
            &&& after.bytes == before.bytes
            &&& after.grant == before.grant
            &&& after.next_id == before.next_id
            &&& after.subscribers == before.subscribers
            &&& after.messages.len() == before.messages.len()
            &&& forall|i: int|
                0 <= i < before.messages.len() && i != index ==> #[trigger] after.messages[i]
                    == before.messages[i]
            &&& forall|s: int|
                s != old(subscriber).id() ==> (#[trigger] after.cursors.dom().contains(s)
                    <==> before.cursors.dom().contains(s)) && (before.cursors.dom().contains(s)
                    ==> after.cursors[s] == before.cursors[s])
            &&& res is Err ==> after.messages == before.messages
                && final(subscriber).next_message_id() == id
            &&& res matches Ok(grant) ==> {
                &&& before.bytes.subrange(grant@.start, grant@.end()) == before.frame(index)
                &&& grant.message_id() == id
                &&& grant.pid() == before.messages[index].pid
                &&& final(subscriber).next_message_id() == id + 1
                &&& after.messages[index].read_in_progress
                &&& after.messages[index].subscriber_count + 1
                    == before.messages[index].subscriber_count
                &&& after.messages[index].region() == before.messages[index].region()
                &&& after.messages[index].message_id == id
            }
        }),
{
    let before = old(channel)@;
    let view = before;
    let first = view.messages[0];
    assert(first.message_id == view.start_id());
    if res is Ok {
        lemma_waits_for(before, old(subscriber).id(), index);
    }
}

/// Without a message that it has yet to read a subscriber reads nothing, and the
/// channel stays as it is.
pub proof fn law_read_nothing<B: BufferProvider, const SUBS: usize>(
    subscriber: &mut FrameSubscriber,
    channel: &mut PubSubChannel<B, SUBS>,
    res: Result<FrameGrantR, Error>,
)
    requires
        call_ensures(FrameSubscriber::read::<B, SUBS>, (subscriber, channel), res),
        old(channel)@.valid(),
        old(subscriber).of(old(channel)@),
        old(subscriber).next_message_id() == old(channel)@.next_id,
    ensures
        res == Err::<FrameGrantR, Error>(Error::InsufficientSize),
        final(channel)@.messages == old(channel)@.messages,
        final(channel)@.bytes == old(channel)@.bytes,
        final(channel)@.grant == old(channel)@.grant,
        final(channel)@.next_id == old(channel)@.next_id,
        final(channel)@.subscribers == old(channel)@.subscribers,
        final(channel)@.cursors == old(channel)@.cursors,
        final(subscriber).next_message_id() == old(subscriber).next_message_id(),
{
    assert(final(channel)@.cursors =~= old(channel)@.cursors);
}

/// Releasing a frame ends the read of its message, and then removes messages
/// from the front, each of which has been read by every subscriber and is not
/// being read, up to the first that is needed. All other messages stay as they
/// are. The publisher is woken if and only if there is more space.
pub proof fn law_release<B: BufferProvider, const SUBS: usize>(
    grant: FrameGrantR,
    channel: &mut PubSubChannel<B, SUBS>,
    wake: Wake,
    index: int,
)
    requires
        call_ensures(FrameGrantR::release::<B, SUBS>, (grant, channel), wake),
        old(channel)@.valid(),
        0 <= index < old(channel)@.messages.len(),
        old(channel)@.messages[index].message_id == grant.message_id(),
    ensures
        ({
            let before = old(channel)@;
            let after = final(channel)@;
            let n = before.messages.len() as int;
            let removed = n - after.messages.len();
            let held = before.messages[index].read_in_progress;
            &&& after == (ChannelView { messages: after.messages, ..before })
            &&& !held ==> after == before && !wake.publisher && !wake.subscribers
            &&& held ==> {
                &&& 0 <= removed
                &&& wake.subscribers
                &&& wake.publisher <==> removed > 0
                &&& forall|i: int|
                    0 <= i < removed ==> (#[trigger] before.messages[i]).subscriber_count == 0 && (i
                        == index || !before.messages[i].read_in_progress)
                &&& after.messages.len() > 0 ==> after.messages[0].subscriber_count > 0
                    || after.messages[0].read_in_progress
                &&& forall|i: int|
                    removed <= i < n && i != index ==> after.messages[i - removed]
                        == #[trigger] before.messages[i]
                &&& removed <= index ==> {
                    let message = after.messages[index - removed];
                    &&& !message.read_in_progress
                    &&& message.region() == before.messages[index].region()
                    &&& message.message_id == before.messages[index].message_id
                    &&& message.subscriber_count == before.messages[index].subscriber_count
                    &&& message.pid == before.messages[index].pid
                }
            }
        }),
{
    let before = old(channel)@;
    let idle = put_back(before.messages, index);
    lemma_settled_idle(idle);
    let removed = before.messages.len() - settled_idle(idle).len();
    assert forall|i: int| 0 <= i < removed implies (
    #[trigger] before.messages[i]).subscriber_count == 0 && (i == index
        || !before.messages[i].read_in_progress) by {
        assert(is_idle(idle[i]));
    }
    assert forall|i: int| removed <= i < before.messages.len() && i != index implies settled_idle(
        idle,
    )[i - removed] == #[trigger] before.messages[i] by {
        assert(idle[i] == before.messages[i]);
    }
}

/// Releasing a frame whose message is gone changes nothing.
pub proof fn law_release_of_nothing<B: BufferProvider, const SUBS: usize>(
    grant: FrameGrantR,
    channel: &mut PubSubChannel<B, SUBS>,
    wake: Wake,
)
    requires
        call_ensures(FrameGrantR::release::<B, SUBS>, (grant, channel), wake),
        old(channel)@.valid(),
        forall|i: int|
            0 <= i < old(channel)@.messages.len() ==> (#[trigger] old(
                channel,
            )@.messages[i]).message_id != grant.message_id(),
    ensures
        final(channel)@ == old(channel)@,
        !wake.publisher,
        !wake.subscribers,
{
    let view = old(channel)@;
    let at = grant.message_id() - view.start_id();
    if 0 <= at < view.messages.len() {
        assert(view.messages[at].message_id == grant.message_id());
    }
}

/// A read grant that ends is released if and only if it was told to be.
pub proof fn law_read_grant_ends<B: BufferProvider, const SUBS: usize>(
    given: &mut FrameGrantR,
    is_auto: bool,
    channel: &mut PubSubChannel<B, SUBS>,
    wake: Wake,
)
    requires
        call_ensures(FrameGrantR::auto_release, (given, is_auto), ()),
    ensures
        final(given)@ == old(given)@,
        final(given).message_id() == old(given).message_id(),
        final(given).pid() == old(given).pid(),
        call_ensures(FrameGrantR::finish::<B, SUBS>, (*final(given), channel), wake) ==> {
            let view = old(channel)@;
            let index = old(given).message_id() - view.start_id();
            &&& !is_auto ==> final(channel)@ == view && !wake.publisher && !wake.subscribers
            &&& is_auto && 0 <= index < view.messages.len() && view.messages[index].read_in_progress
                ==> final(channel)@.messages == released(view.messages, index) && wake.subscribers
        },
{
}

proof fn lemma_settled(messages: Seq<Header>)
    ensures
        settled(messages).len() <= messages.len(),
        settled(messages) == messages.skip(messages.len() - settled(messages).len()),
        forall|i: int|
            0 <= i < messages.len() - settled(messages).len() ==> (
            #[trigger] messages[i]).subscriber_count == 0,
        settled(messages).len() > 0 ==> settled(messages)[0].subscriber_count > 0,
    decreases messages.len(),
{
    if messages.len() > 0 && messages[0].subscriber_count == 0 {
        let tail = messages.skip(1);
        lemma_settled(tail);
        let rest = settled(tail);
        assert(tail.skip(tail.len() - rest.len()) =~= messages.skip(messages.len() - rest.len()));
        assert forall|i: int| 0 <= i < messages.len() - rest.len() implies (
        #[trigger] messages[i]).subscriber_count == 0 by {
            if i > 0 {
                assert(messages[i] == tail[i - 1]);
            }
        }
    } else {
        assert(messages.skip(0) =~= messages);
    }
}

/// When a subscriber leaves, each message that it has yet to read waits for one
/// subscriber less, and messages at the front that then wait for none are
/// removed. Nothing else of a message changes. If messages were removed before
/// it has read them, all of them stay as they are.
pub proof fn law_subscriber_leaves<B: BufferProvider, const SUBS: usize>(
    subscriber: FrameSubscriber,
    channel: &mut PubSubChannel<B, SUBS>,
    wake: Wake,
    i: int,
)
    requires
        call_ensures(FrameSubscriber::close::<B, SUBS>, (subscriber, channel), wake),
        old(channel)@.valid(),
        subscriber.of(old(channel)@),
        0 <= i < old(channel)@.messages.len(),
    ensures
        ({
            let before = old(channel)@;
            let after = final(channel)@;
            let n = before.messages.len() as int;
            let removed = n - after.messages.len();
            let next = subscriber.next_message_id();
            let message = before.messages[i];
            let waits = message.subscriber_count - if before.messages[0].message_id <= next && next
                <= message.message_id {
                1int
            } else {
                0
            };
            &&& after.subscribers + 1 == before.subscribers
            &&& !after.cursors.dom().contains(subscriber.id())
            &&& forall|s: int|
                s != subscriber.id() ==> (#[trigger] after.cursors.dom().contains(s)
                    <==> before.cursors.dom().contains(s))
            &&& after.bytes == before.bytes
            &&& after.grant == before.grant
            &&& after.next_id == before.next_id
            &&& after.publisher_taken == before.publisher_taken
            &&& 0 <= removed
            &&& wake.publisher <==> removed > 0
            &&& !wake.subscribers
            &&& waits >= 0
            &&& i < removed ==> waits == 0
            &&& removed <= i ==> {
                let left = after.messages[i - removed];
                &&& left.subscriber_count == waits
                &&& left.region() == message.region()
                &&& left.message_id == message.message_id
                &&& left.read_in_progress == message.read_in_progress
                &&& left.pid == message.pid
            }
            &&& before.messages[0].message_id > next ==> removed == 0
            &&& before.messages[0].message_id <= next && after.messages.len() > 0
                ==> after.messages[0].subscriber_count > 0
        }),
{
    let before = old(channel)@;
    let next = subscriber.next_message_id();
    assert(before.messages[0].message_id == before.start_id());
    lemma_subscriber_counted(before, subscriber.id());
    if before.start_id() <= next {
        let less = discounted(before.messages, next - before.start_id());
        lemma_settled(less);
        if next <= before.messages[i].message_id {
            lemma_waits_for(before, subscriber.id(), i);
        }
        let removed = before.messages.len() - settled(less).len();
        if removed <= i {
            assert(settled(less)[i - removed] == less[i]);
        } else {
            assert(less[i].subscriber_count == 0);
        }
    }
}

/// A new subscriber reads the messages that are published from then on. There
/// is one if and only if there are fewer than the channel has room for.
pub proof fn law_new_subscriber<B: BufferProvider, const SUBS: usize>(
    channel: &mut PubSubChannel<B, SUBS>,
    res: Result<FrameSubscriber, Error>,
    other: int,
)
    requires
        SUBS <= u8::MAX,
        call_ensures(PubSubChannel::<B, SUBS>::subscriber, (channel,), res),
        old(channel)@.valid(),
        old(channel)@.cursors.dom().contains(other),
    ensures
        ({
            let before = old(channel)@;
            let after = final(channel)@;
            &&& res is Ok <==> before.subscribers < SUBS
            &&& res matches Err(e) ==> e == Error::MaximumSubscribersReached && after == before
            &&& after.messages == before.messages
            &&& after.bytes == before.bytes
            &&& after.grant == before.grant
            &&& after.next_id == before.next_id
            &&& after.publisher_taken == before.publisher_taken
            &&& after.cursors.dom().contains(other)
            &&& after.cursors[other] == before.cursors[other]
            &&& res matches Ok(subscriber) ==> {
                &&& subscriber.of(after)
                &&& subscriber.id() != other
                &&& subscriber.next_message_id() == before.next_id
                &&& after.subscribers == before.subscribers + 1
            }
        }),
{
}

/// There is at most one publisher, and another one only after that is closed.
/// The bytes are zero when it starts.
pub proof fn law_one_publisher<B: BufferProvider, const SUBS: usize>(
    channel: &mut PubSubChannel<B, SUBS>,
    res: Result<FramePublisher, Error>,
    publisher: FramePublisher,
    other: &mut PubSubChannel<B, SUBS>,
    i: int,
)
    requires
        call_ensures(PubSubChannel::<B, SUBS>::publisher, (channel,), res),
        call_ensures(FramePublisher::close::<B, SUBS>, (publisher, other), ()),
        0 <= i < old(channel)@.bytes.len(),
    ensures
        ({
            let before = old(channel)@;
            let after = final(channel)@;
            &&& res is Ok <==> !before.publisher_taken
            &&& res matches Err(e) ==> e == Error::PublisherAlreadyTaken && after == before
            &&& after.publisher_taken
            &&& res is Ok ==> after.bytes.len() == before.bytes.len() && after.bytes[i] == 0
            &&& after.messages == before.messages
            &&& after.grant == before.grant
            &&& after.next_id == before.next_id
            &&& after.subscribers == before.subscribers
            &&& after.cursors == before.cursors
        }),
        !final(other)@.publisher_taken,
        final(other)@ == (ChannelView { publisher_taken: false, ..old(other)@ }),
{
}

/// A new channel has a buffer and nothing else, and a channel that is cleared
/// has no messages but is otherwise as it was.
pub proof fn law_new_and_cleared_channels<B: BufferProvider, const SUBS: usize>(
    buf: B,
    fresh: PubSubChannel<B, SUBS>,
    channel: &mut PubSubChannel<B, SUBS>,
)
    requires
        call_ensures(PubSubChannel::<B, SUBS>::new, (buf,), fresh),
        call_ensures(PubSubChannel::<B, SUBS>::clear, (channel,), ()),
    ensures
        fresh@.messages.len() == 0,
        fresh@.bytes == buf.bytes(),
        fresh@.grant is None,
        fresh@.next_id == 0,
        fresh@.subscribers == 0,
        !fresh@.publisher_taken,
        fresh@.free_space() == buf.bytes().len(),
        final(channel)@.messages.len() == 0,
        final(channel)@.bytes == old(channel)@.bytes,
        final(channel)@.grant == old(channel)@.grant,
        final(channel)@.next_id == old(channel)@.next_id,
        final(channel)@.subscribers == old(channel)@.subscribers,
        final(channel)@.cursors == old(channel)@.cursors,
        final(channel)@.publisher_taken == old(channel)@.publisher_taken,
{
}

/// A channel is empty if and only if it holds no message, and is full if and
/// only if no message or not a single byte can be added. The publisher tells
/// the same.
pub proof fn law_how_full_a_channel_is<B: BufferProvider, const SUBS: usize>(
    channel: &PubSubChannel<B, SUBS>,
    publisher: &FramePublisher,
    len: usize,
    empty: bool,
    full: bool,
    space: usize,
    told: (usize, bool, bool, usize),
    count: u8,
)
    requires
        channel.wf(),
        call_ensures(PubSubChannel::<B, SUBS>::len, (channel,), len),
        call_ensures(PubSubChannel::<B, SUBS>::is_empty, (channel,), empty),
        call_ensures(PubSubChannel::<B, SUBS>::is_full, (channel,), full),
        call_ensures(PubSubChannel::<B, SUBS>::free_space, (channel,), space),
        call_ensures(PubSubChannel::<B, SUBS>::subscribers, (channel,), count),
        call_ensures(FramePublisher::len::<B, SUBS>, (publisher, channel), told.0),
        call_ensures(FramePublisher::is_empty::<B, SUBS>, (publisher, channel), told.1),
        call_ensures(FramePublisher::is_full::<B, SUBS>, (publisher, channel), told.2),
        call_ensures(FramePublisher::free_space::<B, SUBS>, (publisher, channel), told.3),
    ensures
        len == channel@.messages.len(),
        empty <==> len == 0,
        full <==> len == MAX_PUBSUB_MESSAGES || space == 0,
        empty ==> space == channel@.bytes.len(),
        told == (len, empty, full, space),
        count == channel@.cursors.dom().len(),
{
    channel.lemma_wf();
}

/// A write grant that ends commits what it was told to, cut off at what was
/// granted. If it was told nothing, the grant is gone and no message is added.
pub proof fn law_write_grant_ends<B: BufferProvider, const SUBS: usize>(
    given: &mut FrameGrantW,
    amt: usize,
    channel: &mut PubSubChannel<B, SUBS>,
    wake: Wake,
)
    requires
        old(given)@.len >= 0,
        call_ensures(FrameGrantW::to_commit, (given, amt), ()),
        old(channel)@.grant == Some(old(given)@),
    ensures
        final(given)@ == old(given)@,
        final(given).pid() == old(given).pid(),
        call_ensures(FrameGrantW::finish::<B, SUBS>, (*final(given), channel), wake) ==> {
            let before = old(channel)@;
            let after = final(channel)@;
            let used = if amt <= old(given)@.len {
                amt as int
            } else {
                old(given)@.len
            };
            &&& after.grant is None
            &&& after.bytes == before.bytes
            &&& used == 0 || before.subscribers == 0 ==> after.messages == before.messages
                && !wake.subscribers
            &&& 0 < used <= u16::MAX && before.subscribers > 0 ==> {
                &&& wake.subscribers
                &&& after.messages.len() == before.messages.len() + 1
                &&& after.messages.drop_last() == before.messages
                &&& after.messages.last().start as int == old(given)@.start as usize
                &&& after.messages.last().len == used
                &&& after.messages.last().pid == old(given).pid()
            }
        },
{
    if call_ensures(FrameGrantW::finish::<B, SUBS>, (*final(given), channel), wake) {
        let before = old(channel)@;
        let after = final(channel)@;
        if after.messages.len() == before.messages.len() + 1 {
            assert(after.messages.drop_last() =~= before.messages);
        }
    }
}

/// What is written through a grant goes where the grant lies, and every other
/// byte of the channel is as it was.
pub proof fn law_writing_goes_into_the_grant<'c, B: BufferProvider, const SUBS: usize>(
    grant: &mut FrameGrantW,
    channel: &'c mut PubSubChannel<B, SUBS>,
    buf: &'c mut [u8],
    i: int,
)
    requires
        old(channel)@.valid(),
        old(channel)@.grant == Some(old(grant)@),
        call_ensures(FrameGrantW::buf::<B, SUBS>, (grant, channel), buf),
        0 <= i < old(channel)@.bytes.len(),
    ensures
        old(buf)@.len() == old(grant)@.len,
        final(grant)@ == old(grant)@,
        old(grant)@.start <= i < old(grant)@.end() ==> old(buf)@[i - old(grant)@.start] == old(
            channel,
        )@.bytes[i],
        final(buf)@.len() == old(buf)@.len() ==> {
            let region = old(grant)@;
            let before = old(channel)@;
            let after = final(channel)@;
            &&& after == (ChannelView { bytes: after.bytes, ..before })
            &&& after.bytes.len() == before.bytes.len()
            &&& after.bytes[i] == if region.start <= i < region.end() {
                final(buf)@[i - region.start]
            } else {
                before.bytes[i]
            }
        },
{
    lemma_grant_bounds(old(channel)@);
}

/// Setting the packet identifier of a grant changes nothing else of it.
pub proof fn law_set_pid(grant: &mut FrameGrantW, pid: u16)
    requires
        call_ensures(FrameGrantW::set_pid, (grant, pid), ()),
    ensures
        final(grant).pid() == pid,
        final(grant)@ == old(grant)@,
        final(grant).auto_commit() == old(grant).auto_commit(),
{
}

/// What is read through a grant is what lies where the grant does, and reading it
/// changes nothing. What is written through it goes there, too, and every other
/// byte of the channel is as it was.
pub proof fn law_reading_gives_what_was_granted<'c, B: BufferProvider, const SUBS: usize>(
    grant: &FrameGrantR,
    channel: &'c mut PubSubChannel<B, SUBS>,
    buf: &'c [u8],
    given: &mut FrameGrantR,
    other: &'c mut PubSubChannel<B, SUBS>,
    part: &'c mut [u8],
    i: int,
)
    requires
        0 <= grant@.start,
        0 <= grant@.len,
        grant@.end() <= old(channel)@.bytes.len(),
        call_ensures(FrameGrantR::buf::<B, SUBS>, (grant, channel), buf),
        0 <= old(given)@.start,
        0 <= old(given)@.len,
        old(given)@.end() <= old(other)@.bytes.len(),
        call_ensures(FrameGrantR::buf_mut::<B, SUBS>, (given, other), part),
        0 <= i < old(other)@.bytes.len(),
    ensures
        buf@.len() == grant@.len,
        forall|k: int|
            0 <= k < grant@.len ==> #[trigger] buf@[k] == old(channel)@.bytes[grant@.start + k],
        final(channel)@ == old(channel)@,
        final(given)@ == old(given)@,
        old(part)@.len() == old(given)@.len,
        old(given)@.start <= i < old(given)@.end() ==> old(part)@[i - old(given)@.start] == old(
            other,
        )@.bytes[i],
        final(part)@.len() == old(part)@.len() ==> {
            let region = old(given)@;
            let before = old(other)@;
            let after = final(other)@;
            &&& after == (ChannelView { bytes: after.bytes, ..before })
            &&& after.bytes.len() == before.bytes.len()
            &&& after.bytes[i] == if region.start <= i < region.end() {
                final(part)@[i - region.start]
            } else {
                before.bytes[i]
            }
        },
{
}

} // verus!
