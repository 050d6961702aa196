use vstd::prelude::*;

use super::buffer_provider::{BufferProvider, SliceBufferProvider};
use super::layout::{
    free, inverted, laid_out, law_laid_out_disjoint, lemma_laid_out_bounds,
    lemma_laid_out_drop_last, lemma_laid_out_empty, lemma_laid_out_pop_front, lemma_laid_out_push,
    lemma_laid_out_shrink_last, place, Region,
};
use super::queue::{Header, MessageQueue};
use super::Error;
use crate::crate_config::MAX_PUBSUB_MESSAGES;

verus! {


/// What a channel holds.
#[verifier::ext_equal]
pub ghost struct ChannelView {
    /// The headers of the messages, the oldest one first.
    pub messages: Seq<Header>,
    /// The buffer.
    pub bytes: Seq<u8>,
    /// The part of the buffer that is granted for writing.
    pub grant: Option<Region>,
    /// The number of the next message.
    pub next_id: u64,
    /// The number of subscribers.
    pub subscribers: u8,
    /// Whether there is a publisher.
    pub publisher_taken: bool,
    /// For each subscriber the number of the message that it reads next.
    pub cursors: Map<int, u64>,
    /// No subscriber is known by this number or a larger one.
    pub fresh: int,
}

/// The parts of the buffer that hold the frames of messages.
pub open spec fn regions(messages: Seq<Header>) -> Seq<Region> {
    messages.map_values(|header: Header| header.region())
}

/// The subscribers that have yet to read the message with number `id`.
pub open spec fn unread(cursors: Map<int, u64>, id: u64) -> Set<int> {
    cursors.dom().filter(|subscriber: int| cursors[subscriber] <= id)
}

impl ChannelView {
    /// The parts of the buffer that are in use: the frames, and behind them
    /// what is granted for writing.
    pub open spec fn in_use(self) -> Seq<Region> {
        match self.grant {
            Some(region) => regions(self.messages).push(region),
            None => regions(self.messages),
        }
    }

    /// The frame of the message at `index`.
    pub open spec fn frame(self, index: int) -> Seq<u8> {
        self.bytes.subrange(
            self.messages[index].start as int,
            self.messages[index].start + self.messages[index].len,
        )
    }

    /// The number of the oldest message.
    pub open spec fn start_id(self) -> int {
        self.next_id - self.messages.len()
    }

    /// The length of the longest frame that can be granted.
    pub open spec fn free_space(self) -> int {
        free(regions(self.messages), self.bytes.len() as int)
    }

    /// What always holds of a channel: the frames and what is granted for
    /// writing do not overlap, messages are numbered one after the other, and
    /// every message waits for at least those subscribers that have yet to
    /// read it.
    pub open spec fn valid(self) -> bool {
        &&& self.bytes.len() <= usize::MAX
        &&& self.messages.len() <= MAX_PUBSUB_MESSAGES
        &&& self.grant is Some ==> self.messages.len() < MAX_PUBSUB_MESSAGES
        &&& laid_out(self.in_use(), self.bytes.len() as int)
        &&& 0 <= self.start_id()
        &&& forall|i: int|
            0 <= i < self.messages.len() ==> (#[trigger] self.messages[i]).message_id
                == self.start_id() + i
        &&& self.cursors.dom().finite()
        &&& self.cursors.dom().len() == self.subscribers
        &&& forall|s: int| #[trigger]
            self.cursors.dom().contains(s) ==> self.cursors[s] <= self.next_id && s < self.fresh
        &&& forall|i: int|
            0 <= i < self.messages.len() ==> (#[trigger] self.messages[i]).subscriber_count
                >= unread(self.cursors, self.messages[i].message_id).len()
    }
}

/// The frames of a valid channel lie within its buffer.
pub proof fn lemma_frame_bounds(view: ChannelView, i: int)
    requires
        view.valid(),
        0 <= i < view.messages.len(),
    ensures
        view.messages[i].start + view.messages[i].len <= view.bytes.len(),
{
    lemma_laid_out_bounds(view.in_use(), view.bytes.len() as int, i);
    assert(view.in_use()[i] == view.messages[i].region());
}

/// What is granted for writing lies within the buffer.
pub proof fn lemma_grant_bounds(view: ChannelView)
    requires
        view.valid(),
        view.grant is Some,
    ensures
        0 <= view.grant->0.start,
        0 <= view.grant->0.len,
        view.grant->0.end() <= view.bytes.len(),
{
    lemma_laid_out_bounds(
        view.in_use(),
        view.bytes.len() as int,
        view.messages.len() as int,
    );
}

/// The messages alone are laid out.
pub proof fn lemma_messages_laid_out(view: ChannelView)
    requires
        view.valid(),
    ensures
        laid_out(regions(view.messages), view.bytes.len() as int),
{
    if view.grant is Some {
        lemma_laid_out_drop_last(view.in_use(), view.bytes.len() as int);
        assert(view.in_use().drop_last() =~= regions(view.messages));
    }
}

/// Removing the oldest message keeps a channel valid.
pub proof fn lemma_valid_pop_front(view: ChannelView)
    requires
        view.valid(),
        view.messages.len() > 0,
    ensures
        (ChannelView { messages: view.messages.skip(1), ..view }).valid(),
{
    let popped = ChannelView { messages: view.messages.skip(1), ..view };
    lemma_laid_out_pop_front(view.in_use(), view.bytes.len() as int);
    assert(view.in_use().skip(1) =~= popped.in_use());
}

/// Removing all messages keeps a channel valid.
pub proof fn lemma_valid_clear(view: ChannelView)
    requires
        view.valid(),
    ensures
        (ChannelView { messages: Seq::empty(), ..view }).valid(),
    decreases view.messages.len(),
{
    if view.messages.len() == 0 {
        assert(view.messages =~= Seq::empty());
    } else {
        lemma_valid_pop_front(view);
        lemma_valid_clear(ChannelView { messages: view.messages.skip(1), ..view });
    }
}

/// Internal state of the pubsub channel.
struct State {
    capacity: usize,
    messages: MessageQueue,
    write_in_progress: bool,
    next_message_id: u64,
    subscriber_count: u8,
    publisher_taken: bool,
    granted: Ghost<Region>,
    cursors: Ghost<Map<int, u64>>,
    fresh: Ghost<int>,
}

impl State {
    /// Clears all messages in the channel.
    fn clear(&mut self)
        ensures
            *final(self) == (State { messages: final(self).messages, ..*old(self) }),
            final(self).messages@ == Seq::<Header>::empty(),
    {
        self.messages.clear();
    }

    /// Returns the number of messages currently in the channel.
    fn len(&self) -> (len: usize)
        ensures
            len == self.messages@.len(),
    {
        self.messages.len()
    }

    /// Returns whether the channel is empty.
    fn is_empty(&self) -> (empty: bool)
        ensures
            empty == (self.messages@.len() == 0),
    {
        self.messages.len() == 0
    }

    /// Returns whether the channel is full.
    fn is_full(&self) -> (full: bool)
        requires
            laid_out(regions(self.messages@), self.capacity as int),
        ensures
            full == (self.messages@.len() == MAX_PUBSUB_MESSAGES || free(
                regions(self.messages@),
                self.capacity as int,
            ) == 0),
    {
        self.messages.is_full() || self.free_space() == 0
    }

    /// Returns whether the last frame lies in front of the first one.
    fn inverted(&self, front: Header, back: Header) -> (res: bool)
        requires
            laid_out(regions(self.messages@), self.capacity as int),
            self.messages@.len() > 0,
            front == self.messages@[0],
            back == self.messages@.last(),
        ensures
            res == inverted(regions(self.messages@)),
    {
        let ghost frames = regions(self.messages@);
        proof {
            lemma_laid_out_bounds(frames, self.capacity as int, frames.len() - 1);
            assert(frames.last() == back.region());
            assert(frames[0] == front.region());
        }
        let back_end: usize = back.start + back.len as usize;
        if back_end < front.start {
            return true;
        }
        if back_end > front.start {
            return false;
        }
        let len: usize = self.messages.len();
        let mut i: usize = 0;
        while i < len
            invariant
                i <= len,
                len == self.messages@.len(),
                frames == regions(self.messages@),
                frames.last().end() == frames[0].start,
                len > 0,
                forall|j: int| 0 <= j < i ==> (#[trigger] frames[j]).len == 0,
            decreases len - i,
        {
            if let Some(header) = self.messages.get(i) {
                assert(frames[i as int] == header.region());
                if header.len > 0 {
                    return true;
                }
            }
            i = i + 1;
        }
        false
    }

    /// Returns the amount of free space available in the channel in bytes.
    fn free_space(&self) -> (space: usize)
        requires
            laid_out(regions(self.messages@), self.capacity as int),
        ensures
            space == free(regions(self.messages@), self.capacity as int),
    {
        let ghost frames = regions(self.messages@);
        match (self.messages.front(), self.messages.back()) {
            (Some(front), Some(back)) => {
                proof {
                    lemma_laid_out_bounds(frames, self.capacity as int, frames.len() - 1);
                    lemma_laid_out_bounds(frames, self.capacity as int, 0);
                    assert(frames.last() == back.region());
                    assert(frames[0] == front.region());
                }
                let back_end: usize = back.start + back.len as usize;
                if self.inverted(*front, *back) {
                    front.start - back_end
                } else if front.start > self.capacity - back_end {
                    front.start
                } else {
                    self.capacity - back_end
                }
            },
            // Empty channel means we have the full capacity available
            _ => self.capacity,
        }
    }
}

/// Publish/Subscribe channel for internal MQTT client usage.
///
/// This struct manages the pubsub queue and provides methods for creating publishers and subscribers.
pub struct PubSubChannel<B: BufferProvider, const SUBS: usize> {
    buf: B,
    inner: State,
}

impl<B: BufferProvider, const SUBS: usize> View for PubSubChannel<B, SUBS> {
    type V = ChannelView;

    closed spec fn view(&self) -> ChannelView {
        ChannelView {
            messages: self.inner.messages@,
            bytes: self.buf.bytes(),
            grant: if self.inner.write_in_progress {
                Some(self.inner.granted@)
            } else {
                None
            },
            next_id: self.inner.next_message_id,
            subscribers: self.inner.subscriber_count,
            publisher_taken: self.inner.publisher_taken,
            cursors: self.inner.cursors@,
            fresh: self.inner.fresh@,
        }
    }
}

/// Which of those that wait for a channel to change have to be woken.
#[derive(Debug, Clone, Copy, PartialEq, Eq, Structural)]
pub struct Wake {
    /// Wake the publisher.
    pub publisher: bool,
    /// Wake the subscribers.
    pub subscribers: bool,
}

impl<B: BufferProvider, const SUBS: usize> PubSubChannel<B, SUBS> {
    closed spec fn sized(&self) -> bool {
        self.inner.capacity == self.buf.bytes().len()
    }

    /// Whether the channel is well formed.
    pub closed spec fn wf(&self) -> bool {
        self.sized() && self@.valid()
    }

    /// A well formed channel is valid.
    pub proof fn lemma_wf(&self)
        requires
            self.wf(),
        ensures
            self@.valid(),
    {
    }

    /// Creates a new `PubSubChannel`.
    ///
    /// # Parameters
    ///
    /// - `buf`: The buffer provider for the channel.
    ///
    /// # Returns
    ///
    /// A new instance of `PubSubChannel`.
    pub fn new(buf: B) -> (channel: Self)
        ensures
            channel.wf(),
            channel@ == (ChannelView {
                messages: Seq::empty(),
                bytes: buf.bytes(),
                grant: None,
                next_id: 0,
                subscribers: 0,
                publisher_taken: false,
                cursors: Map::empty(),
                fresh: 0,
            }),
    {
        let mut buf = buf;
        let ghost bytes = buf.bytes();
        let capacity: usize = buf.buf().len();
        let channel = PubSubChannel {
            buf,
            inner: State {
                capacity,
                messages: MessageQueue::new(),
                write_in_progress: false,
                publisher_taken: false,
                subscriber_count: 0,
                next_message_id: 0,
                granted: Ghost(Region { start: 0, len: 0 }),
                cursors: Ghost(Map::empty()),
                fresh: Ghost(0),
            },
        };
        proof {
            lemma_laid_out_empty(capacity as int);
            assert(regions(channel@.messages) =~= Seq::empty());
            assert(channel@.cursors.dom() =~= Set::empty());
        }
        channel
    }

    /// Creates a new `FrameSubscriber`. It will only receive messages that are published after its creation.
    ///
    /// If there are no subscriber slots left, an error will be returned.
    ///
    /// # Returns
    ///
    /// `Ok(FrameSubscriber)` if a subscriber was successfully created, otherwise an `Error`.
    pub fn subscriber(&mut self) -> (res: Result<FrameSubscriber, Error>)
        requires
            old(self).wf(),
        ensures
            final(self).wf(),
            match res {
                Ok(subscriber) => {
                    &&& old(self)@.subscribers < SUBS as u8
                    &&& subscriber.id() == old(self)@.fresh
                    &&& subscriber.next_message_id() == old(self)@.next_id
                    &&& final(self)@ == (ChannelView {
                        subscribers: (old(self)@.subscribers + 1) as u8,
                        cursors: old(self)@.cursors.insert(old(self)@.fresh, old(self)@.next_id),
                        fresh: old(self)@.fresh + 1,
                        ..old(self)@
                    })
                },
                Err(error) => {
                    &&& old(self)@.subscribers >= SUBS as u8
                    &&& error == Error::MaximumSubscribersReached
                    &&& final(self)@ == old(self)@
                },
            },
    {
        if self.inner.subscriber_count >= SUBS as u8 {
            return Err(Error::MaximumSubscribersReached);
        }
        let ghost before = self@;
        self.inner.subscriber_count = self.inner.subscriber_count + 1;
        self.inner.cursors = Ghost(
            self.inner.cursors@.insert(self.inner.fresh@, self.inner.next_message_id),
        );
        let subscriber = FrameSubscriber::new(self.inner.next_message_id, self.inner.fresh);
        self.inner.fresh = Ghost(self.inner.fresh@ + 1);
        proof {
            assert(self@.cursors.dom() =~= before.cursors.dom().insert(before.fresh));
            assert forall|i: int| 0 <= i < self@.messages.len() implies (
            #[trigger] self@.messages[i]).subscriber_count >= unread(
                self@.cursors,
                self@.messages[i].message_id,
            ).len() by {
                let id = self@.messages[i].message_id;
                assert(unread(self@.cursors, id) =~= unread(before.cursors, id));
            }
        }
        Ok(subscriber)
    }

    /// Creates a new `FramePublisher`, and fills the buffer with zeros.
    ///
    /// If the publisher has already been taken, an error will be returned.
    ///
    /// # Returns
    ///
    /// `Ok(FramePublisher)` if a publisher was successfully created, otherwise an `Error`.
    pub fn publisher(&mut self) -> (res: Result<FramePublisher, Error>)
        requires
            old(self).wf(),
        ensures
            final(self).wf(),
            match res {
                Ok(_) => {
                    &&& !old(self)@.publisher_taken
                    &&& final(self)@ == (ChannelView {
                        publisher_taken: true,
                        bytes: Seq::new(old(self)@.bytes.len(), |i: int| 0u8),
                        ..old(self)@
                    })
                },
                Err(error) => {
                    &&& old(self)@.publisher_taken
                    &&& error == Error::PublisherAlreadyTaken
                    &&& final(self)@ == old(self)@
                },
            },
    {
        if self.inner.publisher_taken {
            return Err(Error::PublisherAlreadyTaken);
        }
        self.inner.publisher_taken = true;
        let buf: &mut [u8] = self.buf.buf();
        let len: usize = buf.len();
        let mut i: usize = 0;
        while i < len
            invariant
                i <= len,
                len == buf@.len(),
                forall|j: int| 0 <= j < i ==> buf@[j] == 0,
            decreases len - i,
        {
            buf[i] = 0;
            i = i + 1;
        }
        proof {
            assert(self@.bytes =~= Seq::new(len as nat, |i: int| 0u8));
        }
        Ok(FramePublisher::new())
    }

    /// Returns the number of active subscribers.
    pub fn subscribers(&self) -> (count: u8)
        ensures
            count == self@.subscribers,
    {
        self.inner.subscriber_count
    }

    /// Clears all messages in the channel.
    pub fn clear(&mut self)
        requires
            old(self).wf(),
        ensures
            final(self).wf(),
            final(self)@ == (ChannelView { messages: Seq::empty(), ..old(self)@ }),
    {
        proof {
            lemma_valid_clear(self@);
        }
        self.inner.clear();
    }

    /// Returns the number of messages currently in the channel.
    pub fn len(&self) -> (len: usize)
        ensures
            len == self@.messages.len(),
    {
        self.inner.len()
    }

    /// Returns whether the channel is empty.
    pub fn is_empty(&self) -> (empty: bool)
        ensures
            empty == (self@.messages.len() == 0),
    {
        self.inner.is_empty()
    }

    /// Returns whether the channel is full.
    pub fn is_full(&self) -> (full: bool)
        requires
            self.wf(),
        ensures
            full == (self@.messages.len() == MAX_PUBSUB_MESSAGES || self@.free_space() == 0),
    {
        proof {
            lemma_messages_laid_out(self@);
        }
        self.inner.is_full()
    }

    /// Returns the amount of free space available in the channel in bytes.
    pub fn free_space(&self) -> (space: usize)
        requires
            self.wf(),
        ensures
            space == self@.free_space(),
    {
        proof {
            lemma_messages_laid_out(self@);
        }
        self.inner.free_space()
    }
}

impl<'a, const SUBS: usize> PubSubChannel<SliceBufferProvider<'a>, SUBS> {
    /// Creates a new `PubSubChannel` from a slice.
    ///
    /// # Parameters
    ///
    /// - `buf`: The buffer slice.
    ///
    /// # Returns
    ///
    /// A new instance of `PubSubChannel`.
    pub fn new_from_slice(buf: &'a mut [u8]) -> (channel: Self)
        ensures
            channel.wf(),
            channel@ == (ChannelView {
                messages: Seq::empty(),
                bytes: old(buf)@,
                grant: None,
                next_id: 0,
                subscribers: 0,
                publisher_taken: false,
                cursors: Map::empty(),
                fresh: 0,
            }),
    {
        PubSubChannel::new(SliceBufferProvider::new(buf))
    }
}



/// What is left of `messages` once the oldest ones are removed until a frame of
/// `len` bytes fits.
pub open spec fn make_room(messages: Seq<Header>, capacity: int, len: int) -> Seq<Header>
    decreases messages.len(),
{
    if messages.len() > 0 && (free(regions(messages), capacity) < len || messages.len()
        >= MAX_PUBSUB_MESSAGES) {
        make_room(messages.skip(1), capacity, len)
    } else {
        messages
    }
}

/// `bytes` with `part` written over what it holds from `start` on.
pub open spec fn splice(bytes: Seq<u8>, start: int, part: Seq<u8>) -> Seq<u8> {
    bytes.take(start) + part + bytes.skip(start + part.len())
}

/// Provides a publishing interface for writing data frames into a shared
/// `PubSubChannel`.
///
/// This struct allows for reserving contiguous regions of memory within the channel's
/// buffer, writing data into them, and then committing the data to be read
/// by subscribers.
pub struct FramePublisher {
    taken: (),
}

impl FramePublisher {
    fn new() -> Self {
        FramePublisher { taken: () }
    }

    /// Attempts to immediately grant a region of memory for writing a frame.
    ///
    /// This function tries to reserve a contiguous region of memory within the
    /// internal buffer, large enough to hold a frame of at most `max_sz` bytes.
    ///
    /// # Returns
    ///
    /// * `Ok(FrameGrantW)` if a grant is successfully obtained.
    /// * `Err(Error::GrantInProgress)` if another write operation is currently
    ///   in progress.
    /// * `Err(Error::InsufficientSize)` if there is not enough contiguous
    ///   space available in the buffer to fulfill the request.
    pub fn grant<B: BufferProvider, const SUBS: usize>(
        &mut self,
        channel: &mut PubSubChannel<B, SUBS>,
        max_sz: usize,
    ) -> (res: Result<FrameGrantW, Error>)
        requires
            old(channel).wf(),
        ensures
            *final(self) == *old(self),
            final(channel).wf(),
            match res {
                Ok(grant) => {
                    &&& old(channel)@.grant is None
                    &&& max_sz <= old(channel)@.free_space()
                    &&& old(channel)@.messages.len() < MAX_PUBSUB_MESSAGES
                    &&& grant@ == (Region {
                        start: place(
                            regions(old(channel)@.messages),
                            old(channel)@.bytes.len() as int,
                            max_sz as int,
                        ),
                        len: max_sz as int,
                    })
                    &&& grant.auto_commit() == 0
                    &&& grant.pid() == 0
                    &&& final(channel)@ == (ChannelView { grant: Some(grant@), ..old(channel)@ })
                },
                Err(Error::GrantInProgress) => {
                    &&& old(channel)@.grant is Some
                    &&& final(channel)@ == old(channel)@
                },
                Err(Error::InsufficientSize) => {
                    &&& old(channel)@.grant is None
                    &&& max_sz > old(channel)@.free_space() || old(channel)@.messages.len()
                        == MAX_PUBSUB_MESSAGES
                    &&& final(channel)@ == old(channel)@
                },
                Err(_) => false,
            },
    {
        // Check if a write operation is already in progress.
        if channel.inner.write_in_progress {
            return Err(Error::GrantInProgress);
        }
        proof {
            lemma_messages_laid_out(channel@);
        }
        if max_sz > channel.inner.free_space() || channel.inner.messages.is_full() {
            return Err(Error::InsufficientSize);
        }
        let ghost before = channel@;
        let ghost frames = regions(before.messages);
        let start: usize = match (channel.inner.messages.front(), channel.inner.messages.back()) {
            (Some(front), Some(back)) => {
                proof {
                    lemma_laid_out_bounds(frames, before.bytes.len() as int, frames.len() - 1);
                    assert(frames.last() == back.region());
                    assert(frames[0] == front.region());
                }
                let back_end: usize = back.start + back.len as usize;
                // We already checked that there is enough capacity in the
                // channel, so we just need to determine if we should wrap
                if channel.inner.inverted(*front, *back) || max_sz <= channel.inner.capacity
                    - back_end {
                    back_end
                } else {
                    0
                }
            },
            _ => 0,
        };
        proof {
            lemma_laid_out_push(frames, before.bytes.len() as int, max_sz as int);
        }
        channel.inner.write_in_progress = true;
        channel.inner.granted = Ghost(Region { start: start as int, len: max_sz as int });
        Ok(FrameGrantW { start, len: max_sz, to_commit: 0, pid: 0 })
    }

    /// Grants a region of memory for writing a frame, and removes the oldest
    /// messages, read or not, until there is enough space.
    pub fn grant_immediate<B: BufferProvider, const SUBS: usize>(
        &mut self,
        channel: &mut PubSubChannel<B, SUBS>,
        max_sz: usize,
    ) -> (res: Result<FrameGrantW, Error>)
        requires
            old(channel).wf(),
            max_sz <= old(channel)@.bytes.len(),
        ensures
            final(channel).wf(),
            ({
                let left = make_room(
                    old(channel)@.messages,
                    old(channel)@.bytes.len() as int,
                    max_sz as int,
                );
                match res {
                    Ok(grant) => {
                        &&& old(channel)@.grant is None
                        &&& grant@ == (Region {
                            start: place(
                                regions(left),
                                old(channel)@.bytes.len() as int,
                                max_sz as int,
                            ),
                            len: max_sz as int,
                        })
                        &&& grant.auto_commit() == 0
                        &&& grant.pid() == 0
                        &&& final(channel)@ == (ChannelView {
                            messages: left,
                            grant: Some(grant@),
                            ..old(channel)@
                        })
                    },
                    Err(error) => {
                        &&& old(channel)@.grant is Some
                        &&& error == Error::GrantInProgress
                        &&& final(channel)@ == (ChannelView { messages: left, ..old(channel)@ })
                    },
                }
            }),
    {
        let ghost before = channel@;
        let ghost capacity = before.bytes.len() as int;
        proof {
            lemma_messages_laid_out(channel@);
        }
        while channel.inner.free_space() < max_sz || channel.inner.messages.is_full()
            invariant
                channel.wf(),
                regions(channel@.messages) == regions(channel.inner.messages@),
                laid_out(
                    regions(channel.inner.messages@),
                    channel.inner.capacity as int,
                ),
                channel.inner.capacity == capacity,
                channel@.messages == channel.inner.messages@,
                max_sz <= capacity,
                capacity == before.bytes.len(),
                channel@ == (ChannelView { messages: channel@.messages, ..before }),
                make_room(before.messages, capacity, max_sz as int) == make_room(
                    channel@.messages,
                    capacity,
                    max_sz as int,
                ),
            decreases channel@.messages.len(),
        {
            proof {
                lemma_valid_pop_front(channel@);
            }
            let _ = channel.inner.messages.pop_front();
            proof {
                lemma_messages_laid_out(channel@);
            }
        }
        self.grant(channel, max_sz)
    }

    /// Returns the number of elements currently in the channel.
    pub fn len<B: BufferProvider, const SUBS: usize>(
        &self,
        channel: &PubSubChannel<B, SUBS>,
    ) -> (len: usize)
        ensures
            len == channel@.messages.len(),
    {
        channel.len()
    }

    /// Returns whether the channel is empty.
    pub fn is_empty<B: BufferProvider, const SUBS: usize>(
        &self,
        channel: &PubSubChannel<B, SUBS>,
    ) -> (empty: bool)
        ensures
            empty == (channel@.messages.len() == 0),
    {
        channel.is_empty()
    }

    /// Returns whether the channel is full.
    pub fn is_full<B: BufferProvider, const SUBS: usize>(
        &self,
        channel: &PubSubChannel<B, SUBS>,
    ) -> (full: bool)
        requires
            channel.wf(),
        ensures
            full == (channel@.messages.len() == MAX_PUBSUB_MESSAGES || channel@.free_space() == 0),
    {
        channel.is_full()
    }

    /// Returns the amount of free space available in the channel in bytes.
    pub fn free_space<B: BufferProvider, const SUBS: usize>(
        &self,
        channel: &PubSubChannel<B, SUBS>,
    ) -> (space: usize)
        requires
            channel.wf(),
        ensures
            space == channel@.free_space(),
    {
        channel.free_space()
    }

    /// Gives the publisher back, so that another one can be taken.
    pub fn close<B: BufferProvider, const SUBS: usize>(self, channel: &mut PubSubChannel<B, SUBS>)
        requires
            old(channel).wf(),
        ensures
            final(channel).wf(),
            final(channel)@ == (ChannelView { publisher_taken: false, ..old(channel)@ }),
    {
        channel.inner.publisher_taken = false;
    }
}

/// A write grant for a single frame
///
/// NOTE: If the grant is finished without explicitly committing
/// the contents without first calling `to_commit()`, then no
/// frame will be committed for writing.
pub struct FrameGrantW {
    start: usize,
    len: usize,
    to_commit: usize,
    pid: u16,
}

impl View for FrameGrantW {
    type V = Region;

    closed spec fn view(&self) -> Region {
        Region { start: self.start as int, len: self.len as int }
    }
}

/// A channel after a write grant in it has ended with `used` bytes committed.
pub open spec fn committed(view: ChannelView, used: int, pid: u16) -> ChannelView {
    if view.subscribers == 0 {
        ChannelView { grant: None, ..view }
    } else {
        ChannelView {
            messages: view.messages.push(
                Header {
                    start: view.grant->0.start as usize,
                    len: used as u16,
                    message_id: view.next_id,
                    subscriber_count: view.subscribers,
                    read_in_progress: false,
                    pid,
                },
            ),
            grant: None,
            next_id: (view.next_id + 1) as u64,
            ..view
        }
    }
}

impl FrameGrantW {
    /// The number of bytes that are committed when the grant is finished.
    pub closed spec fn auto_commit(&self) -> int {
        self.to_commit as int
    }

    /// The packet identifier of the frame, `0` if it has none.
    pub closed spec fn pid(&self) -> u16 {
        self.pid
    }

    /// Finalizes a writable grant previously obtained with `grant()` or
    /// `grant_immediate()`.
    ///
    /// This function is crucial for making the written data available to readers
    /// (`read()`). If there is no subscriber, the frame is discarded.
    ///
    /// # Arguments
    ///
    /// * `used` - The number of bytes actually used from the granted slice.
    ///   This value should be less than or equal to the length of the granted
    ///   slice. If `used` is larger than the granted size, the maximum granted
    ///   size will be committed.
    pub fn commit<B: BufferProvider, const SUBS: usize>(
        self,
        channel: &mut PubSubChannel<B, SUBS>,
        used: usize,
    ) -> (wake: Wake)
        requires
            old(channel).wf(),
            old(channel)@.grant == Some(self@),
            old(channel)@.next_id < u64::MAX,
        ensures
            final(channel).wf(),
            final(channel)@ == committed(
                old(channel)@,
                if used <= self@.len {
                    used as int
                } else {
                    self@.len
                },
                self.pid(),
            ),
            wake == (Wake { publisher: false, subscribers: old(channel)@.subscribers > 0 }),
    {
        // Saturate the grant commit
        let used: usize = if used <= self.len {
            used
        } else {
            self.len
        };
        let ghost before = channel@;
        let ghost capacity = before.bytes.len() as int;
        // Allow subsequent grants as the write operation is complete.
        channel.inner.write_in_progress = false;
        if channel.inner.subscriber_count == 0 {
            // We don't need to publish anything because there is no one to receive it
            proof {
                lemma_laid_out_drop_last(before.in_use(), capacity);
                assert(before.in_use().drop_last() =~= channel@.in_use());
            }
            return Wake { publisher: false, subscribers: false };
        }
        let header = Header {
            start: self.start,
            len: used as u16,
            message_id: channel.inner.next_message_id,
            subscriber_count: channel.inner.subscriber_count,
            read_in_progress: false,
            pid: self.pid,
        };
        let _ = channel.inner.messages.push_back(header);
        channel.inner.next_message_id = channel.inner.next_message_id + 1;
        proof {
            lemma_committed_length(used);
            lemma_laid_out_shrink_last(before.in_use(), capacity, header.len as int);
            assert(before.in_use().drop_last().push(header.region()) =~= channel@.in_use());
            assert forall|i: int| 0 <= i < channel@.messages.len() implies (
            #[trigger] channel@.messages[i]).subscriber_count >= unread(
                channel@.cursors,
                channel@.messages[i].message_id,
            ).len() by {
                if i == before.messages.len() {
                    assert(unread(channel@.cursors, header.message_id)
                        =~= channel@.cursors.dom());
                } else {
                    assert(channel@.messages[i] == before.messages[i]);
                }
            }
        }
        // Wake up any subscribers waiting for data.
        Wake { publisher: false, subscribers: true }
    }

    /// Configures the amount of data to be automatically committed when the
    /// grant is finished.
    ///
    /// * If `amt` is 0, the automatic commit is disabled.
    /// * If `amt` is greater than 0, the amount to commit is set to the
    ///   minimum of `amt` and the total grant size.
    pub fn to_commit(&mut self, amt: usize)
        ensures
            final(self)@ == old(self)@,
            final(self).pid() == old(self).pid(),
            final(self).auto_commit() == if amt <= old(self)@.len {
                amt as int
            } else {
                old(self)@.len
            },
    {
        self.to_commit = if amt <= self.len {
            amt
        } else {
            self.len
        };
    }

    /// Sets the packet identifier of the frame.
    pub fn set_pid(&mut self, pid: u16)
        ensures
            final(self)@ == old(self)@,
            final(self).auto_commit() == old(self).auto_commit(),
            final(self).pid() == pid,
    {
        self.pid = pid;
    }

    /// Ends the grant. Commits what `to_commit()` was told to, if anything.
    pub fn finish<B: BufferProvider, const SUBS: usize>(
        self,
        channel: &mut PubSubChannel<B, SUBS>,
    ) -> (wake: Wake)
        requires
            old(channel).wf(),
            old(channel)@.grant == Some(self@),
            old(channel)@.next_id < u64::MAX,
        ensures
            final(channel).wf(),
            final(channel)@ == if self.auto_commit() == 0 {
                ChannelView { grant: None, ..old(channel)@ }
            } else if self.auto_commit() <= self@.len {
                committed(old(channel)@, self.auto_commit(), self.pid())
            } else {
                committed(old(channel)@, self@.len, self.pid())
            },
            wake == (Wake {
                publisher: false,
                subscribers: self.auto_commit() > 0 && old(channel)@.subscribers > 0,
            }),
    {
        if self.to_commit == 0 {
            let ghost before = channel@;
            channel.inner.write_in_progress = false;
            proof {
                lemma_laid_out_drop_last(before.in_use(), before.bytes.len() as int);
                assert(before.in_use().drop_last() =~= channel@.in_use());
            }
            return Wake { publisher: false, subscribers: false };
        }
        let amount: usize = self.to_commit;
        self.commit(channel, amount)
    }

    /// Obtain access to the inner buffer for writing
    pub fn buf<'c, B: BufferProvider, const SUBS: usize>(
        &mut self,
        channel: &'c mut PubSubChannel<B, SUBS>,
    ) -> (buf: &'c mut [u8])
        requires
            old(channel).wf(),
            old(channel)@.grant == Some(old(self)@),
        ensures
            *final(self) == *old(self),
            buf@ == old(channel)@.bytes.subrange(old(self)@.start, old(self)@.end()),
            final(buf)@.len() == buf@.len() ==> {
                &&& final(channel).wf()
                &&& final(channel)@ == (ChannelView {
                    bytes: splice(old(channel)@.bytes, old(self)@.start, final(buf)@),
                    ..old(channel)@
                })
                &&& forall|i: int|
                    0 <= i < old(channel)@.messages.len() ==> final(channel)@.frame(i)
                        == #[trigger] old(channel)@.frame(i)
            },
    {
        let ghost before = channel@;
        let ghost region = self@;
        proof {
            lemma_grant_bounds(before);
            assert forall|part: Seq<u8>, i: int|
                part.len() == region.len && 0 <= i < before.messages.len() implies
                #[trigger] (ChannelView {
                bytes: splice(before.bytes, region.start, part),
                ..before
            }).frame(i) == before.frame(i) by {
                lemma_splice_keeps_frame(before, part, i);
            }
        }
        let all: &'c mut [u8] = channel.buf.buf();
        let (_, rest) = all.split_at_mut(self.start);
        let (part, _) = rest.split_at_mut(self.len);
        part
    }
}

proof fn lemma_committed_length(used: usize)
    ensures
        (used as u16) <= used,
{
    assert((used as u16) <= used) by (bit_vector);
}

/// Writing into what is granted for writing leaves every frame as it is.
pub proof fn lemma_splice_keeps_frame(view: ChannelView, part: Seq<u8>, i: int)
    requires
        view.valid(),
        view.grant is Some,
        part.len() == view.grant->0.len,
        0 <= i < view.messages.len(),
    ensures
        (ChannelView { bytes: splice(view.bytes, view.grant->0.start, part), ..view }).frame(i)
            == view.frame(i),
{
    let region = view.grant->0;
    let n = view.messages.len() as int;
    let spliced = ChannelView { bytes: splice(view.bytes, region.start, part), ..view };
    lemma_grant_bounds(view);
    lemma_frame_bounds(view, i);
    law_laid_out_disjoint(view.in_use(), view.bytes.len() as int, i, n);
    assert(view.in_use()[i] == view.messages[i].region());
    assert(view.in_use()[n] == region);
    assert(spliced.frame(i) =~= view.frame(i));
}



/// `messages` without those at the front that no subscriber has yet to read.
pub open spec fn settled(messages: Seq<Header>) -> Seq<Header>
    decreases messages.len(),
{
    if messages.len() > 0 && messages[0].subscriber_count == 0 {
        settled(messages.skip(1))
    } else {
        messages
    }
}

/// `messages` with one subscriber less to wait for, from the one at `index` on.
pub open spec fn discounted(messages: Seq<Header>, index: int) -> Seq<Header> {
    Seq::new(
        messages.len(),
        |i: int|
            if i >= index {
                Header {
                    subscriber_count: (messages[i].subscriber_count - 1) as u8,
                    ..messages[i]
                }
            } else {
                messages[i]
            },
    )
}

/// `messages` with a read grant for the one at `index`.
pub open spec fn taken(messages: Seq<Header>, index: int) -> Seq<Header> {
    messages.update(
        index,
        Header {
            subscriber_count: (messages[index].subscriber_count - 1) as u8,
            read_in_progress: true,
            ..messages[index]
        },
    )
}

/// Whether no subscriber has yet to read a message, and none is reading it.
pub open spec fn is_idle(header: Header) -> bool {
    header.subscriber_count == 0 && !header.read_in_progress
}

/// `messages` without those at the front that no subscriber has yet to read
/// and none is reading.
pub open spec fn settled_idle(messages: Seq<Header>) -> Seq<Header>
    decreases messages.len(),
{
    if messages.len() > 0 && is_idle(messages[0]) {
        settled_idle(messages.skip(1))
    } else {
        messages
    }
}

/// `messages` without a read grant for the one at `index`.
pub open spec fn put_back(messages: Seq<Header>, index: int) -> Seq<Header> {
    messages.update(index, Header { read_in_progress: false, ..messages[index] })
}

/// `messages` once the read grant for the one at `index` is released: those at
/// the front that nobody needs any more are gone.
pub open spec fn released(messages: Seq<Header>, index: int) -> Seq<Header> {
    settled_idle(put_back(messages, index))
}

/// A subscriber of framed MQTT data
pub struct FrameSubscriber {
    next_message_id: u64,
    id: Ghost<int>,
}

impl FrameSubscriber {
    /// The number by which the channel knows the subscriber.
    pub closed spec fn id(&self) -> int {
        self.id@
    }

    /// The number of the message that the subscriber reads next.
    pub closed spec fn next_message_id(&self) -> u64 {
        self.next_message_id
    }

    /// Whether the subscriber is one of the channel.
    pub open spec fn of(&self, view: ChannelView) -> bool {
        view.cursors.dom().contains(self.id()) && view.cursors[self.id()]
            == self.next_message_id()
    }

    fn new(next_message_id: u64, id: Ghost<int>) -> (subscriber: Self)
        ensures
            subscriber.next_message_id() == next_message_id,
            subscriber.id() == id@,
    {
        FrameSubscriber { next_message_id, id }
    }

    /// Obtain the next available MQTT frame, if any
    ///
    /// Messages that were removed before the subscriber has read them are
    /// passed over.
    pub fn read<B: BufferProvider, const SUBS: usize>(
        &mut self,
        channel: &mut PubSubChannel<B, SUBS>,
    ) -> (res: Result<FrameGrantR, Error>)
        requires
            old(channel).wf(),
            old(self).of(old(channel)@),
        ensures
            final(channel).wf(),
            final(self).of(final(channel)@),
            final(self).id() == old(self).id(),
            ({
                let view = old(channel)@;
                let next = if old(self).next_message_id() < view.start_id() {
                    view.start_id()
                } else {
                    old(self).next_message_id() as int
                };
                let index = next - view.start_id();
                match res {
                    Ok(grant) => {
                        &&& index < view.messages.len()
                        &&& !view.messages[index].read_in_progress
                        &&& grant@ == view.messages[index].region()
                        &&& grant.message_id() == next
                        &&& grant.pid() == view.messages[index].pid
                        &&& !grant.releases()
                        &&& final(self).next_message_id() == next + 1
                        &&& final(channel)@ == (ChannelView {
                            messages: taken(view.messages, index),
                            cursors: view.cursors.insert(old(self).id(), (next + 1) as u64),
                            ..view
                        })
                    },
                    Err(error) => {
                        &&& if index >= view.messages.len() {
                            error == Error::InsufficientSize
                        } else {
                            view.messages[index].read_in_progress && error
                                == Error::GrantInProgress
                        }
                        &&& final(self).next_message_id() == next
                        &&& final(channel)@ == (ChannelView {
                            cursors: view.cursors.insert(old(self).id(), next as u64),
                            ..view
                        })
                    },
                }
            }),
    {
        let ghost view = channel@;
        let len: usize = channel.inner.messages.len();
        let start_id: u64 = channel.inner.next_message_id - len as u64;
        if self.next_message_id < start_id {
            self.next_message_id = start_id;
        }
        channel.inner.cursors = Ghost(
            channel.inner.cursors@.insert(self.id@, self.next_message_id),
        );
        let ghost caught_up = channel@;
        proof {
            lemma_lagged(view, self.id@, self.next_message_id);
        }
        let index: u64 = self.next_message_id - start_id;
        if index >= len as u64 {
            return Err(Error::InsufficientSize);
        }
        let index: usize = index as usize;
        let found: Header = match channel.inner.messages.get(index) {
            Some(header) => *header,
            None => {
                return Err(Error::InsufficientSize);
            },
        };
        if found.read_in_progress {
            return Err(Error::GrantInProgress);
        }
        proof {
            lemma_advanced(caught_up, self.id@, index as int);
        }
        // We're reading this item, so decrement the counter & mark it as read in progress
        if let Some(header) = channel.inner.messages.get_mut(index) {
            header.subscriber_count = header.subscriber_count - 1;
            header.read_in_progress = true;
        }
        self.next_message_id = self.next_message_id + 1;
        channel.inner.cursors = Ghost(
            channel.inner.cursors@.insert(self.id@, self.next_message_id),
        );
        proof {
            assert(channel@.messages =~= taken(view.messages, index as int));
            assert(channel@.cursors =~= view.cursors.insert(self.id@, self.next_message_id));
        }
        Ok(
            FrameGrantR {
                start: found.start,
                len: found.len,
                message_id: found.message_id,
                pid: found.pid,
                auto_release: false,
            },
        )
    }

    /// Ends the subscription. The messages that the subscriber has not read yet
    /// no longer wait for it, unless messages were removed before it has read
    /// them.
    pub fn close<B: BufferProvider, const SUBS: usize>(
        self,
        channel: &mut PubSubChannel<B, SUBS>,
    ) -> (wake: Wake)
        requires
            old(channel).wf(),
            self.of(old(channel)@),
        ensures
            final(channel).wf(),
            ({
                let view = old(channel)@;
                let messages = if self.next_message_id() >= view.start_id() {
                    settled(
                        discounted(view.messages, self.next_message_id() - view.start_id()),
                    )
                } else {
                    view.messages
                };
                &&& final(channel)@ == (ChannelView {
                    messages,
                    subscribers: (view.subscribers - 1) as u8,
                    cursors: view.cursors.remove(self.id()),
                    ..view
                })
                &&& wake == (Wake {
                    publisher: messages.len() < view.messages.len(),
                    subscribers: false,
                })
            }),
    {
        let ghost view = channel@;
        let ghost cursors = view.cursors.remove(self.id@);
        proof {
            lemma_subscriber_counted(view, self.id@);
        }
        channel.inner.subscriber_count = channel.inner.subscriber_count - 1;
        channel.inner.cursors = Ghost(cursors);
        let mut wake_publisher: bool = false;
        // All messages that haven't been read yet by this subscriber must have their counter decremented
        let len: usize = channel.inner.messages.len();
        let start_id: u64 = channel.inner.next_message_id - len as u64;
        if self.next_message_id >= start_id {
            let ghost first = self.next_message_id - start_id;
            let mut i: usize = (self.next_message_id - start_id) as usize;
            while i < len
                invariant
                    first <= i <= len,
                    0 <= first,
                    len == view.messages.len(),
                    view.valid(),
                    view.cursors.dom().contains(self.id@),
                    view.cursors[self.id@] - view.start_id() == first,
                    channel.inner.messages@.len() == len,
                    forall|j: int|
                        0 <= j < i ==> (#[trigger] channel.inner.messages@[j]) == discounted(
                            view.messages,
                            first,
                        )[j],
                    forall|j: int|
                        i <= j < len ==> (#[trigger] channel.inner.messages@[j])
                            == view.messages[j],
                    *channel == (PubSubChannel::<B, SUBS> {
                        inner: State {
                            messages: channel.inner.messages,
                            ..channel.inner
                        },
                        ..*channel
                    }),
                    channel@ == (ChannelView {
                        messages: channel@.messages,
                        subscribers: (view.subscribers - 1) as u8,
                        cursors,
                        ..view
                    }),
                    channel.sized(),
                decreases len - i,
            {
                proof {
                    lemma_waits_for(view, self.id@, i as int);
                }
                if let Some(header) = channel.inner.messages.get_mut(i) {
                    header.subscriber_count = header.subscriber_count - 1;
                }
                i = i + 1;
            }
            assert(channel@.messages =~= discounted(view.messages, first));
            proof {
                lemma_removed(view, self.id@);
            }
            let ghost all = channel@.messages;
            loop
                invariant
                    channel.wf(),
                    channel@ == (ChannelView {
                        messages: channel@.messages,
                        subscribers: (view.subscribers - 1) as u8,
                        cursors,
                        ..view
                    }),
                    settled(all) == settled(channel@.messages),
                    channel@.messages.len() <= len,
                    len == view.messages.len(),
                    wake_publisher == (channel@.messages.len() < len),
                ensures
                    channel@.messages == settled(all),
                decreases channel@.messages.len(),
            {
                let done: bool = match channel.inner.messages.front() {
                    Some(header) => header.subscriber_count != 0,
                    None => true,
                };
                if done {
                    break;
                }
                proof {
                    lemma_valid_pop_front(channel@);
                }
                let _ = channel.inner.messages.pop_front();
                wake_publisher = true;
            }
        } else {
            proof {
                lemma_removed(view, self.id@);
            }
        }
        Wake { publisher: wake_publisher, subscribers: false }
    }
}

/// A subscriber that has fallen behind loses no message that is still there.
proof fn lemma_lagged(view: ChannelView, subscriber: int, next: u64)
    requires
        view.valid(),
        view.cursors.dom().contains(subscriber),
        view.cursors[subscriber] <= next <= view.next_id,
        view.cursors[subscriber] == next || next == view.start_id(),
    ensures
        (ChannelView { cursors: view.cursors.insert(subscriber, next), ..view }).valid(),
{
    let cursors = view.cursors.insert(subscriber, next);
    assert(cursors.dom() =~= view.cursors.dom());
    assert forall|i: int| 0 <= i < view.messages.len() implies (
    #[trigger] view.messages[i]).subscriber_count >= unread(
        cursors,
        view.messages[i].message_id,
    ).len() by {
        assert(unread(cursors, view.messages[i].message_id) =~= unread(
            view.cursors,
            view.messages[i].message_id,
        ));
    }
}

/// A message waits for a subscriber that has yet to read it.
pub proof fn lemma_waits_for(view: ChannelView, subscriber: int, index: int)
    requires
        view.valid(),
        view.cursors.dom().contains(subscriber),
        0 <= index < view.messages.len(),
        view.cursors[subscriber] <= view.messages[index].message_id,
    ensures
        view.messages[index].subscriber_count > 0,
{
    let waiting = unread(view.cursors, view.messages[index].message_id);
    assert(waiting.contains(subscriber));
    assert(waiting.finite());
    if waiting.len() == 0 {
        assert(waiting =~= Set::empty());
    }
}

pub(crate) proof fn lemma_subscriber_counted(view: ChannelView, subscriber: int)
    requires
        view.valid(),
        view.cursors.dom().contains(subscriber),
    ensures
        view.subscribers > 0,
{
    if view.cursors.dom().len() == 0 {
        assert(view.cursors.dom() =~= Set::empty());
    }
}

/// A subscriber may take the message that it reads next.
proof fn lemma_advanced(view: ChannelView, subscriber: int, index: int)
    requires
        view.valid(),
        view.cursors.dom().contains(subscriber),
        0 <= index < view.messages.len(),
        view.cursors[subscriber] == view.messages[index].message_id,
    ensures
        view.messages[index].subscriber_count > 0,
        (ChannelView {
            messages: taken(view.messages, index),
            cursors: view.cursors.insert(subscriber, (view.cursors[subscriber] + 1) as u64),
            ..view
        }).valid(),
{
    lemma_waits_for(view, subscriber, index);
    let next = (view.cursors[subscriber] + 1) as u64;
    let cursors = view.cursors.insert(subscriber, next);
    let messages = taken(view.messages, index);
    let advanced = ChannelView { messages, cursors, ..view };
    assert(cursors.dom() =~= view.cursors.dom());
    assert(regions(messages) =~= regions(view.messages));
    assert(advanced.in_use() =~= view.in_use());
    assert forall|i: int| 0 <= i < messages.len() implies (
    #[trigger] messages[i]).subscriber_count >= unread(
        cursors,
        messages[i].message_id,
    ).len() by {
        let id = view.messages[i].message_id;
        let before = unread(view.cursors, id);
        let after = unread(cursors, id);
        if i == index {
            assert(after =~= before.remove(subscriber));
            assert(before.finite());
        } else {
            assert(after =~= before);
        }
    }
}

/// A subscriber may leave.
proof fn lemma_removed(view: ChannelView, subscriber: int)
    requires
        view.valid(),
        view.cursors.dom().contains(subscriber),
    ensures
        view.subscribers > 0,
        (ChannelView {
            messages: if view.cursors[subscriber] >= view.start_id() {
                discounted(view.messages, view.cursors[subscriber] - view.start_id())
            } else {
                view.messages
            },
            subscribers: (view.subscribers - 1) as u8,
            cursors: view.cursors.remove(subscriber),
            ..view
        }).valid(),
{
    lemma_subscriber_counted(view, subscriber);
    let cursors = view.cursors.remove(subscriber);
    let messages = if view.cursors[subscriber] >= view.start_id() {
        discounted(view.messages, view.cursors[subscriber] - view.start_id())
    } else {
        view.messages
    };
    let removed = ChannelView {
        messages,
        subscribers: (view.subscribers - 1) as u8,
        cursors,
        ..view
    };
    assert(cursors.dom() =~= view.cursors.dom().remove(subscriber));
    assert(regions(messages) =~= regions(view.messages));
    assert(removed.in_use() =~= view.in_use());
    assert forall|i: int| 0 <= i < messages.len() implies (
    #[trigger] messages[i]).subscriber_count >= unread(
        cursors,
        messages[i].message_id,
    ).len() by {
        let id = view.messages[i].message_id;
        let before = unread(view.cursors, id);
        let after = unread(cursors, id);
        assert(before.finite());
        assert(after =~= before.remove(subscriber));
        if view.cursors[subscriber] <= id {
            lemma_waits_for(view, subscriber, i);
        }
    }
}

/// A read grant for a single frame
///
/// NOTE: If the grant is finished without explicitly releasing
/// the contents, then no frame will be released.
pub struct FrameGrantR {
    start: usize,
    len: u16,
    message_id: u64,
    pid: u16,
    auto_release: bool,
}

impl View for FrameGrantR {
    type V = Region;

    closed spec fn view(&self) -> Region {
        Region { start: self.start as int, len: self.len as int }
    }
}

impl FrameGrantR {
    /// The number of the message.
    pub closed spec fn message_id(&self) -> u64 {
        self.message_id
    }

    /// The packet identifier of the message, `0` if it has none.
    pub closed spec fn spec_pid(&self) -> u16 {
        self.pid
    }

    /// Whether the frame is released when the grant is finished.
    pub closed spec fn releases(&self) -> bool {
        self.auto_release
    }

    /// Returns the packet identifier of the message, `0` if it has none.
    #[verifier::when_used_as_spec(spec_pid)]
    pub fn pid(&self) -> (pid: u16)
        ensures
            pid == self.spec_pid(),
    {
        self.pid
    }

    /// Obtain access to the inner buffer for reading
    pub fn buf<'c, B: BufferProvider, const SUBS: usize>(
        &self,
        channel: &'c mut PubSubChannel<B, SUBS>,
    ) -> (buf: &'c [u8])
        requires
            old(channel).wf(),
            self@.end() <= old(channel)@.bytes.len(),
        ensures
            buf@ == old(channel)@.bytes.subrange(self@.start, self@.end()),
            final(channel).wf(),
            final(channel)@ == old(channel)@,
    {
        let all: &'c mut [u8] = channel.buf.buf();
        let end: usize = self.start + self.len as usize;
        vstd::slice::slice_subrange(all, self.start, end)
    }

    /// Obtain mutable access to the read grant
    ///
    /// This is useful if you are performing in-place operations
    /// on an incoming packet, such as decryption
    pub fn buf_mut<'c, B: BufferProvider, const SUBS: usize>(
        &mut self,
        channel: &'c mut PubSubChannel<B, SUBS>,
    ) -> (buf: &'c mut [u8])
        requires
            old(channel).wf(),
            old(self)@.end() <= old(channel)@.bytes.len(),
        ensures
            *final(self) == *old(self),
            buf@ == old(channel)@.bytes.subrange(old(self)@.start, old(self)@.end()),
            final(buf)@.len() == buf@.len() ==> {
                &&& final(channel).wf()
                &&& final(channel)@ == (ChannelView {
                    bytes: splice(old(channel)@.bytes, old(self)@.start, final(buf)@),
                    ..old(channel)@
                })
            },
    {
        let all: &'c mut [u8] = channel.buf.buf();
        let (_, rest) = all.split_at_mut(self.start);
        let (part, _) = rest.split_at_mut(self.len as usize);
        part
    }

    /// Release a frame to make the space available for future writing
    ///
    /// Note: The full frame is always released
    pub fn release<B: BufferProvider, const SUBS: usize>(
        self,
        channel: &mut PubSubChannel<B, SUBS>,
    ) -> (wake: Wake)
        requires
            old(channel).wf(),
        ensures
            final(channel).wf(),
            ({
                let view = old(channel)@;
                let index = self.message_id() - view.start_id();
                if 0 <= index < view.messages.len() && view.messages[index].read_in_progress {
                    &&& final(channel)@ == (ChannelView {
                        messages: released(view.messages, index),
                        ..view
                    })
                    &&& wake == (Wake {
                        publisher: released(view.messages, index).len() < view.messages.len(),
                        subscribers: true,
                    })
                } else {
                    &&& final(channel)@ == view
                    &&& wake == (Wake { publisher: false, subscribers: false })
                }
            }),
    {
        let ghost view = channel@;
        let len: usize = channel.inner.messages.len();
        let mut index: usize = 0;
        let mut found: Option<Header> = None;
        while index < len && found.is_none()
            invariant
                index <= len,
                len == view.messages.len(),
                channel.inner.messages@ == view.messages,
                forall|j: int|
                    0 <= j < index ==> (#[trigger] view.messages[j]).message_id
                        != self.message_id,
                match found {
                    Some(header) => index < len && header == view.messages[index as int]
                        && header.message_id == self.message_id,
                    None => true,
                },
            decreases len - index, if found is None { 1int } else { 0int },
        {
            if let Some(header) = channel.inner.messages.get(index) {
                if header.message_id == self.message_id {
                    found = Some(*header);
                }
            }
            if found.is_none() {
                index = index + 1;
            }
        }
        let header: Header = match found {
            Some(header) => header,
            None => {
                proof {
                    let at = self.message_id - view.start_id();
                    if 0 <= at < len {
                        assert(view.messages[at].message_id == self.message_id);
                    }
                }
                return Wake { publisher: false, subscribers: false };
            },
        };
        assert(index == self.message_id - view.start_id());
        if !header.read_in_progress {
            return Wake { publisher: false, subscribers: false };
        }
        if let Some(header) = channel.inner.messages.get_mut(index) {
            header.read_in_progress = false;
        }
        let ghost idle = put_back(view.messages, index as int);
        proof {
            assert(channel@.messages =~= idle);
            assert(regions(channel@.messages) =~= regions(view.messages));
            assert(channel@.in_use() =~= view.in_use());
        }
        // The space of all frames at the front that nobody needs any more
        // becomes available.
        let mut wake_publisher: bool = false;
        loop
            invariant
                channel.wf(),
                channel@ == (ChannelView { messages: channel@.messages, ..view }),
                settled_idle(idle) == settled_idle(channel@.messages),
                channel@.messages.len() <= view.messages.len(),
                wake_publisher == (channel@.messages.len() < view.messages.len()),
            ensures
                channel@.messages == settled_idle(idle),
            decreases channel@.messages.len(),
        {
            let done: bool = match channel.inner.messages.front() {
                Some(header) => header.subscriber_count != 0 || header.read_in_progress,
                None => true,
            };
            if done {
                break;
            }
            proof {
                lemma_valid_pop_front(channel@);
            }
            let _ = channel.inner.messages.pop_front();
            wake_publisher = true;
        }
        Wake { publisher: wake_publisher, subscribers: true }
    }

    /// Set whether the read frame should be automatically released
    pub fn auto_release(&mut self, is_auto: bool)
        ensures
            final(self)@ == old(self)@,
            final(self).message_id() == old(self).message_id(),
            final(self).pid() == old(self).pid(),
            final(self).releases() == is_auto,
    {
        self.auto_release = is_auto;
    }

    /// Ends the grant, and releases the frame if it is to be released
    /// automatically.
    pub fn finish<B: BufferProvider, const SUBS: usize>(
        self,
        channel: &mut PubSubChannel<B, SUBS>,
    ) -> (wake: Wake)
        requires
            old(channel).wf(),
        ensures
            final(channel).wf(),
            ({
                let view = old(channel)@;
                let index = self.message_id() - view.start_id();
                if self.releases() && 0 <= index < view.messages.len()
                    && view.messages[index].read_in_progress {
                    &&& final(channel)@ == (ChannelView {
                        messages: released(view.messages, index),
                        ..view
                    })
                    &&& wake == (Wake {
                        publisher: released(view.messages, index).len() < view.messages.len(),
                        subscribers: true,
                    })
                } else {
                    &&& final(channel)@ == view
                    &&& wake == (Wake { publisher: false, subscribers: false })
                }
            }),
    {
        if self.auto_release {
            self.release(channel)
        } else {
            Wake { publisher: false, subscribers: false }
        }
    }
}

} // verus!
