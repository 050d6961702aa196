use vstd::prelude::*;

use super::layout::Region;
use crate::crate_config::MAX_PUBSUB_MESSAGES;

verus! {

/// Header information for each message in the pubsub queue.
#[derive(Debug, Clone, Copy)]
pub struct Header {
    /// Where the frame starts in the buffer.
    pub start: usize,
    /// The length of the frame.
    pub len: u16,
    /// The number of the message. Messages are numbered in the order in which
    /// they are committed.
    pub message_id: u64,
    /// The number of subscribers that have yet to read the message.
    pub subscriber_count: u8,
    /// Whether there is a read grant for the message.
    pub read_in_progress: bool,
    /// The packet identifier of the message, `0` if it has none.
    pub pid: u16,
}

impl Header {
    /// The part of the buffer that holds the frame.
    pub open spec fn region(self) -> Region {
        Region { start: self.start as int, len: self.len as int }
    }
}

/// The headers of the messages in a channel, the oldest one first.
#[verifier::external_body]
#[derive(Debug)]
pub struct MessageQueue {
    inner: heapless::Deque<Header, MAX_PUBSUB_MESSAGES>,
}

/// The headers that a `MessageQueue` holds, from its front to its back.
pub uninterp spec fn queued_headers(queue: MessageQueue) -> Seq<Header>;

impl View for MessageQueue {
    type V = Seq<Header>;

    open spec fn view(&self) -> Seq<Header> {
        queued_headers(*self)
    }
}

impl MessageQueue {
    /// Calls `heapless::Deque::new`, which makes an empty deque.
    #[verifier::external_body]
    pub(crate) fn new() -> (queue: Self)
        ensures
            queued_headers(queue) == Seq::<Header>::empty(),
    {
        MessageQueue { inner: heapless::Deque::new() }
    }

    /// Calls `heapless::Deque::len`, which counts the items. There are never
    /// more of them than the deque has room for.
    #[verifier::external_body]
    pub(crate) fn len(&self) -> (len: usize)
        ensures
            len == queued_headers(*self).len(),
            len <= MAX_PUBSUB_MESSAGES,
    {
        self.inner.len()
    }

    /// Calls `heapless::Deque::is_full`, which says whether there is no room
    /// for another item.
    #[verifier::external_body]
    pub(crate) fn is_full(&self) -> (full: bool)
        ensures
            full == (queued_headers(*self).len() == MAX_PUBSUB_MESSAGES),
    {
        self.inner.is_full()
    }

    /// Calls `heapless::Deque::front`, which gives the first item, if any.
    #[verifier::external_body]
    pub(crate) fn front(&self) -> (front: Option<&Header>)
        ensures
            match front {
                Some(header) => queued_headers(*self).len() > 0 && *header == queued_headers(
                    *self,
                )[0],
                None => queued_headers(*self).len() == 0,
            },
    {
        self.inner.front()
    }

    /// Calls `heapless::Deque::back`, which gives the last item, if any.
    #[verifier::external_body]
    pub(crate) fn back(&self) -> (back: Option<&Header>)
        ensures
            match back {
                Some(header) => queued_headers(*self).len() > 0 && *header == queued_headers(
                    *self,
                ).last(),
                None => queued_headers(*self).len() == 0,
            },
    {
        self.inner.back()
    }

    /// Calls `heapless::Deque::get`, which gives the item at `index`, counted
    /// from the front.
    #[verifier::external_body]
    pub(crate) fn get(&self, index: usize) -> (item: Option<&Header>)
        ensures
            match item {
                Some(header) => index < queued_headers(*self).len() && *header == queued_headers(
                    *self,
                )[index as int],
                None => index >= queued_headers(*self).len(),
            },
    {
        self.inner.get(index)
    }

    /// Calls `heapless::Deque::get_mut`, which gives the item at `index`,
    /// counted from the front, to be changed in its place.
    #[verifier::external_body]
    pub(crate) fn get_mut(&mut self, index: usize) -> (item: Option<&mut Header>)
        ensures
            match item {
                Some(header) => {
                    &&& index < queued_headers(*old(self)).len()
                    &&& *header == queued_headers(*old(self))[index as int]
                    &&& queued_headers(*final(self)) == queued_headers(*old(self)).update(
                        index as int,
                        *final(header),
                    )
                },
                None => {
                    &&& index >= queued_headers(*old(self)).len()
                    &&& queued_headers(*final(self)) == queued_headers(*old(self))
                },
            },
    {
        self.inner.get_mut(index)
    }

    /// Calls `heapless::Deque::push_back`, which appends the item, or hands it
    /// back and changes nothing if the deque is full.
    #[verifier::external_body]
    pub(crate) fn push_back(&mut self, header: Header) -> (res: Result<(), Header>)
        ensures
            if queued_headers(*old(self)).len() < MAX_PUBSUB_MESSAGES {
                &&& res == Ok::<(), Header>(())
                &&& queued_headers(*final(self)) == queued_headers(*old(self)).push(header)
            } else {
                &&& res == Err::<(), Header>(header)
                &&& queued_headers(*final(self)) == queued_headers(*old(self))
            },
    {
        self.inner.push_back(header)
    }

    /// Calls `heapless::Deque::pop_front`, which removes the first item, if
    /// any, and hands it out.
    #[verifier::external_body]
    pub(crate) fn pop_front(&mut self) -> (item: Option<Header>)
        ensures
            match item {
                Some(header) => {
                    &&& queued_headers(*old(self)).len() > 0
                    &&& header == queued_headers(*old(self))[0]
                    &&& queued_headers(*final(self)) == queued_headers(*old(self)).skip(1)
                },
                None => {
                    &&& queued_headers(*old(self)).len() == 0
                    &&& queued_headers(*final(self)) == queued_headers(*old(self))
                },
            },
    {
        self.inner.pop_front()
    }

    /// Calls `heapless::Deque::clear`, which removes all items.
    #[verifier::external_body]
    pub(crate) fn clear(&mut self)
        ensures
            queued_headers(*final(self)) == Seq::<Header>::empty(),
    {
        self.inner.clear()
    }
}

} // verus!
