//! Collections of fixed capacity.
//!
//! Each of them holds a collection of `heapless`. What such a collection holds
//! is known to the proofs by a name of its own, and what its methods do to that
//! by the contracts of the functions that call them.
use vstd::prelude::*;
use vstd::string::StringSliceAdditionalSpecFns;

use crate::crate_config::{
    MAX_INFLIGHT, MAX_SUBSCRIBERS, MAX_SUB_TOPICS_PER_MSG, MAX_TOPIC_LEN, RX_BUF_LEN,
};
use crate::encoding::reason_code::UnsubAckReasonCode;
use crate::state::AckStatus;

verus! {

/// The reason codes of an `UNSUBACK` packet, one for each topic filter.
#[verifier::external_body]
#[derive(Debug, PartialEq)]
pub struct UnsubAckCodes {
    inner: heapless::Vec<UnsubAckReasonCode, MAX_SUB_TOPICS_PER_MSG>,
}

/// The reason codes that an `UnsubAckCodes` holds, in their order.
pub uninterp spec fn unsub_ack_codes(codes: UnsubAckCodes) -> Seq<UnsubAckReasonCode>;

impl View for UnsubAckCodes {
    type V = Seq<UnsubAckReasonCode>;

    open spec fn view(&self) -> Seq<UnsubAckReasonCode> {
        unsub_ack_codes(*self)
    }
}

impl UnsubAckCodes {
    /// Calls `heapless::Vec::new`, which makes an empty vector.
    #[verifier::external_body]
    pub(crate) fn new() -> (codes: Self)
        ensures
            unsub_ack_codes(codes) == Seq::<UnsubAckReasonCode>::empty(),
    {
        UnsubAckCodes { inner: heapless::Vec::new() }
    }

    /// Calls `heapless::Vec::push`, which appends the item, or hands it back
    /// and changes nothing if the vector is full.
    #[verifier::external_body]
    pub(crate) fn push(&mut self, code: UnsubAckReasonCode) -> (res: Result<
        (),
        UnsubAckReasonCode,
    >)
        ensures
            if unsub_ack_codes(*old(self)).len() < MAX_SUB_TOPICS_PER_MSG {
                &&& res == Ok::<(), UnsubAckReasonCode>(())
                &&& unsub_ack_codes(*final(self)) == unsub_ack_codes(*old(self)).push(code)
            } else {
                &&& res == Err::<(), UnsubAckReasonCode>(code)
                &&& unsub_ack_codes(*final(self)) == unsub_ack_codes(*old(self))
            },
    {
        self.inner.push(code)
    }

    /// Calls `heapless::Vec::as_slice`, which gives all items in their order.
    /// There are never more of them than the vector has room for.
    #[verifier::external_body]
    pub(crate) fn as_slice(&self) -> (codes: &[UnsubAckReasonCode])
        ensures
            codes@ == unsub_ack_codes(*self),
            codes@.len() <= MAX_SUB_TOPICS_PER_MSG,
    {
        self.inner.as_slice()
    }

    /// Calls `heapless::Vec::from_slice`, which copies all items, or fails if
    /// there are more of them than the vector has room for.
    #[verifier::external_body]
    fn copied(codes: &[UnsubAckReasonCode]) -> (res: Option<Self>)
        ensures
            match res {
                Some(copy) => codes@.len() <= MAX_SUB_TOPICS_PER_MSG && unsub_ack_codes(copy)
                    == codes@,
                None => codes@.len() > MAX_SUB_TOPICS_PER_MSG,
            },
    {
        match heapless::Vec::from_slice(codes) {
            Ok(inner) => Some(UnsubAckCodes { inner }),
            Err(_) => None,
        }
    }

    /// Collects reason codes, if there are not too many of them.
    pub fn from_slice(codes: &[UnsubAckReasonCode]) -> (res: Option<Self>)
        ensures
            match res {
                Some(collected) => codes@.len() <= MAX_SUB_TOPICS_PER_MSG && collected@ == codes@,
                None => codes@.len() > MAX_SUB_TOPICS_PER_MSG,
            },
    {
        UnsubAckCodes::copied(codes)
    }
}

impl Clone for UnsubAckCodes {
    fn clone(&self) -> (codes: Self)
        ensures
            codes@ == self@,
    {
        match UnsubAckCodes::from_slice(self.as_slice()) {
            Some(codes) => codes,
            None => UnsubAckCodes::new(),
        }
    }
}

/// The codes of a `SUBACK` or an `UNSUBACK` packet, one for each topic filter.
#[verifier::external_body]
#[derive(Debug, PartialEq)]
pub struct AckCodes {
    inner: heapless::Vec<u8, MAX_SUB_TOPICS_PER_MSG>,
}

/// The codes that an `AckCodes` holds, in their order.
pub uninterp spec fn ack_codes(codes: AckCodes) -> Seq<u8>;

impl View for AckCodes {
    type V = Seq<u8>;

    open spec fn view(&self) -> Seq<u8> {
        ack_codes(*self)
    }
}

impl AckCodes {
    /// Calls `heapless::Vec::from_slice`, which copies all items, or fails if
    /// there are more of them than the vector has room for.
    #[verifier::external_body]
    pub(crate) fn from_slice(codes: &[u8]) -> (res: Option<Self>)
        ensures
            match res {
                Some(copy) => codes@.len() <= MAX_SUB_TOPICS_PER_MSG && ack_codes(copy) == codes@,
                None => codes@.len() > MAX_SUB_TOPICS_PER_MSG,
            },
    {
        match heapless::Vec::from_slice(codes) {
            Ok(inner) => Some(AckCodes { inner }),
            Err(_) => None,
        }
    }

    /// Calls `heapless::Vec::as_slice`, which gives all items in their order.
    #[verifier::external_body]
    pub(crate) fn as_slice(&self) -> (codes: &[u8])
        ensures
            codes@ == ack_codes(*self),
    {
        self.inner.as_slice()
    }
}

/// A set of packet identifiers.
#[verifier::external_body]
#[derive(Debug)]
pub struct PidSet {
    inner: heapless::index_set::FnvIndexSet<u16, MAX_INFLIGHT>,
}

/// The packet identifiers that a `PidSet` holds.
pub uninterp spec fn pids(set: PidSet) -> Set<u16>;

impl View for PidSet {
    type V = Set<u16>;

    open spec fn view(&self) -> Set<u16> {
        pids(*self)
    }
}

impl PidSet {
    /// Calls `heapless::IndexSet::new`, which makes an empty set.
    #[verifier::external_body]
    pub(crate) fn new() -> (set: Self)
        ensures
            pids(set) == Set::<u16>::empty(),
    {
        PidSet { inner: heapless::IndexSet::new() }
    }

    /// Calls `heapless::IndexSet::insert`, which adds the value and says
    /// whether it is new, or hands it back and changes nothing if it is new and
    /// there is no room for it.
    #[verifier::external_body]
    pub(crate) fn insert(&mut self, pid: u16) -> (res: Result<bool, u16>)
        ensures
            if pids(*old(self)).contains(pid) {
                &&& res == Ok::<bool, u16>(false)
                &&& pids(*final(self)) == pids(*old(self))
            } else if pids(*old(self)).len() < MAX_INFLIGHT {
                &&& res == Ok::<bool, u16>(true)
                &&& pids(*final(self)) == pids(*old(self)).insert(pid)
            } else {
                &&& res == Err::<bool, u16>(pid)
                &&& pids(*final(self)) == pids(*old(self))
            },
    {
        self.inner.insert(pid)
    }

    /// Calls `heapless::IndexSet::remove`, which removes the value and says
    /// whether it was there.
    #[verifier::external_body]
    pub(crate) fn remove(&mut self, pid: u16) -> (removed: bool)
        ensures
            removed == pids(*old(self)).contains(pid),
            pids(*final(self)) == pids(*old(self)).remove(pid),
    {
        self.inner.remove(&pid)
    }

    /// Calls `heapless::IndexSet::clear`, which removes all values.
    #[verifier::external_body]
    pub(crate) fn clear(&mut self)
        ensures
            pids(*final(self)) == Set::<u16>::empty(),
    {
        self.inner.clear()
    }

    /// Calls `heapless::IndexSet::contains`, which says whether the value is
    /// there.
    #[verifier::external_body]
    pub(crate) fn contains(&self, pid: u16) -> (contained: bool)
        ensures
            contained == pids(*self).contains(pid),
    {
        self.inner.contains(&pid)
    }

    /// Calls `heapless::IndexSet::len`, which gives the number of values.
    #[verifier::external_body]
    pub(crate) fn len(&self) -> (len: usize)
        ensures
            len == pids(*self).len(),
    {
        self.inner.len()
    }
}

/// For each packet identifier that awaits it, how far an acknowledgement has
/// come.
#[verifier::external_body]
#[derive(Debug)]
pub struct AckMap {
    inner: heapless::index_map::FnvIndexMap<u16, AckStatus, MAX_SUBSCRIBERS>,
}

/// What an `AckMap` holds.
pub uninterp spec fn acks(map: AckMap) -> Map<u16, AckStatus>;

impl View for AckMap {
    type V = Map<u16, AckStatus>;

    open spec fn view(&self) -> Map<u16, AckStatus> {
        acks(*self)
    }
}

impl AckMap {
    /// Calls `heapless::IndexMap::new`, which makes an empty map.
    #[verifier::external_body]
    pub(crate) fn new() -> (map: Self)
        ensures
            acks(map) == (Map::<u16, AckStatus>::empty()),
    {
        AckMap { inner: heapless::IndexMap::new() }
    }

    /// Calls `heapless::IndexMap::get`, which gives the value of a key.
    #[verifier::external_body]
    pub(crate) fn get(&self, pid: u16) -> (res: Option<&AckStatus>)
        ensures
            match res {
                Some(status) => acks(*self).contains_key(pid) && *status == acks(*self)[pid],
                None => !acks(*self).contains_key(pid),
            },
    {
        self.inner.get(&pid)
    }

    /// Calls `heapless::IndexMap::insert`, which sets the value of a key and
    /// hands out the one that it had, or hands both back and changes nothing if
    /// the key is new and there is no room for it.
    #[verifier::external_body]
    pub(crate) fn insert(&mut self, pid: u16, status: AckStatus) -> (res: Result<
        Option<AckStatus>,
        (u16, AckStatus),
    >)
        ensures
            if acks(*old(self)).contains_key(pid) {
                &&& res == Ok::<Option<AckStatus>, (u16, AckStatus)>(Some(acks(*old(self))[pid]))
                &&& acks(*final(self)) == acks(*old(self)).insert(pid, status)
            } else if acks(*old(self)).dom().len() < MAX_SUBSCRIBERS {
                &&& res == Ok::<Option<AckStatus>, (u16, AckStatus)>(None)
                &&& acks(*final(self)) == acks(*old(self)).insert(pid, status)
            } else {
                &&& res == Err::<Option<AckStatus>, (u16, AckStatus)>((pid, status))
                &&& acks(*final(self)) == acks(*old(self))
            },
    {
        self.inner.insert(pid, status)
    }

    /// Calls `heapless::IndexMap::remove`, which removes a key and hands out
    /// its value.
    #[verifier::external_body]
    pub(crate) fn remove(&mut self, pid: u16) -> (res: Option<AckStatus>)
        ensures
            match res {
                Some(status) => acks(*old(self)).contains_key(pid) && status == acks(
                    *old(self),
                )[pid],
                None => !acks(*old(self)).contains_key(pid),
            },
            acks(*final(self)) == acks(*old(self)).remove(pid),
    {
        self.inner.remove(&pid)
    }

    /// Calls `heapless::IndexMap::clear`, which removes all keys.
    #[verifier::external_body]
    pub(crate) fn clear(&mut self)
        ensures
            acks(*final(self)) == (Map::<u16, AckStatus>::empty()),
    {
        self.inner.clear()
    }
}

/// A topic name or a topic filter.
#[verifier::external_body]
#[derive(Debug, PartialEq, Eq, Hash)]
pub struct TopicString {
    inner: heapless::String<MAX_TOPIC_LEN>,
}

/// The characters that a `TopicString` holds, in their order.
pub uninterp spec fn topic_chars(topic: TopicString) -> Seq<char>;

impl View for TopicString {
    type V = Seq<char>;

    open spec fn view(&self) -> Seq<char> {
        topic_chars(*self)
    }
}

impl TopicString {
    /// Calls the `FromStr` of `heapless::String`, which copies the string, or
    /// fails if it has more bytes than there is room for.
    #[verifier::external_body]
    pub(crate) fn from_str(topic: &str) -> (res: Option<Self>)
        ensures
            match res {
                Some(copy) => topic.spec_bytes().len() <= MAX_TOPIC_LEN && topic_chars(copy)
                    == topic@,
                None => topic.spec_bytes().len() > MAX_TOPIC_LEN,
            },
    {
        match core::str::FromStr::from_str(topic) {
            Ok(inner) => Some(TopicString { inner }),
            Err(_) => None,
        }
    }

    /// Calls `heapless::String::as_str`, which gives the whole string.
    #[verifier::external_body]
    pub(crate) fn as_str(&self) -> (topic: &str)
        ensures
            topic@ == topic_chars(*self),
    {
        self.inner.as_str()
    }
}

/// A buffer of bytes.
#[verifier::external_body]
#[derive(Debug)]
pub struct ByteBuffer {
    inner: heapless::Vec<u8, RX_BUF_LEN>,
}

/// The bytes that a `ByteBuffer` holds, in their order.
pub uninterp spec fn buffer_bytes(buffer: ByteBuffer) -> Seq<u8>;

impl View for ByteBuffer {
    type V = Seq<u8>;

    open spec fn view(&self) -> Seq<u8> {
        buffer_bytes(*self)
    }
}

impl ByteBuffer {
    /// Calls `heapless::Vec::new`, which makes an empty vector.
    #[verifier::external_body]
    pub(crate) fn new() -> (buffer: Self)
        ensures
            buffer_bytes(buffer) == Seq::<u8>::empty(),
    {
        ByteBuffer { inner: heapless::Vec::new() }
    }

    /// Calls `heapless::Vec::resize`, which appends copies of `value` or
    /// removes items at the end until there are `len` items, or fails and
    /// changes nothing if there is no room for that many.
    #[verifier::external_body]
    pub(crate) fn resize(&mut self, len: usize, value: u8) -> (resized: bool)
        ensures
            resized == (len <= RX_BUF_LEN),
            buffer_bytes(*final(self)) == if len > RX_BUF_LEN {
                buffer_bytes(*old(self))
            } else if len <= buffer_bytes(*old(self)).len() {
                buffer_bytes(*old(self)).take(len as int)
            } else {
                buffer_bytes(*old(self)) + Seq::new(
                    (len - buffer_bytes(*old(self)).len()) as nat,
                    |i: int| value,
                )
            },
    {
        self.inner.resize(len, value).is_ok()
    }

    /// Calls `heapless::Vec::truncate`, which removes the items from `len` on.
    #[verifier::external_body]
    pub(crate) fn truncate(&mut self, len: usize)
        ensures
            buffer_bytes(*final(self)) == if len <= buffer_bytes(*old(self)).len() {
                buffer_bytes(*old(self)).take(len as int)
            } else {
                buffer_bytes(*old(self))
            },
    {
        self.inner.truncate(len)
    }

    /// Calls `heapless::Vec::as_slice`, which gives all items in their order.
    #[verifier::external_body]
    pub(crate) fn as_slice(&self) -> (bytes: &[u8])
        ensures
            bytes@ == buffer_bytes(*self),
    {
        self.inner.as_slice()
    }

    /// Calls `heapless::Vec::as_mut_slice`, which gives all items in their
    /// order, to be changed in their places.
    #[verifier::external_body]
    pub(crate) fn as_mut_slice(&mut self) -> (bytes: &mut [u8])
        ensures
            bytes@ == buffer_bytes(*old(self)),
            buffer_bytes(*final(self)) == final(bytes)@,
    {
        self.inner.as_mut_slice()
    }
}

} // verus!
