//! Frames that carry their own length.
//!
//! A size header is put in front of each frame, so that "chunks" of data can be
//! told apart from the rest of what was granted. This is convenient when
//! receiving packets of variable sizes.
//!
//! ## Frame header
//!
//! This header is never exposed to end users of the pubsub library.
//!
//! A variable sized integer is used for the header size, and the
//! size of this header is based on the max size requested for the grant.
//! This header size must be factored in when calculating an appropriate
//! total size of your buffer.
//!
//! Even if a smaller portion of the grant is committed, the
//! requested grant size will be used for the header size calculation.
//!
//! For example, if you request a 128 byte grant, the header size will
//! be two bytes. If you then only commit 32 bytes, two bytes will still
//! be used for the header of that grant.
//!
//! | Grant Size (bytes)    | Header size (bytes)  |
//! | :---                  | :---                 |
//! | 1..(2^7)              | 1                    |
//! | (2^7)..(2^14)         | 2                    |
//! | (2^14)..(2^21)        | 3                    |
//! | (2^21)..(2^28)        | 4                    |
//! | (2^28)..(2^35)        | 5                    |
//! | (2^35)..(2^42)        | 6                    |
//! | (2^42)..(2^49)        | 7                    |
//! | (2^49)..(2^56)        | 8                    |
//! | (2^56)..(2^64)        | 9                    |
use vstd::prelude::*;

use super::channel;
use super::channel::{
    committed, lemma_frame_bounds, lemma_grant_bounds, lemma_splice_keeps_frame, released, splice,
    taken, ChannelView, PubSubChannel, Wake,
};
use super::layout::Region;
use super::vusize::{
    decode_usize, decoded_len, encode_usize_to_slice, encoded_len, law_vusize_round_trip, len_of,
    vusize_at, vusize_bytes, vusize_len,
};
use super::{BufferProvider, Error};

verus! {

/// Whether `bytes` start with a header, and hold the frame that it announces.
pub open spec fn is_frame(bytes: Seq<u8>) -> bool {
    bytes.len() > 0 && len_of(bytes[0]) <= bytes.len() && len_of(bytes[0]) + vusize_at(bytes)
        <= bytes.len()
}

/// The frame behind a header.
pub open spec fn content(bytes: Seq<u8>) -> Seq<u8> {
    bytes.subrange(len_of(bytes[0]) as int, (len_of(bytes[0]) + vusize_at(bytes)) as int)
}

/// The smaller one of two numbers.
pub open spec fn smaller(a: int, b: int) -> int {
    if a <= b {
        a
    } else {
        b
    }
}

/// A Publisher of Framed data
pub struct FramePublisher {
    publisher: channel::FramePublisher,
}

impl FramePublisher {
    /// Publishes framed data with `publisher`.
    pub fn new(publisher: channel::FramePublisher) -> (res: Self)
        ensures
            res.inner() == publisher,
    {
        FramePublisher { publisher }
    }

    /// The publisher that publishes the data.
    pub closed spec fn inner(&self) -> channel::FramePublisher {
        self.publisher
    }

    /// Receive a grant for a frame with a maximum size of `max_sz` in bytes.
    ///
    /// This size does not include the size of the frame header. The exact size
    /// of the frame can be set on `commit`.
    pub fn grant<B: BufferProvider, const SUBS: usize>(
        &mut self,
        channel: &mut PubSubChannel<B, SUBS>,
        max_sz: usize,
    ) -> (res: Result<FrameGrantW, Error>)
        requires
            old(channel).wf(),
            max_sz + vusize_len(max_sz as u64) <= usize::MAX,
        ensures
            final(self).inner() == old(self).inner(),
            final(channel).wf(),
            ({
                let view = old(channel)@;
                let total = max_sz + vusize_len(max_sz as u64);
                match res {
                    Ok(grant) => {
                        &&& view.grant is None
                        &&& total <= view.free_space()
                        &&& view.messages.len() < crate::crate_config::MAX_PUBSUB_MESSAGES
                        &&& grant.wf()
                        &&& grant@ == (Region {
                            start: super::layout::place(
                                channel::regions(view.messages),
                                view.bytes.len() as int,
                                total,
                            ),
                            len: total,
                        })
                        &&& grant.header_len() == vusize_len(max_sz as u64)
                        &&& grant.auto_commit() == 0
                        &&& final(channel)@ == (ChannelView { grant: Some(grant@), ..view })
                    },
                    Err(Error::GrantInProgress) => {
                        &&& view.grant is Some
                        &&& final(channel)@ == view
                    },
                    Err(Error::InsufficientSize) => {
                        &&& view.grant is None
                        &&& total > view.free_space() || view.messages.len()
                            == crate::crate_config::MAX_PUBSUB_MESSAGES
                        &&& final(channel)@ == view
                    },
                    Err(_) => false,
                }
            }),
    {
        let hdr_len: usize = encoded_len(max_sz as u64);
        match self.publisher.grant(channel, max_sz + hdr_len) {
            Ok(grant) => Ok(FrameGrantW { grant, max_sz, hdr_len }),
            Err(error) => Err(error),
        }
    }
}

/// A write grant for a single frame
///
/// NOTE: If the grant is finished without explicitly committing
/// the contents without first calling `to_commit()`, then no
/// frame will be committed for writing.
pub struct FrameGrantW {
    grant: channel::FrameGrantW,
    max_sz: usize,
    hdr_len: usize,
}

impl View for FrameGrantW {
    type V = Region;

    /// What is granted for writing, header included.
    closed spec fn view(&self) -> Region {
        self.grant@
    }
}

/// A channel in which the header of a frame of `frame_len` bytes has been
/// written to the start of what is granted for writing.
pub open spec fn with_header(view: ChannelView, frame_len: int, hdr_len: int) -> ChannelView {
    ChannelView {
        bytes: splice(
            view.bytes,
            view.grant->0.start,
            vusize_bytes(frame_len as u64, hdr_len as nat),
        ),
        ..view
    }
}

impl FrameGrantW {
    /// What holds of every grant: the header has room for the length of any
    /// frame that fits.
    pub closed spec fn wf(&self) -> bool {
        &&& self.hdr_len == vusize_len(self.max_sz as u64)
        &&& self.grant@.len == self.max_sz + self.hdr_len
    }

    /// The number of bytes of the header.
    pub closed spec fn header_len(&self) -> int {
        self.hdr_len as int
    }

    /// The number of bytes that are committed when the grant is finished,
    /// header included.
    pub closed spec fn auto_commit(&self) -> int {
        self.grant.auto_commit()
    }

    /// The packet identifier of the frame, `0` if it has none.
    pub closed spec fn pid(&self) -> u16 {
        self.grant.pid()
    }

    /// Obtain access to the frame for writing
    pub fn buf<'c, B: BufferProvider, const SUBS: usize>(
        &mut self,
        channel: &'c mut PubSubChannel<B, SUBS>,
    ) -> (buf: &'c mut [u8])
        requires
            old(self).wf(),
            old(channel).wf(),
            old(channel)@.grant == Some(old(self)@),
        ensures
            *final(self) == *old(self),
            buf@ == old(channel)@.bytes.subrange(
                old(self)@.start + old(self).header_len(),
                old(self)@.end(),
            ),
            final(buf)@.len() == buf@.len() ==> {
                &&& final(channel).wf()
                &&& final(channel)@ == (ChannelView {
                    bytes: splice(
                        old(channel)@.bytes,
                        old(self)@.start + old(self).header_len(),
                        final(buf)@,
                    ),
                    ..old(channel)@
                })
                &&& forall|i: int|
                    0 <= i < old(channel)@.messages.len() ==> final(channel)@.frame(i)
                        == #[trigger] old(channel)@.frame(i)
            },
    {
        let ghost view = channel@;
        let ghost region = self@;
        proof {
            channel.lemma_wf();
            lemma_grant_bounds(view);
            assert(view.bytes.subrange(region.start, region.end()).skip(self.hdr_len as int)
                =~= view.bytes.subrange(region.start + self.hdr_len, region.end()));
            assert forall|part: Seq<u8>|
                part.len() == region.len - self.hdr_len implies #[trigger] splice(
                view.bytes,
                region.start + self.hdr_len,
                part,
            ) == splice(
                view.bytes,
                region.start,
                view.bytes.subrange(region.start, region.end()).take(self.hdr_len as int)
                    + part,
            ) by {
                assert(splice(view.bytes, region.start + self.hdr_len, part) =~= splice(
                    view.bytes,
                    region.start,
                    view.bytes.subrange(region.start, region.end()).take(self.hdr_len as int)
                        + part,
                ));
            }
        }
        let all: &'c mut [u8] = self.grant.buf(channel);
        let (_, part) = all.split_at_mut(self.hdr_len);
        part
    }

    /// Set the header and return the total size
    fn set_header<B: BufferProvider, const SUBS: usize>(
        &mut self,
        channel: &mut PubSubChannel<B, SUBS>,
        used: usize,
    ) -> (total_len: usize)
        requires
            old(self).wf(),
            old(channel).wf(),
            old(channel)@.grant == Some(old(self)@),
        ensures
            *final(self) == *old(self),
            final(channel).wf(),
            ({
                let frame_len = smaller(
                    used as int,
                    old(self)@.len - old(self).header_len(),
                );
                &&& total_len == frame_len + old(self).header_len()
                &&& total_len > 0
                &&& final(channel)@ == with_header(
                    old(channel)@,
                    frame_len,
                    old(self).header_len(),
                )
            }),
    {
        // Saturate the commit size to the available frame size
        let frame_len: usize = if used <= self.max_sz {
            used
        } else {
            self.max_sz
        };
        let hdr_len: usize = self.hdr_len;
        let ghost view = channel@;
        let ghost region = self@;
        let ghost header = vusize_bytes(frame_len as u64, hdr_len as nat);
        proof {
            channel.lemma_wf();
            lemma_grant_bounds(view);
            law_vusize_round_trip(frame_len as u64, hdr_len as nat, seq![]);
            assert(splice(view.bytes, region.start, header) =~= splice(
                view.bytes,
                region.start,
                header + view.bytes.subrange(region.start, region.end()).skip(hdr_len as int),
            ));
        }
        let all: &mut [u8] = self.grant.buf(channel);
        // Write the actual frame length to the header
        encode_usize_to_slice(frame_len as u64, hdr_len, all);
        frame_len + hdr_len
    }

    /// Commit a frame to make it available to the Subscriber half.
    ///
    /// `used` is the size of the payload, in bytes, not
    /// including the frame header
    pub fn commit<B: BufferProvider, const SUBS: usize>(
        self,
        channel: &mut PubSubChannel<B, SUBS>,
        used: usize,
    ) -> (wake: Wake)
        requires
            self.wf(),
            old(channel).wf(),
            old(channel)@.grant == Some(self@),
            old(channel)@.next_id < u64::MAX,
        ensures
            final(channel).wf(),
            ({
                let frame_len = smaller(used as int, self@.len - self.header_len());
                final(channel)@ == committed(
                    with_header(old(channel)@, frame_len, self.header_len()),
                    frame_len + self.header_len(),
                    self.pid(),
                )
            }),
            wake == (Wake { publisher: false, subscribers: old(channel)@.subscribers > 0 }),
    {
        let mut this = self;
        let total_len: usize = this.set_header(channel, used);
        // Commit the header + frame
        this.grant.commit(channel, total_len)
    }

    /// Configures the amount of bytes to be committed when the grant is
    /// finished.
    pub fn to_commit<B: BufferProvider, const SUBS: usize>(
        &mut self,
        channel: &mut PubSubChannel<B, SUBS>,
        amt: usize,
    )
        requires
            old(self).wf(),
            old(channel).wf(),
            old(channel)@.grant == Some(old(self)@),
        ensures
            final(self).wf(),
            final(self)@ == old(self)@,
            final(self).header_len() == old(self).header_len(),
            final(self).pid() == old(self).pid(),
            final(channel).wf(),
            ({
                let frame_len = smaller(amt as int, old(self)@.len - old(self).header_len());
                if amt == 0 {
                    &&& final(self).auto_commit() == 0
                    &&& final(channel)@ == old(channel)@
                } else {
                    &&& final(self).auto_commit() == frame_len + old(self).header_len()
                    &&& final(channel)@ == with_header(
                        old(channel)@,
                        frame_len,
                        old(self).header_len(),
                    )
                }
            }),
    {
        if amt == 0 {
            self.grant.to_commit(0);
        } else {
            let size: usize = self.set_header(channel, amt);
            self.grant.to_commit(size);
        }
    }

    /// Ends the grant. Commits what `to_commit()` was told to, if anything.
    pub fn finish<B: BufferProvider, const SUBS: usize>(
        self,
        channel: &mut PubSubChannel<B, SUBS>,
    ) -> (wake: Wake)
        requires
            self.wf(),
            old(channel).wf(),
            old(channel)@.grant == Some(self@),
            old(channel)@.next_id < u64::MAX,
        ensures
            final(channel).wf(),
            final(channel)@ == if self.auto_commit() == 0 {
                ChannelView { grant: None, ..old(channel)@ }
            } else {
                committed(
                    old(channel)@,
                    smaller(self.auto_commit(), self@.len),
                    self.pid(),
                )
            },
            wake == (Wake {
                publisher: false,
                subscribers: self.auto_commit() > 0 && old(channel)@.subscribers > 0,
            }),
    {
        self.grant.finish(channel)
    }
}

/// A Subscriber of Framed data
pub struct FrameSubscriber {
    subscriber: channel::FrameSubscriber,
}

impl FrameSubscriber {
    /// Reads framed data with `subscriber`.
    pub fn new(subscriber: channel::FrameSubscriber) -> (res: Self)
        ensures
            res.inner() == subscriber,
    {
        FrameSubscriber { subscriber }
    }

    /// The subscriber that reads the data.
    pub closed spec fn inner(&self) -> channel::FrameSubscriber {
        self.subscriber
    }

    /// Where the message that is to be read next stands, or will stand, among
    /// the messages of the channel.
    pub open spec fn next_index(&self, view: ChannelView) -> int {
        if self.inner().next_message_id() < view.start_id() {
            0
        } else {
            self.inner().next_message_id() - view.start_id()
        }
    }

    /// Obtain the next available frame, if any
    pub fn read<B: BufferProvider, const SUBS: usize>(
        &mut self,
        channel: &mut PubSubChannel<B, SUBS>,
    ) -> (res: Option<FrameGrantR>)
        requires
            old(channel).wf(),
            old(self).inner().of(old(channel)@),
            ({
                let view = old(channel)@;
                let index = old(self).next_index(view);
                index < view.messages.len() && !view.messages[index].read_in_progress ==> is_frame(
                    view.frame(index),
                )
            }),
        ensures
            final(channel).wf(),
            final(self).inner().of(final(channel)@),
            final(self).inner().id() == old(self).inner().id(),
            ({
                let view = old(channel)@;
                let index = old(self).next_index(view);
                let next = view.start_id() + index;
                match res {
                    Some(grant) => {
                        &&& index < view.messages.len()
                        &&& !view.messages[index].read_in_progress
                        &&& grant.wf()
                        &&& grant.whole() == view.messages[index].region()
                        &&& view.bytes.subrange(grant@.start, grant@.end()) == content(
                            view.frame(index),
                        )
                        &&& grant.message_id() == next
                        &&& !grant.releases()
                        &&& final(self).inner().next_message_id() == next + 1
                        &&& final(channel)@ == (ChannelView {
                            messages: taken(view.messages, index),
                            cursors: view.cursors.insert(
                                old(self).inner().id(),
                                (next + 1) as u64,
                            ),
                            ..view
                        })
                    },
                    None => {
                        &&& index >= view.messages.len() || view.messages[index].read_in_progress
                        &&& final(self).inner().next_message_id() == next
                        &&& final(channel)@ == (ChannelView {
                            cursors: view.cursors.insert(old(self).inner().id(), next as u64),
                            ..view
                        })
                    },
                }
            }),
    {
        let ghost view = channel@;
        proof {
            channel.lemma_wf();
        }
        let grant = match self.subscriber.read(channel) {
            Ok(grant) => grant,
            Err(_) => return None,
        };
        let ghost index = grant.message_id() - view.start_id();
        let ghost bytes = view.frame(index);
        proof {
            lemma_frame_bounds(view, index);
            assert(is_frame(bytes));
        }
        // We never commit less than a full frame with a header, so if we have
        // any data, we'll have a full header and frame.
        let all: &[u8] = grant.buf(channel);
        assert(all@ == bytes);
        let hdr_len: usize = decoded_len(all[0]);
        let frame_len: usize = decode_usize(all) as usize;
        assert(view.bytes.subrange(grant@.start + hdr_len, grant@.start + hdr_len + frame_len)
            =~= content(bytes));
        // Reduce the grant down to the size of the frame
        Some(FrameGrantR { grant, hdr_len, frame_len })
    }
}

/// A read grant for a single frame
///
/// NOTE: If the grant is finished without explicitly releasing
/// the contents, then no frame will be released.
pub struct FrameGrantR {
    grant: channel::FrameGrantR,
    hdr_len: usize,
    frame_len: usize,
}

impl View for FrameGrantR {
    type V = Region;

    /// The frame, without its header.
    closed spec fn view(&self) -> Region {
        Region { start: self.grant@.start + self.hdr_len, len: self.frame_len as int }
    }
}

impl FrameGrantR {
    /// The number of the message.
    pub closed spec fn message_id(&self) -> u64 {
        self.grant.message_id()
    }

    /// Whether the frame is released when the grant is finished.
    pub closed spec fn releases(&self) -> bool {
        self.grant.releases()
    }

    /// What was granted for reading, header included.
    pub closed spec fn whole(&self) -> Region {
        self.grant@
    }

    /// What holds of every grant: the frame is a part of what was granted.
    pub closed spec fn wf(&self) -> bool {
        &&& 0 <= self.grant@.start
        &&& self.hdr_len + self.frame_len <= self.grant@.len <= u16::MAX
    }

    /// Obtain access to the frame for reading
    pub fn buf<'c, B: BufferProvider, const SUBS: usize>(
        &self,
        channel: &'c mut PubSubChannel<B, SUBS>,
    ) -> (buf: &'c [u8])
        requires
            self.wf(),
            old(channel).wf(),
            self.whole().end() <= old(channel)@.bytes.len(),
        ensures
            buf@ == old(channel)@.bytes.subrange(self@.start, self@.end()),
            final(channel).wf(),
            final(channel)@ == old(channel)@,
    {
        let ghost view = channel@;
        let all: &'c [u8] = self.grant.buf(channel);
        let part: &'c [u8] = vstd::slice::slice_subrange(
            all,
            self.hdr_len,
            self.hdr_len + self.frame_len,
        );
        assert(part@ =~= view.bytes.subrange(self@.start, self@.end()));
        part
    }

    /// Obtain mutable access to the frame
    pub fn buf_mut<'c, B: BufferProvider, const SUBS: usize>(
        &mut self,
        channel: &'c mut PubSubChannel<B, SUBS>,
    ) -> (buf: &'c mut [u8])
        requires
            old(self).wf(),
            old(channel).wf(),
            old(self).whole().end() <= old(channel)@.bytes.len(),
        ensures
            *final(self) == *old(self),
            buf@ == old(channel)@.bytes.subrange(old(self)@.start, old(self)@.end()),
            final(buf)@.len() == buf@.len() ==> {
                &&& final(channel).wf()
                &&& final(channel)@ == (ChannelView {
                    bytes: splice(old(channel)@.bytes, old(self)@.start, final(buf)@),
                    ..old(channel)@
                })
            },
    {
        let ghost view = channel@;
        let ghost whole = self.whole();
        let ghost hdr = self.hdr_len as int;
        proof {
            let inner = view.bytes.subrange(whole.start, whole.end());
            assert(inner.skip(hdr).take(self.frame_len as int) =~= view.bytes.subrange(
                self@.start,
                self@.end(),
            ));
            assert forall|part: Seq<u8>| part.len() == self.frame_len implies #[trigger] splice(
                view.bytes,
                self@.start,
                part,
            ) == splice(
                view.bytes,
                whole.start,
                inner.take(hdr) + (part + inner.skip(hdr).skip(self.frame_len as int)),
            ) by {
                assert(splice(view.bytes, self@.start, part) =~= splice(
                    view.bytes,
                    whole.start,
                    inner.take(hdr) + (part + inner.skip(hdr).skip(self.frame_len as int)),
                ));
            }
        }
        let all: &'c mut [u8] = self.grant.buf_mut(channel);
        let (_, rest) = all.split_at_mut(self.hdr_len);
        let (part, _) = rest.split_at_mut(self.frame_len);
        part
    }

    /// Release a frame to make the space available for future writing
    ///
    /// Note: The full frame is always released
    pub fn release<B: BufferProvider, const SUBS: usize>(
        self,
        channel: &mut PubSubChannel<B, SUBS>,
    ) -> (wake: Wake)
        requires
            old(channel).wf(),
        ensures
            final(channel).wf(),
            ({
                let view = old(channel)@;
                let index = self.message_id() - view.start_id();
                if 0 <= index < view.messages.len() && view.messages[index].read_in_progress {
                    &&& final(channel)@ == (ChannelView {
                        messages: released(view.messages, index),
                        ..view
                    })
                    &&& wake == (Wake {
                        publisher: released(view.messages, index).len() < view.messages.len(),
                        subscribers: true,
                    })
                } else {
                    &&& final(channel)@ == view
                    &&& wake == (Wake { publisher: false, subscribers: false })
                }
            }),
    {
        self.grant.release(channel)
    }

    /// Set whether the read frame should be automatically released
    pub fn auto_release(&mut self, is_auto: bool)
        requires
            old(self).wf(),
        ensures
            final(self).wf(),
            final(self)@ == old(self)@,
            final(self).whole() == old(self).whole(),
            final(self).message_id() == old(self).message_id(),
            final(self).releases() == is_auto,
    {
        self.grant.auto_release(is_auto);
    }

    /// Ends the grant, and releases the frame if it is to be released
    /// automatically.
    pub fn finish<B: BufferProvider, const SUBS: usize>(
        self,
        channel: &mut PubSubChannel<B, SUBS>,
    ) -> (wake: Wake)
        requires
            old(channel).wf(),
        ensures
            final(channel).wf(),
            ({
                let view = old(channel)@;
                let index = self.message_id() - view.start_id();
                if self.releases() && 0 <= index < view.messages.len()
                    && view.messages[index].read_in_progress {
                    &&& final(channel)@ == (ChannelView {
                        messages: released(view.messages, index),
                        ..view
                    })
                    &&& wake == (Wake {
                        publisher: released(view.messages, index).len() < view.messages.len(),
                        subscribers: true,
                    })
                } else {
                    &&& final(channel)@ == view
                    &&& wake == (Wake { publisher: false, subscribers: false })
                }
            }),
    {
        self.grant.finish(channel)
    }
}

/// A frame that is written into a grant for at most `max_sz` bytes and then
/// committed is the content of the newest message, cut off at the granted size.
pub proof fn law_frame_gives_back_what_was_written(
    view: ChannelView,
    max_sz: usize,
    written: Seq<u8>,
    used: usize,
    pid: u16,
)
    requires
        view.valid(),
        view.grant is Some,
        view.grant->0.len == max_sz + vusize_len(max_sz as u64),
        view.grant->0.len <= u16::MAX,
        view.subscribers > 0,
        written.len() == max_sz,
    ensures
        ({
            let hdr_len = vusize_len(max_sz as u64);
            let filled = ChannelView {
                bytes: splice(view.bytes, view.grant->0.start + hdr_len, written),
                ..view
            };
            let frame_len = smaller(used as int, max_sz as int);
            let after = committed(
                with_header(filled, frame_len, hdr_len as int),
                frame_len + hdr_len,
                pid,
            );
            &&& after.messages.len() == view.messages.len() + 1
            &&& is_frame(after.frame(view.messages.len() as int))
            &&& content(after.frame(view.messages.len() as int)) == written.take(frame_len)
        }),
{
    let hdr_len = vusize_len(max_sz as u64);
    let start = view.grant->0.start;
    let frame_len = smaller(used as int, max_sz as int);
    let filled = ChannelView { bytes: splice(view.bytes, start + hdr_len, written), ..view };
    let headed = with_header(filled, frame_len, hdr_len as int);
    let after = committed(headed, frame_len + hdr_len, pid);
    let header = vusize_bytes(frame_len as u64, hdr_len);
    lemma_grant_bounds(view);
    law_vusize_round_trip(frame_len as u64, hdr_len, written.take(frame_len));
    assert(after.frame(view.messages.len() as int) =~= header + written.take(frame_len));
    assert(content(header + written.take(frame_len)) =~= written.take(frame_len));
}

/// A grant for a frame has room for the frame and for the header that the length
/// of the frame takes, and is given if and only if the channel has room for
/// both.
pub proof fn law_framed_grant<B: BufferProvider, const SUBS: usize>(
    publisher: &mut FramePublisher,
    channel: &mut PubSubChannel<B, SUBS>,
    max_sz: usize,
    res: Result<FrameGrantW, Error>,
)
    requires
        max_sz + vusize_len(max_sz as u64) <= usize::MAX,
        call_ensures(FramePublisher::grant::<B, SUBS>, (publisher, channel, max_sz), res),
        old(channel)@.valid(),
    ensures
        ({
            let before = old(channel)@;
            let after = final(channel)@;
            let total = max_sz + vusize_len(max_sz as u64);
            &&& after == (ChannelView { grant: after.grant, ..before })
            &&& res is Ok <==> before.grant is None && total <= before.free_space()
                && before.messages.len() < crate::crate_config::MAX_PUBSUB_MESSAGES
            &&& res is Err ==> after == before
            &&& res matches Err(e) ==> e == if before.grant is Some {
                Error::GrantInProgress
            } else {
                Error::InsufficientSize
            }
            &&& res matches Ok(grant) ==> {
                &&& after.grant == Some(grant@)
                &&& grant@.len == total
                &&& grant.header_len() == total - max_sz
                &&& 0 <= grant@.start
                &&& grant@.end() <= before.bytes.len()
            }
        }),
{
    if res is Ok {
        final(channel).lemma_wf();
        lemma_grant_bounds(final(channel)@);
    }
}

/// A frame that is committed is what was written behind the header, cut off at
/// what was granted, and the header tells its length. The other messages and
/// their frames stay as they are.
pub proof fn law_framed_commit<B: BufferProvider, const SUBS: usize>(
    grant: FrameGrantW,
    channel: &mut PubSubChannel<B, SUBS>,
    used: usize,
    wake: Wake,
    i: int,
)
    requires
        grant.wf(),
        old(channel)@.valid(),
        old(channel)@.grant == Some(grant@),
        old(channel)@.next_id < u64::MAX,
        old(channel)@.subscribers > 0,
        grant@.len <= u16::MAX,
        call_ensures(FrameGrantW::commit::<B, SUBS>, (grant, channel, used), wake),
        0 <= i < old(channel)@.messages.len(),
    ensures
        ({
            let before = old(channel)@;
            let after = final(channel)@;
            let n = before.messages.len() as int;
            let room = grant@.len - grant.header_len();
            let len = if used <= room {
                used as int
            } else {
                room
            };
            let frame = after.frame(n);
            &&& after.grant is None
            &&& after.messages.len() == n + 1
            &&& after.messages.take(n) == before.messages
            &&& after.frame(i) == before.frame(i)
            &&& frame.len() == grant.header_len() + len
            &&& frame.skip(grant.header_len()) == before.bytes.subrange(
                grant@.start + grant.header_len(),
                grant@.start + grant.header_len() + len,
            )
            &&& len_of(frame[0]) == grant.header_len()
            &&& vusize_at(frame) == len
            &&& wake.subscribers && !wake.publisher
        }),
{
    let before = old(channel)@;
    let after = final(channel)@;
    let n = before.messages.len() as int;
    let hdr = grant.header_len();
    let room = grant@.len - hdr;
    let len = smaller(used as int, room);
    lemma_grant_bounds(before);
    let header = vusize_bytes(len as u64, hdr as nat);
    let rest = before.bytes.subrange(grant@.start + hdr, grant@.start + hdr + len);
    law_vusize_round_trip(len as u64, hdr as nat, rest);
    assert(after.frame(n) =~= header + rest);
    assert(after.frame(n).skip(hdr) =~= rest);
    assert(after.messages.take(n) =~= before.messages);
    let part = header + before.bytes.subrange(grant@.start + hdr, grant@.end());
    lemma_splice_keeps_frame(before, part, i);
    assert(splice(before.bytes, grant@.start, part) =~= splice(
        before.bytes,
        grant@.start,
        header,
    ));
    assert(after.frame(i) =~= before.frame(i));
}

/// What is read is what stands behind the header, as long as the header tells.
pub proof fn law_framed_read<B: BufferProvider, const SUBS: usize>(
    subscriber: &mut FrameSubscriber,
    channel: &mut PubSubChannel<B, SUBS>,
    res: Option<FrameGrantR>,
    index: int,
    header_len: int,
    len: int,
)
    requires
        old(channel)@.valid(),
        old(subscriber).inner().of(old(channel)@),
        0 <= index < old(channel)@.messages.len(),
        old(channel)@.messages[index].message_id == old(subscriber).inner().next_message_id() || (
        index == 0 && old(subscriber).inner().next_message_id() < old(
            channel,
        )@.messages[0].message_id),
        header_len == len_of(old(channel)@.frame(index)[0]),
        len == vusize_at(old(channel)@.frame(index)),
        0 < header_len + len <= old(channel)@.messages[index].len,
        call_ensures(FrameSubscriber::read::<B, SUBS>, (subscriber, channel), res),
    ensures
        ({
            let before = old(channel)@;
            let after = final(channel)@;
            let message = before.messages[index];
            &&& res is Some <==> !message.read_in_progress
            &&& after.bytes == before.bytes
            &&& after.grant == before.grant
            &&& res is None ==> after.messages == before.messages
            &&& res matches Some(grant) ==> {
                &&& before.bytes.subrange(grant@.start, grant@.end()) == before.bytes.subrange(
                    message.start + header_len,
                    message.start + header_len + len,
                )
                &&& grant.message_id() == message.message_id
                &&& final(subscriber).inner().next_message_id() == message.message_id + 1
                &&& after.messages[index].read_in_progress
            }
        }),
{
    let before = old(channel)@;
    assert(before.messages[0].message_id == before.start_id());
    lemma_frame_bounds(before, index);
    let message = before.messages[index];
    assert(content(before.frame(index)) =~= before.bytes.subrange(
        message.start + header_len,
        message.start + header_len + len,
    ));
}

/// A framed read grant is released as the one that it was made of: the release
/// ends the read of the message, and removes messages from the front that nobody
/// needs any more.
pub proof fn law_framed_release<B: BufferProvider, const SUBS: usize>(
    grant: FrameGrantR,
    channel: &mut PubSubChannel<B, SUBS>,
    wake: Wake,
    index: int,
)
    requires
        old(channel)@.valid(),
        0 <= index < old(channel)@.messages.len(),
        old(channel)@.messages[index].message_id == grant.message_id(),
        call_ensures(FrameGrantR::release::<B, SUBS>, (grant, channel), wake),
    ensures
        !old(channel)@.messages[index].read_in_progress ==> final(channel)@ == old(channel)@
            && !wake.publisher && !wake.subscribers,
        old(channel)@.messages[index].read_in_progress ==> {
            &&& final(channel)@ == (ChannelView {
                messages: released(old(channel)@.messages, index),
                ..old(channel)@
            })
            &&& wake.subscribers
            &&& wake.publisher <==> final(channel)@.messages.len() < old(channel)@.messages.len()
        },
{
}

/// A framed write grant that ends commits the frame that it was told to, whose
/// header has been written then, and nothing if it was told nothing.
pub proof fn law_framed_write_grant_ends<B: BufferProvider, const SUBS: usize>(
    grant: &mut FrameGrantW,
    channel: &mut PubSubChannel<B, SUBS>,
    amt: usize,
)
    requires
        old(grant).wf(),
        old(channel)@.valid(),
        old(channel)@.grant == Some(old(grant)@),
        call_ensures(FrameGrantW::to_commit::<B, SUBS>, (grant, channel, amt), ()),
    ensures
        ({
            let before = old(channel)@;
            let after = final(channel)@;
            let hdr = old(grant).header_len();
            let room = old(grant)@.len - hdr;
            let len = if amt <= room {
                amt as int
            } else {
                room
            };
            let start = old(grant)@.start;
            &&& final(grant)@ == old(grant)@
            &&& after == (ChannelView { bytes: after.bytes, ..before })
            &&& amt == 0 ==> final(grant).auto_commit() == 0 && after.bytes == before.bytes
            &&& amt > 0 ==> {
                let head = after.bytes.subrange(start, start + hdr);
                &&& final(grant).auto_commit() == hdr + len
                &&& len_of(head[0]) == hdr
                &&& vusize_at(head) == len
                &&& after.bytes.skip(start + hdr) == before.bytes.skip(start + hdr)
                &&& after.bytes.take(start) == before.bytes.take(start)
            }
        }),
{
    let before = old(channel)@;
    let after = final(channel)@;
    let hdr = old(grant).header_len();
    let start = old(grant)@.start;
    lemma_grant_bounds(before);
    if amt > 0 {
        let len = smaller(amt as int, old(grant)@.len - hdr);
        let header = vusize_bytes(len as u64, hdr as nat);
        law_vusize_round_trip(len as u64, hdr as nat, seq![]);
        assert(header + Seq::<u8>::empty() =~= header);
        assert(after.bytes.subrange(start, start + hdr) =~= header);
        assert(after.bytes.skip(start + hdr) =~= before.bytes.skip(start + hdr));
        assert(after.bytes.take(start) =~= before.bytes.take(start));
    }
}

} // verus!
