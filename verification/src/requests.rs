use vstd::prelude::*;

use crate::encoding::utils::QoS;

verus! {

/// What can be published.
pub trait PublishPayload: Sized {
    /// The bytes that are published.
    spec fn bytes(&self) -> Seq<u8>;

    /// Whether a payload can be made out of these bytes.
    spec fn holds(bytes: Seq<u8>) -> bool;

    /// Copies the payload to the start of `buffer` and returns its length.
    fn as_bytes(&self, buffer: &mut [u8]) -> (res: Result<usize, ()>)
        ensures
            match res {
                Ok(len) => {
                    &&& len == self.bytes().len()
                    &&& len <= old(buffer)@.len()
                    &&& final(buffer)@ == self.bytes() + old(buffer)@.skip(len as int)
                },
                Err(_) => {
                    &&& self.bytes().len() > old(buffer)@.len()
                    &&& final(buffer)@ == old(buffer)@
                },
            },
    ;

    /// Makes a payload out of bytes.
    fn from_bytes(v: &[u8]) -> (payload: Self)
        requires
            Self::holds(v@),
        ensures
            payload.bytes() == v@,
    ;
}

impl PublishPayload for Vec<u8> {
    open spec fn bytes(&self) -> Seq<u8> {
        self@
    }

    open spec fn holds(bytes: Seq<u8>) -> bool {
        true
    }

    fn as_bytes(&self, buffer: &mut [u8]) -> (res: Result<usize, ()>) {
        let ghost before = buffer@;
        let len: usize = self.len();
        if buffer.len() < len {
            return Err(());
        }
        let mut i: usize = 0;
        while i < len
            invariant
                i <= len == self@.len(),
                len <= buffer@.len() == before.len(),
                forall|j: int| 0 <= j < i ==> buffer@[j] == self@[j],
                forall|j: int| i <= j < before.len() ==> buffer@[j] == before[j],
            decreases len - i,
        {
            buffer[i] = self[i];
            i = i + 1;
        }
        assert(buffer@ =~= self@ + before.skip(len as int));
        Ok(len)
    }

    fn from_bytes(v: &[u8]) -> (payload: Self) {
        let mut payload: Vec<u8> = Vec::new();
        payload.extend_from_slice(v);
        assert(payload@ =~= v@);
        payload
    }
}

/// Publish request.
#[derive(Debug, Clone, PartialEq)]
pub struct PublishRequest<P> {
    pub dup: bool,
    pub qos: QoS,
    pub retain: bool,
    pub topic_name: String,
    pub payload: P,
}

impl<P: PublishPayload> PublishRequest<P> {
    pub fn new(topic_name: String, payload: P) -> (request: Self)
        ensures
            request == (PublishRequest {
                dup: false,
                qos: QoS::AtLeastOnce,
                retain: false,
                topic_name,
                payload,
            }),
    {
        PublishRequest { dup: false, qos: QoS::AtLeastOnce, retain: false, topic_name, payload }
    }

    pub fn qos(self, qos: QoS) -> (request: Self)
        ensures
            request == (PublishRequest { qos, ..self }),
    {
        PublishRequest { qos, ..self }
    }
}

/// A topic filter with the quality of service that is asked for.
#[derive(Debug, Clone, PartialEq)]
pub struct SubscribeRequestTopic {
    pub topic_path: String,
    pub qos: QoS,
}

/// Subscribe request.
#[derive(Debug, Clone, PartialEq)]
pub struct SubscribeRequest {
    pub topics: Vec<SubscribeRequestTopic>,
}

/// Unsubscribe request.
#[derive(Debug, Clone, PartialEq)]
pub struct UnsubscribeRequest {
    pub topics: Vec<String>,
}

/// Requests by the client to mqtt event loop. Request are
/// handle one by one
#[derive(Debug, Clone, PartialEq)]
pub enum Request<P> {
    Publish(PublishRequest<P>),
    Subscribe(SubscribeRequest),
    Unsubscribe(UnsubscribeRequest),
    Disconnect,
}

impl<P: PublishPayload> From<PublishRequest<P>> for Request<P> {
    fn from(publish: PublishRequest<P>) -> (request: Self) {
        Request::Publish(publish)
    }
}

impl<P: PublishPayload> vstd::std_specs::convert::FromSpecImpl<PublishRequest<P>> for Request<P> {
    open spec fn obeys_from_spec() -> bool {
        true
    }

    open spec fn from_spec(publish: PublishRequest<P>) -> Self {
        Request::Publish(publish)
    }
}

impl<P: PublishPayload> From<SubscribeRequest> for Request<P> {
    fn from(subscribe: SubscribeRequest) -> (request: Self) {
        Request::Subscribe(subscribe)
    }
}

impl<P: PublishPayload> vstd::std_specs::convert::FromSpecImpl<SubscribeRequest> for Request<P> {
    open spec fn obeys_from_spec() -> bool {
        true
    }

    open spec fn from_spec(subscribe: SubscribeRequest) -> Self {
        Request::Subscribe(subscribe)
    }
}

impl<P: PublishPayload> From<UnsubscribeRequest> for Request<P> {
    fn from(unsubscribe: UnsubscribeRequest) -> (request: Self) {
        Request::Unsubscribe(unsubscribe)
    }
}

impl<P: PublishPayload> vstd::std_specs::convert::FromSpecImpl<UnsubscribeRequest> for Request<P> {
    open spec fn obeys_from_spec() -> bool {
        true
    }

    open spec fn from_spec(unsubscribe: UnsubscribeRequest) -> Self {
        Request::Unsubscribe(unsubscribe)
    }
}

/// Bytes are published as they are, and any bytes are a payload.
pub proof fn law_bytes_are_published_as_they_are(payload: Vec<u8>, bytes: Seq<u8>)
    ensures
        payload.bytes() == payload@,
        Vec::<u8>::holds(bytes),
{
}

/// A request to publish asks for delivery at least once, unless another quality
/// of service is set, and holds its topic and payload.
pub proof fn law_publish_requests<P: PublishPayload>(
    topic_name: String,
    payload: P,
    request: PublishRequest<P>,
    qos: QoS,
    changed: PublishRequest<P>,
)
    requires
        call_ensures(PublishRequest::<P>::new, (topic_name, payload), request),
        call_ensures(PublishRequest::<P>::qos, (request, qos), changed),
    ensures
        request.topic_name == topic_name && changed.topic_name == topic_name,
        request.payload == payload && changed.payload == payload,
        !request.dup && !changed.dup,
        !request.retain && !changed.retain,
        request.qos == QoS::AtLeastOnce,
        changed.qos == qos,
{
}

} // verus!
