use vstd::prelude::*;
use vstd::string::StringSliceAdditionalSpecFns;

use super::error::Error as EncodingError;
use super::wire::{
    concat, law_slice_round_trip, law_str_round_trip, law_u16_round_trip, law_u32_round_trip, law_varint_round_trip, lemma_concat_split, lemma_slice_at_bounds, lemma_varint_at_bounds,
    lemma_varint_size, read_slice_at, read_str_at, read_varint_at, slice_at, slice_bytes, str_at, u16_bytes, u16_of, u32_bytes, u32_of,
    varint_at, varint_bytes, varint_groups, varint_len, MAX_VARINT,
};
use crate::error::Error;

verus! {

/// The properties that MQTT version 5 knows, without their values.
#[derive(Debug, Copy, Clone, PartialEq, Eq, Structural)]
pub enum PropertyIdentifier {
    PayloadFormatIndicator,
    MessageExpiryInterval,
    ContentType,
    ResponseTopic,
    CorrelationData,
    SubscriptionIdentifier,
    SessionExpiryInterval,
    AssignedClientIdentifier,
    ServerKeepAlive,
    AuthenticationMethod,
    AuthenticationData,
    RequestProblemInformation,
    WillDelayInterval,
    RequestResponseInformation,
    ResponseInformation,
    ServerReference,
    ReasonString,
    ReceiveMaximum,
    TopicAliasMaximum,
    TopicAlias,
    MaximumQoS,
    RetainAvailable,
    UserProperty,
    MaximumPacketSize,
    WildcardSubscriptionAvailable,
    SubscriptionIdentifierAvailable,
    SharedSubscriptionAvailable,
}

/// The ways in which the value of a property stands on the wire.
#[derive(Debug, Copy, Clone, PartialEq, Eq, Structural)]
pub enum PropertyKind {
    Byte,
    TwoByteInteger,
    FourByteInteger,
    VariableByteInteger,
    Utf8String,
    BinaryData,
    Utf8StringPair,
}

impl PropertyIdentifier {
    /// The byte that stands for the property on the wire.
    pub open spec fn code(self) -> u8 {
        match self {
            PropertyIdentifier::PayloadFormatIndicator => 0x01,
            PropertyIdentifier::MessageExpiryInterval => 0x02,
            PropertyIdentifier::ContentType => 0x03,
            PropertyIdentifier::ResponseTopic => 0x08,
            PropertyIdentifier::CorrelationData => 0x09,
            PropertyIdentifier::SubscriptionIdentifier => 0x0b,
            PropertyIdentifier::SessionExpiryInterval => 0x11,
            PropertyIdentifier::AssignedClientIdentifier => 0x12,
            PropertyIdentifier::ServerKeepAlive => 0x13,
            PropertyIdentifier::AuthenticationMethod => 0x15,
            PropertyIdentifier::AuthenticationData => 0x16,
            PropertyIdentifier::RequestProblemInformation => 0x17,
            PropertyIdentifier::WillDelayInterval => 0x18,
            PropertyIdentifier::RequestResponseInformation => 0x19,
            PropertyIdentifier::ResponseInformation => 0x1a,
            PropertyIdentifier::ServerReference => 0x1c,
            PropertyIdentifier::ReasonString => 0x1f,
            PropertyIdentifier::ReceiveMaximum => 0x21,
            PropertyIdentifier::TopicAliasMaximum => 0x22,
            PropertyIdentifier::TopicAlias => 0x23,
            PropertyIdentifier::MaximumQoS => 0x24,
            PropertyIdentifier::RetainAvailable => 0x25,
            PropertyIdentifier::UserProperty => 0x26,
            PropertyIdentifier::MaximumPacketSize => 0x27,
            PropertyIdentifier::WildcardSubscriptionAvailable => 0x28,
            PropertyIdentifier::SubscriptionIdentifierAvailable => 0x29,
            PropertyIdentifier::SharedSubscriptionAvailable => 0x2a,
        }
    }

    /// The property that a byte on the wire stands for, if any.
    pub open spec fn of_code(code: u8) -> Option<Self> {
        match code {
            0x01 => Some(PropertyIdentifier::PayloadFormatIndicator),
            0x02 => Some(PropertyIdentifier::MessageExpiryInterval),
            0x03 => Some(PropertyIdentifier::ContentType),
            0x08 => Some(PropertyIdentifier::ResponseTopic),
            0x09 => Some(PropertyIdentifier::CorrelationData),
            0x0b => Some(PropertyIdentifier::SubscriptionIdentifier),
            0x11 => Some(PropertyIdentifier::SessionExpiryInterval),
            0x12 => Some(PropertyIdentifier::AssignedClientIdentifier),
            0x13 => Some(PropertyIdentifier::ServerKeepAlive),
            0x15 => Some(PropertyIdentifier::AuthenticationMethod),
            0x16 => Some(PropertyIdentifier::AuthenticationData),
            0x17 => Some(PropertyIdentifier::RequestProblemInformation),
            0x18 => Some(PropertyIdentifier::WillDelayInterval),
            0x19 => Some(PropertyIdentifier::RequestResponseInformation),
            0x1a => Some(PropertyIdentifier::ResponseInformation),
            0x1c => Some(PropertyIdentifier::ServerReference),
            0x1f => Some(PropertyIdentifier::ReasonString),
            0x21 => Some(PropertyIdentifier::ReceiveMaximum),
            0x22 => Some(PropertyIdentifier::TopicAliasMaximum),
            0x23 => Some(PropertyIdentifier::TopicAlias),
            0x24 => Some(PropertyIdentifier::MaximumQoS),
            0x25 => Some(PropertyIdentifier::RetainAvailable),
            0x26 => Some(PropertyIdentifier::UserProperty),
            0x27 => Some(PropertyIdentifier::MaximumPacketSize),
            0x28 => Some(PropertyIdentifier::WildcardSubscriptionAvailable),
            0x29 => Some(PropertyIdentifier::SubscriptionIdentifierAvailable),
            0x2a => Some(PropertyIdentifier::SharedSubscriptionAvailable),
            _ => None,
        }
    }

    /// How the value of the property stands on the wire.
    pub open spec fn kind(self) -> PropertyKind {
        match self {
            PropertyIdentifier::PayloadFormatIndicator => PropertyKind::Byte,
            PropertyIdentifier::MessageExpiryInterval => PropertyKind::FourByteInteger,
            PropertyIdentifier::ContentType => PropertyKind::Utf8String,
            PropertyIdentifier::ResponseTopic => PropertyKind::Utf8String,
            PropertyIdentifier::CorrelationData => PropertyKind::BinaryData,
            PropertyIdentifier::SubscriptionIdentifier => PropertyKind::VariableByteInteger,
            PropertyIdentifier::SessionExpiryInterval => PropertyKind::FourByteInteger,
            PropertyIdentifier::AssignedClientIdentifier => PropertyKind::Utf8String,
            PropertyIdentifier::ServerKeepAlive => PropertyKind::TwoByteInteger,
            PropertyIdentifier::AuthenticationMethod => PropertyKind::Utf8String,
            PropertyIdentifier::AuthenticationData => PropertyKind::BinaryData,
            PropertyIdentifier::RequestProblemInformation => PropertyKind::Byte,
            PropertyIdentifier::WillDelayInterval => PropertyKind::FourByteInteger,
            PropertyIdentifier::RequestResponseInformation => PropertyKind::Byte,
            PropertyIdentifier::ResponseInformation => PropertyKind::Utf8String,
            PropertyIdentifier::ServerReference => PropertyKind::Utf8String,
            PropertyIdentifier::ReasonString => PropertyKind::Utf8String,
            PropertyIdentifier::ReceiveMaximum => PropertyKind::TwoByteInteger,
            PropertyIdentifier::TopicAliasMaximum => PropertyKind::TwoByteInteger,
            PropertyIdentifier::TopicAlias => PropertyKind::TwoByteInteger,
            PropertyIdentifier::MaximumQoS => PropertyKind::Byte,
            PropertyIdentifier::RetainAvailable => PropertyKind::Byte,
            PropertyIdentifier::UserProperty => PropertyKind::Utf8StringPair,
            PropertyIdentifier::MaximumPacketSize => PropertyKind::FourByteInteger,
            PropertyIdentifier::WildcardSubscriptionAvailable => PropertyKind::Byte,
            PropertyIdentifier::SubscriptionIdentifierAvailable => PropertyKind::Byte,
            PropertyIdentifier::SharedSubscriptionAvailable => PropertyKind::Byte,
        }
    }

    /// Returns the byte that stands for the property on the wire.
    pub(crate) fn as_code(self) -> (code: u8)
        ensures
            code == self.code(),
    {
        match self {
            PropertyIdentifier::PayloadFormatIndicator => 0x01,
            PropertyIdentifier::MessageExpiryInterval => 0x02,
            PropertyIdentifier::ContentType => 0x03,
            PropertyIdentifier::ResponseTopic => 0x08,
            PropertyIdentifier::CorrelationData => 0x09,
            PropertyIdentifier::SubscriptionIdentifier => 0x0b,
            PropertyIdentifier::SessionExpiryInterval => 0x11,
            PropertyIdentifier::AssignedClientIdentifier => 0x12,
            PropertyIdentifier::ServerKeepAlive => 0x13,
            PropertyIdentifier::AuthenticationMethod => 0x15,
            PropertyIdentifier::AuthenticationData => 0x16,
            PropertyIdentifier::RequestProblemInformation => 0x17,
            PropertyIdentifier::WillDelayInterval => 0x18,
            PropertyIdentifier::RequestResponseInformation => 0x19,
            PropertyIdentifier::ResponseInformation => 0x1a,
            PropertyIdentifier::ServerReference => 0x1c,
            PropertyIdentifier::ReasonString => 0x1f,
            PropertyIdentifier::ReceiveMaximum => 0x21,
            PropertyIdentifier::TopicAliasMaximum => 0x22,
            PropertyIdentifier::TopicAlias => 0x23,
            PropertyIdentifier::MaximumQoS => 0x24,
            PropertyIdentifier::RetainAvailable => 0x25,
            PropertyIdentifier::UserProperty => 0x26,
            PropertyIdentifier::MaximumPacketSize => 0x27,
            PropertyIdentifier::WildcardSubscriptionAvailable => 0x28,
            PropertyIdentifier::SubscriptionIdentifierAvailable => 0x29,
            PropertyIdentifier::SharedSubscriptionAvailable => 0x2a,
        }
    }

    /// Returns the property that a byte on the wire stands for, if any.
    pub(crate) fn from_code(code: u8) -> (id: Option<Self>)
        ensures
            id == Self::of_code(code),
    {
        match code {
            0x01 => Some(PropertyIdentifier::PayloadFormatIndicator),
            0x02 => Some(PropertyIdentifier::MessageExpiryInterval),
            0x03 => Some(PropertyIdentifier::ContentType),
            0x08 => Some(PropertyIdentifier::ResponseTopic),
            0x09 => Some(PropertyIdentifier::CorrelationData),
            0x0b => Some(PropertyIdentifier::SubscriptionIdentifier),
            0x11 => Some(PropertyIdentifier::SessionExpiryInterval),
            0x12 => Some(PropertyIdentifier::AssignedClientIdentifier),
            0x13 => Some(PropertyIdentifier::ServerKeepAlive),
            0x15 => Some(PropertyIdentifier::AuthenticationMethod),
            0x16 => Some(PropertyIdentifier::AuthenticationData),
            0x17 => Some(PropertyIdentifier::RequestProblemInformation),
            0x18 => Some(PropertyIdentifier::WillDelayInterval),
            0x19 => Some(PropertyIdentifier::RequestResponseInformation),
            0x1a => Some(PropertyIdentifier::ResponseInformation),
            0x1c => Some(PropertyIdentifier::ServerReference),
            0x1f => Some(PropertyIdentifier::ReasonString),
            0x21 => Some(PropertyIdentifier::ReceiveMaximum),
            0x22 => Some(PropertyIdentifier::TopicAliasMaximum),
            0x23 => Some(PropertyIdentifier::TopicAlias),
            0x24 => Some(PropertyIdentifier::MaximumQoS),
            0x25 => Some(PropertyIdentifier::RetainAvailable),
            0x26 => Some(PropertyIdentifier::UserProperty),
            0x27 => Some(PropertyIdentifier::MaximumPacketSize),
            0x28 => Some(PropertyIdentifier::WildcardSubscriptionAvailable),
            0x29 => Some(PropertyIdentifier::SubscriptionIdentifierAvailable),
            0x2a => Some(PropertyIdentifier::SharedSubscriptionAvailable),
            _ => None,
        }
    }

    /// Returns how the value of the property stands on the wire.
    pub(crate) fn value_kind(self) -> (kind: PropertyKind)
        ensures
            kind == self.kind(),
    {
        match self {
            PropertyIdentifier::PayloadFormatIndicator => PropertyKind::Byte,
            PropertyIdentifier::MessageExpiryInterval => PropertyKind::FourByteInteger,
            PropertyIdentifier::ContentType => PropertyKind::Utf8String,
            PropertyIdentifier::ResponseTopic => PropertyKind::Utf8String,
            PropertyIdentifier::CorrelationData => PropertyKind::BinaryData,
            PropertyIdentifier::SubscriptionIdentifier => PropertyKind::VariableByteInteger,
            PropertyIdentifier::SessionExpiryInterval => PropertyKind::FourByteInteger,
            PropertyIdentifier::AssignedClientIdentifier => PropertyKind::Utf8String,
            PropertyIdentifier::ServerKeepAlive => PropertyKind::TwoByteInteger,
            PropertyIdentifier::AuthenticationMethod => PropertyKind::Utf8String,
            PropertyIdentifier::AuthenticationData => PropertyKind::BinaryData,
            PropertyIdentifier::RequestProblemInformation => PropertyKind::Byte,
            PropertyIdentifier::WillDelayInterval => PropertyKind::FourByteInteger,
            PropertyIdentifier::RequestResponseInformation => PropertyKind::Byte,
            PropertyIdentifier::ResponseInformation => PropertyKind::Utf8String,
            PropertyIdentifier::ServerReference => PropertyKind::Utf8String,
            PropertyIdentifier::ReasonString => PropertyKind::Utf8String,
            PropertyIdentifier::ReceiveMaximum => PropertyKind::TwoByteInteger,
            PropertyIdentifier::TopicAliasMaximum => PropertyKind::TwoByteInteger,
            PropertyIdentifier::TopicAlias => PropertyKind::TwoByteInteger,
            PropertyIdentifier::MaximumQoS => PropertyKind::Byte,
            PropertyIdentifier::RetainAvailable => PropertyKind::Byte,
            PropertyIdentifier::UserProperty => PropertyKind::Utf8StringPair,
            PropertyIdentifier::MaximumPacketSize => PropertyKind::FourByteInteger,
            PropertyIdentifier::WildcardSubscriptionAvailable => PropertyKind::Byte,
            PropertyIdentifier::SubscriptionIdentifierAvailable => PropertyKind::Byte,
            PropertyIdentifier::SharedSubscriptionAvailable => PropertyKind::Byte,
        }
    }
}

/// All of the possible properties that MQTT version 5 supports.
#[derive(Debug, Copy, Clone, PartialEq)]
pub enum Property<'a> {
    PayloadFormatIndicator(u8),
    MessageExpiryInterval(u32),
    ContentType(&'a str),
    ResponseTopic(&'a str),
    CorrelationData(&'a [u8]),
    SubscriptionIdentifier(u32),
    SessionExpiryInterval(u32),
    AssignedClientIdentifier(&'a str),
    ServerKeepAlive(u16),
    AuthenticationMethod(&'a str),
    AuthenticationData(&'a [u8]),
    RequestProblemInformation(u8),
    WillDelayInterval(u32),
    RequestResponseInformation(u8),
    ResponseInformation(&'a str),
    ServerReference(&'a str),
    ReasonString(&'a str),
    ReceiveMaximum(u16),
    TopicAliasMaximum(u16),
    TopicAlias(u16),
    MaximumQoS(u8),
    RetainAvailable(u8),
    UserProperty(&'a str, &'a str),
    MaximumPacketSize(u32),
    WildcardSubscriptionAvailable(u8),
    SubscriptionIdentifierAvailable(u8),
    SharedSubscriptionAvailable(u8),
}

/// The value of a property.
#[derive(Debug, Copy, Clone)]
pub enum PropertyValue<'a> {
    Byte(u8),
    TwoByteInteger(u16),
    FourByteInteger(u32),
    VariableByteInteger(u32),
    Utf8String(&'a str),
    BinaryData(&'a [u8]),
    Utf8StringPair(&'a str, &'a str),
}

/// The value of a property, with strings as their UTF-8 bytes.
pub ghost enum ValueView {
    Byte(u8),
    TwoByteInteger(u16),
    FourByteInteger(u32),
    VariableByteInteger(u32),
    Utf8String(Seq<u8>),
    BinaryData(Seq<u8>),
    Utf8StringPair(Seq<u8>, Seq<u8>),
}

/// A property, with strings as their UTF-8 bytes.
pub ghost struct PropertyView {
    pub id: PropertyIdentifier,
    pub value: ValueView,
}

impl<'a> View for PropertyValue<'a> {
    type V = ValueView;

    open spec fn view(&self) -> ValueView {
        match *self {
            PropertyValue::Byte(v) => ValueView::Byte(v),
            PropertyValue::TwoByteInteger(v) => ValueView::TwoByteInteger(v),
            PropertyValue::FourByteInteger(v) => ValueView::FourByteInteger(v),
            PropertyValue::VariableByteInteger(v) => ValueView::VariableByteInteger(v),
            PropertyValue::Utf8String(s) => ValueView::Utf8String(s.spec_bytes()),
            PropertyValue::BinaryData(d) => ValueView::BinaryData(d@),
            PropertyValue::Utf8StringPair(k, v) => ValueView::Utf8StringPair(
                k.spec_bytes(),
                v.spec_bytes(),
            ),
        }
    }
}

impl<'a> View for Property<'a> {
    type V = PropertyView;

    open spec fn view(&self) -> PropertyView {
        match *self {
            Property::PayloadFormatIndicator(v) => PropertyView {
                id: PropertyIdentifier::PayloadFormatIndicator,
                value: ValueView::Byte(v),
            },
            Property::MessageExpiryInterval(v) => PropertyView {
                id: PropertyIdentifier::MessageExpiryInterval,
                value: ValueView::FourByteInteger(v),
            },
            Property::ContentType(v) => PropertyView {
                id: PropertyIdentifier::ContentType,
                value: ValueView::Utf8String(v.spec_bytes()),
            },
            Property::ResponseTopic(v) => PropertyView {
                id: PropertyIdentifier::ResponseTopic,
                value: ValueView::Utf8String(v.spec_bytes()),
            },
            Property::CorrelationData(v) => PropertyView {
                id: PropertyIdentifier::CorrelationData,
                value: ValueView::BinaryData(v@),
            },
            Property::SubscriptionIdentifier(v) => PropertyView {
                id: PropertyIdentifier::SubscriptionIdentifier,
                value: ValueView::VariableByteInteger(v),
            },
            Property::SessionExpiryInterval(v) => PropertyView {
                id: PropertyIdentifier::SessionExpiryInterval,
                value: ValueView::FourByteInteger(v),
            },
            Property::AssignedClientIdentifier(v) => PropertyView {
                id: PropertyIdentifier::AssignedClientIdentifier,
                value: ValueView::Utf8String(v.spec_bytes()),
            },
            Property::ServerKeepAlive(v) => PropertyView {
                id: PropertyIdentifier::ServerKeepAlive,
                value: ValueView::TwoByteInteger(v),
            },
            Property::AuthenticationMethod(v) => PropertyView {
                id: PropertyIdentifier::AuthenticationMethod,
                value: ValueView::Utf8String(v.spec_bytes()),
            },
            Property::AuthenticationData(v) => PropertyView {
                id: PropertyIdentifier::AuthenticationData,
                value: ValueView::BinaryData(v@),
            },
            Property::RequestProblemInformation(v) => PropertyView {
                id: PropertyIdentifier::RequestProblemInformation,
                value: ValueView::Byte(v),
            },
            Property::WillDelayInterval(v) => PropertyView {
                id: PropertyIdentifier::WillDelayInterval,
                value: ValueView::FourByteInteger(v),
            },
            Property::RequestResponseInformation(v) => PropertyView {
                id: PropertyIdentifier::RequestResponseInformation,
                value: ValueView::Byte(v),
            },
            Property::ResponseInformation(v) => PropertyView {
                id: PropertyIdentifier::ResponseInformation,
                value: ValueView::Utf8String(v.spec_bytes()),
            },
            Property::ServerReference(v) => PropertyView {
                id: PropertyIdentifier::ServerReference,
                value: ValueView::Utf8String(v.spec_bytes()),
            },
            Property::ReasonString(v) => PropertyView {
                id: PropertyIdentifier::ReasonString,
                value: ValueView::Utf8String(v.spec_bytes()),
            },
            Property::ReceiveMaximum(v) => PropertyView {
                id: PropertyIdentifier::ReceiveMaximum,
                value: ValueView::TwoByteInteger(v),
            },
            Property::TopicAliasMaximum(v) => PropertyView {
                id: PropertyIdentifier::TopicAliasMaximum,
                value: ValueView::TwoByteInteger(v),
            },
            Property::TopicAlias(v) => PropertyView {
                id: PropertyIdentifier::TopicAlias,
                value: ValueView::TwoByteInteger(v),
            },
            Property::MaximumQoS(v) => PropertyView {
                id: PropertyIdentifier::MaximumQoS,
                value: ValueView::Byte(v),
            },
            Property::RetainAvailable(v) => PropertyView {
                id: PropertyIdentifier::RetainAvailable,
                value: ValueView::Byte(v),
            },
            Property::UserProperty(k, v) => PropertyView {
                id: PropertyIdentifier::UserProperty,
                value: ValueView::Utf8StringPair(k.spec_bytes(), v.spec_bytes()),
            },
            Property::MaximumPacketSize(v) => PropertyView {
                id: PropertyIdentifier::MaximumPacketSize,
                value: ValueView::FourByteInteger(v),
            },
            Property::WildcardSubscriptionAvailable(v) => PropertyView {
                id: PropertyIdentifier::WildcardSubscriptionAvailable,
                value: ValueView::Byte(v),
            },
            Property::SubscriptionIdentifierAvailable(v) => PropertyView {
                id: PropertyIdentifier::SubscriptionIdentifierAvailable,
                value: ValueView::Byte(v),
            },
            Property::SharedSubscriptionAvailable(v) => PropertyView {
                id: PropertyIdentifier::SharedSubscriptionAvailable,
                value: ValueView::Byte(v),
            },
        }
    }
}

impl ValueView {
    pub open spec fn kind(self) -> PropertyKind {
        match self {
            ValueView::Byte(_) => PropertyKind::Byte,
            ValueView::TwoByteInteger(_) => PropertyKind::TwoByteInteger,
            ValueView::FourByteInteger(_) => PropertyKind::FourByteInteger,
            ValueView::VariableByteInteger(_) => PropertyKind::VariableByteInteger,
            ValueView::Utf8String(_) => PropertyKind::Utf8String,
            ValueView::BinaryData(_) => PropertyKind::BinaryData,
            ValueView::Utf8StringPair(_, _) => PropertyKind::Utf8StringPair,
        }
    }

    /// The value as it stands on the wire.
    pub open spec fn bytes(self) -> Seq<u8> {
        match self {
            ValueView::Byte(v) => seq![v],
            ValueView::TwoByteInteger(v) => u16_bytes(v),
            ValueView::FourByteInteger(v) => u32_bytes(v),
            ValueView::VariableByteInteger(v) => varint_bytes(v as nat),
            ValueView::Utf8String(s) => slice_bytes(s),
            ValueView::BinaryData(s) => slice_bytes(s),
            ValueView::Utf8StringPair(k, v) => slice_bytes(k) + slice_bytes(v),
        }
    }

    /// Whether MQTT can represent the value: its integers and lengths are in range.
    pub open spec fn in_range(self) -> bool {
        match self {
            ValueView::VariableByteInteger(v) => v <= MAX_VARINT,
            ValueView::Utf8String(s) => s.len() <= 0xffff && vstd::utf8::valid_utf8(s),
            ValueView::BinaryData(s) => s.len() <= 0xffff,
            ValueView::Utf8StringPair(k, v) => {
                &&& k.len() <= 0xffff
                &&& v.len() <= 0xffff
                &&& vstd::utf8::valid_utf8(k)
                &&& vstd::utf8::valid_utf8(v)
            },
            _ => true,
        }
    }
}

impl PropertyView {
    /// The property as it stands on the wire.
    pub open spec fn bytes(self) -> Seq<u8> {
        seq![self.id.code()] + self.value.bytes()
    }

    /// Whether the value is of the kind that the property has.
    pub open spec fn wf(self) -> bool {
        self.value.kind() == self.id.kind()
    }
}

/// What reading a property value of some kind at the start of `s` gives: the
/// value and the number of bytes it takes.
#[verifier::opaque]
pub open spec fn value_at(kind: PropertyKind, s: Seq<u8>) -> Result<
    (ValueView, nat),
    EncodingError,
> {
    match kind {
        PropertyKind::Byte => if s.len() < 1 {
            Err(EncodingError::InsufficientBytes)
        } else {
            Ok((ValueView::Byte(s[0]), 1))
        },
        PropertyKind::TwoByteInteger => if s.len() < 2 {
            Err(EncodingError::InsufficientBytes)
        } else {
            Ok((ValueView::TwoByteInteger(u16_of(s[0], s[1])), 2))
        },
        PropertyKind::FourByteInteger => if s.len() < 4 {
            Err(EncodingError::InsufficientBytes)
        } else {
            Ok((ValueView::FourByteInteger(u32_of(s[0], s[1], s[2], s[3])), 4))
        },
        PropertyKind::VariableByteInteger => match varint_at(s, 0) {
            Err(e) => Err(e),
            Ok((v, n)) => Ok((ValueView::VariableByteInteger(v as u32), n)),
        },
        PropertyKind::Utf8String => match str_at(s) {
            Err(e) => Err(e),
            Ok(v) => Ok((ValueView::Utf8String(v), 2 + v.len())),
        },
        PropertyKind::BinaryData => match slice_at(s) {
            Err(e) => Err(e),
            Ok(v) => Ok((ValueView::BinaryData(v), 2 + v.len())),
        },
        PropertyKind::Utf8StringPair => match str_at(s) {
            Err(e) => Err(e),
            Ok(k) => match str_at(s.skip(2 + k.len() as int)) {
                Err(e) => Err(e),
                Ok(v) => Ok((ValueView::Utf8StringPair(k, v), 4 + k.len() + v.len())),
            },
        },
    }
}

/// What reading a property at the start of `s` gives: the property and the
/// number of bytes it takes.
pub open spec fn property_at(s: Seq<u8>) -> Result<(PropertyView, nat), EncodingError> {
    if s.len() < 1 {
        Err(EncodingError::InsufficientBytes)
    } else {
        match PropertyIdentifier::of_code(s[0]) {
            None => Err(EncodingError::InvalidProperty(s[0])),
            Some(id) => match value_at(id.kind(), s.skip(1)) {
                Err(e) => Err(e),
                Ok((value, n)) => Ok((PropertyView { id, value }, 1 + n)),
            },
        }
    }
}

/// Each of the properties as it stands on the wire.
pub open spec fn list_pieces(props: Seq<Property<'_>>) -> Seq<Seq<u8>> {
    Seq::new(props.len(), |i: int| props[i]@.bytes())
}

/// Properties one after the other, as they stand on the wire.
pub open spec fn list_bytes(props: Seq<Property<'_>>) -> Seq<u8> {
    concat(list_pieces(props))
}

impl<'a> Property<'a> {
    /// Splits the property into its identifier and its value.
    pub(crate) fn parts(&self) -> (parts: (PropertyIdentifier, PropertyValue<'a>))
        ensures
            self@ == (PropertyView { id: parts.0, value: parts.1@ }),
            self@.wf(),
    {
        match *self {
            Property::PayloadFormatIndicator(v) => (
                PropertyIdentifier::PayloadFormatIndicator,
                PropertyValue::Byte(v),
            ),
            Property::MessageExpiryInterval(v) => (
                PropertyIdentifier::MessageExpiryInterval,
                PropertyValue::FourByteInteger(v),
            ),
            Property::ContentType(v) => (
                PropertyIdentifier::ContentType,
                PropertyValue::Utf8String(v),
            ),
            Property::ResponseTopic(v) => (
                PropertyIdentifier::ResponseTopic,
                PropertyValue::Utf8String(v),
            ),
            Property::CorrelationData(v) => (
                PropertyIdentifier::CorrelationData,
                PropertyValue::BinaryData(v),
            ),
            Property::SubscriptionIdentifier(v) => (
                PropertyIdentifier::SubscriptionIdentifier,
                PropertyValue::VariableByteInteger(v),
            ),
            Property::SessionExpiryInterval(v) => (
                PropertyIdentifier::SessionExpiryInterval,
                PropertyValue::FourByteInteger(v),
            ),
            Property::AssignedClientIdentifier(v) => (
                PropertyIdentifier::AssignedClientIdentifier,
                PropertyValue::Utf8String(v),
            ),
            Property::ServerKeepAlive(v) => (
                PropertyIdentifier::ServerKeepAlive,
                PropertyValue::TwoByteInteger(v),
            ),
            Property::AuthenticationMethod(v) => (
                PropertyIdentifier::AuthenticationMethod,
                PropertyValue::Utf8String(v),
            ),
            Property::AuthenticationData(v) => (
                PropertyIdentifier::AuthenticationData,
                PropertyValue::BinaryData(v),
            ),
            Property::RequestProblemInformation(v) => (
                PropertyIdentifier::RequestProblemInformation,
                PropertyValue::Byte(v),
            ),
            Property::WillDelayInterval(v) => (
                PropertyIdentifier::WillDelayInterval,
                PropertyValue::FourByteInteger(v),
            ),
            Property::RequestResponseInformation(v) => (
                PropertyIdentifier::RequestResponseInformation,
                PropertyValue::Byte(v),
            ),
            Property::ResponseInformation(v) => (
                PropertyIdentifier::ResponseInformation,
                PropertyValue::Utf8String(v),
            ),
            Property::ServerReference(v) => (
                PropertyIdentifier::ServerReference,
                PropertyValue::Utf8String(v),
            ),
            Property::ReasonString(v) => (
                PropertyIdentifier::ReasonString,
                PropertyValue::Utf8String(v),
            ),
            Property::ReceiveMaximum(v) => (
                PropertyIdentifier::ReceiveMaximum,
                PropertyValue::TwoByteInteger(v),
            ),
            Property::TopicAliasMaximum(v) => (
                PropertyIdentifier::TopicAliasMaximum,
                PropertyValue::TwoByteInteger(v),
            ),
            Property::TopicAlias(v) => (
                PropertyIdentifier::TopicAlias,
                PropertyValue::TwoByteInteger(v),
            ),
            Property::MaximumQoS(v) => (
                PropertyIdentifier::MaximumQoS,
                PropertyValue::Byte(v),
            ),
            Property::RetainAvailable(v) => (
                PropertyIdentifier::RetainAvailable,
                PropertyValue::Byte(v),
            ),
            Property::UserProperty(k, v) => (
                PropertyIdentifier::UserProperty,
                PropertyValue::Utf8StringPair(k, v),
            ),
            Property::MaximumPacketSize(v) => (
                PropertyIdentifier::MaximumPacketSize,
                PropertyValue::FourByteInteger(v),
            ),
            Property::WildcardSubscriptionAvailable(v) => (
                PropertyIdentifier::WildcardSubscriptionAvailable,
                PropertyValue::Byte(v),
            ),
            Property::SubscriptionIdentifierAvailable(v) => (
                PropertyIdentifier::SubscriptionIdentifierAvailable,
                PropertyValue::Byte(v),
            ),
            Property::SharedSubscriptionAvailable(v) => (
                PropertyIdentifier::SharedSubscriptionAvailable,
                PropertyValue::Byte(v),
            ),
        }
    }

    /// Puts a property together from its identifier and its value.
    fn from_parts(id: PropertyIdentifier, value: PropertyValue<'a>) -> (property: Self)
        requires
            id.kind() == value@.kind(),
        ensures
            property@ == (PropertyView { id, value: value@ }),
    {
        match value {
            PropertyValue::Byte(v) => match id {
                PropertyIdentifier::PayloadFormatIndicator => Property::PayloadFormatIndicator(v),
                PropertyIdentifier::RequestProblemInformation => Property::RequestProblemInformation(v),
                PropertyIdentifier::RequestResponseInformation => Property::RequestResponseInformation(v),
                PropertyIdentifier::MaximumQoS => Property::MaximumQoS(v),
                PropertyIdentifier::RetainAvailable => Property::RetainAvailable(v),
                PropertyIdentifier::WildcardSubscriptionAvailable => Property::WildcardSubscriptionAvailable(v),
                PropertyIdentifier::SubscriptionIdentifierAvailable => Property::SubscriptionIdentifierAvailable(v),
                _ => Property::SharedSubscriptionAvailable(v),
            },
            PropertyValue::TwoByteInteger(v) => match id {
                PropertyIdentifier::ServerKeepAlive => Property::ServerKeepAlive(v),
                PropertyIdentifier::ReceiveMaximum => Property::ReceiveMaximum(v),
                PropertyIdentifier::TopicAliasMaximum => Property::TopicAliasMaximum(v),
                _ => Property::TopicAlias(v),
            },
            PropertyValue::FourByteInteger(v) => match id {
                PropertyIdentifier::MessageExpiryInterval => Property::MessageExpiryInterval(v),
                PropertyIdentifier::SessionExpiryInterval => Property::SessionExpiryInterval(v),
                PropertyIdentifier::WillDelayInterval => Property::WillDelayInterval(v),
                _ => Property::MaximumPacketSize(v),
            },
            PropertyValue::VariableByteInteger(v) => Property::SubscriptionIdentifier(v),
            PropertyValue::Utf8String(v) => match id {
                PropertyIdentifier::ContentType => Property::ContentType(v),
                PropertyIdentifier::ResponseTopic => Property::ResponseTopic(v),
                PropertyIdentifier::AssignedClientIdentifier => Property::AssignedClientIdentifier(v),
                PropertyIdentifier::AuthenticationMethod => Property::AuthenticationMethod(v),
                PropertyIdentifier::ResponseInformation => Property::ResponseInformation(v),
                PropertyIdentifier::ServerReference => Property::ServerReference(v),
                _ => Property::ReasonString(v),
            },
            PropertyValue::BinaryData(v) => match id {
                PropertyIdentifier::CorrelationData => Property::CorrelationData(v),
                _ => Property::AuthenticationData(v),
            },
            PropertyValue::Utf8StringPair(k, v) => Property::UserProperty(k, v),
        }
    }

    /// Returns the identifier of the property.
    pub fn property_id(&self) -> (id: PropertyIdentifier)
        ensures
            id == self@.id,
    {
        PropertyIdentifier::from(self)
    }

    /// The length in bytes of the serialized property.
    pub(crate) fn size(&self) -> (n: usize)
        requires
            self@.value matches ValueView::VariableByteInteger(v) ==> v <= MAX_VARINT,
            self@.bytes().len() <= usize::MAX,
        ensures
            n == self@.bytes().len(),
    {
        let (_, value) = self.parts();
        let identifier_length: usize = 1;
        match value {
            PropertyValue::Utf8String(data) => data.len() + 2 + identifier_length,
            PropertyValue::Utf8StringPair(key, value) => (value.len() + 2) + (key.len() + 2)
                + identifier_length,
            PropertyValue::BinaryData(data) => data.len() + 2 + identifier_length,
            PropertyValue::VariableByteInteger(id) => varint_len(id as usize) + identifier_length,
            PropertyValue::FourByteInteger(_) => 4 + identifier_length,
            PropertyValue::TwoByteInteger(_) => 2 + identifier_length,
            PropertyValue::Byte(_) => 1 + identifier_length,
        }
    }
}

impl<'a, 'b> From<&'b Property<'a>> for PropertyIdentifier {
    fn from(prop: &'b Property<'a>) -> (id: PropertyIdentifier) {
        match prop {
            Property::PayloadFormatIndicator(_) => PropertyIdentifier::PayloadFormatIndicator,
            Property::MessageExpiryInterval(_) => PropertyIdentifier::MessageExpiryInterval,
            Property::ContentType(_) => PropertyIdentifier::ContentType,
            Property::ResponseTopic(_) => PropertyIdentifier::ResponseTopic,
            Property::CorrelationData(_) => PropertyIdentifier::CorrelationData,
            Property::SubscriptionIdentifier(_) => PropertyIdentifier::SubscriptionIdentifier,
            Property::SessionExpiryInterval(_) => PropertyIdentifier::SessionExpiryInterval,
            Property::AssignedClientIdentifier(_) => PropertyIdentifier::AssignedClientIdentifier,
            Property::ServerKeepAlive(_) => PropertyIdentifier::ServerKeepAlive,
            Property::AuthenticationMethod(_) => PropertyIdentifier::AuthenticationMethod,
            Property::AuthenticationData(_) => PropertyIdentifier::AuthenticationData,
            Property::RequestProblemInformation(_) => PropertyIdentifier::RequestProblemInformation,
            Property::WillDelayInterval(_) => PropertyIdentifier::WillDelayInterval,
            Property::RequestResponseInformation(_) => PropertyIdentifier::RequestResponseInformation,
            Property::ResponseInformation(_) => PropertyIdentifier::ResponseInformation,
            Property::ServerReference(_) => PropertyIdentifier::ServerReference,
            Property::ReasonString(_) => PropertyIdentifier::ReasonString,
            Property::ReceiveMaximum(_) => PropertyIdentifier::ReceiveMaximum,
            Property::TopicAliasMaximum(_) => PropertyIdentifier::TopicAliasMaximum,
            Property::TopicAlias(_) => PropertyIdentifier::TopicAlias,
            Property::MaximumQoS(_) => PropertyIdentifier::MaximumQoS,
            Property::RetainAvailable(_) => PropertyIdentifier::RetainAvailable,
            Property::UserProperty(_, _) => PropertyIdentifier::UserProperty,
            Property::MaximumPacketSize(_) => PropertyIdentifier::MaximumPacketSize,
            Property::WildcardSubscriptionAvailable(_) => PropertyIdentifier::WildcardSubscriptionAvailable,
            Property::SubscriptionIdentifierAvailable(_) => PropertyIdentifier::SubscriptionIdentifierAvailable,
            Property::SharedSubscriptionAvailable(_) => PropertyIdentifier::SharedSubscriptionAvailable,
        }
    }
}

impl<'a, 'b> vstd::std_specs::convert::FromSpecImpl<&'b Property<'a>> for PropertyIdentifier {
    open spec fn obeys_from_spec() -> bool {
        true
    }

    open spec fn from_spec(prop: &'b Property<'a>) -> PropertyIdentifier {
        prop@.id
    }
}

/// Reads a property value of some kind at `start`.
fn read_value_at<'a>(kind: PropertyKind, buf: &'a [u8], start: usize) -> (res: Result<
    (PropertyValue<'a>, usize),
    EncodingError,
>)
    requires
        start <= buf@.len(),
    ensures
        match (res, value_at(kind, buf@.skip(start as int))) {
            (Ok((value, n)), Ok((view, m))) => value@ == view && n == m && n <= buf@.len() - start,
            (Err(e), Err(f)) => e == f,
            _ => false,
        },
{
    proof {
        reveal(value_at);
    }
    let ghost s = buf@.skip(start as int);
    let left: usize = buf.len() - start;
    match kind {
        PropertyKind::Byte => {
            if left < 1 {
                return Err(EncodingError::InsufficientBytes);
            }
            Ok((PropertyValue::Byte(buf[start]), 1))
        },
        PropertyKind::TwoByteInteger => {
            if left < 2 {
                return Err(EncodingError::InsufficientBytes);
            }
            let v: u16 = buf[start] as u16 * 256 + buf[start + 1] as u16;
            Ok((PropertyValue::TwoByteInteger(v), 2))
        },
        PropertyKind::FourByteInteger => {
            if left < 4 {
                return Err(EncodingError::InsufficientBytes);
            }
            let v: u32 = buf[start] as u32 * 0x1000000 + buf[start + 1] as u32 * 0x10000 + buf[start
                + 2] as u32 * 0x100 + buf[start + 3] as u32;
            Ok((PropertyValue::FourByteInteger(v), 4))
        },
        PropertyKind::VariableByteInteger => {
            proof {
                lemma_varint_at_bounds(s, 0);
            }
            match read_varint_at(buf, start) {
                Err(e) => Err(e),
                Ok((v, n)) => Ok((PropertyValue::VariableByteInteger(v as u32), n)),
            }
        },
        PropertyKind::Utf8String => match read_str_at(buf, start) {
            Err(e) => Err(e),
            Ok(v) => Ok((PropertyValue::Utf8String(v), 2 + v.len())),
        },
        PropertyKind::BinaryData => match read_slice_at(buf, start) {
            Err(e) => Err(e),
            Ok(v) => Ok((PropertyValue::BinaryData(v), 2 + v.len())),
        },
        PropertyKind::Utf8StringPair => match read_str_at(buf, start) {
            Err(e) => Err(e),
            Ok(k) => {
                let next: usize = start + 2 + k.len();
                assert(buf@.skip(next as int) =~= s.skip(2 + k.spec_bytes().len() as int));
                match read_str_at(buf, next) {
                    Err(e) => Err(e),
                    Ok(v) => Ok((PropertyValue::Utf8StringPair(k, v), 4 + k.len() + v.len())),
                }
            },
        },
    }
}

/// Reads a property at `start`.
fn read_property_at<'a>(buf: &'a [u8], start: usize) -> (res: Result<
    (Property<'a>, usize),
    EncodingError,
>)
    requires
        start <= buf@.len(),
    ensures
        match (res, property_at(buf@.skip(start as int))) {
            (Ok((property, n)), Ok((view, m))) => property@ == view && n == m && 1 <= n
                <= buf@.len() - start,
            (Err(e), Err(f)) => e == f,
            _ => false,
        },
{
    if buf.len() - start < 1 {
        return Err(EncodingError::InsufficientBytes);
    }
    let ghost s = buf@.skip(start as int);
    let code: u8 = buf[start];
    match PropertyIdentifier::from_code(code) {
        None => Err(EncodingError::InvalidProperty(code)),
        Some(id) => {
            assert(buf@.skip(start + 1) =~= s.skip(1));
            match read_value_at(id.value_kind(), buf, start + 1) {
                Err(e) => Err(e),
                Ok((value, n)) => {
                    proof {
                        lemma_value_at(id.kind(), s.skip(1));
                    }
                    Ok((Property::from_parts(id, value), 1 + n))
                },
            }
        },
    }
}

proof fn lemma_value_at(kind: PropertyKind, s: Seq<u8>)
    ensures
        value_at(kind, s) matches Ok((value, n)) ==> value.kind() == kind && n <= s.len() && n >= 1,
{
    reveal(value_at);
    lemma_varint_at_bounds(s, 0);
    lemma_slice_at_bounds(s);
    if let Ok(k) = str_at(s) {
        lemma_slice_at_bounds(s.skip(2 + k.len() as int));
    }
}

/// A property takes at least two bytes, and no more than there are.
pub proof fn lemma_property_at(s: Seq<u8>)
    ensures
        property_at(s) matches Ok((view, n)) ==> view.wf() && 2 <= n <= s.len(),
{
    if s.len() >= 1 {
        if let Some(id) = PropertyIdentifier::of_code(s[0]) {
            lemma_value_at(id.kind(), s.skip(1));
        }
    }
}

/// Properties of a packet.
#[derive(Debug, Copy, Clone)]
pub enum Properties<'a> {
    /// Properties ready for transmission are provided as a list of properties that will be later
    /// encoded into a packet.
    Slice(&'a [Property<'a>]),
    /// Properties have an unknown size when being received. As such, we store them as a binary
    /// blob that we iterate across.
    DataBlock(&'a [u8]),
    /// Properties that are correlated to a previous message.
    CorrelatedSlice { correlation: Property<'a>, properties: &'a [Property<'a>] },
}

/// Whether the variable length integers among the values can be encoded.
pub open spec fn encodable_list(props: Seq<Property<'_>>) -> bool {
    forall|i: int| 0 <= i < props.len() ==> encodable_property(#[trigger] props[i])
}

pub open spec fn encodable_property(prop: Property<'_>) -> bool {
    prop@.value matches ValueView::VariableByteInteger(v) ==> v <= MAX_VARINT
}

impl<'a> Properties<'a> {
    /// The property block: all properties as they stand on the wire.
    pub open spec fn block(self) -> Seq<u8> {
        match self {
            Properties::Slice(props) => list_bytes(props@),
            Properties::DataBlock(block) => block@,
            Properties::CorrelatedSlice { correlation, properties } => correlation@.bytes()
                + list_bytes(properties@),
        }
    }

    /// Whether the variable length integers among the values can be encoded.
    pub open spec fn encodable(self) -> bool {
        match self {
            Properties::Slice(props) => encodable_list(props@),
            Properties::DataBlock(block) => true,
            Properties::CorrelatedSlice { correlation, properties } => encodable_property(
                correlation,
            ) && encodable_list(properties@),
        }
    }

    /// Whether a packet can carry the properties: the length of the block is
    /// itself a variable length integer.
    pub open spec fn valid(self) -> bool {
        self.encodable() && self.block().len() <= MAX_VARINT
    }

    /// The length in bytes of the serialized properties.
    pub fn size(&self) -> (n: usize)
        requires
            self.encodable(),
            self.block().len() <= usize::MAX,
        ensures
            n == self.block().len(),
    {
        match self {
            Properties::Slice(props) => list_size(props),
            Properties::CorrelatedSlice { correlation, properties } => {
                correlation.size() + list_size(properties)
            },
            Properties::DataBlock(block) => block.len(),
        }
    }

    /// The property block: all properties as they stand on the wire.
    pub fn to_block(&self) -> (block: Vec<u8>)
        ensures
            block@ == self.block(),
    {
        let mut out: Vec<u8> = Vec::new();
        match self {
            Properties::Slice(props) => {
                push_list(&mut out, props);
            },
            Properties::CorrelatedSlice { correlation, properties } => {
                push_property(&mut out, correlation);
                push_list(&mut out, properties);
            },
            Properties::DataBlock(block) => {
                push_slice(&mut out, block);
            },
        }
        assert(out@ =~= self.block());
        out
    }

    /// Iterates over the properties of a received packet. Lists of properties
    /// can be walked directly.
    pub fn iter(&self) -> (iter: PropertiesIter<'a>)
        requires
            self is DataBlock,
        ensures
            iter.rest() == self.block(),
    {
        match self {
            Properties::DataBlock(data) => {
                assert(data@.skip(0) =~= data@);
                PropertiesIter { props: data, index: 0 }
            },
            _ => PropertiesIter { props: &[], index: 0 },
        }
    }
}

/// Two lists of properties one after the other stand on the wire as the one and
/// then the other.
pub proof fn law_joined_lists(a: Seq<Property<'_>>, b: Seq<Property<'_>>)
    ensures
        list_bytes(a + b) == list_bytes(a) + list_bytes(b),
        list_bytes(a + b).len() == list_bytes(a).len() + list_bytes(b).len(),
{
    let pieces = list_pieces(a + b);
    lemma_concat_split(pieces, a.len() as int);
    assert(pieces.take(a.len() as int) =~= list_pieces(a));
    assert(pieces.skip(a.len() as int) =~= list_pieces(b));
}

/// The size of an empty list of properties is 0, that of joined lists is the
/// sum of their sizes, a correlation counts like a list of its own, and a block
/// has the size of its bytes.
pub proof fn law_sizes_of_properties<'a>(
    none: &'a [Property<'a>],
    a: &'a [Property<'a>],
    b: &'a [Property<'a>],
    joined: &'a [Property<'a>],
    correlation: Property<'a>,
    alone: &'a [Property<'a>],
    data: &'a [u8],
)
    requires
        none@.len() == 0,
        joined@ == a@ + b@,
        alone@ == seq![correlation],
    ensures
        Properties::Slice(none).block().len() == 0,
        Properties::Slice(joined).block().len() == Properties::Slice(a).block().len()
            + Properties::Slice(b).block().len(),
        (Properties::CorrelatedSlice { correlation, properties: a }).block().len()
            == Properties::Slice(alone).block().len() + Properties::Slice(a).block().len(),
        Properties::DataBlock(data).block().len() == data@.len(),
{
    law_joined_lists(a@, b@);
    let pieces = list_pieces(alone@);
    lemma_concat_split(pieces, 0);
    lemma_concat_split(pieces, 1);
    assert(concat(pieces) =~= correlation@.bytes()) by {
        assert(concat(pieces.take(0)) =~= Seq::<u8>::empty());
        assert(pieces[0] == correlation@.bytes());
        assert(pieces.take(1) =~= pieces);
    }
}

impl<'a> Default for Properties<'a> {
    fn default() -> (properties: Self)
        ensures
            properties.block() == Seq::<u8>::empty(),
            properties is DataBlock,
    {
        let empty: &'a [u8] = &[];
        assert(empty@ =~= Seq::<u8>::empty());
        Properties::DataBlock(empty)
    }
}

/// Two sets of properties are equal if they stand alike on the wire, whether
/// they are still a list or already a block.
impl<'a> PartialEq for Properties<'a> {
    fn eq(&self, other: &Self) -> (equal: bool) {
        let left: Vec<u8> = self.to_block();
        let right: Vec<u8> = other.to_block();
        if left.len() != right.len() {
            return false;
        }
        let mut i: usize = 0;
        while i < left.len()
            invariant
                i <= left@.len(),
                left@.len() == right@.len(),
                forall|k: int| 0 <= k < i ==> left@[k] == right@[k],
                left@ == self.block(),
                right@ == other.block(),
            decreases left@.len() - i,
        {
            if left[i] != right[i] {
                assert(left@[i as int] != right@[i as int]);
                return false;
            }
            i = i + 1;
        }
        assert(left@ =~= right@);
        true
    }
}

impl<'a> vstd::std_specs::cmp::PartialEqSpecImpl for Properties<'a> {
    open spec fn obeys_eq_spec() -> bool {
        true
    }

    open spec fn eq_spec(&self, other: &Self) -> bool {
        self.block() == other.block()
    }
}

fn list_size(props: &[Property<'_>]) -> (n: usize)
    requires
        encodable_list(props@),
        list_bytes(props@).len() <= usize::MAX,
    ensures
        n == list_bytes(props@).len(),
{
    let ghost pieces = list_pieces(props@);
    let mut total: usize = 0;
    let mut i: usize = 0;
    proof {
        lemma_concat_split(pieces, 0);
    }
    while i < props.len()
        invariant
            i <= props@.len(),
            pieces == list_pieces(props@),
            total == concat(pieces.take(i as int)).len(),
            encodable_list(props@),
            list_bytes(props@).len() <= usize::MAX,
        decreases props@.len() - i,
    {
        proof {
            lemma_concat_split(pieces, i as int);
            assert(encodable_property(props@[i as int]));
        }
        total = total + props[i].size();
        i = i + 1;
    }
    proof {
        lemma_concat_split(pieces, i as int);
    }
    total
}

fn push_list(out: &mut Vec<u8>, props: &[Property<'_>])
    ensures
        final(out)@ == old(out)@ + list_bytes(props@),
{
    let ghost pieces = list_pieces(props@);
    let mut i: usize = 0;
    proof {
        lemma_concat_split(pieces, 0);
    }
    assert(out@ =~= old(out)@ + concat(pieces.take(0)));
    while i < props.len()
        invariant
            i <= props@.len(),
            pieces == list_pieces(props@),
            out@ == old(out)@ + concat(pieces.take(i as int)),
        decreases props@.len() - i,
    {
        proof {
            lemma_concat_split(pieces, i as int);
        }
        push_property(out, &props[i]);
        assert(out@ =~= old(out)@ + concat(pieces.take(i + 1)));
        i = i + 1;
    }
    proof {
        lemma_concat_split(pieces, i as int);
    }
}

fn push_property(out: &mut Vec<u8>, property: &Property<'_>)
    ensures
        final(out)@ == old(out)@ + property@.bytes(),
{
    let (id, value) = property.parts();
    out.push(id.as_code());
    push_value(out, value);
    assert(out@ =~= old(out)@ + property@.bytes());
}

fn push_value(out: &mut Vec<u8>, value: PropertyValue<'_>)
    ensures
        final(out)@ == old(out)@ + value@.bytes(),
{
    match value {
        PropertyValue::Byte(v) => {
            out.push(v);
            assert(out@ =~= old(out)@ + seq![v]);
        },
        PropertyValue::TwoByteInteger(v) => {
            push_u16(out, v);
        },
        PropertyValue::FourByteInteger(v) => {
            out.push((v / 0x1000000) as u8);
            out.push((v / 0x10000 % 256) as u8);
            out.push((v / 0x100 % 256) as u8);
            out.push((v % 256) as u8);
            assert(out@ =~= old(out)@ + u32_bytes(v));
        },
        PropertyValue::VariableByteInteger(v) => {
            push_varint(out, v);
        },
        PropertyValue::Utf8String(s) => {
            push_sized(out, s.as_bytes());
        },
        PropertyValue::BinaryData(s) => {
            push_sized(out, s);
        },
        PropertyValue::Utf8StringPair(k, v) => {
            push_sized(out, k.as_bytes());
            push_sized(out, v.as_bytes());
            assert(out@ =~= old(out)@ + (slice_bytes(k.spec_bytes()) + slice_bytes(v.spec_bytes())));
        },
    }
}

fn push_sized(out: &mut Vec<u8>, s: &[u8])
    ensures
        final(out)@ == old(out)@ + slice_bytes(s@),
{
    push_u16(out, (s.len() % 0x10000) as u16);
    push_slice(out, s);
    assert(out@ =~= old(out)@ + slice_bytes(s@));
}

fn push_u16(out: &mut Vec<u8>, v: u16)
    ensures
        final(out)@ == old(out)@ + u16_bytes(v),
{
    out.push((v / 256) as u8);
    out.push((v % 256) as u8);
    assert(out@ =~= old(out)@ + u16_bytes(v));
}

fn push_varint(out: &mut Vec<u8>, v: u32)
    ensures
        final(out)@ == old(out)@ + varint_bytes(v as nat),
{
    let mut left: u32 = v;
    let mut i: usize = 0;
    assert(out@ + varint_groups(left as nat, 4) =~= old(out)@ + varint_bytes(v as nat));
    while i < 4 && left >= 128
        invariant
            i <= 4,
            out@ + varint_groups(left as nat, (4 - i) as nat) == old(out)@ + varint_bytes(v as nat),
        decreases 4 - i,
    {
        let ghost before = out@;
        out.push((128 + left % 128) as u8);
        assert(before + varint_groups(left as nat, (4 - i) as nat) =~= out@ + varint_groups(
            (left / 128) as nat,
            (3 - i) as nat,
        ));
        left = left / 128;
        i = i + 1;
    }
    if i < 4 {
        let ghost before = out@;
        out.push(left as u8);
        assert(before + varint_groups(left as nat, (4 - i) as nat) =~= out@);
    } else {
        assert(out@ + varint_groups(left as nat, 0) =~= out@);
    }
}

fn push_slice(out: &mut Vec<u8>, s: &[u8])
    ensures
        final(out)@ == old(out)@ + s@,
{
    let mut i: usize = 0;
    while i < s.len()
        invariant
            i <= s@.len(),
            out@ == old(out)@ + s@.take(i as int),
        decreases s@.len() - i,
    {
        out.push(s[i]);
        i = i + 1;
        assert(out@ =~= old(out)@ + s@.take(i as int));
    }
    assert(s@.take(i as int) =~= s@);
}

/// Used to progressively iterate across binary property blocks, deserializing them along the way.
pub struct PropertiesIter<'a> {
    props: &'a [u8],
    index: usize,
}

/// What is left of a property block after the response topic, and the UTF-8
/// bytes of that topic: the value of the first response topic that stands in
/// front of whatever cannot be read.
pub open spec fn first_response_topic(s: Seq<u8>) -> (Option<Seq<u8>>, Seq<u8>)
    decreases s.len(),
{
    if s.len() == 0 {
        (None, s)
    } else {
        match property_at(s) {
            Err(_) => (None, Seq::empty()),
            Ok((view, n)) => if n == 0 || n > s.len() {
                (None, Seq::empty())
            } else if view.id == PropertyIdentifier::ResponseTopic {
                (Some(view.value->Utf8String_0), s.skip(n as int))
            } else {
                first_response_topic(s.skip(n as int))
            },
        }
    }
}

impl<'a> PropertiesIter<'a> {
    #[verifier::type_invariant]
    spec fn inv(&self) -> bool {
        self.index <= self.props@.len()
    }

    /// The part of the property block that has not been read yet.
    pub closed spec fn rest(&self) -> Seq<u8> {
        self.props@.skip(self.index as int)
    }

    /// Reads the next property, if there is one. What cannot be read ends the
    /// iteration.
    pub fn next(&mut self) -> (item: Option<Result<Property<'a>, Error>>)
        ensures
            old(self).rest().len() == 0 ==> item is None && final(self).rest() == old(self).rest(),
            old(self).rest().len() > 0 ==> match property_at(old(self).rest()) {
                Ok((view, n)) => {
                    &&& item matches Some(Ok(property)) && property@ == view
                    &&& final(self).rest() == old(self).rest().skip(n as int)
                },
                Err(e) => {
                    &&& item == Some(Err::<Property<'a>, Error>(Error::Encoding(e)))
                    &&& final(self).rest() == Seq::<u8>::empty()
                },
            },
    {
        proof {
            use_type_invariant(&*self);
        }
        if self.index >= self.props.len() {
            return None;
        }
        let ghost s = self.rest();
        match read_property_at(self.props, self.index) {
            Ok((property, n)) => {
                let next: usize = self.index + n;
                self.index = next;
                assert(self.rest() =~= s.skip(n as int));
                Some(Ok(property))
            },
            Err(e) => {
                let end: usize = self.props.len();
                self.index = end;
                assert(self.rest() =~= Seq::<u8>::empty());
                Some(Err(Error::from(e)))
            },
        }
    }

    /// Reads on to the response topic and returns it, if there is one.
    pub fn response_topic(&mut self) -> (topic: Option<&'a str>)
        ensures
            final(self).rest() == first_response_topic(old(self).rest()).1,
            match (topic, first_response_topic(old(self).rest()).0) {
                (Some(topic), Some(bytes)) => topic.spec_bytes() == bytes,
                (None, None) => true,
                _ => false,
            },
    {
        loop
            invariant
                first_response_topic(self.rest()) == first_response_topic(old(self).rest()),
            decreases self.rest().len(),
        {
            proof {
                lemma_property_at(self.rest());
            }
            let ghost s = self.rest();
            match self.next() {
                None => {
                    assert(self.rest() =~= s);
                    return None;
                },
                Some(Err(_)) => {
                    return None;
                },
                Some(Ok(property)) => {
                    if let Property::ResponseTopic(topic) = property {
                        return Some(topic);
                    }
                },
            }
        }
    }
}

/// All properties that iterating over a block yields, up to the first that
/// cannot be read.
pub open spec fn readable_properties(s: Seq<u8>) -> Seq<PropertyView>
    decreases s.len(),
{
    if s.len() == 0 {
        Seq::empty()
    } else {
        match property_at(s) {
            Err(_) => Seq::empty(),
            Ok((view, n)) => if n == 0 || n > s.len() {
                Seq::empty()
            } else {
                seq![view] + readable_properties(s.skip(n as int))
            },
        }
    }
}

proof fn lemma_u32_read_back(v: u32, rest: Seq<u8>)
    ensures
        value_at(PropertyKind::FourByteInteger, u32_bytes(v) + rest) == Ok::<
            (ValueView, nat),
            EncodingError,
        >((ValueView::FourByteInteger(v), 4)),
{
    reveal(value_at);
    let s = u32_bytes(v) + rest;
    law_u32_round_trip(v);
    assert(s[0] == u32_bytes(v)[0]);
    assert(s[1] == u32_bytes(v)[1]);
    assert(s[2] == u32_bytes(v)[2]);
    assert(s[3] == u32_bytes(v)[3]);
}

proof fn lemma_u16_read_back(v: u16, rest: Seq<u8>)
    ensures
        value_at(PropertyKind::TwoByteInteger, u16_bytes(v) + rest) == Ok::<
            (ValueView, nat),
            EncodingError,
        >((ValueView::TwoByteInteger(v), 2)),
{
    reveal(value_at);
    let s = u16_bytes(v) + rest;
    law_u16_round_trip(v);
    assert(s[0] == u16_bytes(v)[0] && s[1] == u16_bytes(v)[1]);
}

proof fn lemma_varint_read_back(v: u32, rest: Seq<u8>)
    requires
        v <= MAX_VARINT,
    ensures
        value_at(PropertyKind::VariableByteInteger, varint_bytes(v as nat) + rest) == Ok::<
            (ValueView, nat),
            EncodingError,
        >((ValueView::VariableByteInteger(v), varint_bytes(v as nat).len())),
{
    reveal(value_at);
    law_varint_round_trip(v as nat, rest);
    lemma_varint_size(v as nat);
}

proof fn lemma_string_read_back(v: Seq<u8>, rest: Seq<u8>)
    requires
        v.len() <= 0xffff,
    ensures
        vstd::utf8::valid_utf8(v) ==> value_at(PropertyKind::Utf8String, slice_bytes(v) + rest)
            == Ok::<(ValueView, nat), EncodingError>((ValueView::Utf8String(v), 2 + v.len())),
        value_at(PropertyKind::BinaryData, slice_bytes(v) + rest) == Ok::<
            (ValueView, nat),
            EncodingError,
        >((ValueView::BinaryData(v), 2 + v.len())),
{
    reveal(value_at);
    law_slice_round_trip(v, rest);
    if vstd::utf8::valid_utf8(v) {
        law_str_round_trip(v, rest);
    }
}

proof fn lemma_pair_read_back(k: Seq<u8>, v: Seq<u8>, rest: Seq<u8>)
    requires
        k.len() <= 0xffff,
        v.len() <= 0xffff,
        vstd::utf8::valid_utf8(k),
        vstd::utf8::valid_utf8(v),
    ensures
        value_at(PropertyKind::Utf8StringPair, slice_bytes(k) + slice_bytes(v) + rest) == Ok::<
            (ValueView, nat),
            EncodingError,
        >((ValueView::Utf8StringPair(k, v), 4 + k.len() + v.len())),
{
    reveal(value_at);
    let s = slice_bytes(k) + slice_bytes(v) + rest;
    law_str_round_trip(k, slice_bytes(v) + rest);
    assert(s =~= slice_bytes(k) + (slice_bytes(v) + rest));
    law_str_round_trip(v, rest);
    assert(s.skip(2 + k.len() as int) =~= slice_bytes(v) + rest);
}

proof fn lemma_value_read_back(value: ValueView, rest: Seq<u8>)
    requires
        value.in_range(),
    ensures
        value_at(value.kind(), value.bytes() + rest) == Ok::<(ValueView, nat), EncodingError>(
            (value, value.bytes().len()),
        ),
{
    match value {
        ValueView::Byte(v) => {
            reveal(value_at);
        },
        ValueView::TwoByteInteger(v) => {
            lemma_u16_read_back(v, rest);
        },
        ValueView::FourByteInteger(v) => {
            lemma_u32_read_back(v, rest);
        },
        ValueView::VariableByteInteger(v) => {
            lemma_varint_read_back(v, rest);
        },
        ValueView::Utf8String(v) => {
            lemma_string_read_back(v, rest);
        },
        ValueView::BinaryData(v) => {
            lemma_string_read_back(v, rest);
        },
        ValueView::Utf8StringPair(k, v) => {
            lemma_pair_read_back(k, v, rest);
        },
    }
}

/// Reading a property gives back what writing it wrote, with nothing read of
/// what follows.
pub proof fn law_property_round_trip(property: PropertyView, rest: Seq<u8>)
    requires
        property.wf(),
        property.value.in_range(),
    ensures
        property_at(property.bytes() + rest) == Ok::<(PropertyView, nat), EncodingError>(
            (property, property.bytes().len()),
        ),
{
    let s = property.bytes() + rest;
    lemma_value_read_back(property.value, rest);
    assert(s.skip(1) =~= property.value.bytes() + rest);
    assert(s[0] == property.id.code());
    lemma_code_read_back(property.id);
}

proof fn lemma_code_read_back(id: PropertyIdentifier)
    ensures
        PropertyIdentifier::of_code(id.code()) == Some(id),
{
}

/// Iterating over the block of a list of properties yields the properties of
/// the list, in their order, and nothing else.
pub proof fn law_list_round_trip(props: Seq<Property<'_>>)
    requires
        forall|i: int| 0 <= i < props.len() ==> (#[trigger] props[i])@.wf() && props[i]@.value.in_range(),
    ensures
        readable_properties(list_bytes(props)) == props.map_values(|p: Property<'_>| p@),
    decreases props.len(),
{
    let views = props.map_values(|p: Property<'_>| p@);
    let pieces = list_pieces(props);
    if props.len() == 0 {
        assert(views =~= Seq::<PropertyView>::empty());
    } else {
        let s = list_bytes(props);
        let n = pieces[0].len();
        assert(pieces.skip(1) =~= list_pieces(props.skip(1)));
        law_property_round_trip(props[0]@, list_bytes(props.skip(1)));
        law_list_round_trip(props.skip(1));
        assert(s.skip(n as int) =~= list_bytes(props.skip(1)));
        assert(views =~= seq![props[0]@] + props.skip(1).map_values(|p: Property<'_>| p@));
    }
}

/// Every property has the number and the kind of value that MQTT gives it, and
/// no other number stands for one.
pub proof fn law_property_numbers_and_kinds(code: u8)
    ensures
        PropertyIdentifier::PayloadFormatIndicator.code() == 0x01,
        PropertyIdentifier::MessageExpiryInterval.code() == 0x02,
        PropertyIdentifier::ContentType.code() == 0x03,
        PropertyIdentifier::ResponseTopic.code() == 0x08,
        PropertyIdentifier::CorrelationData.code() == 0x09,
        PropertyIdentifier::SubscriptionIdentifier.code() == 0x0b,
        PropertyIdentifier::SessionExpiryInterval.code() == 0x11,
        PropertyIdentifier::AssignedClientIdentifier.code() == 0x12,
        PropertyIdentifier::ServerKeepAlive.code() == 0x13,
        PropertyIdentifier::AuthenticationMethod.code() == 0x15,
        PropertyIdentifier::AuthenticationData.code() == 0x16,
        PropertyIdentifier::RequestProblemInformation.code() == 0x17,
        PropertyIdentifier::WillDelayInterval.code() == 0x18,
        PropertyIdentifier::RequestResponseInformation.code() == 0x19,
        PropertyIdentifier::ResponseInformation.code() == 0x1a,
        PropertyIdentifier::ServerReference.code() == 0x1c,
        PropertyIdentifier::ReasonString.code() == 0x1f,
        PropertyIdentifier::ReceiveMaximum.code() == 0x21,
        PropertyIdentifier::TopicAliasMaximum.code() == 0x22,
        PropertyIdentifier::TopicAlias.code() == 0x23,
        PropertyIdentifier::MaximumQoS.code() == 0x24,
        PropertyIdentifier::RetainAvailable.code() == 0x25,
        PropertyIdentifier::UserProperty.code() == 0x26,
        PropertyIdentifier::MaximumPacketSize.code() == 0x27,
        PropertyIdentifier::WildcardSubscriptionAvailable.code() == 0x28,
        PropertyIdentifier::SubscriptionIdentifierAvailable.code() == 0x29,
        PropertyIdentifier::SharedSubscriptionAvailable.code() == 0x2a,
        PropertyIdentifier::PayloadFormatIndicator.kind() == PropertyKind::Byte,
        PropertyIdentifier::MessageExpiryInterval.kind() == PropertyKind::FourByteInteger,
        PropertyIdentifier::ContentType.kind() == PropertyKind::Utf8String,
        PropertyIdentifier::ResponseTopic.kind() == PropertyKind::Utf8String,
        PropertyIdentifier::CorrelationData.kind() == PropertyKind::BinaryData,
        PropertyIdentifier::SubscriptionIdentifier.kind() == PropertyKind::VariableByteInteger,
        PropertyIdentifier::SessionExpiryInterval.kind() == PropertyKind::FourByteInteger,
        PropertyIdentifier::AssignedClientIdentifier.kind() == PropertyKind::Utf8String,
        PropertyIdentifier::ServerKeepAlive.kind() == PropertyKind::TwoByteInteger,
        PropertyIdentifier::AuthenticationMethod.kind() == PropertyKind::Utf8String,
        PropertyIdentifier::AuthenticationData.kind() == PropertyKind::BinaryData,
        PropertyIdentifier::RequestProblemInformation.kind() == PropertyKind::Byte,
        PropertyIdentifier::WillDelayInterval.kind() == PropertyKind::FourByteInteger,
        PropertyIdentifier::RequestResponseInformation.kind() == PropertyKind::Byte,
        PropertyIdentifier::ResponseInformation.kind() == PropertyKind::Utf8String,
        PropertyIdentifier::ServerReference.kind() == PropertyKind::Utf8String,
        PropertyIdentifier::ReasonString.kind() == PropertyKind::Utf8String,
        PropertyIdentifier::ReceiveMaximum.kind() == PropertyKind::TwoByteInteger,
        PropertyIdentifier::TopicAliasMaximum.kind() == PropertyKind::TwoByteInteger,
        PropertyIdentifier::TopicAlias.kind() == PropertyKind::TwoByteInteger,
        PropertyIdentifier::MaximumQoS.kind() == PropertyKind::Byte,
        PropertyIdentifier::RetainAvailable.kind() == PropertyKind::Byte,
        PropertyIdentifier::UserProperty.kind() == PropertyKind::Utf8StringPair,
        PropertyIdentifier::MaximumPacketSize.kind() == PropertyKind::FourByteInteger,
        PropertyIdentifier::WildcardSubscriptionAvailable.kind() == PropertyKind::Byte,
        PropertyIdentifier::SubscriptionIdentifierAvailable.kind() == PropertyKind::Byte,
        PropertyIdentifier::SharedSubscriptionAvailable.kind() == PropertyKind::Byte,
        PropertyIdentifier::of_code(code) matches Some(id) ==> id.code() == code,
        PropertyIdentifier::of_code(code) is None ==> forall|id: PropertyIdentifier|
            (#[trigger] id.code()) != code,
{
}

/// A property is the one that it is called.
pub proof fn law_properties_are_what_they_are_called(property: Property<'_>)
    ensures
        property@.id == match property {
            Property::PayloadFormatIndicator(_) => PropertyIdentifier::PayloadFormatIndicator,
            Property::MessageExpiryInterval(_) => PropertyIdentifier::MessageExpiryInterval,
            Property::ContentType(_) => PropertyIdentifier::ContentType,
            Property::ResponseTopic(_) => PropertyIdentifier::ResponseTopic,
            Property::CorrelationData(_) => PropertyIdentifier::CorrelationData,
            Property::SubscriptionIdentifier(_) => PropertyIdentifier::SubscriptionIdentifier,
            Property::SessionExpiryInterval(_) => PropertyIdentifier::SessionExpiryInterval,
            Property::AssignedClientIdentifier(_) => PropertyIdentifier::AssignedClientIdentifier,
            Property::ServerKeepAlive(_) => PropertyIdentifier::ServerKeepAlive,
            Property::AuthenticationMethod(_) => PropertyIdentifier::AuthenticationMethod,
            Property::AuthenticationData(_) => PropertyIdentifier::AuthenticationData,
            Property::RequestProblemInformation(_) => PropertyIdentifier::RequestProblemInformation,
            Property::WillDelayInterval(_) => PropertyIdentifier::WillDelayInterval,
            Property::RequestResponseInformation(_) => PropertyIdentifier::RequestResponseInformation,
            Property::ResponseInformation(_) => PropertyIdentifier::ResponseInformation,
            Property::ServerReference(_) => PropertyIdentifier::ServerReference,
            Property::ReasonString(_) => PropertyIdentifier::ReasonString,
            Property::ReceiveMaximum(_) => PropertyIdentifier::ReceiveMaximum,
            Property::TopicAliasMaximum(_) => PropertyIdentifier::TopicAliasMaximum,
            Property::TopicAlias(_) => PropertyIdentifier::TopicAlias,
            Property::MaximumQoS(_) => PropertyIdentifier::MaximumQoS,
            Property::RetainAvailable(_) => PropertyIdentifier::RetainAvailable,
            Property::UserProperty(_, _) => PropertyIdentifier::UserProperty,
            Property::MaximumPacketSize(_) => PropertyIdentifier::MaximumPacketSize,
            Property::WildcardSubscriptionAvailable(_) => PropertyIdentifier::WildcardSubscriptionAvailable,
            Property::SubscriptionIdentifierAvailable(_) => PropertyIdentifier::SubscriptionIdentifierAvailable,
            Property::SharedSubscriptionAvailable(_) => PropertyIdentifier::SharedSubscriptionAvailable,
        },
{
}

/// A property holds the value that it was given, strings as their UTF-8 bytes.
pub proof fn law_properties_hold_their_values(property: Property<'_>)
    ensures
        property@.value == match property {
            Property::PayloadFormatIndicator(v) => ValueView::Byte(v),
            Property::MessageExpiryInterval(v) => ValueView::FourByteInteger(v),
            Property::ContentType(v) => ValueView::Utf8String(v.spec_bytes()),
            Property::ResponseTopic(v) => ValueView::Utf8String(v.spec_bytes()),
            Property::CorrelationData(v) => ValueView::BinaryData(v@),
            Property::SubscriptionIdentifier(v) => ValueView::VariableByteInteger(v),
            Property::SessionExpiryInterval(v) => ValueView::FourByteInteger(v),
            Property::AssignedClientIdentifier(v) => ValueView::Utf8String(v.spec_bytes()),
            Property::ServerKeepAlive(v) => ValueView::TwoByteInteger(v),
            Property::AuthenticationMethod(v) => ValueView::Utf8String(v.spec_bytes()),
            Property::AuthenticationData(v) => ValueView::BinaryData(v@),
            Property::RequestProblemInformation(v) => ValueView::Byte(v),
            Property::WillDelayInterval(v) => ValueView::FourByteInteger(v),
            Property::RequestResponseInformation(v) => ValueView::Byte(v),
            Property::ResponseInformation(v) => ValueView::Utf8String(v.spec_bytes()),
            Property::ServerReference(v) => ValueView::Utf8String(v.spec_bytes()),
            Property::ReasonString(v) => ValueView::Utf8String(v.spec_bytes()),
            Property::ReceiveMaximum(v) => ValueView::TwoByteInteger(v),
            Property::TopicAliasMaximum(v) => ValueView::TwoByteInteger(v),
            Property::TopicAlias(v) => ValueView::TwoByteInteger(v),
            Property::MaximumQoS(v) => ValueView::Byte(v),
            Property::RetainAvailable(v) => ValueView::Byte(v),
            Property::UserProperty(k, v) => ValueView::Utf8StringPair(k.spec_bytes(), v.spec_bytes()),
            Property::MaximumPacketSize(v) => ValueView::FourByteInteger(v),
            Property::WildcardSubscriptionAvailable(v) => ValueView::Byte(v),
            Property::SubscriptionIdentifierAvailable(v) => ValueView::Byte(v),
            Property::SharedSubscriptionAvailable(v) => ValueView::Byte(v),
        },
{
}

/// The value of a property stands on the wire as its kind demands: a byte as
/// it is, integers most significant byte first or in groups of seven bits, and
/// strings behind their lengths. The number of the property stands in front.
pub proof fn law_values_on_the_wire(property: PropertyView)
    ensures
        property.bytes()[0] == property.id.code(),
        property.bytes().skip(1) == match property.value {
            ValueView::Byte(v) => seq![v],
            ValueView::TwoByteInteger(v) => seq![(v / 256) as u8, (v % 256) as u8],
            ValueView::FourByteInteger(v) => seq![
                (v / 16777216) as u8,
                (v / 65536 % 256) as u8,
                (v / 256 % 256) as u8,
                (v % 256) as u8,
            ],
            ValueView::VariableByteInteger(v) => varint_bytes(v as nat),
            ValueView::Utf8String(s) => slice_bytes(s),
            ValueView::BinaryData(s) => slice_bytes(s),
            ValueView::Utf8StringPair(k, v) => slice_bytes(k) + slice_bytes(v),
        },
{
    assert(property.bytes().skip(1) =~= property.value.bytes());
}

/// A property is read by its number: a number that stands for none, and a value
/// that is not all there, are errors. What is read of a value is what its kind
/// demands.
pub proof fn law_properties_are_read(s: Seq<u8>)
    ensures
        s.len() == 0 ==> property_at(s) == Err::<(PropertyView, nat), EncodingError>(
            EncodingError::InsufficientBytes,
        ),
        s.len() > 0 && PropertyIdentifier::of_code(s[0]) is None ==> property_at(s) == Err::<
            (PropertyView, nat),
            EncodingError,
        >(EncodingError::InvalidProperty(s[0])),
        property_at(s) matches Ok((property, n)) ==> {
            let rest = s.skip(1);
            &&& property.id.code() == s[0]
            &&& property.value.kind() == property.id.kind()
            &&& match property.value {
                ValueView::Byte(v) => v == rest[0] && n == 2,
                ValueView::TwoByteInteger(v) => v == rest[0] * 256 + rest[1] && n == 3,
                ValueView::FourByteInteger(v) => v == ((rest[0] * 256 + rest[1]) * 256 + rest[2])
                    * 256 + rest[3] && n == 5,
                ValueView::VariableByteInteger(v) => varint_at(rest, 0) == Ok::<
                    (nat, nat),
                    EncodingError,
                >((v as nat, (n - 1) as nat)),
                ValueView::Utf8String(v) => str_at(rest) == Ok::<Seq<u8>, EncodingError>(v) && n == 3
                    + v.len(),
                ValueView::BinaryData(v) => slice_at(rest) == Ok::<Seq<u8>, EncodingError>(v) && n
                    == 3 + v.len(),
                ValueView::Utf8StringPair(k, v) => {
                    &&& str_at(rest) == Ok::<Seq<u8>, EncodingError>(k)
                    &&& str_at(rest.skip(2 + k.len() as int)) == Ok::<Seq<u8>, EncodingError>(v)
                    &&& n == 5 + k.len() + v.len()
                },
            }
        },
        s.len() > 0 && PropertyIdentifier::of_code(s[0]) is Some && property_at(s) is Err ==> {
            let rest = s.skip(1);
            match PropertyIdentifier::of_code(s[0])->0.kind() {
                PropertyKind::Byte => rest.len() < 1,
                PropertyKind::TwoByteInteger => rest.len() < 2,
                PropertyKind::FourByteInteger => rest.len() < 4,
                PropertyKind::VariableByteInteger => varint_at(rest, 0) is Err,
                PropertyKind::Utf8String => str_at(rest) is Err,
                PropertyKind::BinaryData => slice_at(rest) is Err,
                PropertyKind::Utf8StringPair => str_at(rest) is Err || str_at(
                    rest.skip(2 + str_at(rest)->Ok_0.len() as int),
                ) is Err,
            }
        },
{
    reveal(value_at);
    if s.len() > 0 {
        law_property_numbers_and_kinds(s[0]);
    }
    lemma_varint_at_bounds(s.skip(1), 0);
}

/// Iterating over a property block yields one property after the other, each
/// where the one in front of it ends, until nothing is left or something cannot
/// be read.
pub proof fn law_iteration_goes_on_where_it_stopped(s: Seq<u8>)
    ensures
        readable_properties(s).len() == 0 <==> property_at(s) is Err,
        property_at(s) matches Ok((property, n)) ==> {
            &&& 0 < n <= s.len()
            &&& readable_properties(s)[0] == property
            &&& readable_properties(s).skip(1) == readable_properties(s.skip(n as int))
        },
{
    lemma_property_at(s);
    if let Ok((property, n)) = property_at(s) {
        assert(readable_properties(s).skip(1) =~= readable_properties(s.skip(n as int)));
    }
}

/// The response topic is the value of the first property of that name, if there
/// is one in front of whatever cannot be read.
pub proof fn law_response_topic_is_the_first_one(s: Seq<u8>)
    ensures
        ({
            let properties = readable_properties(s);
            match first_response_topic(s).0 {
                Some(topic) => exists|i: int|
                    #![trigger properties[i]]
                    {
                        &&& 0 <= i < properties.len()
                        &&& properties[i].id == PropertyIdentifier::ResponseTopic
                        &&& properties[i].value == ValueView::Utf8String(topic)
                        &&& forall|j: int|
                            0 <= j < i ==> (#[trigger] properties[j]).id
                                != PropertyIdentifier::ResponseTopic
                    },
                None => forall|i: int|
                    0 <= i < properties.len() ==> (#[trigger] properties[i]).id
                        != PropertyIdentifier::ResponseTopic,
            }
        }),
    decreases s.len(),
{
    let properties = readable_properties(s);
    lemma_property_at(s);
    if let Ok((property, n)) = property_at(s) {
        let rest = s.skip(n as int);
        let after = readable_properties(rest);
        assert(properties =~= seq![property] + after);
        law_properties_are_read(s);
        law_property_numbers_and_kinds(s[0]);
        if property.id == PropertyIdentifier::ResponseTopic {
            assert(properties[0] == property);
        } else {
            law_response_topic_is_the_first_one(rest);
            if let Some(topic) = first_response_topic(rest).0 {
                let i = choose|i: int|
                    #![trigger after[i]]
                    {
                        &&& 0 <= i < after.len()
                        &&& after[i].id == PropertyIdentifier::ResponseTopic
                        &&& after[i].value == ValueView::Utf8String(topic)
                        &&& forall|j: int|
                            0 <= j < i ==> (#[trigger] after[j]).id
                                != PropertyIdentifier::ResponseTopic
                    };
                assert(properties[i + 1] == after[i]);
                assert forall|j: int| 0 <= j < i + 1 implies (#[trigger] properties[j]).id
                    != PropertyIdentifier::ResponseTopic by {
                    if j > 0 {
                        assert(properties[j] == after[j - 1]);
                    }
                }
            } else {
                assert forall|j: int| 0 <= j < properties.len() implies (
                #[trigger] properties[j]).id != PropertyIdentifier::ResponseTopic by {
                    if j > 0 {
                        assert(properties[j] == after[j - 1]);
                    }
                }
            }
        }
    }
}

/// Two sets of properties are equal if and only if they stand on the wire as
/// the same bytes.
pub proof fn law_equal_properties_stand_alike<'a>(
    a: &Properties<'a>,
    b: &Properties<'a>,
    res: bool,
)
    requires
        call_ensures(<Properties<'a> as PartialEq>::eq, (a, b), res),
    ensures
        res <==> a.block() == b.block(),
{
}

/// Each property is read where the one in front of it ends. What cannot be read
/// is an error that ends the iteration.
pub proof fn law_next_property<'a>(
    iter: &mut PropertiesIter<'a>,
    item: Option<Result<Property<'a>, Error>>,
)
    requires
        call_ensures(PropertiesIter::<'a>::next, (iter,), item),
    ensures
        item is None <==> old(iter).rest().len() == 0,
        item matches Some(Ok(property)) ==> {
            let n = old(iter).rest().len() - final(iter).rest().len();
            &&& 0 < n
            &&& final(iter).rest() == old(iter).rest().skip(n)
            &&& property_at(old(iter).rest()) matches Ok((view, m)) && view == property@ && m == n
        },
        item matches Some(Err(e)) ==> {
            &&& final(iter).rest().len() == 0
            &&& property_at(old(iter).rest()) matches Err(f) && e == Error::Encoding(f)
        },
{
    lemma_property_at(old(iter).rest());
}

/// Reading goes on behind the first response topic, and nothing is left to read
/// if there is none.
pub proof fn law_reading_goes_on_behind_the_response_topic(s: Seq<u8>)
    ensures
        ({
            let properties = readable_properties(s);
            let after = readable_properties(first_response_topic(s).1);
            let found = properties.len() - after.len() - 1;
            match first_response_topic(s).0 {
                Some(_) => {
                    &&& 0 <= found
                    &&& properties[found].id == PropertyIdentifier::ResponseTopic
                    &&& after == properties.skip(found + 1)
                    &&& forall|j: int|
                        0 <= j < found ==> (#[trigger] properties[j]).id
                            != PropertyIdentifier::ResponseTopic
                },
                None => first_response_topic(s).1.len() == 0,
            }
        }),
    decreases s.len(),
{
    let properties = readable_properties(s);
    lemma_property_at(s);
    if let Ok((property, n)) = property_at(s) {
        let rest = s.skip(n as int);
        let tail = readable_properties(rest);
        assert(properties =~= seq![property] + tail);
        law_properties_are_read(s);
        law_property_numbers_and_kinds(s[0]);
        if property.id == PropertyIdentifier::ResponseTopic {
            assert(properties.skip(1) =~= tail);
        } else {
            law_reading_goes_on_behind_the_response_topic(rest);
            if first_response_topic(rest).0 is Some {
                let after = readable_properties(first_response_topic(rest).1);
                let found = tail.len() - after.len() - 1;
                assert(properties[found + 1] == tail[found]);
                assert(properties.skip(found + 2) =~= tail.skip(found + 1));
                assert forall|j: int| 0 <= j < found + 1 implies (#[trigger] properties[j]).id
                    != PropertyIdentifier::ResponseTopic by {
                    if j > 0 {
                        assert(properties[j] == tail[j - 1]);
                    }
                }
            }
        }
    }
}

} // verus!
