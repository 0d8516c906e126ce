//! The messages exchanged between pilots, vehicles and the broker.

use vstd::prelude::*;
use vstd::arithmetic::power2::pow2;

verus! {

/// A 128-bit universally unique identifier, held as its big-endian value.
#[derive(Clone, Copy, Debug, PartialEq, Eq, Hash, Structural)]
pub struct Id(pub u128);

/// The value of the UUID that `text` denotes for `uuid::Uuid::parse_str`;
/// `None` where that function refuses `text`.
pub uninterp spec fn uuid_value(text: Seq<char>) -> Option<u128>;

/// Digit `k` of `value` written with 32 hexadecimal digits in lower case,
/// the most significant digit being digit 0.
pub open spec fn hex_digit(value: u128, k: int) -> char {
    "0123456789abcdef"@[(value as int / pow2((4 * (31 - k)) as nat) as int) % 16]
}

/// How many hyphens stand before place `i` of a hyphenated identifier.
pub open spec fn hyphens_before(i: int) -> int {
    if i < 8 {
        0
    } else if i < 13 {
        1
    } else if i < 18 {
        2
    } else if i < 23 {
        3
    } else {
        4
    }
}

/// The canonical text of the UUID of value `value`: its 32 hexadecimal
/// digits in lower case, most significant first, in groups of 8, 4, 4, 4 and
/// 12 with a hyphen between two groups.
pub open spec fn uuid_text(value: u128) -> Seq<char> {
    Seq::new(
        36,
        |i: int|
            if i == 8 || i == 13 || i == 18 || i == 23 {
                '-'
            } else {
                hex_digit(value, i - hyphens_before(i))
            },
    )
}

/// The instant that `text` denotes for `chrono` when it is parsed as a
/// `DateTime<Utc>`: whole seconds since the Unix epoch, and the nanoseconds
/// past them. `None` where `chrono` refuses `text`.
pub uninterp spec fn rfc3339_instant(text: Seq<char>) -> Option<(i64, u32)>;

/// Parses `text` with `uuid::Uuid::parse_str` and hands out the value of
/// `Uuid::as_u128`.
///
/// The contract gives the outcome a name, `uuid_value`, and claims nothing
/// else: the same text always parses the same.
#[verifier::external_body]
pub(crate) fn uuid_parse(text: &str) -> (value: Option<u128>)
    ensures
        value == uuid_value(text@),
{
    uuid::Uuid::parse_str(text).ok().map(|id| id.as_u128())
}

/// Writes the UUID `uuid::Uuid::from_u128(value)` in its hyphenated form,
/// through `to_hyphenated` and `to_string`.
///
/// The contract claims what the `uuid` crate documents of that form: the
/// text is `uuid_text(value)`, 32 lower-case hexadecimal digits of the value
/// from the most significant down, with hyphens after the digits 8, 12, 16
/// and 20.
#[verifier::external_body]
pub(crate) fn uuid_format(value: u128) -> (text: String)
    ensures
        text@ == uuid_text(value),
{
    uuid::Uuid::from_u128(value).to_hyphenated().to_string()
}

/// Parses `text` as a `chrono::DateTime<chrono::Utc>` through `str::parse`
/// and hands out `timestamp` and `timestamp_subsec_nanos` of the result.
///
/// The contract gives the outcome a name, `rfc3339_instant`, and claims
/// nothing else: the same text always parses the same.
#[verifier::external_body]
pub(crate) fn instant_parse(text: &str) -> (instant: Option<(i64, u32)>)
    ensures
        instant == rfc3339_instant(text@),
{
    text.parse::<chrono::DateTime<chrono::Utc>>().ok().map(
        |instant| (instant.timestamp(), instant.timestamp_subsec_nanos()),
    )
}

/// The identifier that `text` denotes, if it denotes one.
pub open spec fn id_of(text: Seq<char>) -> Option<Id> {
    match uuid_value(text) {
        Some(value) => Some(Id(value)),
        None => None,
    }
}

/// The identifier that `id` denotes. The text has to denote one.
pub fn id_from_str(id: &str) -> (parsed: Id)
    requires
        uuid_value(id@) is Some,
    ensures
        Some(parsed) == id_of(id@),
{
    Id(uuid_parse(id).unwrap())
}

/// The identifier that `text` denotes, or `None` where it denotes none.
pub fn parse_id(text: &str) -> (parsed: Option<Id>)
    ensures
        parsed == id_of(text@),
{
    match uuid_parse(text) {
        Some(_) => Some(id_from_str(text)),
        None => None,
    }
}

impl Id {
    /// The canonical text of the identifier: lower-case and hyphenated.
    pub fn to_text(&self) -> (text: String)
        ensures
            text@ == uuid_text(self.0),
    {
        uuid_format(self.0)
    }
}

/// The canonical text is 36 characters long, has its hyphens at the places
/// 8, 13, 18 and 23, and a lower-case hexadecimal digit everywhere else.
pub proof fn lemma_uuid_text_is_canonical(value: u128)
    ensures
        uuid_text(value).len() == 36,
        forall|i: int|
            0 <= i < 36 ==> if i == 8 || i == 13 || i == 18 || i == 23 {
                #[trigger] uuid_text(value)[i] == '-'
            } else {
                "0123456789abcdef"@.contains(uuid_text(value)[i])
            },
{
    reveal_strlit("0123456789abcdef");
    assert forall|i: int| 0 <= i < 36 && !(i == 8 || i == 13 || i == 18 || i == 23) implies
        "0123456789abcdef"@.contains(#[trigger] uuid_text(value)[i]) by {
        let k = i - hyphens_before(i);
        let place = (value as int / pow2((4 * (31 - k)) as nat) as int) % 16;
        assert(0 <= place < 16);
        assert(uuid_text(value)[i] == "0123456789abcdef"@[place]);
    }
}

/// The two roles a client can take. Frames fan out only between opposing roles.
#[derive(Clone, Copy, Debug, PartialEq, Eq, Hash, Structural)]
pub enum ClientType {
    Pilot,
    Vehicle,
}

/// What a `Number` is: the bit pattern of the double it denotes, and the
/// characters that denote it.
pub struct NumberView {
    pub bits: u64,
    pub literal: Seq<char>,
}

/// A number as it travels in a message: the IEEE-754 binary64 bit pattern of
/// its value, together with the JSON literal that is written for it.
///
/// A `Number` comes out of a decoded message or of `Number::parse`, so its
/// literal is always one that the JSON reader produced for exactly this
/// value.
#[derive(Clone, Debug, PartialEq, Eq)]
pub struct Number {
    bits: u64,
    literal: String,
}

impl View for Number {
    type V = NumberView;

    closed spec fn view(&self) -> NumberView {
        NumberView { bits: self.bits, literal: self.literal@ }
    }
}

impl Number {
    pub(crate) fn from_parts(bits: u64, literal: String) -> (number: Number)
        ensures
            number@ == (NumberView { bits, literal: literal@ }),
    {
        Number { bits, literal }
    }

    /// The IEEE-754 binary64 bit pattern of the value.
    pub fn to_bits(&self) -> (bits: u64)
        ensures
            bits == self@.bits,
    {
        self.bits
    }

    /// The JSON literal of the value.
    pub fn literal(&self) -> (literal: &str)
        ensures
            literal@ == self@.literal,
    {
        self.literal.as_str()
    }

    pub fn duplicate(&self) -> (copy: Number)
        ensures
            copy@ == self@,
    {
        Number { bits: self.bits, literal: self.literal.clone() }
    }
}

/// What a `DateTime` is: the instant, as seconds and nanoseconds since the
/// Unix epoch, and the characters it was written with.
pub struct DateTimeView {
    pub seconds: i64,
    pub nanoseconds: u32,
    pub text: Seq<char>,
}

/// The instant that `text` denotes, with `text` itself, if it denotes one.
pub open spec fn instant_of(text: Seq<char>) -> Option<DateTimeView> {
    match rfc3339_instant(text) {
        Some((seconds, nanoseconds)) => Some(DateTimeView { seconds, nanoseconds, text }),
        None => None,
    }
}

/// An instant of UTC wall-clock time as it travels in a message: the instant
/// itself, together with the RFC 3339 text it was written with. The text is
/// what goes back on the wire, character for character.
#[derive(Clone, Debug, PartialEq, Eq)]
pub struct DateTime {
    seconds: i64,
    nanoseconds: u32,
    text: String,
}

impl View for DateTime {
    type V = DateTimeView;

    closed spec fn view(&self) -> DateTimeView {
        DateTimeView { seconds: self.seconds, nanoseconds: self.nanoseconds, text: self.text@ }
    }
}

impl DateTime {
    pub(crate) fn from_parts(seconds: i64, nanoseconds: u32, text: String) -> (instant: DateTime)
        ensures
            instant@ == (DateTimeView { seconds, nanoseconds, text: text@ }),
    {
        DateTime { seconds, nanoseconds, text }
    }

    /// The instant that `text` denotes, kept together with `text`; `None`
    /// where `text` denotes no instant.
    pub fn parse(text: &str) -> (parsed: Option<DateTime>)
        ensures
            parsed is Some == rfc3339_instant(text@) is Some,
            parsed matches Some(instant) ==> Some(instant@) == instant_of(text@),
    {
        match instant_parse(text) {
            Some((seconds, nanoseconds)) => Some(
                DateTime { seconds, nanoseconds, text: text.to_owned() },
            ),
            None => None,
        }
    }

    /// Whole seconds since 1970-01-01T00:00:00Z.
    pub fn timestamp(&self) -> (seconds: i64)
        ensures
            seconds == self@.seconds,
    {
        self.seconds
    }

    /// Nanoseconds past the whole second.
    pub fn timestamp_subsec_nanos(&self) -> (nanoseconds: u32)
        ensures
            nanoseconds == self@.nanoseconds,
    {
        self.nanoseconds
    }

    /// The text the instant was written with.
    pub fn text(&self) -> (text: &str)
        ensures
            text@ == self@.text,
    {
        self.text.as_str()
    }

    pub fn duplicate(&self) -> (copy: DateTime)
        ensures
            copy@ == self@,
    {
        DateTime { seconds: self.seconds, nanoseconds: self.nanoseconds, text: self.text.clone() }
    }
}

/// Payload by which a connection announces who it is.
#[derive(Clone, Copy, Debug, PartialEq, Eq, Structural)]
pub struct IdentificationMessageData {
    pub id: Id,
    pub group_id: Id,
    pub client_type: ClientType,
}

/// Payload of a control frame: one value per axis, in axis order.
#[derive(Clone, Debug, PartialEq, Eq)]
pub struct ControlMessageData {
    pub axes: Vec<Number>,
}

/// The views of `numbers`, in order.
pub open spec fn number_views(numbers: Seq<Number>) -> Seq<NumberView> {
    numbers.map_values(|number: Number| number@)
}

impl View for ControlMessageData {
    type V = Seq<NumberView>;

    open spec fn view(&self) -> Seq<NumberView> {
        number_views(self.axes@)
    }
}

/// Payload of a latency probe.
#[derive(Clone, Debug, PartialEq, Eq)]
pub struct LatencyRequestMessageData {
    pub initiator_id: Id,
    pub timestamp: DateTime,
}

pub struct LatencyRequestView {
    pub initiator_id: Id,
    pub timestamp: DateTimeView,
}

impl View for LatencyRequestMessageData {
    type V = LatencyRequestView;

    open spec fn view(&self) -> LatencyRequestView {
        LatencyRequestView { initiator_id: self.initiator_id, timestamp: self.timestamp@ }
    }
}

/// Payload of the answer to a latency probe.
#[derive(Clone, Debug, PartialEq, Eq)]
pub struct LatencyResponseMessageData {
    pub initiator_id: Id,
    pub responder_id: Id,
    pub timestamp: DateTime,
}

pub struct LatencyResponseView {
    pub initiator_id: Id,
    pub responder_id: Id,
    pub timestamp: DateTimeView,
}

impl View for LatencyResponseMessageData {
    type V = LatencyResponseView;

    open spec fn view(&self) -> LatencyResponseView {
        LatencyResponseView {
            initiator_id: self.initiator_id,
            responder_id: self.responder_id,
            timestamp: self.timestamp@,
        }
    }
}

/// The answer that `responder_id` gives to the probe `request`: the
/// initiator and the timestamp are those of the probe, untouched.
pub open spec fn response_to(request: LatencyRequestView, responder_id: Id) -> LatencyResponseView {
    LatencyResponseView {
        initiator_id: request.initiator_id,
        responder_id,
        timestamp: request.timestamp,
    }
}

impl LatencyRequestMessageData {
    /// The answer to this probe from the client `responder_id`.
    pub fn respond(&self, responder_id: Id) -> (response: LatencyResponseMessageData)
        ensures
            response@ == response_to(self@, responder_id),
    {
        LatencyResponseMessageData {
            initiator_id: self.initiator_id,
            responder_id,
            timestamp: self.timestamp.duplicate(),
        }
    }
}

/// A message of the relay protocol.
#[derive(Clone, Debug, PartialEq, Eq)]
pub enum ControlMessage {
    Identification(IdentificationMessageData),
    Control(ControlMessageData),
    LatencyRequest(LatencyRequestMessageData),
    LatencyResponse(LatencyResponseMessageData),
}

/// What a `ControlMessage` is, with sequences in place of vectors and strings.
pub enum MessageView {
    Identification(IdentificationMessageData),
    Control(Seq<NumberView>),
    LatencyRequest(LatencyRequestView),
    LatencyResponse(LatencyResponseView),
}

impl View for ControlMessage {
    type V = MessageView;

    open spec fn view(&self) -> MessageView {
        match self {
            ControlMessage::Identification(data) => MessageView::Identification(*data),
            ControlMessage::Control(data) => MessageView::Control(data@),
            ControlMessage::LatencyRequest(data) => MessageView::LatencyRequest(data@),
            ControlMessage::LatencyResponse(data) => MessageView::LatencyResponse(data@),
        }
    }
}

} // verus!
