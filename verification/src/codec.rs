//! The wire format of the messages: one JSON object per message, told apart
//! by its member `type`.

use vstd::prelude::*;
use crate::json::{
    element_view,
    json_members,
    json_quoted,
    members_view,
    quote,
    read_members,
    Field,
    FieldView,
    MembersView,
};
use crate::message::{
    id_of,
    instant_of,
    number_views,
    parse_id,
    uuid_text,
    ClientType,
    ControlMessage,
    ControlMessageData,
    DateTime,
    DateTimeView,
    Id,
    IdentificationMessageData,
    LatencyRequestMessageData,
    LatencyRequestView,
    LatencyResponseMessageData,
    LatencyResponseView,
    MessageView,
    Number,
    NumberView,
};

verus! {

/// The members that a message can have.
#[derive(Clone, Copy, Debug, PartialEq, Eq, Structural)]
pub enum Member {
    Id,
    GroupId,
    ClientType,
    Axes,
    InitiatorId,
    ResponderId,
    Timestamp,
}

/// Why a text is not a message.
#[derive(Clone, Copy, Debug, PartialEq, Eq, Structural)]
pub enum DecodeError {
    /// The text is not a JSON object.
    Syntax,
    /// The object has no member `type` that is a string.
    MissingType,
    /// The member `type` names no kind of message.
    UnknownType,
    /// A member that the kind of message requires is missing, or its value is
    /// not of the type it has to be.
    InvalidMember(Member),
}

/// The name of a member on the wire.
pub open spec fn member_name(member: Member) -> Seq<char> {
    match member {
        Member::Id => "id"@,
        Member::GroupId => "group_id"@,
        Member::ClientType => "client_type"@,
        Member::Axes => "axes"@,
        Member::InitiatorId => "initiator_id"@,
        Member::ResponderId => "responder_id"@,
        Member::Timestamp => "timestamp"@,
    }
}

/// The value of the member called `name`; of several with that name, the
/// last.
pub open spec fn member(members: MembersView, name: Seq<char>) -> Option<FieldView>
    decreases members.len(),
{
    if members.len() == 0 {
        None
    } else if members.last().0 == name {
        Some(members.last().1)
    } else {
        member(members.drop_last(), name)
    }
}

/// The value of the member called `name`, where that is a string.
pub open spec fn text_member(members: MembersView, name: Seq<char>) -> Option<Seq<char>> {
    match member(members, name) {
        Some(FieldView::Text(text)) => Some(text),
        _ => None,
    }
}

/// The identifier in the member `which`.
pub open spec fn id_member(members: MembersView, which: Member) -> Option<Id> {
    match text_member(members, member_name(which)) {
        Some(text) => id_of(text),
        None => None,
    }
}

/// The instant in the member `timestamp`.
pub open spec fn timestamp_member(members: MembersView) -> Option<DateTimeView> {
    match text_member(members, member_name(Member::Timestamp)) {
        Some(text) => instant_of(text),
        None => None,
    }
}

/// The role that `text` names.
pub open spec fn role_of(text: Seq<char>) -> Option<ClientType> {
    if text == "pilot"@ {
        Some(ClientType::Pilot)
    } else if text == "vehicle"@ {
        Some(ClientType::Vehicle)
    } else {
        None
    }
}

/// The role in the member `client_type`.
pub open spec fn role_member(members: MembersView) -> Option<ClientType> {
    match text_member(members, member_name(Member::ClientType)) {
        Some(text) => role_of(text),
        None => None,
    }
}

/// The numbers of `elements`, where every element is a number.
pub open spec fn all_numbers(elements: Seq<Option<NumberView>>) -> Option<Seq<NumberView>> {
    if forall|i: int| 0 <= i < elements.len() ==> (#[trigger] elements[i]) is Some {
        Some(elements.map_values(|element: Option<NumberView>| element->0))
    } else {
        None
    }
}

/// The numbers in the member `axes`.
pub open spec fn axes_member(members: MembersView) -> Option<Seq<NumberView>> {
    match member(members, member_name(Member::Axes)) {
        Some(FieldView::List(elements)) => all_numbers(elements),
        _ => None,
    }
}

/// The identification that `members` describe.
pub open spec fn decoded_identification(members: MembersView) -> Result<MessageView, DecodeError> {
    match id_member(members, Member::Id) {
        None => Err(DecodeError::InvalidMember(Member::Id)),
        Some(id) => match id_member(members, Member::GroupId) {
            None => Err(DecodeError::InvalidMember(Member::GroupId)),
            Some(group_id) => match role_member(members) {
                None => Err(DecodeError::InvalidMember(Member::ClientType)),
                Some(client_type) => Ok(
                    MessageView::Identification(
                        IdentificationMessageData { id, group_id, client_type },
                    ),
                ),
            },
        },
    }
}

/// The control frame that `members` describe.
pub open spec fn decoded_control(members: MembersView) -> Result<MessageView, DecodeError> {
    match axes_member(members) {
        None => Err(DecodeError::InvalidMember(Member::Axes)),
        Some(axes) => Ok(MessageView::Control(axes)),
    }
}

/// The latency probe that `members` describe.
pub open spec fn decoded_request(members: MembersView) -> Result<MessageView, DecodeError> {
    match id_member(members, Member::InitiatorId) {
        None => Err(DecodeError::InvalidMember(Member::InitiatorId)),
        Some(initiator_id) => match timestamp_member(members) {
            None => Err(DecodeError::InvalidMember(Member::Timestamp)),
            Some(timestamp) => Ok(
                MessageView::LatencyRequest(LatencyRequestView { initiator_id, timestamp }),
            ),
        },
    }
}

/// The answer to a latency probe that `members` describe.
pub open spec fn decoded_response(members: MembersView) -> Result<MessageView, DecodeError> {
    match id_member(members, Member::InitiatorId) {
        None => Err(DecodeError::InvalidMember(Member::InitiatorId)),
        Some(initiator_id) => match id_member(members, Member::ResponderId) {
            None => Err(DecodeError::InvalidMember(Member::ResponderId)),
            Some(responder_id) => match timestamp_member(members) {
                None => Err(DecodeError::InvalidMember(Member::Timestamp)),
                Some(timestamp) => Ok(
                    MessageView::LatencyResponse(
                        LatencyResponseView { initiator_id, responder_id, timestamp },
                    ),
                ),
            },
        },
    }
}

/// The message that the members of a JSON object describe.
///
/// The member `type` selects the kind of message and has to be one of the
/// four names. Each member that the kind requires has to be there with a
/// value of its type; the first one that is not is reported. Members that the
/// kind does not know are passed over.
pub open spec fn decoded(members: MembersView) -> Result<MessageView, DecodeError> {
    match text_member(members, "type"@) {
        None => Err(DecodeError::MissingType),
        Some(tag) => if tag == "identification"@ {
            decoded_identification(members)
        } else if tag == "control"@ {
            decoded_control(members)
        } else if tag == "latency_request"@ {
            decoded_request(members)
        } else if tag == "latency_response"@ {
            decoded_response(members)
        } else {
            Err(DecodeError::UnknownType)
        },
    }
}

/// The message that `text` is.
pub open spec fn decoded_text(text: Seq<char>) -> Result<MessageView, DecodeError> {
    match json_members(text) {
        None => Err(DecodeError::Syntax),
        Some(members) => decoded(members),
    }
}

/// Whether `decoding` is the outcome `expected`: the message with that view,
/// or that error.
pub open spec fn decodes_as(
    decoding: Result<ControlMessage, DecodeError>,
    expected: Result<MessageView, DecodeError>,
) -> bool {
    match decoding {
        Ok(message) => expected == Ok::<MessageView, DecodeError>(message@),
        Err(error) => expected == Err::<MessageView, DecodeError>(error),
    }
}

fn same_text(text: &String, name: &str) -> (same: bool)
    ensures
        same == (text@ == name@),
{
    let name = name.to_owned();
    *text == name
}

fn find<'a>(members: &'a Vec<(String, Field)>, name: &str) -> (found: Option<&'a Field>)
    ensures
        match found {
            Some(field) => member(members_view(members@), name@) == Some(field@),
            None => member(members_view(members@), name@) is None,
        },
{
    let ghost all = members_view(members@);
    let mut i: usize = members.len();
    assert(all.take(i as int) == all);
    while i > 0
        invariant
            i <= members@.len(),
            all == members_view(members@),
            member(all, name@) == member(all.take(i as int), name@),
        decreases i,
    {
        i -= 1;
        assert(all.take(i + 1).drop_last() == all.take(i as int));
        assert(all.take(i + 1).last() == (members@[i as int].0@, members@[i as int].1@));
        if same_text(&members[i].0, name) {
            return Some(&members[i].1);
        }
    }
    None
}

fn find_text<'a>(members: &'a Vec<(String, Field)>, name: &str) -> (found: Option<&'a String>)
    ensures
        match found {
            Some(text) => text_member(members_view(members@), name@) == Some(text@),
            None => text_member(members_view(members@), name@) is None,
        },
{
    match find(members, name) {
        Some(Field::Text(text)) => Some(text),
        _ => None,
    }
}

fn member_text(which: Member) -> (name: &'static str)
    ensures
        name@ == member_name(which),
{
    match which {
        Member::Id => "id",
        Member::GroupId => "group_id",
        Member::ClientType => "client_type",
        Member::Axes => "axes",
        Member::InitiatorId => "initiator_id",
        Member::ResponderId => "responder_id",
        Member::Timestamp => "timestamp",
    }
}

fn find_id(members: &Vec<(String, Field)>, which: Member) -> (found: Result<Id, DecodeError>)
    ensures
        match found {
            Ok(id) => id_member(members_view(members@), which) == Some(id),
            Err(error) => id_member(members_view(members@), which) is None && error
                == DecodeError::InvalidMember(which),
        },
{
    match find_text(members, member_text(which)) {
        Some(text) => match parse_id(text.as_str()) {
            Some(id) => Ok(id),
            None => Err(DecodeError::InvalidMember(which)),
        },
        None => Err(DecodeError::InvalidMember(which)),
    }
}

fn find_timestamp(members: &Vec<(String, Field)>) -> (found: Result<DateTime, DecodeError>)
    ensures
        match found {
            Ok(instant) => timestamp_member(members_view(members@)) == Some(instant@),
            Err(error) => timestamp_member(members_view(members@)) is None && error
                == DecodeError::InvalidMember(Member::Timestamp),
        },
{
    match find_text(members, member_text(Member::Timestamp)) {
        Some(text) => match DateTime::parse(text.as_str()) {
            Some(instant) => Ok(instant),
            None => Err(DecodeError::InvalidMember(Member::Timestamp)),
        },
        None => Err(DecodeError::InvalidMember(Member::Timestamp)),
    }
}

fn find_role(members: &Vec<(String, Field)>) -> (found: Result<ClientType, DecodeError>)
    ensures
        match found {
            Ok(role) => role_member(members_view(members@)) == Some(role),
            Err(error) => role_member(members_view(members@)) is None && error
                == DecodeError::InvalidMember(Member::ClientType),
        },
{
    match find_text(members, member_text(Member::ClientType)) {
        Some(text) => {
            if same_text(text, "pilot") {
                Ok(ClientType::Pilot)
            } else if same_text(text, "vehicle") {
                Ok(ClientType::Vehicle)
            } else {
                Err(DecodeError::InvalidMember(Member::ClientType))
            }
        },
        None => Err(DecodeError::InvalidMember(Member::ClientType)),
    }
}

fn find_axes(members: &Vec<(String, Field)>) -> (found: Result<Vec<Number>, DecodeError>)
    ensures
        match found {
            Ok(axes) => axes_member(members_view(members@)) == Some(number_views(axes@)),
            Err(error) => axes_member(members_view(members@)) is None && error
                == DecodeError::InvalidMember(Member::Axes),
        },
{
    let field = match find(members, member_text(Member::Axes)) {
        Some(field) => field,
        None => {
            return Err(DecodeError::InvalidMember(Member::Axes));
        },
    };
    match field {
        Field::List(elements) => {
            let ghost views: Seq<Option<NumberView>> = match field@ {
                FieldView::List(views) => views,
                _ => Seq::empty(),
            };
            let mut axes: Vec<Number> = Vec::new();
            let mut i: usize = 0;
            while i < elements.len()
                invariant
                    i <= elements@.len(),
                    views.len() == elements@.len(),
                    member(members_view(members@), member_name(Member::Axes)) == Some(
                        FieldView::List(views),
                    ),
                    forall|k: int|
                        0 <= k < elements@.len() ==> (#[trigger] views[k]) == element_view(
                            elements@[k],
                        ),
                    axes@.len() == i,
                    forall|k: int| 0 <= k < i ==> (#[trigger] views[k]) == Some(axes@[k]@),
                decreases elements@.len() - i,
            {
                match &elements[i] {
                    Some(number) => {
                        axes.push(number.duplicate());
                    },
                    None => {
                        assert(views[i as int] is None);
                        return Err(DecodeError::InvalidMember(Member::Axes));
                    },
                }
                i += 1;
            }
            assert(number_views(axes@) =~= views.map_values(
                |element: Option<NumberView>| element->0,
            ));
            Ok(axes)
        },
        _ => Err(DecodeError::InvalidMember(Member::Axes)),
    }
}

/// Builds the message that the members of a JSON object describe.
pub fn decode_members(members: &Vec<(String, Field)>) -> (decoding: Result<
    ControlMessage,
    DecodeError,
>)
    ensures
        decodes_as(decoding, decoded(members_view(members@))),
{
    let tag = match find_text(members, "type") {
        Some(tag) => tag,
        None => {
            return Err(DecodeError::MissingType);
        },
    };
    if same_text(tag, "identification") {
        let id = find_id(members, Member::Id)?;
        let group_id = find_id(members, Member::GroupId)?;
        let client_type = find_role(members)?;
        Ok(ControlMessage::Identification(IdentificationMessageData { id, group_id, client_type }))
    } else if same_text(tag, "control") {
        let axes = find_axes(members)?;
        Ok(ControlMessage::Control(ControlMessageData { axes }))
    } else if same_text(tag, "latency_request") {
        let initiator_id = find_id(members, Member::InitiatorId)?;
        let timestamp = find_timestamp(members)?;
        Ok(ControlMessage::LatencyRequest(LatencyRequestMessageData { initiator_id, timestamp }))
    } else if same_text(tag, "latency_response") {
        let initiator_id = find_id(members, Member::InitiatorId)?;
        let responder_id = find_id(members, Member::ResponderId)?;
        let timestamp = find_timestamp(members)?;
        Ok(
            ControlMessage::LatencyResponse(
                LatencyResponseMessageData { initiator_id, responder_id, timestamp },
            ),
        )
    } else {
        Err(DecodeError::UnknownType)
    }
}

/// What is said of a schema error, in words.
pub open spec fn description(error: DecodeError) -> Seq<char> {
    match error {
        DecodeError::Syntax => "not a JSON object"@,
        DecodeError::MissingType => "missing field `type`"@,
        DecodeError::UnknownType => "unknown variant in field `type`"@,
        DecodeError::InvalidMember(which) => "missing or invalid field `"@ + member_name(which)
            + "`"@,
    }
}

impl DecodeError {
    /// The error in words.
    pub fn describe(&self) -> (text: String)
        ensures
            text@ == description(*self),
    {
        match self {
            DecodeError::Syntax => "not a JSON object".to_owned(),
            DecodeError::MissingType => "missing field `type`".to_owned(),
            DecodeError::UnknownType => "unknown variant in field `type`".to_owned(),
            DecodeError::InvalidMember(which) => {
                let mut text = "missing or invalid field `".to_owned();
                text.append(member_text(*which));
                text.append("`");
                text
            },
        }
    }
}

/// Decodes one text frame.
///
/// The text has to be a JSON object that describes a message; then the
/// message comes back. Otherwise the error says in words why it is none: for
/// a text that is no JSON object in the words of the JSON reader, for an
/// object that is no message in those of `description`.
pub fn parse_control_message(message: &str) -> (parsed: Result<ControlMessage, String>)
    ensures
        match parsed {
            Ok(decoded) => decoded_text(message@) == Ok::<MessageView, DecodeError>(decoded@),
            Err(cause) => decoded_text(message@) matches Err(error) && (error
                != DecodeError::Syntax ==> cause@ == description(error)),
        },
{
    match read_members(message) {
        Ok(members) => match decode_members(&members) {
            Ok(decoded) => Ok(decoded),
            Err(error) => Err(error.describe()),
        },
        Err(cause) => Err(cause),
    }
}

/// The name of a role on the wire.
pub open spec fn role_name(role: ClientType) -> Seq<char> {
    match role {
        ClientType::Pilot => "pilot"@,
        ClientType::Vehicle => "vehicle"@,
    }
}

/// The literals of `numbers`, separated by commas.
pub open spec fn joined(numbers: Seq<NumberView>) -> Seq<char>
    decreases numbers.len(),
{
    if numbers.len() == 0 {
        Seq::empty()
    } else if numbers.len() == 1 {
        numbers[0].literal
    } else {
        joined(numbers.drop_last()) + ","@ + numbers.last().literal
    }
}

/// The JSON string literal of an identifier.
pub open spec fn quoted_id(id: Id) -> Seq<char> {
    json_quoted(uuid_text(id.0))
}

/// The text of a message on the wire: a JSON object on one line, with the
/// member `type` first and the other members in their fixed order.
pub open spec fn encoded(message: MessageView) -> Seq<char> {
    match message {
        MessageView::Identification(data) => "{\"type\":\"identification\",\"id\":"@ + quoted_id(
            data.id,
        ) + ",\"group_id\":"@ + quoted_id(data.group_id) + ",\"client_type\":\""@ + role_name(
            data.client_type,
        ) + "\"}"@,
        MessageView::Control(axes) => "{\"type\":\"control\",\"axes\":["@ + joined(axes) + "]}"@,
        MessageView::LatencyRequest(data) => "{\"type\":\"latency_request\",\"initiator_id\":"@
            + quoted_id(data.initiator_id) + ",\"timestamp\":"@ + json_quoted(data.timestamp.text)
            + "}"@,
        MessageView::LatencyResponse(data) => "{\"type\":\"latency_response\",\"initiator_id\":"@
            + quoted_id(data.initiator_id) + ",\"responder_id\":"@ + quoted_id(data.responder_id)
            + ",\"timestamp\":"@ + json_quoted(data.timestamp.text) + "}"@,
    }
}

/// The member called `name` whose value is the string `text`.
pub open spec fn text_entry(name: Seq<char>, text: Seq<char>) -> (Seq<char>, FieldView) {
    (name, FieldView::Text(text))
}

/// The members that stand for a message on the wire, in their order: the
/// kind under `type`, then the parts of the message, identifiers as their
/// canonical text, a timestamp as the text it carries.
pub open spec fn members_of(message: MessageView) -> MembersView {
    match message {
        MessageView::Identification(data) => seq![
            text_entry("type"@, "identification"@),
            text_entry("id"@, uuid_text(data.id.0)),
            text_entry("group_id"@, uuid_text(data.group_id.0)),
            text_entry("client_type"@, role_name(data.client_type)),
        ],
        MessageView::Control(axes) => seq![
            text_entry("type"@, "control"@),
            ("axes"@, FieldView::List(axes.map_values(|number: NumberView| Some(number)))),
        ],
        MessageView::LatencyRequest(data) => seq![
            text_entry("type"@, "latency_request"@),
            text_entry("initiator_id"@, uuid_text(data.initiator_id.0)),
            text_entry("timestamp"@, data.timestamp.text),
        ],
        MessageView::LatencyResponse(data) => seq![
            text_entry("type"@, "latency_response"@),
            text_entry("initiator_id"@, uuid_text(data.initiator_id.0)),
            text_entry("responder_id"@, uuid_text(data.responder_id.0)),
            text_entry("timestamp"@, data.timestamp.text),
        ],
    }
}

/// Whether an identifier reads back from its canonical text.
pub open spec fn id_reads_back(id: Id) -> bool {
    id_of(uuid_text(id.0)) == Some(id)
}

/// Whether the texts of a message read back: every identifier from its
/// canonical text, and the timestamp from the text it carries.
pub open spec fn reads_back(message: MessageView) -> bool {
    match message {
        MessageView::Identification(data) => id_reads_back(data.id) && id_reads_back(data.group_id),
        MessageView::Control(_) => true,
        MessageView::LatencyRequest(data) => id_reads_back(data.initiator_id) && instant_of(
            data.timestamp.text,
        ) == Some(data.timestamp),
        MessageView::LatencyResponse(data) => id_reads_back(data.initiator_id) && id_reads_back(
            data.responder_id,
        ) && instant_of(data.timestamp.text) == Some(data.timestamp),
    }
}

proof fn lemma_member_of_pushed(
    members: MembersView,
    name: Seq<char>,
    field: FieldView,
    wanted: Seq<char>,
)
    ensures
        member(members.push((name, field)), wanted) == if name == wanted {
            Some(field)
        } else {
            member(members, wanted)
        },
{
    assert(members.push((name, field)).drop_last() =~= members);
}

proof fn lemma_names_differ()
    ensures
        "type"@ != "id"@,
        "type"@ != "group_id"@,
        "type"@ != "client_type"@,
        "type"@ != "axes"@,
        "type"@ != "initiator_id"@,
        "type"@ != "responder_id"@,
        "type"@ != "timestamp"@,
        "id"@ != "group_id"@,
        "id"@ != "client_type"@,
        "group_id"@ != "client_type"@,
        "initiator_id"@ != "responder_id"@,
        "initiator_id"@ != "timestamp"@,
        "responder_id"@ != "timestamp"@,
        "identification"@ != "control"@,
        "identification"@ != "latency_request"@,
        "identification"@ != "latency_response"@,
        "control"@ != "latency_request"@,
        "control"@ != "latency_response"@,
        "latency_request"@ != "latency_response"@,
        "pilot"@ != "vehicle"@,
{
    reveal_strlit("type");
    reveal_strlit("id");
    reveal_strlit("group_id");
    reveal_strlit("client_type");
    reveal_strlit("axes");
    reveal_strlit("initiator_id");
    reveal_strlit("responder_id");
    reveal_strlit("timestamp");
    reveal_strlit("identification");
    reveal_strlit("control");
    reveal_strlit("latency_request");
    reveal_strlit("latency_response");
    reveal_strlit("pilot");
    reveal_strlit("vehicle");
    assert("type"@.len() == 4 && "id"@.len() == 2 && "group_id"@.len() == 8);
    assert("client_type"@.len() == 11 && "axes"@.len() == 4 && "timestamp"@.len() == 9);
    assert("initiator_id"@.len() == 12 && "responder_id"@.len() == 12);
    assert("identification"@.len() == 14 && "control"@.len() == 7);
    assert("latency_request"@.len() == 15 && "latency_response"@.len() == 16);
    assert("pilot"@.len() == 5 && "vehicle"@.len() == 7);
    assert("type"@[0] != "axes"@[0]);
    assert("initiator_id"@[0] != "responder_id"@[0]);
}

/// Decoding undoes the layout of a message: the members that stand for a
/// message on the wire describe that message again, whenever its
/// identifiers and its timestamp read back from their texts.
pub proof fn lemma_decoding_undoes_layout(message: MessageView)
    ensures
        reads_back(message) ==> decoded(members_of(message)) == Ok::<MessageView, DecodeError>(
            message,
        ),
{
    lemma_names_differ();
    let members = members_of(message);
    let none = Seq::<(Seq<char>, FieldView)>::empty();
    assert(member(none, "type"@) is None);
    match message {
        MessageView::Identification(data) => {
            let a = none.push(text_entry("type"@, "identification"@));
            let b = a.push(text_entry("id"@, uuid_text(data.id.0)));
            let c = b.push(text_entry("group_id"@, uuid_text(data.group_id.0)));
            let role = FieldView::Text(role_name(data.client_type));
            assert(members == c.push(("client_type"@, role)));
            lemma_member_of_pushed(none, "type"@, FieldView::Text("identification"@), "type"@);
            lemma_member_of_pushed(a, "id"@, FieldView::Text(uuid_text(data.id.0)), "type"@);
            lemma_member_of_pushed(a, "id"@, FieldView::Text(uuid_text(data.id.0)), "id"@);
            lemma_member_of_pushed(b, "group_id"@, FieldView::Text(uuid_text(data.group_id.0)), "type"@);
            lemma_member_of_pushed(b, "group_id"@, FieldView::Text(uuid_text(data.group_id.0)), "id"@);
            lemma_member_of_pushed(b, "group_id"@, FieldView::Text(uuid_text(data.group_id.0)), "group_id"@);
            lemma_member_of_pushed(c, "client_type"@, role, "type"@);
            lemma_member_of_pushed(c, "client_type"@, role, "id"@);
            lemma_member_of_pushed(c, "client_type"@, role, "group_id"@);
            lemma_member_of_pushed(c, "client_type"@, role, "client_type"@);
            assert(role_of(role_name(data.client_type)) == Some(data.client_type));
        },
        MessageView::Control(axes) => {
            let a = none.push(text_entry("type"@, "control"@));
            let elements = axes.map_values(|number: NumberView| Some(number));
            assert(members == a.push(("axes"@, FieldView::List(elements))));
            lemma_member_of_pushed(none, "type"@, FieldView::Text("control"@), "type"@);
            lemma_member_of_pushed(a, "axes"@, FieldView::List(elements), "type"@);
            lemma_member_of_pushed(a, "axes"@, FieldView::List(elements), "axes"@);
            assert(elements.map_values(|element: Option<NumberView>| element->0) =~= axes);
        },
        MessageView::LatencyRequest(data) => {
            let a = none.push(text_entry("type"@, "latency_request"@));
            let b = a.push(text_entry("initiator_id"@, uuid_text(data.initiator_id.0)));
            let stamp = FieldView::Text(data.timestamp.text);
            assert(members == b.push(("timestamp"@, stamp)));
            lemma_member_of_pushed(none, "type"@, FieldView::Text("latency_request"@), "type"@);
            lemma_member_of_pushed(a, "initiator_id"@, FieldView::Text(uuid_text(data.initiator_id.0)), "type"@);
            lemma_member_of_pushed(a, "initiator_id"@, FieldView::Text(uuid_text(data.initiator_id.0)), "initiator_id"@);
            lemma_member_of_pushed(b, "timestamp"@, stamp, "type"@);
            lemma_member_of_pushed(b, "timestamp"@, stamp, "initiator_id"@);
            lemma_member_of_pushed(b, "timestamp"@, stamp, "timestamp"@);
        },
        MessageView::LatencyResponse(data) => {
            let a = none.push(text_entry("type"@, "latency_response"@));
            let b = a.push(text_entry("initiator_id"@, uuid_text(data.initiator_id.0)));
            let c = b.push(text_entry("responder_id"@, uuid_text(data.responder_id.0)));
            let stamp = FieldView::Text(data.timestamp.text);
            assert(members == c.push(("timestamp"@, stamp)));
            lemma_member_of_pushed(none, "type"@, FieldView::Text("latency_response"@), "type"@);
            lemma_member_of_pushed(a, "initiator_id"@, FieldView::Text(uuid_text(data.initiator_id.0)), "type"@);
            lemma_member_of_pushed(a, "initiator_id"@, FieldView::Text(uuid_text(data.initiator_id.0)), "initiator_id"@);
            lemma_member_of_pushed(b, "responder_id"@, FieldView::Text(uuid_text(data.responder_id.0)), "type"@);
            lemma_member_of_pushed(b, "responder_id"@, FieldView::Text(uuid_text(data.responder_id.0)), "initiator_id"@);
            lemma_member_of_pushed(b, "responder_id"@, FieldView::Text(uuid_text(data.responder_id.0)), "responder_id"@);
            lemma_member_of_pushed(c, "timestamp"@, stamp, "type"@);
            lemma_member_of_pushed(c, "timestamp"@, stamp, "initiator_id"@);
            lemma_member_of_pushed(c, "timestamp"@, stamp, "responder_id"@);
            lemma_member_of_pushed(c, "timestamp"@, stamp, "timestamp"@);
        },
    }
}

fn push_id(text: &mut String, id: Id)
    ensures
        final(text)@ == old(text)@ + quoted_id(id),
{
    let plain = id.to_text();
    let literal = quote(plain.as_str());
    text.append(literal.as_str());
}

fn push_axes(text: &mut String, axes: &Vec<Number>)
    ensures
        final(text)@ == old(text)@ + joined(number_views(axes@)),
{
    let ghost views = number_views(axes@);
    let mut i: usize = 0;
    while i < axes.len()
        invariant
            i <= axes@.len(),
            views == number_views(axes@),
            text@ == old(text)@ + joined(views.take(i as int)),
        decreases axes@.len() - i,
    {
        let ghost before = text@;
        if i > 0 {
            text.append(",");
        }
        text.append(axes[i].literal());
        proof {
            let next = views.take(i + 1);
            assert(next.drop_last() == views.take(i as int));
            assert(next.last().literal == axes@[i as int]@.literal);
            if i > 0 {
                assert(text@ == old(text)@ + (joined(views.take(i as int)) + ","@
                    + next.last().literal));
            } else {
                assert(joined(views.take(0)) == Seq::<char>::empty());
                assert(text@ == old(text)@ + next[0].literal);
            }
        }
        i += 1;
    }
    assert(views.take(i as int) == views);
}

/// Encodes a message as one text frame.
pub fn build_control_message(control_message: &ControlMessage) -> (text: String)
    ensures
        text@ == encoded(control_message@),
{
    match control_message {
        ControlMessage::Identification(data) => {
            let mut text = "{\"type\":\"identification\",\"id\":".to_owned();
            push_id(&mut text, data.id);
            text.append(",\"group_id\":");
            push_id(&mut text, data.group_id);
            text.append(",\"client_type\":\"");
            match data.client_type {
                ClientType::Pilot => text.append("pilot"),
                ClientType::Vehicle => text.append("vehicle"),
            }
            text.append("\"}");
            text
        },
        ControlMessage::Control(data) => {
            let mut text = "{\"type\":\"control\",\"axes\":[".to_owned();
            push_axes(&mut text, &data.axes);
            text.append("]}");
            text
        },
        ControlMessage::LatencyRequest(data) => {
            let mut text = "{\"type\":\"latency_request\",\"initiator_id\":".to_owned();
            push_id(&mut text, data.initiator_id);
            text.append(",\"timestamp\":");
            let stamp = quote(data.timestamp.text());
            text.append(stamp.as_str());
            text.append("}");
            text
        },
        ControlMessage::LatencyResponse(data) => {
            let mut text = "{\"type\":\"latency_response\",\"initiator_id\":".to_owned();
            push_id(&mut text, data.initiator_id);
            text.append(",\"responder_id\":");
            push_id(&mut text, data.responder_id);
            text.append(",\"timestamp\":");
            let stamp = quote(data.timestamp.text());
            text.append(stamp.as_str());
            text.append("}");
            text
        },
    }
}

} // verus!
