//! The broker's routing rules: what a message does to the sender's record,
//! and to whom a frame is handed on.

use vstd::prelude::*;
use crate::error::{ErrorKind, ServerError};
use crate::codec::{decoded_text, parse_control_message};
use crate::message::{response_to, ControlMessage, Id, LatencyRequestView, MessageView};
use crate::registry::{
    distinct_addresses,
    has_address,
    is_first_with_id,
    lemma_has_id_has_first,
    lemma_position_of,
    lemma_position_of_id,
    has_id,
    position_of,
    position_of_id,
    RecordView,
    Entries,
    ServerState,
    SocketAddress,
};

verus! {

/// What the broker does with a frame once its message has been accepted.
#[derive(Clone, Copy, Debug, PartialEq, Eq, Structural)]
pub enum ControlMessageAction {
    /// The frame goes nowhere.
    Drop,
    /// The frame goes to every peer of the opposing role in the sender's group.
    ForwardAll,
    /// The frame goes to the peer that carries this identifier.
    ForwardSingle(Id),
}

/// The verdict on `message` from a connection that is, or is not yet,
/// identified: the action to take, or the kind of error that ends the
/// connection.
pub open spec fn verdict(identified: bool, message: MessageView) -> Result<
    ControlMessageAction,
    ErrorKind,
> {
    match message {
        MessageView::Identification(_) => if identified {
            Err(ErrorKind::AlreadyIdentified)
        } else {
            Ok(ControlMessageAction::Drop)
        },
        MessageView::Control(_) | MessageView::LatencyRequest(_) => if identified {
            Ok(ControlMessageAction::ForwardAll)
        } else {
            Err(ErrorKind::NotIdentified)
        },
        MessageView::LatencyResponse(data) => if identified {
            Ok(ControlMessageAction::ForwardSingle(data.initiator_id))
        } else {
            Err(ErrorKind::NotIdentified)
        },
    }
}

/// The sender's record after `message`: an identification sets the identity
/// of an unidentified record, and nothing else changes a record.
pub open spec fn record_after<T>(record: RecordView<T>, message: MessageView)
    -> RecordView<T> {
    match message {
        MessageView::Identification(data) if !record.identified() => record.with_identity(data),
        _ => record,
    }
}

/// The registry after `message` arrived from `address`.
pub open spec fn entries_after<T>(
    entries: Entries<T>,
    address: SocketAddress,
    message: MessageView,
) -> Entries<T> {
    let position = position_of(entries, address);
    entries.update(position, (address, record_after(entries[position].1, message)))
}

/// Whether the result of handling a message is what `expected` says: the same
/// action, or an error of the same kind.
pub open spec fn agrees(
    result: Result<ControlMessageAction, ServerError>,
    expected: Result<ControlMessageAction, ErrorKind>,
) -> bool {
    match result {
        Ok(action) => expected == Ok::<ControlMessageAction, ErrorKind>(action),
        Err(error) => expected == Err::<ControlMessageAction, ErrorKind>(error.kind()),
    }
}

/// A message never removes its sender from the registry.
pub proof fn lemma_sender_stays<T>(entries: Entries<T>, address: SocketAddress, message: MessageView)
    requires
        has_address(entries, address),
    ensures
        has_address(entries_after(entries, address, message), address),
        entries_after(entries, address, message).len() == entries.len(),
{
    let position = position_of(entries, address);
    assert(entries_after(entries, address, message)[position].0 == address);
}

/// Applies `control_message`, which arrived from `socket_address`, to the
/// registry and says what to do with its frame.
///
/// An identification is accepted once per connection; every other message
/// needs an identified sender. A refused message leaves the registry as it
/// was.
pub fn handle_control_message<T>(
    server_state: &mut ServerState<T>,
    socket_address: SocketAddress,
    control_message: &ControlMessage,
) -> (result: Result<ControlMessageAction, ServerError>)
    requires
        old(server_state).wf(),
        has_address(old(server_state)@, socket_address),
    ensures
        final(server_state).wf(),
        has_address(final(server_state)@, socket_address),
        agrees(
            result,
            verdict(
                old(server_state)@[position_of(old(server_state)@, socket_address)].1.identified(),
                control_message@,
            ),
        ),
        final(server_state)@ == entries_after(old(server_state)@, socket_address, control_message@),
{
    let identified = match server_state.connection_from_socket_address(socket_address) {
        Some(connection) => connection.is_identified(),
        None => false,
    };
    proof {
        lemma_sender_stays(old(server_state)@, socket_address, control_message@);
    }
    match control_message {
        ControlMessage::Identification(e) => {
            if identified {
                assert(server_state@ =~= entries_after(
                    old(server_state)@,
                    socket_address,
                    control_message@,
                ));
                return Err(ServerError::AlreadyIdentifiedError);
            }
            server_state.identify(socket_address, e.group_id, e.id, e.client_type);
            Ok(ControlMessageAction::Drop)
        },
        ControlMessage::Control(_) | ControlMessage::LatencyRequest(_) => {
            assert(server_state@ =~= entries_after(
                old(server_state)@,
                socket_address,
                control_message@,
            ));
            if !identified {
                return Err(ServerError::NotIdentifiedError);
            }
            Ok(ControlMessageAction::ForwardAll)
        },
        ControlMessage::LatencyResponse(e) => {
            assert(server_state@ =~= entries_after(
                old(server_state)@,
                socket_address,
                control_message@,
            ));
            if !identified {
                return Err(ServerError::NotIdentifiedError);
            }
            Ok(ControlMessageAction::ForwardSingle(e.initiator_id))
        },
    }
}

/// Whether the frame of `sender`, who sits at `sender_address`, fans out to
/// `entry`: another connection, identified, of the sender's group and of the
/// other role.
pub open spec fn is_fan_out_target<T>(
    sender_address: SocketAddress,
    sender: RecordView<T>,
    entry: (SocketAddress, RecordView<T>),
) -> bool {
    &&& entry.0 != sender_address
    &&& entry.1.identified()
    &&& entry.1.group_id() == sender.group_id()
    &&& entry.1.client_type() != sender.client_type()
}

/// The addresses to which a frame from `sender_address` fans out, in registry
/// order.
pub open spec fn fan_out<T>(entries: Entries<T>, sender_address: SocketAddress) -> Seq<
    SocketAddress,
> {
    let sender = entries[position_of(entries, sender_address)].1;
    entries.filter_map(
        |entry: (SocketAddress, RecordView<T>)|
            if is_fan_out_target(sender_address, sender, entry) {
                Some(entry.0)
            } else {
                None
            },
    )
}

/// The address of the first connection that carries `id`, if there is one.
pub open spec fn single_target<T>(entries: Entries<T>, id: Id) -> Seq<SocketAddress> {
    if has_id(entries, id) {
        seq![entries[position_of_id(entries, id)].0]
    } else {
        Seq::empty()
    }
}

/// The addresses that `action` hands a frame from `sender_address` to.
pub open spec fn recipients_of<T>(
    entries: Entries<T>,
    sender_address: SocketAddress,
    action: ControlMessageAction,
) -> Seq<SocketAddress> {
    match action {
        ControlMessageAction::Drop => Seq::empty(),
        ControlMessageAction::ForwardAll => fan_out(entries, sender_address),
        ControlMessageAction::ForwardSingle(id) => single_target(entries, id),
    }
}

/// The peers onto whose outbound queues the frame from `socket_address` is
/// to be put, in registry order.
pub fn recipients<T>(
    server_state: &ServerState<T>,
    socket_address: SocketAddress,
    action: ControlMessageAction,
) -> (targets: Vec<SocketAddress>)
    requires
        server_state.wf(),
        action is ForwardAll ==> has_address(server_state@, socket_address),
    ensures
        targets@ == recipients_of(server_state@, socket_address, action),
{
    let mut targets: Vec<SocketAddress> = Vec::new();
    match action {
        ControlMessageAction::Drop => {},
        ControlMessageAction::ForwardAll => {
            let (group_id, client_type) = match server_state.connection_from_socket_address(
                socket_address,
            ) {
                Some(sender) => (sender.get_group_id(), sender.get_client_type()),
                None => (None, None),
            };
            let ghost sender = server_state@[position_of(server_state@, socket_address)].1;
            let ghost pick = |entry: (SocketAddress, RecordView<T>)|
                if is_fan_out_target(socket_address, sender, entry) {
                    Some(entry.0)
                } else {
                    None
                };
            let mut i: usize = 0;
            while i < server_state.len()
                invariant
                    i <= server_state@.len(),
                    sender == server_state@[position_of(server_state@, socket_address)].1,
                    group_id == sender.group_id(),
                    client_type == sender.client_type(),
                    pick == |entry: (SocketAddress, RecordView<T>)|
                        if is_fan_out_target(socket_address, sender, entry) {
                            Some(entry.0)
                        } else {
                            None
                        },
                    targets@ == server_state@.take(i as int).filter_map(pick),
                decreases server_state@.len() - i,
            {
                let address = server_state.address_at(i);
                let peer = server_state.connection_at(i);
                proof {
                    server_state@.lemma_filter_map_take_succ(pick, i as int);
                }
                if address != socket_address && peer.is_identified() && same_group(
                    peer.get_group_id(),
                    group_id,
                ) && !same_role(peer.get_client_type(), client_type) {
                    targets.push(address);
                }
                i += 1;
            }
            assert(server_state@.take(i as int) == server_state@);
        },
        ControlMessageAction::ForwardSingle(id) => {
            match server_state.index_of_id(id) {
                Some(i) => {
                    targets.push(server_state.address_at(i));
                },
                None => {},
            }
        },
    }
    targets
}

/// One frame of the transport, as far as the broker and the vehicle look at
/// it.
#[derive(Clone, Debug, PartialEq, Eq)]
pub enum Frame {
    /// A text frame, which carries a message.
    Text(String),
    /// A binary frame.
    Binary(Vec<u8>),
    /// A keep-alive request of the transport.
    Ping(Vec<u8>),
    /// A keep-alive answer of the transport.
    Pong(Vec<u8>),
    /// The closing frame of the transport.
    Close,
}

impl Frame {
    /// The text of a text frame.
    pub open spec fn text(self) -> Option<Seq<char>> {
        match self {
            Frame::Text(text) => Some(text@),
            _ => None,
        }
    }
}

/// The verdict on a frame from a connection that is, or is not yet,
/// identified. A text frame has to decode, and is then judged as its message;
/// every other frame is dropped.
pub open spec fn frame_verdict(identified: bool, frame: Frame) -> Result<
    ControlMessageAction,
    ErrorKind,
> {
    match frame.text() {
        Some(text) => match decoded_text(text) {
            Ok(message) => verdict(identified, message),
            Err(_) => Err(ErrorKind::Malformed),
        },
        None => Ok(ControlMessageAction::Drop),
    }
}

/// The registry after `frame` arrived from `address`: only a text frame that
/// decodes can change it.
pub open spec fn entries_after_frame<T>(
    entries: Entries<T>,
    address: SocketAddress,
    frame: Frame,
) -> Entries<T> {
    match frame.text() {
        Some(text) => match decoded_text(text) {
            Ok(message) => entries_after(entries, address, message),
            Err(_) => entries,
        },
        None => entries,
    }
}

/// Takes one frame that arrived from `socket_address`: decodes it if it is a
/// text frame, applies its message to the registry, and says what to do with
/// the frame. Frames that are not text are dropped.
pub fn handle_message<T>(
    server_state: &mut ServerState<T>,
    socket_address: SocketAddress,
    message: &Frame,
) -> (result: Result<ControlMessageAction, ServerError>)
    requires
        old(server_state).wf(),
        has_address(old(server_state)@, socket_address),
    ensures
        final(server_state).wf(),
        has_address(final(server_state)@, socket_address),
        agrees(
            result,
            frame_verdict(
                old(server_state)@[position_of(old(server_state)@, socket_address)].1.identified(),
                *message,
            ),
        ),
        final(server_state)@ == entries_after_frame(old(server_state)@, socket_address, *message),
{
    match message {
        Frame::Text(text) => {
            let control_message = match parse_control_message(text.as_str()) {
                Ok(control_message) => control_message,
                Err(cause) => {
                    return Err(ServerError::MalformedControlMessageError(cause));
                },
            };
            handle_control_message(server_state, socket_address, &control_message)
        },
        Frame::Binary(_) => Ok(ControlMessageAction::Drop),
        Frame::Ping(_) => Ok(ControlMessageAction::Drop),
        Frame::Pong(_) => Ok(ControlMessageAction::Drop),
        Frame::Close => Ok(ControlMessageAction::Drop),
    }
}

/// The connections that receive `frame` when it arrives from `address`, in
/// registry order; none where the frame is refused.
pub open spec fn delivered<T>(entries: Entries<T>, address: SocketAddress, frame: Frame) -> Seq<
    SocketAddress,
> {
    match frame_verdict(entries[position_of(entries, address)].1.identified(), frame) {
        Ok(action) => recipients_of(entries_after_frame(entries, address, frame), address, action),
        Err(_) => Seq::empty(),
    }
}

/// One step of a connection: takes the frame that arrived from
/// `socket_address` and names the peers onto whose outbound queues the very
/// same frame is to be put.
///
/// An error ends the connection: the caller stops reading from it and
/// releases it from the registry. Nothing is delivered then.
pub fn handle_connection<T>(
    server_state: &mut ServerState<T>,
    socket_address: SocketAddress,
    message: &Frame,
) -> (result: Result<Vec<SocketAddress>, ServerError>)
    requires
        old(server_state).wf(),
        has_address(old(server_state)@, socket_address),
    ensures
        final(server_state).wf(),
        has_address(final(server_state)@, socket_address),
        final(server_state)@ == entries_after_frame(old(server_state)@, socket_address, *message),
        match result {
            Ok(targets) => {
                &&& frame_verdict(
                    old(server_state)@[position_of(old(server_state)@, socket_address)].1.identified(),
                    *message,
                ) is Ok
                &&& targets@ == delivered(old(server_state)@, socket_address, *message)
            },
            Err(error) => frame_verdict(
                old(server_state)@[position_of(old(server_state)@, socket_address)].1.identified(),
                *message,
            ) == Err::<ControlMessageAction, ErrorKind>(error.kind()),
        },
{
    let action = handle_message(server_state, socket_address, message)?;
    Ok(recipients(&*server_state, socket_address, action))
}

/// What `pick` selects from `entries` holds `address` exactly when some entry
/// is selected with that address.
proof fn lemma_filter_map_membership<A, B>(entries: Seq<A>, pick: spec_fn(A) -> Option<B>, value: B)
    ensures
        entries.filter_map(pick).contains(value) <==> exists|i: int|
            0 <= i < entries.len() && pick(#[trigger] entries[i]) == Some(value),
    decreases entries.len(),
{
    if entries.len() > 0 {
        let rest = entries.drop_last();
        let last = entries.last();
        lemma_filter_map_membership(rest, pick, value);
        let kept = rest.filter_map(pick);
        if entries.filter_map(pick).contains(value) {
            if kept.contains(value) {
                let i = choose|i: int| 0 <= i < rest.len() && pick(#[trigger] rest[i]) == Some(value);
                assert(pick(entries[i]) == Some(value));
            } else {
                let k = choose|k: int|
                    0 <= k < entries.filter_map(pick).len() && entries.filter_map(pick)[k] == value;
                assert(pick(entries[entries.len() - 1]) == Some(value));
            }
        }
        if exists|i: int| 0 <= i < entries.len() && pick(#[trigger] entries[i]) == Some(value) {
            let i = choose|i: int| 0 <= i < entries.len() && pick(#[trigger] entries[i]) == Some(value);
            if i < rest.len() {
                assert(pick(rest[i]) == Some(value));
                let k = choose|k: int| 0 <= k < kept.len() && kept[k] == value;
                assert(entries.filter_map(pick)[k] == value);
            } else {
                assert(entries.filter_map(pick)[kept.len() as int] == value);
            }
        }
    }
}

/// A frame that fans out from `sender_address` reaches `recipient` exactly
/// when `recipient` is the address of another connection that is identified,
/// belongs to the sender's group and has the other role.
pub proof fn lemma_fan_out_reaches<T>(
    entries: Entries<T>,
    sender_address: SocketAddress,
    recipient: SocketAddress,
)
    requires
        distinct_addresses(entries),
        has_address(entries, sender_address),
    ensures
        fan_out(entries, sender_address).contains(recipient) <==> {
            &&& has_address(entries, recipient)
            &&& is_fan_out_target(
                sender_address,
                entries[position_of(entries, sender_address)].1,
                entries[position_of(entries, recipient)],
            )
        },
{
    let sender = entries[position_of(entries, sender_address)].1;
    let pick = |entry: (SocketAddress, RecordView<T>)|
        if is_fan_out_target(sender_address, sender, entry) {
            Some(entry.0)
        } else {
            None
        };
    lemma_filter_map_membership(entries, pick, recipient);
    if fan_out(entries, sender_address).contains(recipient) {
        let i = choose|i: int| 0 <= i < entries.len() && pick(#[trigger] entries[i]) == Some(recipient);
        lemma_position_of(entries, recipient, i);
    }
    if has_address(entries, recipient) && is_fan_out_target(
        sender_address,
        sender,
        entries[position_of(entries, recipient)],
    ) {
        assert(pick(entries[position_of(entries, recipient)]) == Some(recipient));
    }
}

/// Whether `frame` is a text frame that carries a control frame or a latency
/// probe: the two messages that fan out.
pub open spec fn fans_out(frame: Frame) -> bool {
    match frame.text() {
        Some(text) => match decoded_text(text) {
            Ok(message) => message is Control || message is LatencyRequest,
            Err(_) => false,
        },
        None => false,
    }
}

/// The fan-out rule, from frame to delivery: a control frame or a latency
/// probe from `sender_address` is delivered to `recipient` exactly when the
/// sender is identified and `recipient` is the address of another connection
/// that is identified, belongs to the sender's group and has the other role.
/// In particular it never leaves the sender's group. The registry stays as it
/// is.
pub proof fn lemma_fan_out_delivery<T>(
    entries: Entries<T>,
    sender_address: SocketAddress,
    frame: Frame,
    recipient: SocketAddress,
)
    requires
        distinct_addresses(entries),
        has_address(entries, sender_address),
        fans_out(frame),
    ensures
        entries_after_frame(entries, sender_address, frame) == entries,
        delivered(entries, sender_address, frame).contains(recipient) <==> {
            &&& entries[position_of(entries, sender_address)].1.identified()
            &&& has_address(entries, recipient)
            &&& is_fan_out_target(
                sender_address,
                entries[position_of(entries, sender_address)].1,
                entries[position_of(entries, recipient)],
            )
        },
        delivered(entries, sender_address, frame).contains(recipient) ==> entries[position_of(
            entries,
            recipient,
        )].1.group_id() == entries[position_of(entries, sender_address)].1.group_id(),
{
    assert(entries_after_frame(entries, sender_address, frame) =~= entries);
    lemma_fan_out_reaches(entries, sender_address, recipient);
}

/// No connection receives a fanned-out frame twice, and the sender never
/// receives its own frame.
pub proof fn lemma_fan_out_once<T>(entries: Entries<T>, sender_address: SocketAddress)
    requires
        distinct_addresses(entries),
        has_address(entries, sender_address),
    ensures
        fan_out(entries, sender_address).no_duplicates(),
        !fan_out(entries, sender_address).contains(sender_address),
{
    let sender = entries[position_of(entries, sender_address)].1;
    let pick = |entry: (SocketAddress, RecordView<T>)|
        if is_fan_out_target(sender_address, sender, entry) {
            Some(entry.0)
        } else {
            None
        };
    lemma_picked_addresses_distinct(entries, pick);
    lemma_fan_out_reaches(entries, sender_address, sender_address);
}

proof fn lemma_picked_addresses_distinct<T>(
    entries: Entries<T>,
    pick: spec_fn((SocketAddress, RecordView<T>)) -> Option<SocketAddress>,
)
    requires
        distinct_addresses(entries),
        forall|entry: (SocketAddress, RecordView<T>)|
            #[trigger] pick(entry) is Some ==> pick(entry) == Some(entry.0),
    ensures
        entries.filter_map(pick).no_duplicates(),
    decreases entries.len(),
{
    if entries.len() > 0 {
        let rest = entries.drop_last();
        let last = entries.last();
        assert(distinct_addresses(rest)) by {
            assert forall|i: int, j: int|
                0 <= i < rest.len() && 0 <= j < rest.len() && (#[trigger] rest[i]).0 == (
                #[trigger] rest[j]).0 implies i == j by {
                assert(entries[i].0 == entries[j].0);
            }
        }
        lemma_picked_addresses_distinct(rest, pick);
        if pick(last) is Some {
            lemma_filter_map_membership(rest, pick, last.0);
            if rest.filter_map(pick).contains(last.0) {
                let i = choose|i: int| 0 <= i < rest.len() && pick(#[trigger] rest[i]) == Some(last.0);
                assert(entries[i].0 == entries[entries.len() - 1].0);
            }
        }
    }
}

/// A fanned-out frame stays in the sender's group: every connection it
/// reaches carries the group identifier that the sender carries.
pub proof fn lemma_fan_out_stays_in_group<T>(
    entries: Entries<T>,
    sender_address: SocketAddress,
    recipient: SocketAddress,
)
    requires
        distinct_addresses(entries),
        has_address(entries, sender_address),
        fan_out(entries, sender_address).contains(recipient),
    ensures
        has_address(entries, recipient),
        entries[position_of(entries, recipient)].1.group_id() == entries[position_of(
            entries,
            sender_address,
        )].1.group_id(),
{
    lemma_fan_out_reaches(entries, sender_address, recipient);
}

/// An identified record is final: no message changes it, and a further
/// identification is refused.
pub proof fn lemma_identified_is_final<T>(record: RecordView<T>, message: MessageView)
    requires
        record.identified(),
    ensures
        record_after(record, message) == record,
        message is Identification ==> verdict(true, message) == Err::<
            ControlMessageAction,
            ErrorKind,
        >(ErrorKind::AlreadyIdentified),
{
}

/// The record after a run of messages, each applied in turn.
pub open spec fn record_after_all<T>(record: RecordView<T>, messages: Seq<MessageView>)
    -> RecordView<T>
    decreases messages.len(),
{
    if messages.len() == 0 {
        record
    } else {
        record_after(record_after_all(record, messages.drop_last()), messages.last())
    }
}

/// Identification is one-way: whatever arrives after a connection has been
/// identified, its record stays identified and keeps the identity it has.
pub proof fn lemma_identification_is_one_way<T>(
    record: RecordView<T>,
    messages: Seq<MessageView>,
)
    requires
        record.identified(),
    ensures
        record_after_all(record, messages) == record,
    decreases messages.len(),
{
    if messages.len() > 0 {
        lemma_identification_is_one_way(record, messages.drop_last());
    }
}

/// A frame that goes to a single peer reaches the first connection that
/// carries the identifier, and no other; where no connection carries it, the
/// frame reaches nobody.
pub proof fn lemma_single_target<T>(entries: Entries<T>, id: Id)
    ensures
        has_id(entries, id) ==> {
            &&& single_target(entries, id).len() == 1
            &&& is_first_with_id(entries, id, position_of_id(entries, id))
            &&& single_target(entries, id)[0] == entries[position_of_id(entries, id)].0
        },
        !has_id(entries, id) ==> single_target(entries, id).len() == 0,
{
    if has_id(entries, id) {
        lemma_has_id_has_first(entries, id);
    }
}

/// The latency echo: when an identified connection answers a probe whose
/// initiator is the identifier of a registered connection, the answer is
/// routed to exactly one connection, that connection carries the initiator's
/// identifier, and the answer holds the timestamp of the probe as it was
/// written.
pub proof fn lemma_latency_echo<T>(
    entries: Entries<T>,
    responder_address: SocketAddress,
    request: LatencyRequestView,
    responder_id: Id,
)
    requires
        distinct_addresses(entries),
        has_address(entries, responder_address),
        entries[position_of(entries, responder_address)].1.identified(),
        has_id(entries, request.initiator_id),
    ensures
        response_to(request, responder_id).timestamp == request.timestamp,
        response_to(request, responder_id).initiator_id == request.initiator_id,
        verdict(true, MessageView::LatencyResponse(response_to(request, responder_id))) == Ok::<
            ControlMessageAction,
            ErrorKind,
        >(ControlMessageAction::ForwardSingle(request.initiator_id)),
        entries_after(
            entries,
            responder_address,
            MessageView::LatencyResponse(response_to(request, responder_id)),
        ) == entries,
        recipients_of(
            entries,
            responder_address,
            ControlMessageAction::ForwardSingle(request.initiator_id),
        ) == seq![entries[position_of_id(entries, request.initiator_id)].0],
        entries[position_of_id(entries, request.initiator_id)].1.id() == Some(request.initiator_id),
{
    lemma_single_target(entries, request.initiator_id);
    let message = MessageView::LatencyResponse(response_to(request, responder_id));
    assert(entries_after(entries, responder_address, message) =~= entries);
    assert(recipients_of(
        entries,
        responder_address,
        ControlMessageAction::ForwardSingle(request.initiator_id),
    ) =~= seq![entries[position_of_id(entries, request.initiator_id)].0]);
}

/// Where no two connections carry the same identifier, the latency echo
/// reaches the one connection that carries the initiator's.
pub proof fn lemma_latency_echo_unique<T>(entries: Entries<T>, initiator: int)
    requires
        0 <= initiator < entries.len(),
        entries[initiator].1.identified(),
        forall|i: int, j: int|
            0 <= i < entries.len() && 0 <= j < entries.len() && (#[trigger] entries[i]).1.id() is Some
                && entries[i].1.id() == (#[trigger] entries[j]).1.id() ==> i == j,
    ensures
        has_id(entries, entries[initiator].1.id()->0),
        position_of_id(entries, entries[initiator].1.id()->0) == initiator,
{
    let id = entries[initiator].1.id()->0;
    assert(is_first_with_id(entries, id, initiator));
    lemma_position_of_id(entries, id, initiator);
}

fn same_group(a: Option<Id>, b: Option<Id>) -> (same: bool)
    ensures
        same == (a == b),
{
    match (a, b) {
        (Some(x), Some(y)) => x == y,
        (None, None) => true,
        _ => false,
    }
}

fn same_role(a: Option<crate::message::ClientType>, b: Option<crate::message::ClientType>) -> (same:
    bool)
    ensures
        same == (a == b),
{
    match (a, b) {
        (Some(x), Some(y)) => x == y,
        (None, None) => true,
        _ => false,
    }
}

} // verus!
