//! The broker's registry: one record per accepted connection, keyed by the
//! peer's socket address.

use vstd::prelude::*;
use crate::message::{ClientType, Id, IdentificationMessageData};

verus! {

/// The address of a peer: what a socket address holds, as plain values.
#[allow(inconsistent_fields)]
#[derive(Clone, Copy, Debug, PartialEq, Eq, Hash, Structural)]
pub enum SocketAddress {
    V4 { ip: u32, port: u16 },
    V6 { ip: u128, port: u16, flowinfo: u32, scope_id: u32 },
}

/// What the broker knows about one connection: the handle `tx` through which
/// frames are queued for the peer, and the identity the peer announced, if it
/// has announced one.
///
/// The identifier, the group and the role are set together by `identify` and
/// by nothing else, so a record has either all three or none of them.
pub struct ConnectionState<T> {
    tx: T,
    identity: Option<IdentificationMessageData>,
}

/// What a `ConnectionState` is: the send handle, and the announced identity,
/// or `None` while the connection is unidentified.
pub struct RecordView<T> {
    pub tx: T,
    pub identity: Option<IdentificationMessageData>,
}

impl<T> RecordView<T> {
    pub open spec fn identified(self) -> bool {
        self.identity is Some
    }

    pub open spec fn id(self) -> Option<Id> {
        match self.identity {
            Some(identity) => Some(identity.id),
            None => None,
        }
    }

    pub open spec fn group_id(self) -> Option<Id> {
        match self.identity {
            Some(identity) => Some(identity.group_id),
            None => None,
        }
    }

    pub open spec fn client_type(self) -> Option<ClientType> {
        match self.identity {
            Some(identity) => Some(identity.client_type),
            None => None,
        }
    }

    /// The unidentified record around the send handle `tx`.
    pub open spec fn fresh(tx: T) -> Self {
        RecordView { tx, identity: None }
    }

    /// This record with its identity set to `identity`.
    pub open spec fn with_identity(self, identity: IdentificationMessageData) -> Self {
        RecordView { tx: self.tx, identity: Some(identity) }
    }
}

impl<T> View for ConnectionState<T> {
    type V = RecordView<T>;

    closed spec fn view(&self) -> RecordView<T> {
        RecordView { tx: self.tx, identity: self.identity }
    }
}

impl<T> ConnectionState<T> {
    /// A fresh, unidentified record around the send handle `tx`.
    pub fn new(tx: T) -> (state: Self)
        ensures
            state@ == RecordView::fresh(tx),
    {
        Self { tx, identity: None }
    }

    pub fn is_identified(&self) -> (identified: bool)
        ensures
            identified == self@.identified(),
    {
        self.identity.is_some()
    }

    /// Sets identifier, group and role at once. A record is identified at most
    /// once: the caller has to hold an unidentified record.
    pub fn identify(&mut self, group_id: Id, id: Id, client_type: ClientType)
        requires
            !old(self)@.identified(),
        ensures
            final(self)@ == old(self)@.with_identity(
                IdentificationMessageData { id, group_id, client_type },
            ),
    {
        self.identity = Some(IdentificationMessageData { id, group_id, client_type });
    }

    pub fn sender(&self) -> (tx: &T)
        ensures
            *tx == self@.tx,
    {
        &self.tx
    }

    pub fn get_identity(&self) -> (identity: Option<IdentificationMessageData>)
        ensures
            identity == self@.identity,
    {
        self.identity
    }

    pub fn get_id(&self) -> (id: Option<Id>)
        ensures
            id == self@.id(),
    {
        match self.identity {
            Some(identity) => Some(identity.id),
            None => None,
        }
    }

    pub fn get_group_id(&self) -> (group_id: Option<Id>)
        ensures
            group_id == self@.group_id(),
    {
        match self.identity {
            Some(identity) => Some(identity.group_id),
            None => None,
        }
    }

    pub fn get_client_type(&self) -> (client_type: Option<ClientType>)
        ensures
            client_type == self@.client_type(),
    {
        match self.identity {
            Some(identity) => Some(identity.client_type),
            None => None,
        }
    }
}

/// The registry as a sequence of entries, in the order in which peers were
/// first accepted.
pub type Entries<T> = Seq<(SocketAddress, RecordView<T>)>;

/// Whether some entry of `entries` is keyed by `address`.
pub open spec fn has_address<T>(entries: Entries<T>, address: SocketAddress) -> bool {
    exists|i: int| 0 <= i < entries.len() && (#[trigger] entries[i]).0 == address
}

/// The position of the entry keyed by `address`. Meaningful where
/// `has_address` holds.
pub open spec fn position_of<T>(entries: Entries<T>, address: SocketAddress) -> int {
    choose|i: int| 0 <= i < entries.len() && (#[trigger] entries[i]).0 == address
}

/// No two entries share an address.
pub open spec fn distinct_addresses<T>(entries: Entries<T>) -> bool {
    forall|i: int, j: int|
        0 <= i < entries.len() && 0 <= j < entries.len() && (#[trigger] entries[i]).0 == (
        #[trigger] entries[j]).0 ==> i == j
}

/// Whether `i` is the first position whose record carries the identifier `id`.
pub open spec fn is_first_with_id<T>(entries: Entries<T>, id: Id, i: int) -> bool {
    &&& 0 <= i < entries.len()
    &&& entries[i].1.id() == Some(id)
    &&& forall|j: int| 0 <= j < i ==> (#[trigger] entries[j]).1.id() != Some(id)
}

/// Whether some record carries the identifier `id`.
pub open spec fn has_id<T>(entries: Entries<T>, id: Id) -> bool {
    exists|i: int| 0 <= i < entries.len() && (#[trigger] entries[i]).1.id() == Some(id)
}

/// The first position whose record carries `id`. Meaningful where `has_id`
/// holds.
pub open spec fn position_of_id<T>(entries: Entries<T>, id: Id) -> int {
    choose|i: int| is_first_with_id(entries, id, i)
}

/// The registry after `address` was accepted with `record`: a record already
/// held for the address is replaced where it stands, a new address goes to the
/// end.
pub open spec fn accepted<T>(
    entries: Entries<T>,
    address: SocketAddress,
    record: RecordView<T>,
) -> Entries<T> {
    if has_address(entries, address) {
        entries.update(position_of(entries, address), (address, record))
    } else {
        entries.push((address, record))
    }
}

/// The registry after `address` was released: its entry is gone, the others
/// keep their order.
pub open spec fn released<T>(entries: Entries<T>, address: SocketAddress) -> Entries<T> {
    if has_address(entries, address) {
        entries.remove(position_of(entries, address))
    } else {
        entries
    }
}

/// Under distinct addresses the position of an address is the only one that
/// holds it.
pub proof fn lemma_position_of<T>(entries: Entries<T>, address: SocketAddress, i: int)
    requires
        distinct_addresses(entries),
        0 <= i < entries.len(),
        entries[i].0 == address,
    ensures
        has_address(entries, address),
        position_of(entries, address) == i,
{
}

/// There is at most one first position for an identifier, and `position_of_id`
/// names it.
pub proof fn lemma_position_of_id<T>(entries: Entries<T>, id: Id, i: int)
    requires
        is_first_with_id(entries, id, i),
    ensures
        has_id(entries, id),
        position_of_id(entries, id) == i,
{
    let k = position_of_id(entries, id);
    assert(is_first_with_id(entries, id, k));
    if k < i {
        assert(entries[k].1.id() != Some(id));
    } else if i < k {
        assert(entries[i].1.id() != Some(id));
    }
}

/// Where an identifier occurs at all, it has a first position.
pub proof fn lemma_has_id_has_first<T>(entries: Entries<T>, id: Id)
    requires
        has_id(entries, id),
    ensures
        is_first_with_id(entries, id, position_of_id(entries, id)),
{
    let some = choose|i: int| 0 <= i < entries.len() && (#[trigger] entries[i]).1.id() == Some(id);
    lemma_first_below(entries, id, some);
}

proof fn lemma_first_below<T>(entries: Entries<T>, id: Id, bound: int)
    requires
        0 <= bound < entries.len(),
        entries[bound].1.id() == Some(id),
    ensures
        exists|i: int| is_first_with_id(entries, id, i),
    decreases bound,
{
    if exists|j: int| 0 <= j < bound && (#[trigger] entries[j]).1.id() == Some(id) {
        let j = choose|j: int| 0 <= j < bound && (#[trigger] entries[j]).1.id() == Some(id);
        lemma_first_below(entries, id, j);
    } else {
        assert(is_first_with_id(entries, id, bound));
    }
}

/// The registry of live connections.
///
/// Entries keep the order in which their addresses were first accepted, and no
/// address occurs twice.
pub struct ServerState<T> {
    connections: Vec<(SocketAddress, ConnectionState<T>)>,
}

impl<T> View for ServerState<T> {
    type V = Entries<T>;

    closed spec fn view(&self) -> Entries<T> {
        self.connections@.map_values(
            |entry: (SocketAddress, ConnectionState<T>)| (entry.0, entry.1@),
        )
    }
}

impl<T> ServerState<T> {
    /// The registry's invariant: addresses are unique.
    pub open spec fn wf(&self) -> bool {
        distinct_addresses(self@)
    }

    /// An empty registry.
    pub fn new() -> (state: Self)
        ensures
            state@ == Seq::<(SocketAddress, RecordView<T>)>::empty(),
            state.wf(),
    {
        let state = Self { connections: Vec::new() };
        assert(state@ =~= Seq::<(SocketAddress, RecordView<T>)>::empty());
        state
    }

    /// The number of registered connections.
    pub fn len(&self) -> (n: usize)
        ensures
            n == self@.len(),
    {
        self.connections.len()
    }

    /// The position of `address` in the registry.
    pub fn index_of(&self, address: SocketAddress) -> (found: Option<usize>)
        ensures
            match found {
                Some(i) => i < self@.len() && self@[i as int].0 == address,
                None => !has_address(self@, address),
            },
            self.wf() ==> (found matches Some(i) ==> i == position_of(self@, address)),
    {
        let mut i: usize = 0;
        while i < self.connections.len()
            invariant
                i <= self.connections@.len(),
                self@.len() == self.connections@.len(),
                forall|j: int| 0 <= j < i ==> (#[trigger] self@[j]).0 != address,
            decreases self.connections@.len() - i,
        {
            assert(self@[i as int].0 == self.connections@[i as int].0);
            if self.connections[i].0 == address {
                proof {
                    if self.wf() {
                        lemma_position_of(self@, address, i as int);
                    }
                }
                return Some(i);
            }
            i += 1;
        }
        None
    }

    /// Registers the connection of `address` as a fresh, unidentified record
    /// around `tx`. A record already held for that address is replaced where
    /// it stands; a new address goes to the end.
    pub fn accept_connection(&mut self, address: SocketAddress, tx: T)
        requires
            old(self).wf(),
        ensures
            final(self).wf(),
            final(self)@ == accepted(old(self)@, address, RecordView::fresh(tx)),
    {
        let fresh = ConnectionState::new(tx);
        match self.index_of(address) {
            Some(i) => {
                self.connections.set(i, (address, fresh));
                assert(self@ =~= old(self)@.update(i as int, (address, RecordView::fresh(tx))));
            },
            None => {
                self.connections.push((address, fresh));
                assert(self@ =~= old(self)@.push((address, RecordView::fresh(tx))));
            },
        }
    }

    /// Removes the record of `address`, if there is one. The other entries
    /// keep their order.
    pub fn release_connection(&mut self, address: &SocketAddress)
        requires
            old(self).wf(),
        ensures
            final(self).wf(),
            final(self)@ == released(old(self)@, *address),
    {
        match self.index_of(*address) {
            Some(i) => {
                let _removed = self.connections.remove(i);
                assert(self@ =~= old(self)@.remove(i as int));
            },
            None => {},
        }
    }

    /// The record of `address`.
    pub fn connection_from_socket_address(&self, address: SocketAddress) -> (found: Option<
        &ConnectionState<T>,
    >)
        requires
            self.wf(),
        ensures
            found is Some == has_address(self@, address),
            found matches Some(state) ==> state@ == self@[position_of(self@, address)].1,
    {
        match self.index_of(address) {
            Some(i) => Some(&self.connections[i].1),
            None => None,
        }
    }

    /// Sets the identity of the record of `address`, which is registered and
    /// unidentified.
    pub fn identify(
        &mut self,
        address: SocketAddress,
        group_id: Id,
        id: Id,
        client_type: ClientType,
    )
        requires
            old(self).wf(),
            has_address(old(self)@, address),
            !old(self)@[position_of(old(self)@, address)].1.identified(),
        ensures
            final(self).wf(),
            final(self)@ == old(self)@.update(
                position_of(old(self)@, address),
                (
                    address,
                    old(self)@[position_of(old(self)@, address)].1.with_identity(
                        IdentificationMessageData { id, group_id, client_type },
                    ),
                ),
            ),
    {
        match self.index_of(address) {
            Some(i) => {
                let (_, mut record) = self.connections.remove(i);
                record.identify(group_id, id, client_type);
                self.connections.insert(i, (address, record));
                assert(self@ =~= old(self)@.update(
                    i as int,
                    (
                        address,
                        old(self)@[i as int].1.with_identity(
                            IdentificationMessageData { id, group_id, client_type },
                        ),
                    ),
                ));
            },
            None => {},
        }
    }

    /// The position of the first record that carries the identifier `id`.
    pub fn index_of_id(&self, id: Id) -> (found: Option<usize>)
        ensures
            found is Some == has_id(self@, id),
            found matches Some(i) ==> is_first_with_id(self@, id, i as int) && i
                == position_of_id(self@, id),
    {
        let mut i: usize = 0;
        while i < self.connections.len()
            invariant
                i <= self.connections@.len(),
                self@.len() == self.connections@.len(),
                forall|j: int| 0 <= j < i ==> (#[trigger] self@[j]).1.id() != Some(id),
            decreases self.connections@.len() - i,
        {
            assert(self@[i as int].1 == self.connections@[i as int].1@);
            match self.connections[i].1.get_id() {
                Some(found) => {
                    if found == id {
                        proof {
                            lemma_position_of_id(self@, id, i as int);
                        }
                        return Some(i);
                    }
                },
                None => {},
            }
            i += 1;
        }
        None
    }

    /// The first record, in registry order, that carries the identifier `id`.
    /// Unidentified records carry none and are never found.
    pub fn connection_from_id(&self, id: Id) -> (found: Option<&ConnectionState<T>>)
        ensures
            found is Some == has_id(self@, id),
            found matches Some(state) ==> state@ == self@[position_of_id(self@, id)].1,
    {
        match self.index_of_id(id) {
            Some(i) => Some(&self.connections[i].1),
            None => None,
        }
    }

    /// The address stored at position `i`.
    pub fn address_at(&self, i: usize) -> (address: SocketAddress)
        requires
            i < self@.len(),
        ensures
            address == self@[i as int].0,
    {
        self.connections[i].0
    }

    /// The record stored at position `i`.
    pub fn connection_at(&self, i: usize) -> (state: &ConnectionState<T>)
        requires
            i < self@.len(),
        ensures
            state@ == self@[i as int].1,
    {
        &self.connections[i].1
    }
}

} // verus!
