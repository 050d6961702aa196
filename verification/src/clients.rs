//! A set of clients, each of which is known by the number of its slot.
use vstd::prelude::*;
use vstd::utf8::encode_utf8_decode_utf8;

use crate::error::Error;
use crate::topic_filter::same;

verus! {

/// The number of a slot.
#[derive(Debug, Copy, Clone, PartialEq, Eq, Structural)]
pub struct ClientHandle(pub u8);

pub struct ClientSet<T> {
    clients: Vec<Option<T>>,
}

/// Whether the slot with number `index` is the first one that is free.
pub open spec fn first_free<T>(slots: Seq<Option<T>>, index: int) -> bool {
    &&& 0 <= index < slots.len()
    &&& slots[index] is None
    &&& forall|i: int| 0 <= i < index ==> (#[trigger] slots[i]) is Some
}

/// Whether no slot is free.
pub open spec fn none_free<T>(slots: Seq<Option<T>>) -> bool {
    forall|i: int| 0 <= i < slots.len() ==> (#[trigger] slots[i]) is Some
}

impl<T> View for ClientSet<T> {
    type V = Seq<Option<T>>;

    closed spec fn view(&self) -> Seq<Option<T>> {
        self.clients@
    }
}

impl<T> ClientSet<T> {
    /// Makes a set with `slots` slots, all of them free.
    pub fn new(slots: u8) -> (set: Self)
        ensures
            set@ == Seq::new(slots as nat, |i: int| None::<T>),
    {
        let mut clients: Vec<Option<T>> = Vec::new();
        let mut i: u8 = 0;
        while i < slots
            invariant
                i <= slots,
                clients@ == Seq::new(i as nat, |j: int| None::<T>),
            decreases slots - i,
        {
            clients.push(None);
            i = i + 1;
            assert(clients@ =~= Seq::new(i as nat, |j: int| None::<T>));
        }
        ClientSet { clients }
    }

    /// Returns the number of the first free slot.
    pub fn next_client_id(&self) -> (res: Result<u8, Error>)
        requires
            self@.len() <= 256,
        ensures
            match res {
                Ok(id) => first_free(self@, id as int),
                Err(e) => none_free(self@) && e == Error::TooManyClients,
            },
    {
        let mut i: usize = 0;
        while i < self.clients.len()
            invariant
                i <= self.clients@.len() <= 256,
                forall|j: int| 0 <= j < i ==> (#[trigger] self.clients@[j]) is Some,
            decreases self.clients@.len() - i,
        {
            if self.clients[i].is_none() {
                return Ok(i as u8);
            }
            i = i + 1;
        }
        Err(Error::TooManyClients)
    }

    /// Puts a client into the first free slot.
    pub fn add(&mut self, client: T) -> (handle: ClientHandle)
        requires
            old(self)@.len() <= 256,
            !none_free(old(self)@),
        ensures
            first_free(old(self)@, handle.0 as int),
            final(self)@ == old(self)@.update(handle.0 as int, Some(client)),
    {
        let id: u8 = match self.next_client_id() {
            Ok(id) => id,
            Err(_) => 0,
        };
        self.clients.set(id as usize, Some(client));
        ClientHandle(id)
    }

    /// Returns the client in a slot.
    pub fn get(&self, handle: ClientHandle) -> (client: &T)
        requires
            handle.0 < self@.len(),
            self@[handle.0 as int] is Some,
        ensures
            *client == self@[handle.0 as int]->0,
    {
        self.clients[handle.0 as usize].as_ref().unwrap()
    }
}

/// Routes incoming messages to clients, each of which has a list of topics.
pub struct Runner {
    clients: ClientSet<Vec<String>>,
}

/// Whether a client with these topics gets a message on `topic`.
pub open spec fn listens(topics: Option<Vec<String>>, topic: Seq<char>) -> bool {
    topics matches Some(topics) && exists|i: int|
        0 <= i < topics@.len() && (#[trigger] topics@[i])@ == topic
}

/// The numbers of the first `n` clients that get a message on `topic`.
pub open spec fn listeners(clients: Seq<Option<Vec<String>>>, topic: Seq<char>, n: nat) -> Seq<u8>
    decreases n,
{
    if n == 0 {
        seq![]
    } else {
        let before = listeners(clients, topic, (n - 1) as nat);
        if listens(clients[n - 1], topic) {
            before.push((n - 1) as u8)
        } else {
            before
        }
    }
}

fn same_str(a: &str, b: &str) -> (res: bool)
    ensures
        res == (a@ == b@),
{
    proof {
        encode_utf8_decode_utf8(a@);
        encode_utf8_decode_utf8(b@);
    }
    same(a.as_bytes(), b.as_bytes())
}

impl View for Runner {
    type V = Seq<Option<Vec<String>>>;

    closed spec fn view(&self) -> Seq<Option<Vec<String>>> {
        self.clients@
    }
}

impl Runner {
    /// Makes a runner with room for `max_clients` clients.
    pub fn new(max_clients: u8) -> (runner: Self)
        ensures
            runner@ == Seq::new(max_clients as nat, |i: int| None::<Vec<String>>),
    {
        Runner { clients: ClientSet::new(max_clients) }
    }

    /// Adds a client that listens to `topics`, and returns its number.
    pub fn client(&mut self, topics: Vec<String>) -> (res: Result<u8, Error>)
        requires
            old(self)@.len() <= 256,
        ensures
            match res {
                Ok(id) => {
                    &&& first_free(old(self)@, id as int)
                    &&& final(self)@ == old(self)@.update(id as int, Some(topics))
                },
                Err(e) => {
                    &&& none_free(old(self)@)
                    &&& e == Error::TooManyClients
                    &&& final(self)@ == old(self)@
                },
            },
    {
        match self.clients.next_client_id() {
            Ok(_) => {
                let handle: ClientHandle = self.clients.add(topics);
                Ok(handle.0)
            },
            Err(e) => Err(e),
        }
    }

    /// Returns the numbers of the clients that get a message on `topic`.
    pub fn recipients(&self, topic: &str) -> (ids: Vec<u8>)
        requires
            self@.len() <= 256,
        ensures
            ids@ == listeners(self@, topic@, self@.len()),
    {
        let ghost slots = self@;
        let mut ids: Vec<u8> = Vec::new();
        let mut i: usize = 0;
        while i < self.clients.clients.len()
            invariant
                i <= slots.len() <= 256,
                slots == self.clients.clients@,
                ids@ == listeners(slots, topic@, i as nat),
            decreases slots.len() - i,
        {
            if let Some(topics) = &self.clients.clients[i] {
                let mut found: bool = false;
                let mut j: usize = 0;
                while j < topics.len() && !found
                    invariant
                        j <= topics@.len(),
                        found ==> exists|k: int|
                            0 <= k < topics@.len() && (#[trigger] topics@[k])@ == topic@,
                        !found ==> forall|k: int|
                            0 <= k < j ==> (#[trigger] topics@[k])@ != topic@,
                    decreases topics@.len() - j,
                {
                    if same_str(topics[j].as_str(), topic) {
                        found = true;
                    }
                    j = j + 1;
                }
                assert(slots[i as int] == Some(*topics));
                if found {
                    ids.push(i as u8);
                }
            }
            i = i + 1;
        }
        ids
    }
}

/// A message goes to exactly those clients that listen to its topic.
pub proof fn law_messages_reach_those_who_listen(
    clients: Seq<Option<Vec<String>>>,
    topic: Seq<char>,
    n: nat,
    id: u8,
)
    requires
        n <= clients.len() <= 256,
    ensures
        listeners(clients, topic, n).contains(id) == (id < n && listens(
            clients[id as int],
            topic,
        )),
    decreases n,
{
    if n > 0 {
        law_messages_reach_those_who_listen(clients, topic, (n - 1) as nat, id);
        let before = listeners(clients, topic, (n - 1) as nat);
        if listens(clients[n - 1], topic) {
            let after = before.push((n - 1) as u8);
            assert(after[before.len() as int] == (n - 1) as u8);
            if before.contains(id) {
                let k = choose|k: int| 0 <= k < before.len() && before[k] == id;
                assert(after[k] == id);
            }
        }
    }
}

/// The numbers of the clients that get a message come in order, each once.
pub proof fn law_recipients_come_in_order(
    clients: Seq<Option<Vec<String>>>,
    topic: Seq<char>,
    n: nat,
    i: int,
    j: int,
)
    requires
        n <= clients.len() <= 256,
        0 <= i < j < listeners(clients, topic, n).len(),
    ensures
        listeners(clients, topic, n)[i] < listeners(clients, topic, n)[j] < n,
    decreases n,
{
    let before = listeners(clients, topic, (n - 1) as nat);
    if j < before.len() {
        law_recipients_come_in_order(clients, topic, (n - 1) as nat, i, j);
    } else {
        law_messages_reach_those_who_listen(clients, topic, (n - 1) as nat, before[i]);
        assert(before.contains(before[i]));
    }
}

/// The recipients of a message are the clients among whose topics is that of the
/// message, in order, each once.
pub proof fn law_recipients(runner: Runner, topic: &str, ids: Vec<u8>)
    requires
        runner@.len() <= 256,
        call_ensures(Runner::recipients, (&runner, topic), ids),
    ensures
        forall|id: u8| #[trigger]
            ids@.contains(id) <==> id < runner@.len() && runner@[id as int] is Some && exists|i: int|
                0 <= i < runner@[id as int]->0@.len() && (#[trigger] runner@[id as int]->0@[i])@
                    == topic@,
        forall|i: int, j: int| 0 <= i < j < ids@.len() ==> ids@[i] < ids@[j],
{
    assert forall|id: u8| #[trigger]
        ids@.contains(id) <==> id < runner@.len() && runner@[id as int] is Some && exists|i: int|
            0 <= i < runner@[id as int]->0@.len() && (#[trigger] runner@[id as int]->0@[i])@
                == topic@ by {
        law_messages_reach_those_who_listen(runner@, topic@, runner@.len(), id);
    }
    assert forall|i: int, j: int| 0 <= i < j < ids@.len() implies ids@[i] < ids@[j] by {
        law_recipients_come_in_order(runner@, topic@, runner@.len(), i, j);
    }
}

/// A new client gets the smallest number that is free, and the other clients
/// keep theirs. It is refused if and only if no number is free.
pub proof fn law_new_clients(
    runner: &mut Runner,
    topics: Vec<String>,
    res: Result<u8, Error>,
    other: int,
)
    requires
        old(runner)@.len() <= 256,
        call_ensures(Runner::client, (runner, topics), res),
        0 <= other < old(runner)@.len(),
    ensures
        final(runner)@.len() == old(runner)@.len(),
        res matches Ok(id) ==> {
            &&& id < old(runner)@.len()
            &&& old(runner)@[id as int] is None
            &&& final(runner)@[id as int] == Some(topics)
            &&& other < id ==> old(runner)@[other] is Some
            &&& other != id ==> final(runner)@[other] == old(runner)@[other]
        },
        res matches Err(e) ==> {
            &&& e == Error::TooManyClients
            &&& old(runner)@[other] is Some
            &&& final(runner)@ == old(runner)@
        },
        old(runner)@[other] is None ==> res is Ok,
{
}

/// A client is found under the number that it was given, which is the smallest
/// one that was free, and the other clients keep theirs.
pub proof fn law_clients_are_found_again<T>(
    set: &mut ClientSet<T>,
    client: T,
    next: Result<u8, Error>,
    handle: ClientHandle,
    found: &T,
    other: int,
)
    requires
        old(set)@.len() <= 256,
        call_ensures(ClientSet::<T>::next_client_id, (&*old(set),), next),
        next is Ok ==> call_ensures(ClientSet::<T>::add, (set, client), handle),
        0 <= other < old(set)@.len(),
    ensures
        next is Ok ==> {
            &&& next == Ok::<u8, Error>(handle.0)
            &&& handle.0 < old(set)@.len() == final(set)@.len()
            &&& old(set)@[handle.0 as int] is None
            &&& other < handle.0 ==> old(set)@[other] is Some
            &&& other != handle.0 ==> final(set)@[other] == old(set)@[other]
            &&& call_ensures(ClientSet::<T>::get, (final(set), handle), found) ==> *found == client
        },
        next matches Err(e) ==> e == Error::TooManyClients && old(set)@[other] is Some,
        old(set)@[other] is None ==> next is Ok,
{
    if next is Ok {
        let id = next->Ok_0 as int;
        let given = handle.0 as int;
        assert(old(set)@[id] is None);
        assert(old(set)@[given] is None);
        assert(id < given ==> old(set)@[id] is Some);
        assert(given < id ==> old(set)@[given] is Some);
    }
}

/// A new set has as many slots as asked for, and all of them are free.
pub proof fn law_new_sets<T>(slots: u8, set: ClientSet<T>, runner: Runner, i: int)
    requires
        call_ensures(ClientSet::<T>::new, (slots,), set),
        call_ensures(Runner::new, (slots,), runner),
    ensures
        set@.len() == slots,
        runner@.len() == slots,
        0 <= i < slots ==> set@[i] is None && runner@[i] is None,
{
}

} // verus!
