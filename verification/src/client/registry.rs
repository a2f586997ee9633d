use vstd::prelude::*;

use crate::protocol::command::ServerCommand;
use crate::protocol::headers::{
    has_key, keys_distinct, lemma_insert_distinct, lemma_key_position_unique, lemma_remove_get,
    pairs_get, pairs_insert, pairs_map, pairs_remove,
};
use crate::protocol::message::Frame;
use crate::protocol::text::same_text;

verus! {

/// Values kept under names: the receipts a client waits for, or the subscribers it feeds.
/// Each name appears at most once.
pub struct Registry<V> {
    entries: Vec<(String, V)>,
}

impl<V> Registry<V> {
    /// The entries, as (name, value), in order.
    pub closed spec fn entries(&self) -> Seq<(Seq<char>, V)> {
        self.entries@.map_values(|e: (String, V)| (e.0@, e.1))
    }

    /// No two entries share a name.
    #[verifier::type_invariant]
    pub open spec fn names_distinct(&self) -> bool {
        keys_distinct(self.entries())
    }

    /// An empty registry.
    pub fn new() -> (r: Registry<V>)
        ensures
            r.entries() == Seq::<(Seq<char>, V)>::empty(),
    {
        let r = Registry { entries: Vec::new() };
        assert(r.entries() =~= Seq::<(Seq<char>, V)>::empty());
        r
    }

    /// The number of entries.
    pub fn len(&self) -> (r: usize)
        ensures
            r == self.entries().len(),
    {
        self.entries.len()
    }

    /// The name and value of the entry at position `i`.
    pub fn entry(&self, i: usize) -> (r: (&String, &V))
        requires
            i < self.entries().len(),
        ensures
            r.0@ == self.entries()[i as int].0,
            *r.1 == self.entries()[i as int].1,
    {
        let e = &self.entries[i];
        (&e.0, &e.1)
    }

    /// The position of the entry named `key`, if there is one.
    fn position(&self, key: &str) -> (r: Option<usize>)
        ensures
            r matches Some(i) ==> i < self.entries().len() && self.entries()[i as int].0 == key@,
            r is None ==> !has_key(self.entries(), key@),
    {
        let mut i: usize = 0;
        while i < self.entries.len()
            invariant
                i <= self.entries.len(),
                forall|j: int| 0 <= j < i ==> self.entries()[j].0 != key@,
            decreases self.entries.len() - i,
        {
            if same_text(self.entries[i].0.as_str(), key) {
                return Some(i);
            }
            i = i + 1;
        }
        None
    }

    /// The value under `key`, if any.
    pub fn get(&self, key: &str) -> (r: Option<&V>)
        ensures
            r is Some <==> has_key(self.entries(), key@),
            r matches Some(v) ==> pairs_get(self.entries(), key@) == Some(*v),
    {
        proof {
            use_type_invariant(self);
        }
        match self.position(key) {
            Some(i) => {
                proof {
                    lemma_key_position_unique(self.entries(), i as int);
                }
                Some(&self.entries[i].1)
            },
            None => None,
        }
    }

    /// Puts `value` under `key`; returns the value it replaces, if any.
    pub fn insert(&mut self, key: String, value: V) -> (r: Option<V>)
        ensures
            final(self).entries() == pairs_insert(old(self).entries(), key@, value),
            r == pairs_get(old(self).entries(), key@),
    {
        proof {
            use_type_invariant(&*self);
        }
        let ghost before = self.entries();
        let found = self.position(key.as_str());
        let mut entries: Vec<(String, V)> = Vec::new();
        std::mem::swap(&mut entries, &mut self.entries);
        assert(entries@.map_values(|e: (String, V)| (e.0@, e.1)) == before);
        proof {
            lemma_insert_distinct(before, key@, value);
        }
        let replaced = match found {
            Some(i) => {
                proof {
                    lemma_key_position_unique(before, i as int);
                }
                let (_, old_value) = entries.remove(i);
                entries.insert(i, (key, value));
                Some(old_value)
            },
            None => {
                entries.push((key, value));
                None
            },
        };
        assert(entries@.map_values(|e: (String, V)| (e.0@, e.1)) =~= pairs_insert(
            before,
            key@,
            value,
        ));
        self.entries = entries;
        replaced
    }

    /// Takes the entry named `key` out; returns its value, if there was one.
    pub fn remove(&mut self, key: &str) -> (r: Option<V>)
        ensures
            final(self).entries() == pairs_remove(old(self).entries(), key@),
            r == pairs_get(old(self).entries(), key@),
    {
        proof {
            use_type_invariant(&*self);
        }
        let ghost before = self.entries();
        let found = self.position(key);
        let mut entries: Vec<(String, V)> = Vec::new();
        std::mem::swap(&mut entries, &mut self.entries);
        assert(entries@.map_values(|e: (String, V)| (e.0@, e.1)) == before);
        proof {
            lemma_remove_get(before, key@, key@);
        }
        let removed = match found {
            Some(i) => {
                proof {
                    lemma_key_position_unique(before, i as int);
                }
                let (_, value) = entries.remove(i);
                Some(value)
            },
            None => None,
        };
        assert(entries@.map_values(|e: (String, V)| (e.0@, e.1)) =~= pairs_remove(before, key@));
        self.entries = entries;
        removed
    }
}

impl<V> View for Registry<V> {
    type V = Map<Seq<char>, V>;

    open spec fn view(&self) -> Map<Seq<char>, V> {
        pairs_map(self.entries())
    }
}

/// The receipt that a server frame delivers: the `receipt-id` header of a RECEIPT frame.
pub open spec fn receipt_delivered(frame_command: ServerCommand, headers: Seq<(Seq<char>, Seq<char>)>) -> Option<Seq<char>> {
    if frame_command == ServerCommand::Receipt {
        pairs_get(headers, "receipt-id"@)
    } else {
        None
    }
}

/// The receipt id that `frame` delivers, if it is a RECEIPT frame that names one.
pub fn delivered_receipt(frame: &Frame<ServerCommand>) -> (r: Option<String>)
    ensures
        r is Some <==> receipt_delivered(frame.command, frame.headers.pairs()) is Some,
        r matches Some(id) ==> receipt_delivered(frame.command, frame.headers.pairs()) == Some(
            id@,
        ),
        frame.command != ServerCommand::Receipt ==> r is None,
        frame.command == ServerCommand::Receipt ==> (r is Some <==> has_key(
            frame.headers.pairs(),
            "receipt-id"@,
        )),
        r matches Some(id) ==> pairs_get(frame.headers.pairs(), "receipt-id"@) == Some(id@),
{
    match frame.command {
        ServerCommand::Receipt => match frame.headers.get("receipt-id") {
            Some(id) => Some(id.clone()),
            None => None,
        },
        _ => None,
    }
}

/// Releases the waiter for the receipt that `frame` delivers: takes it out of `pending` and
/// returns it. Frames that deliver no awaited receipt leave `pending` as it was.
pub fn release_receipt<V>(pending: &mut Registry<V>, frame: &Frame<ServerCommand>) -> (r: Option<V>)
    ensures
        match receipt_delivered(frame.command, frame.headers.pairs()) {
            Some(id) => {
                &&& final(pending).entries() == pairs_remove(old(pending).entries(), id)
                &&& r == pairs_get(old(pending).entries(), id)
            },
            None => {
                &&& final(pending).entries() == old(pending).entries()
                &&& r is None
            },
        },
        frame.command != ServerCommand::Receipt ==> final(pending).entries() == old(
            pending,
        ).entries() && r is None,
        frame.command == ServerCommand::Receipt ==> match pairs_get(
            frame.headers.pairs(),
            "receipt-id"@,
        ) {
            Some(id) => final(pending).entries() == pairs_remove(old(pending).entries(), id)
                && r == pairs_get(old(pending).entries(), id),
            None => final(pending).entries() == old(pending).entries() && r is None,
        },
{
    match delivered_receipt(frame) {
        Some(id) => pending.remove(id.as_str()),
        None => None,
    }
}

/// The subscriber that `frame` is for: the one registered under its `subscription` header.
pub fn subscriber_for<'a, V>(subscribers: &'a Registry<V>, frame: &Frame<ServerCommand>) -> (r:
    Option<&'a V>)
    ensures
        match pairs_get(frame.headers.pairs(), "subscription"@) {
            Some(id) => {
                &&& r is Some <==> has_key(subscribers.entries(), id)
                &&& r matches Some(v) ==> pairs_get(subscribers.entries(), id) == Some(*v)
            },
            None => r is None,
        },
{
    match frame.headers.get("subscription") {
        Some(id) => subscribers.get(id.as_str()),
        None => None,
    }
}

/// Releases the waiter registered under `frame`'s `receipt-id` header, whatever the frame's
/// command: takes it out of `pending` and returns it.
pub fn release_awaiter<V>(pending: &mut Registry<V>, frame: &Frame<ServerCommand>) -> (r: Option<V>)
    ensures
        match pairs_get(frame.headers.pairs(), "receipt-id"@) {
            Some(id) => {
                &&& final(pending).entries() == pairs_remove(old(pending).entries(), id)
                &&& r == pairs_get(old(pending).entries(), id)
            },
            None => {
                &&& final(pending).entries() == old(pending).entries()
                &&& r is None
            },
        },
{
    match frame.headers.get("receipt-id") {
        Some(id) => pending.remove(id.as_str()),
        None => None,
    }
}

/// Only a RECEIPT frame delivers a receipt, and it delivers the id in its `receipt-id`
/// header: any other frame (an ERROR that refuses a request, a MESSAGE, a CONNECTED)
/// confirms nothing, whatever headers it carries.
pub proof fn lemma_only_receipt_frames_confirm(
    frame_command: ServerCommand,
    headers: Seq<(Seq<char>, Seq<char>)>,
)
    ensures
        frame_command != ServerCommand::Receipt ==> receipt_delivered(frame_command, headers)
            is None,
        frame_command == ServerCommand::Receipt ==> receipt_delivered(frame_command, headers)
            == pairs_get(headers, "receipt-id"@),
{
}

} // verus!
