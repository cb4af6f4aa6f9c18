use std::collections::HashMap;
use vstd::prelude::*;
use vstd::std_specs::iter::IteratorSpec;

verus! {

/// A stored record: its identifier and its text.
#[derive(Debug, Clone, PartialEq, Eq)]
pub struct Message {
    pub id: u128,
    pub message: String,
}

impl View for Message {
    type V = (u128, Seq<char>);

    open spec fn view(&self) -> (u128, Seq<char>) {
        (self.id, self.message@)
    }
}

/// The table of all records, keyed by identifier.
pub struct Store {
    records: HashMap<u128, String>,
}

impl View for Store {
    type V = Map<u128, Seq<char>>;

    closed spec fn view(&self) -> Map<u128, Seq<char>> {
        Map::new(
            |k: u128| self.records@.contains_key(k),
            |k: u128| self.records@[k]@,
        )
    }
}

/// `ms` lists the records of `m`, each once.
pub open spec fn lists_exactly(ms: Seq<Message>, m: Map<u128, Seq<char>>) -> bool {
    &&& ms.len() == m.len()
    &&& forall|i: int, j: int| 0 <= i < j < ms.len() ==> ms[i].id != ms[j].id
    &&& forall|i: int| 0 <= i < ms.len() ==> #[trigger] m.contains_key(ms[i].id) && m[ms[i].id] == ms[i].message@
    &&& forall|k: u128| #[trigger] m.contains_key(k) ==> exists|i: int| 0 <= i < ms.len() && ms[i].id == k
}

impl Store {
    /// An empty store.
    pub fn new() -> (s: Store)
        ensures
            s@ == Map::<u128, Seq<char>>::empty(),
    {
        let s = Store { records: HashMap::new() };
        assert(s@ =~= Map::<u128, Seq<char>>::empty());
        s
    }

    /// A copy of every record, in no particular order.
    pub fn list(&self) -> (r: Vec<Message>)
        ensures
            self@.dom().finite(),
            lists_exactly(r@, self@),
    {
        let mut out: Vec<Message> = Vec::new();
        let ghost pairs = self.records.iter().remaining();
        for (k, v) in it: self.records.iter()
            invariant
                it.seq() == pairs,
                out.len() == it.index(),
                forall|i: int|
                    0 <= i < out.len() ==> out@[i].id == *pairs[i].0 && out@[i].message@
                        == pairs[i].1@,
        {
            out.push(Message { id: *k, message: v.clone() });
        }
        proof {
            let m = self.records@;
            assert(pairs.no_duplicates());
            assert forall|i: int, j: int| 0 <= i < j < out.len() implies out@[i].id != out@[j].id by {
                if out@[i].id == out@[j].id {
                    assert(m.contains_key(*pairs[i].0) && m[*pairs[i].0] == *pairs[i].1);
                    assert(m.contains_key(*pairs[j].0) && m[*pairs[j].0] == *pairs[j].1);
                    assert(pairs[i] == pairs[j]);
                }
            }
            assert forall|k: u128| #[trigger] self@.contains_key(k) implies exists|i: int|
                0 <= i < out.len() && out@[i].id == k by {
                assert(m.contains_key(k));
                assert(pairs.contains((&k, &m[k])));
                let i = choose|i: int| 0 <= i < pairs.len() && pairs[i] == (&k, &m[k]);
                assert(out@[i].id == k);
            }
            assert forall|i: int| 0 <= i < out.len() implies #[trigger] self@.contains_key(out@[i].id)
                && self@[out@[i].id] == out@[i].message@ by {
                assert(m.contains_key(*pairs[i].0) && m[*pairs[i].0] == *pairs[i].1);
            }
            assert(self@.dom() == m.dom());
            assert(m.dom().finite());
        }
        out
    }

    /// A copy of the record stored under `id`, if there is one.
    pub fn get(&self, id: u128) -> (r: Option<Message>)
        ensures
            r matches Some(m) ==> self@.contains_key(id) && m@ == (id, self@[id]),
            r is None <==> !self@.contains_key(id),
    {
        match self.records.get(&id) {
            Some(text) => Some(Message { id, message: text.clone() }),
            None => None,
        }
    }

    /// Stores `content` under `id`, replacing whatever was there, and
    /// returns the resulting record.
    pub fn insert(&mut self, id: u128, content: String) -> (r: Message)
        ensures
            final(self)@ == old(self)@.insert(id, content@),
            r@ == (id, content@),
    {
        let kept = content.clone();
        self.records.insert(id, content);
        proof {
            assert(self@ =~= old(self)@.insert(id, content@));
        }
        Message { id, message: kept }
    }

    /// Removes the record stored under `id`; tells whether there was one.
    pub fn remove(&mut self, id: u128) -> (r: bool)
        ensures
            r == old(self)@.contains_key(id),
            final(self)@ == old(self)@.remove(id),
    {
        let r = self.records.remove(&id).is_some();
        proof {
            assert(self@ =~= old(self)@.remove(id));
        }
        r
    }
}

} // verus!
