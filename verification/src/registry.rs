//! The handler registry: a mapping from command name to handler,
//! populated during the registration phase and consulted once per
//! dispatched command. Registering a name again overwrites the earlier
//! handler, so the most recent registration for a name is the one that
//! is looked up.

use vstd::prelude::*;

use crate::parser::str_eq;

verus! {

/// The mapping held by a sequence of registrations, later ones winning.
pub closed spec fn registered_map<H>(entries: Seq<(String, H)>) -> Map<Seq<char>, H>
    decreases entries.len(),
{
    if entries.len() == 0 {
        Map::empty()
    } else {
        registered_map(entries.drop_last()).insert(entries.last().0@, entries.last().1)
    }
}

/// If position `i` holds the last registration of its name, the mapping
/// takes that name to the handler at `i`.
proof fn lemma_registered_map_last<H>(entries: Seq<(String, H)>, i: int)
    requires
        0 <= i < entries.len(),
        forall|j: int| i < j < entries.len() ==> (#[trigger] entries[j]).0@ != entries[i].0@,
    ensures
        registered_map(entries).contains_key(entries[i].0@),
        registered_map(entries)[entries[i].0@] == entries[i].1,
    decreases entries.len(),
{
    if i < entries.len() - 1 {
        lemma_registered_map_last(entries.drop_last(), i);
    }
}

/// A name under which nothing is registered is not in the mapping.
proof fn lemma_registered_map_absent<H>(entries: Seq<(String, H)>, name: Seq<char>)
    requires
        forall|j: int| 0 <= j < entries.len() ==> (#[trigger] entries[j]).0@ != name,
    ensures
        !registered_map(entries).contains_key(name),
    decreases entries.len(),
{
    if entries.len() > 0 {
        lemma_registered_map_absent(entries.drop_last(), name);
    }
}

/// Overwriting the handler at the last registration of a name updates
/// the mapping at that name and nothing else.
proof fn lemma_registered_map_update<H>(entries: Seq<(String, H)>, i: int, p: (String, H))
    requires
        0 <= i < entries.len(),
        p.0@ == entries[i].0@,
        forall|j: int| i < j < entries.len() ==> (#[trigger] entries[j]).0@ != entries[i].0@,
    ensures
        registered_map(entries.update(i, p)) == registered_map(entries).insert(p.0@, p.1),
    decreases entries.len(),
{
    let key = entries[i].0@;
    if i == entries.len() - 1 {
        assert(entries.update(i, p).drop_last() =~= entries.drop_last());
        assert(registered_map(entries.drop_last()).insert(key, entries[i].1).insert(p.0@, p.1)
            =~= registered_map(entries.drop_last()).insert(p.0@, p.1));
    } else {
        lemma_registered_map_update(entries.drop_last(), i, p);
        assert(entries.update(i, p).drop_last() =~= entries.drop_last().update(i, p));
        assert(entries.update(i, p).last() == entries.last());
        let m = registered_map(entries.drop_last());
        let lk = entries.last().0@;
        let lv = entries.last().1;
        assert(m.insert(p.0@, p.1).insert(lk, lv) =~= m.insert(lk, lv).insert(p.0@, p.1));
    }
}

/// A mapping from command name to a registered handler.
pub struct Registry<H> {
    entries: Vec<(String, H)>,
}

impl<H> View for Registry<H> {
    type V = Map<Seq<char>, H>;

    closed spec fn view(&self) -> Map<Seq<char>, H> {
        registered_map(self.entries@)
    }
}

impl<H> Registry<H> {
    /// An empty registry.
    pub fn new() -> (r: Registry<H>)
        ensures
            r@ == Map::<Seq<char>, H>::empty(),
    {
        let r = Registry { entries: Vec::new() };
        proof {
            assert(r.entries@ =~= Seq::<(String, H)>::empty());
        }
        r
    }

    /// Register a handler under a name, overwriting any handler already
    /// registered under it.
    pub fn register(&mut self, name: String, handler: H)
        ensures
            final(self)@ == old(self)@.insert(name@, handler),
    {
        let ghost pre = self.entries@;
        self.entries.push((name, handler));
        proof {
            assert(self.entries@.drop_last() =~= pre);
        }
    }

    /// The position of the registration that `name` resolves to.
    fn find_index(&self, name: &str) -> (r: Option<usize>)
        ensures
            match r {
                Option::Some(i) => i < self.entries@.len() && self.entries@[i as int].0@ == name@
                    && self@.contains_key(name@) && self@[name@] == self.entries@[i as int].1
                    && (forall|j: int|
                    i < j < self.entries@.len() ==> (#[trigger] self.entries@[j]).0@ != name@),
                Option::None => !self@.contains_key(name@),
            },
    {
        let mut i: usize = self.entries.len();
        while i > 0
            invariant
                i <= self.entries@.len(),
                forall|j: int|
                    i <= j < self.entries@.len() ==> (#[trigger] self.entries@[j]).0@ != name@,
            decreases i,
        {
            i = i - 1;
            if str_eq(self.entries[i].0.as_str(), name) {
                proof {
                    lemma_registered_map_last(self.entries@, i as int);
                }
                return Some(i);
            }
        }
        proof {
            lemma_registered_map_absent(self.entries@, name@);
        }
        None
    }

    /// Look up the handler registered under a name: an exact,
    /// case-sensitive match, the most recent registration winning.
    pub fn lookup(&self, name: &str) -> (r: Option<&H>)
        ensures
            (r is Some) == self@.contains_key(name@),
            r matches Some(h) ==> *h == self@[name@],
    {
        match self.find_index(name) {
            Some(i) => Some(&self.entries[i].1),
            None => None,
        }
    }

    /// Look up the handler registered under a name, for use: the
    /// registry afterwards holds, under that name, whatever the caller
    /// leaves behind the returned reference.
    pub fn lookup_mut<'a>(&'a mut self, name: &str) -> (r: Option<&'a mut H>)
        ensures
            (r is Some) == old(self)@.contains_key(name@),
            r matches Some(h) ==> *h == old(self)@[name@] && final(self)@ == old(
                self,
            )@.insert(name@, *final(h)),
            r is None ==> *final(self) == *old(self),
    {
        let ghost pre = self.entries@;
        match self.find_index(name) {
            Some(i) => {
                proof {
                    assert forall|p: (String, H)| p.0@ == name@ implies registered_map(
                        #[trigger] pre.update(i as int, p),
                    ) == registered_map(pre).insert(p.0@, p.1) by {
                        lemma_registered_map_update(pre, i as int, p);
                    }
                }
                let entry = &mut self.entries[i];
                Some(&mut entry.1)
            },
            None => None,
        }
    }
}

} // verus!
