//! Scopes: chained frames of bindings.

use vstd::prelude::*;
use vstd::string::*;
use crate::parser::ast::Identifier;
use super::semantics::{lookup, Frame, Val};
use super::value::Value;

verus! {

/// The frame that a run of bindings makes: of two bindings of one name the
/// later one counts.
pub open spec fn frame_of(entries: Seq<(String, Value)>) -> Frame
    decreases entries.len(),
{
    if entries.len() == 0 {
        Map::empty()
    } else {
        frame_of(entries.drop_last()).insert(entries.last().0@, entries.last().1@)
    }
}

/// A name that no binding has is not in the frame.
proof fn lemma_frame_absent(entries: Seq<(String, Value)>, k: Seq<char>)
    requires
        forall|j: int| 0 <= j < entries.len() ==> (#[trigger] entries[j]).0@ != k,
    ensures
        !frame_of(entries).contains_key(k),
    decreases entries.len(),
{
    if entries.len() > 0 {
        lemma_frame_absent(entries.drop_last(), k);
    }
}

/// The frame gives a name the value of the last binding that has it.
proof fn lemma_frame_lookup(entries: Seq<(String, Value)>, k: Seq<char>, i: int)
    requires
        0 <= i < entries.len(),
        entries[i].0@ == k,
        forall|j: int| i < j < entries.len() ==> (#[trigger] entries[j]).0@ != k,
    ensures
        frame_of(entries).contains_key(k),
        frame_of(entries)[k] == entries[i].1@,
    decreases entries.len(),
{
    if i < entries.len() - 1 {
        lemma_frame_lookup(entries.drop_last(), k, i);
    }
}

/// Replacing the last binding of a name binds the name anew in the frame.
proof fn lemma_frame_update(entries: Seq<(String, Value)>, i: int, entry: (String, Value))
    requires
        0 <= i < entries.len(),
        entries[i].0@ == entry.0@,
        forall|j: int| i < j < entries.len() ==> (#[trigger] entries[j]).0@ != entry.0@,
    ensures
        frame_of(entries.update(i, entry)) == frame_of(entries).insert(entry.0@, entry.1@),
    decreases entries.len(),
{
    let updated = entries.update(i, entry);
    if i == entries.len() - 1 {
        assert(updated.drop_last() =~= entries.drop_last());
        assert(frame_of(updated) =~= frame_of(entries).insert(entry.0@, entry.1@));
    } else {
        lemma_frame_update(entries.drop_last(), i, entry);
        assert(updated.drop_last() =~= entries.drop_last().update(i, entry));
        assert(updated.last() == entries.last());
        assert(frame_of(updated) =~= frame_of(entries).insert(entry.0@, entry.1@));
    }
}

/// Bindings that look alike make the same frame.
proof fn lemma_frame_alike(a: Seq<(String, Value)>, b: Seq<(String, Value)>)
    requires
        a.len() == b.len(),
        forall|j: int|
            0 <= j < a.len() ==> (#[trigger] a[j]).0@ == b[j].0@ && a[j].1@ == b[j].1@,
    ensures
        frame_of(a) == frame_of(b),
    decreases a.len(),
{
    if a.len() > 0 {
        lemma_frame_alike(a.drop_last(), b.drop_last());
    }
}

/// A scope: its own bindings, and the scope around it where there is one.
///
/// Looking a name up walks outwards; binding one touches the scope's own
/// frame alone.
#[derive(Debug)]
pub struct Scope {
    store: Vec<(String, Value)>,
    outer: Option<Box<Scope>>,
}

impl Scope {
    /// The scope's own bindings.
    pub closed spec fn top(&self) -> Frame {
        frame_of(self.store@)
    }

    /// The frames of the scopes around this one, innermost first.
    pub closed spec fn rest(&self) -> Seq<Frame>
        decreases self,
    {
        match self.outer {
            None => Seq::empty(),
            Some(o) => seq![o.top()] + o.rest(),
        }
    }

    /// An empty scope with nothing around it.
    pub fn new() -> (scope: Self)
        ensures
            scope.top() == Map::<Seq<char>, Val>::empty(),
            scope.rest() == Seq::<Frame>::empty(),
    {
        Self { store: Vec::new(), outer: None }
    }

    /// An empty scope around which a copy of `around` stands: the scope of
    /// a call made in `around`.
    pub fn inside(around: &Scope) -> (scope: Self)
        ensures
            scope.top() == Map::<Seq<char>, Val>::empty(),
            scope.rest() == seq![around.top()] + around.rest(),
    {
        Self { store: Vec::new(), outer: Some(Box::new(around.duplicate())) }
    }

    /// The index of the last binding of a name in the scope's own frame.
    fn find(&self, key: &String) -> (found: Option<usize>)
        ensures
            match found {
                Some(i) => i < self.store@.len() && self.store@[i as int].0@ == key@ && forall|
                    j: int,
                |
                    i < j < self.store@.len() ==> (#[trigger] self.store@[j]).0@ != key@,
                None => forall|j: int|
                    0 <= j < self.store@.len() ==> (#[trigger] self.store@[j]).0@ != key@,
            },
    {
        let mut i = self.store.len();
        while i > 0
            invariant
                i <= self.store@.len(),
                forall|j: int| i <= j < self.store@.len() ==> (#[trigger] self.store@[j]).0@ != key@,
            decreases i,
        {
            i = i - 1;
            if self.store[i].0 == *key {
                return Some(i);
            }
        }
        None
    }

    /// The value of a name: that of the innermost scope that binds it.
    pub fn get(&self, key: &Identifier) -> (value: Option<&Value>)
        ensures
            match value {
                Some(v) => lookup(self.top(), self.rest(), key@) == Some(v@),
                None => lookup(self.top(), self.rest(), key@) is None,
            },
        decreases self,
    {
        match self.find(&key.value) {
            Some(i) => {
                proof {
                    lemma_frame_lookup(self.store@, key@, i as int);
                }
                Some(&self.store[i].1)
            },
            None => {
                proof {
                    lemma_frame_absent(self.store@, key@);
                }
                match &self.outer {
                    Some(o) => {
                        assert((seq![o.top()] + o.rest()).skip(1) =~= o.rest());
                        o.get(key)
                    },
                    None => None,
                }
            },
        }
    }

    /// Binds a name in the scope's own frame, whatever the scopes around
    /// it hold.
    pub fn set(&mut self, key: &Identifier, value: &Value)
        ensures
            final(self).top() == old(self).top().insert(key@, value@),
            final(self).rest() == old(self).rest(),
    {
        let entry = (key.value.clone(), value.clone());
        match self.find(&key.value) {
            Some(i) => {
                proof {
                    lemma_frame_update(self.store@, i as int, entry);
                }
                self.store.set(i, entry);
            },
            None => {
                proof {
                    assert(self.store@.push(entry).drop_last() =~= self.store@);
                }
                self.store.push(entry);
            },
        }
    }

    /// A copy of the scope and of all the scopes around it.
    pub fn duplicate(&self) -> (copy: Self)
        ensures
            copy.top() == self.top(),
            copy.rest() == self.rest(),
        decreases self,
    {
        let mut store: Vec<(String, Value)> = Vec::new();
        let mut i: usize = 0;
        while i < self.store.len()
            invariant
                i <= self.store@.len(),
                store@.len() == i,
                forall|j: int|
                    0 <= j < i ==> (#[trigger] store@[j]).0@ == self.store@[j].0@ && store@[j].1@
                        == self.store@[j].1@,
            decreases self.store@.len() - i,
        {
            store.push((self.store[i].0.clone(), self.store[i].1.clone()));
            i = i + 1;
        }
        proof {
            lemma_frame_alike(store@, self.store@);
        }
        let outer = match &self.outer {
            Some(o) => Some(Box::new(o.duplicate())),
            None => None,
        };
        Self { store, outer }
    }

    /// Whether at least `limit` scopes stand around this one.
    pub fn nested(&self, limit: usize) -> (b: bool)
        ensures
            b == (self.rest().len() >= limit),
        decreases self,
    {
        if limit == 0 {
            true
        } else {
            match &self.outer {
                Some(o) => o.nested(limit - 1),
                None => false,
            }
        }
    }
}

impl Default for Scope {
    fn default() -> (scope: Self)
        ensures
            scope.top() == Map::<Seq<char>, Val>::empty(),
            scope.rest() == Seq::<Frame>::empty(),
    {
        Scope::new()
    }
}

impl Clone for Scope {
    fn clone(&self) -> (copy: Self)
        ensures
            copy.top() == self.top(),
            copy.rest() == self.rest(),
    {
        self.duplicate()
    }
}

} // verus!
