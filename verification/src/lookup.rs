//! Finding things by name in a sequence that keeps them in the order in which
//! they came.
use vstd::prelude::*;
use crate::text::same_text;

verus! {

/// Something that goes by a name.
pub trait Named {
    /// The name.
    spec fn named(&self) -> Seq<char>;

    /// Whether the name is the given one.
    fn has_name(&self, name: &str) -> (r: bool)
        ensures
            r == (self.named() == name@),
    ;
}

impl Named for String {
    open spec fn named(&self) -> Seq<char> {
        self@
    }

    fn has_name(&self, name: &str) -> (r: bool) {
        same_text(self.as_str(), name)
    }
}

/// The names of a sequence of things, in order.
pub open spec fn names<T: Named>(items: Seq<T>) -> Seq<Seq<char>> {
    Seq::new(items.len(), |i: int| items[i].named())
}

/// The first position at which a name stands, if it stands anywhere.
pub open spec fn first_at(names: Seq<Seq<char>>, key: Seq<char>) -> Option<int>
    decreases names.len(),
{
    if names.len() == 0 {
        None
    } else if names[0] == key {
        Some(0)
    } else {
        match first_at(names.skip(1), key) {
            Some(i) => Some(i + 1),
            None => None,
        }
    }
}

/// Whether no name stands twice.
pub open spec fn distinct(names: Seq<Seq<char>>) -> bool {
    forall|i: int, j: int| 0 <= i < j < names.len() ==> names[i] != names[j]
}

/// What `first_at` finds is a position of the name with no earlier one, and
/// it finds one wherever the name stands.
pub proof fn lemma_first_at(names: Seq<Seq<char>>, key: Seq<char>)
    ensures
        match first_at(names, key) {
            Some(i) => 0 <= i < names.len() && names[i] == key && forall|k: int|
                0 <= k < i ==> names[k] != key,
            None => forall|k: int| 0 <= k < names.len() ==> names[k] != key,
        },
    decreases names.len(),
{
    if names.len() > 0 && names[0] != key {
        let tail = names.skip(1);
        lemma_first_at(tail, key);
        match first_at(tail, key) {
            Some(i) => {
                assert(names[i + 1] == tail[i]);
                assert forall|k: int| 0 <= k < i + 1 implies names[k] != key by {
                    if k > 0 {
                        assert(names[k] == tail[k - 1]);
                    }
                }
            },
            None => {
                assert forall|k: int| 0 <= k < names.len() implies names[k] != key by {
                    if k > 0 {
                        assert(names[k] == tail[k - 1]);
                    }
                }
            },
        }
    }
}

/// A position of the name with no earlier one is what `first_at` finds.
pub proof fn lemma_first_at_is(names: Seq<Seq<char>>, key: Seq<char>, i: int)
    requires
        0 <= i <= names.len(),
        forall|k: int| 0 <= k < i ==> names[k] != key,
        i < names.len() ==> names[i] == key,
    ensures
        first_at(names, key) == if i < names.len() {
            Some(i)
        } else {
            None
        },
    decreases names.len(),
{
    if names.len() > 0 && names[0] != key {
        let tail = names.skip(1);
        assert forall|k: int| 0 <= k < i - 1 implies tail[k] != key by {
            assert(tail[k] == names[k + 1]);
        }
        lemma_first_at_is(tail, key, i - 1);
    }
}

/// A name that is new to a sequence stands at its end once appended, every
/// other name where it stood before, and distinct names stay distinct.
pub proof fn lemma_first_at_push(names: Seq<Seq<char>>, added: Seq<char>, key: Seq<char>)
    requires
        first_at(names, added) is None,
    ensures
        first_at(names.push(added), key) == if key == added {
            Some(names.len() as int)
        } else {
            first_at(names, key)
        },
        distinct(names) ==> distinct(names.push(added)),
{
    let more = names.push(added);
    lemma_first_at(names, added);
    lemma_first_at(names, key);
    if key == added {
        lemma_first_at_is(more, key, names.len() as int);
    } else {
        match first_at(names, key) {
            Some(i) => lemma_first_at_is(more, key, i),
            None => lemma_first_at_is(more, key, more.len() as int),
        }
    }
}

/// The first position at which a name stands among the things.
pub fn find<T: Named>(items: &Vec<T>, name: &str) -> (r: Option<usize>)
    ensures
        match r {
            Some(i) => first_at(names(items@), name@) == Some(i as int) && i < items.len(),
            None => first_at(names(items@), name@) is None,
        },
{
    let mut i: usize = 0;
    while i < items.len()
        invariant
            i <= items.len(),
            forall|k: int| 0 <= k < i ==> names(items@)[k] != name@,
        decreases items.len() - i,
    {
        if items[i].has_name(name) {
            proof {
                lemma_first_at_is(names(items@), name@, i as int);
            }
            return Some(i);
        }
        i += 1;
    }
    proof {
        lemma_first_at_is(names(items@), name@, i as int);
    }
    None
}

} // verus!
