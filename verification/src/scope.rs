//! One scope of a calculator.

use crate::text::{same_text, texts};
use vstd::prelude::*;
use vstd::string::StringExecFns;

verus! {

/// One scope of a calculator: the variables bound in it, each to one number. A number is
/// kept as the bit pattern of its IEEE 754 double.
#[derive(Debug)]
pub struct Scope {
    names: Vec<String>,
    values: Vec<u64>,
}

/// Whether `names` holds `key`, at place `i`.
pub open spec fn holds_at(names: Seq<String>, key: Seq<char>, i: int) -> bool {
    0 <= i < names.len() && names[i]@ == key
}

/// The bindings that parallel sequences of names and values stand for.
pub open spec fn bindings(names: Seq<String>, values: Seq<u64>) -> Map<Seq<char>, u64> {
    Map::new(
        |key: Seq<char>| exists|i: int| holds_at(names, key, i),
        |key: Seq<char>| values[choose|i: int| holds_at(names, key, i)],
    )
}

impl View for Scope {
    type V = Map<Seq<char>, u64>;

    closed spec fn view(&self) -> Map<Seq<char>, u64> {
        bindings(self.names@, self.values@)
    }
}

impl Scope {
    /// The scope is well formed: each name is bound once. Every scope that this module
    /// hands out is.
    pub closed spec fn wf(&self) -> bool {
        &&& self.names.len() == self.values.len()
        &&& distinct(self.names@)
    }

    /// A scope that binds nothing.
    pub fn new() -> (r: Self)
        ensures
            r.wf(),
            r@ == Map::<Seq<char>, u64>::empty(),
    {
        let r = Scope { names: Vec::new(), values: Vec::new() };
        assert(r@ =~= Map::<Seq<char>, u64>::empty());
        r
    }

    /// The number of variables bound.
    pub fn len(&self) -> (n: usize)
        requires
            self.wf(),
        ensures
            n == self@.dom().len(),
            self@.dom().finite(),
    {
        proof {
            lemma_bindings_len(self.names@, self.values@);
        }
        self.names.len()
    }

    /// The place of `name` among the names, or their number where it is not bound.
    fn position(&self, name: &str) -> (i: usize)
        ensures
            i <= self.names.len(),
            i < self.names.len() ==> self.names[i as int]@ == name@,
            i == self.names.len() ==> !self@.dom().contains(name@),
            i == self.names.len() ==> forall|k: int|
                0 <= k < self.names.len() ==> self.names[k]@ != name@,
    {
        let mut i: usize = 0;
        while i < self.names.len()
            invariant
                i <= self.names.len(),
                forall|k: int| 0 <= k < i ==> self.names[k]@ != name@,
            decreases self.names.len() - i,
        {
            if same_text(self.names[i].as_str(), name) {
                return i;
            }
            i += 1;
        }
        assert(forall|k: int| !holds_at(self.names@, name@, k));
        i
    }

    /// The number bound to `name` in this scope.
    pub fn get(&self, name: &str) -> (r: Option<u64>)
        requires
            self.wf(),
        ensures
            r == if self@.dom().contains(name@) {
                Some(self@[name@])
            } else {
                None
            },
    {
        let i = self.position(name);
        if i < self.names.len() {
            assert(holds_at(self.names@, name@, i as int));
            Some(self.values[i])
        } else {
            None
        }
    }

    /// Binds `name` to `value`, in place of what it was bound to.
    pub fn set(&mut self, name: &str, value: u64)
        requires
            old(self).wf(),
        ensures
            final(self).wf(),
            final(self)@ == old(self)@.insert(name@, value),
    {
        let i = self.position(name);
        if i < self.names.len() {
            self.values.set(i, value);
            proof {
                lemma_bindings_update(old(self).names@, old(self).values@, i as int, value);
            }
        } else {
            let owned = String::from_str(name);
            self.names.push(owned);
            self.values.push(value);
            proof {
                lemma_bindings_push(old(self).names@, old(self).values@, owned, value);
            }
        }
    }

    /// The names bound, in the order of their places: each once, and no other.
    pub closed spec fn keys(&self) -> Seq<Seq<char>> {
        texts(self.names@)
    }

    /// The places hold the names bound, each once.
    pub proof fn lemma_keys(&self)
        requires
            self.wf(),
        ensures
            self.keys().len() == self@.dom().len(),
            self.keys().no_duplicates(),
            forall|key: Seq<char>| self@.dom().contains(key) <==> self.keys().contains(key),
    {
        lemma_bindings_len(self.names@, self.values@);
        assert forall|key: Seq<char>| self@.dom().contains(key) implies self.keys().contains(
            key,
        ) by {
            let i = choose|i: int| holds_at(self.names@, key, i);
            assert(self.keys()[i] == key);
        }
        assert forall|key: Seq<char>| self.keys().contains(key) implies self@.dom().contains(
            key,
        ) by {
            let i = choose|i: int| 0 <= i < self.keys().len() && self.keys()[i] == key;
            assert(holds_at(self.names@, key, i));
        }
    }

    /// The name and the number of the binding at place `i`, in no order that means anything;
    /// `None` from `len()` on.
    pub fn entry(&self, i: usize) -> (r: Option<(&str, u64)>)
        requires
            self.wf(),
        ensures
            match r {
                Some((name, value)) => i < self.keys().len() && name@ == self.keys()[i as int]
                    && self@.dom().contains(name@) && self@[name@] == value,
                None => i >= self.keys().len(),
            },
    {
        if i < self.names.len() {
            assert(holds_at(self.names@, self.names[i as int]@, i as int));
            Some((self.names[i].as_str(), self.values[i]))
        } else {
            None
        }
    }
}

/// Names that differ pairwise.
pub open spec fn distinct(names: Seq<String>) -> bool {
    forall|i: int, j: int| 0 <= i < j < names.len() ==> names[i]@ != names[j]@
}

/// Replacing the value at the place of a name binds the name to it, and changes no other
/// binding.
proof fn lemma_bindings_update(names: Seq<String>, values: Seq<u64>, i: int, value: u64)
    requires
        names.len() == values.len(),
        distinct(names),
        0 <= i < names.len(),
    ensures
        bindings(names, values.update(i, value)) == bindings(names, values).insert(
            names[i]@,
            value,
        ),
{
    let before = bindings(names, values);
    let after = bindings(names, values.update(i, value));
    assert(holds_at(names, names[i]@, i));
    assert forall|key: Seq<char>| #[trigger] after.dom().contains(key) implies after[key]
        == before.insert(names[i]@, value)[key] by {
        let j = choose|j: int| holds_at(names, key, j);
        if j != i {
            assert(names[j]@ != names[i]@);
        }
    }
    assert(after =~= before.insert(names[i]@, value));
}

/// A new name with its value behind the others binds the name, and changes no other
/// binding.
proof fn lemma_bindings_push(names: Seq<String>, values: Seq<u64>, name: String, value: u64)
    requires
        names.len() == values.len(),
        distinct(names),
        forall|k: int| 0 <= k < names.len() ==> names[k]@ != name@,
    ensures
        bindings(names.push(name), values.push(value)) == bindings(names, values).insert(
            name@,
            value,
        ),
        distinct(names.push(name)),
{
    let before = bindings(names, values);
    let names2 = names.push(name);
    let values2 = values.push(value);
    let after = bindings(names2, values2);
    assert(holds_at(names2, name@, names.len() as int));
    assert forall|key: Seq<char>| after.dom().contains(key) <==> before.insert(
        name@,
        value,
    ).dom().contains(key) by {
        if after.dom().contains(key) {
            let j = choose|j: int| holds_at(names2, key, j);
            if j < names.len() {
                assert(holds_at(names, key, j));
            }
        }
        if before.dom().contains(key) {
            let j = choose|j: int| holds_at(names, key, j);
            assert(holds_at(names2, key, j));
        }
    }
    assert forall|key: Seq<char>| #[trigger] after.dom().contains(key) implies after[key]
        == before.insert(name@, value)[key] by {
        let j = choose|j: int| holds_at(names2, key, j);
        if key != name@ {
            assert(holds_at(names, key, j));
            let k = choose|k: int| holds_at(names, key, k);
            assert(k == j);
        } else {
            assert(j == names.len());
        }
    }
    assert(after =~= before.insert(name@, value));
}

/// Names that differ bind as many variables as there are names.
proof fn lemma_bindings_len(names: Seq<String>, values: Seq<u64>)
    requires
        names.len() == values.len(),
        distinct(names),
    ensures
        bindings(names, values).dom().finite(),
        bindings(names, values).dom().len() == names.len(),
    decreases names.len(),
{
    if names.len() == 0 {
        assert(bindings(names, values).dom() =~= Set::<Seq<char>>::empty());
    } else {
        let n = names.drop_last();
        let v = values.drop_last();
        lemma_bindings_len(n, v);
        assert(n.push(names.last()) =~= names);
        assert(v.push(values.last()) =~= values);
        lemma_bindings_push(n, v, names.last(), values.last());
        assert(bindings(names, values).dom() =~= bindings(n, v).dom().insert(names.last()@));
        assert(!bindings(n, v).dom().contains(names.last()@)) by {
            if bindings(n, v).dom().contains(names.last()@) {
                let j = choose|j: int| holds_at(n, names.last()@, j);
                assert(names[j]@ == names[names.len() - 1]@);
            }
        }
    }
}

} // verus!
