//! Values of the game's tagged binary format, as a plain tree.

use crate::text::same_text;
use vstd::prelude::*;

verus! {

/// A value of the game's tagged binary format, as far as this library reads it. A compound
/// lists its fields in the order they came; a field is found by the first entry of its name.
#[derive(Debug, PartialEq, Eq)]
pub enum Nbt {
    Int(i32),
    Long(i64),
    Text(String),
    Bytes(Vec<i8>),
    List(Vec<Nbt>),
    Compound(Vec<(String, Nbt)>),
    /// Any other kind of value.
    Other,
}

/// The least index at or after `from` of an entry named `key`, or `entries.len()`.
pub open spec fn field_index(entries: Seq<(String, Nbt)>, key: Seq<char>, from: int) -> int
    decreases entries.len() - from,
{
    if from < 0 || from >= entries.len() {
        entries.len() as int
    } else if entries[from].0@ == key {
        from
    } else {
        field_index(entries, key, from + 1)
    }
}

/// `field_index` names the first entry of that name: none before it has it.
pub proof fn lemma_field_index(entries: Seq<(String, Nbt)>, key: Seq<char>, from: int)
    requires
        0 <= from <= entries.len(),
    ensures
        from <= field_index(entries, key, from) <= entries.len(),
        field_index(entries, key, from) < entries.len() ==> entries[field_index(
            entries,
            key,
            from,
        )].0@ == key,
        forall|i: int|
            from <= i < field_index(entries, key, from) ==> (#[trigger] entries[i]).0@ != key,
    decreases entries.len() - from,
{
    if from < entries.len() && entries[from].0@ != key {
        lemma_field_index(entries, key, from + 1);
    }
}

impl Nbt {
    /// The field `key` of a compound: the value of the first entry of that name. `None` for
    /// a compound without it, and for a value that is no compound.
    pub open spec fn field(&self, key: Seq<char>) -> Option<Nbt> {
        match self {
            Nbt::Compound(entries) => {
                let i = field_index(entries@, key, 0);
                if i < entries.len() {
                    Some(entries[i].1)
                } else {
                    None
                }
            },
            _ => None,
        }
    }

    /// The field `key` of a compound; see [`Nbt::field`].
    pub fn get(&self, key: &str) -> (r: Option<&Nbt>)
        ensures
            match r {
                Some(v) => self.field(key@) == Some(*v),
                None => self.field(key@) is None,
            },
    {
        match self {
            Nbt::Compound(entries) => {
                let mut i: usize = 0;
                while i < entries.len()
                    invariant
                        i <= entries.len(),
                        self matches Nbt::Compound(e) && e == entries,
                        field_index(entries@, key@, 0) == field_index(entries@, key@, i as int),
                    decreases entries.len() - i,
                {
                    if same_text(entries[i].0.as_str(), key) {
                        assert(field_index(entries@, key@, i as int) == i);
                        return Some(&entries[i].1);
                    }
                    i += 1;
                }
                None
            },
            _ => None,
        }
    }
}

} // verus!
