//! The bot's configuration.

use crate::number::{hex_number, parse_hex};
use crate::text::{same_text, to_chars};
use vstd::prelude::*;

verus! {

/// A world of the server: its name, and where it lies on disk.
#[derive(Debug, Clone, PartialEq, Eq)]
pub struct World {
    pub name: String,
    pub path: String,
}

/// How the bot's messages are dressed.
#[derive(Debug, Clone, PartialEq, Eq)]
pub struct EmbedOpts {
    /// The colour of the bar at the side, as `#` and six hexadecimal digits.
    pub colour: String,
    pub footer_text: String,
    pub footer_icon_url: String,
}

/// The bot's configuration.
#[derive(Debug, Clone, PartialEq, Eq)]
pub struct ConfigValue {
    pub name: String,
    pub prefix: Vec<String>,
    pub staff: Vec<u64>,
    pub admin_role: u64,
    pub member_role: u64,
    pub grinder_role: u64,
    pub worlds: Vec<World>,
    pub chat_bridge: u64,
    pub info_channel: u64,
    pub embed_opts: EmbedOpts,
}

/// The index of the first world at or after `from` that is named `name`, or `worlds.len()`.
pub open spec fn world_index(worlds: Seq<World>, name: Seq<char>, from: int) -> int
    decreases worlds.len() - from,
{
    if from < 0 || from >= worlds.len() {
        worlds.len() as int
    } else if worlds[from].name@ == name {
        from
    } else {
        world_index(worlds, name, from + 1)
    }
}

/// `world_index` names the first world of that name: none before it has it.
pub proof fn lemma_world_index(worlds: Seq<World>, name: Seq<char>, from: int)
    requires
        0 <= from <= worlds.len(),
    ensures
        from <= world_index(worlds, name, from) <= worlds.len(),
        world_index(worlds, name, from) < worlds.len() ==> worlds[world_index(
            worlds,
            name,
            from,
        )].name@ == name,
        forall|i: int|
            from <= i < world_index(worlds, name, from) ==> (#[trigger] worlds[i]).name@ != name,
    decreases worlds.len() - from,
{
    if from < worlds.len() && worlds[from].name@ != name {
        lemma_world_index(worlds, name, from + 1);
    }
}

impl ConfigValue {
    /// The path of the first world named `world_name`.
    pub fn get_world_path(&self, world_name: &str) -> (r: Option<String>)
        ensures
            match r {
                Some(path) => world_index(self.worlds@, world_name@, 0) < self.worlds.len()
                    && path@ == self.worlds[world_index(self.worlds@, world_name@, 0)].path@,
                None => world_index(self.worlds@, world_name@, 0) == self.worlds.len(),
            },
    {
        let mut i: usize = 0;
        while i < self.worlds.len()
            invariant
                i <= self.worlds.len(),
                world_index(self.worlds@, world_name@, 0) == world_index(
                    self.worlds@,
                    world_name@,
                    i as int,
                ),
            decreases self.worlds.len() - i,
        {
            if same_text(self.worlds[i].name.as_str(), world_name) {
                return Some(self.worlds[i].path.clone());
            }
            i += 1;
        }
        None
    }

    /// Whether `user` is one of the staff.
    pub fn is_staff(&self, user: u64) -> (r: bool)
        ensures
            r == self.staff@.contains(user),
    {
        let mut i: usize = 0;
        while i < self.staff.len()
            invariant
                i <= self.staff.len(),
                forall|k: int| 0 <= k < i ==> self.staff@[k] != user,
            decreases self.staff.len() - i,
        {
            if self.staff[i] == user {
                return true;
            }
            i += 1;
        }
        false
    }
}

/// The colour that `colour` names: the hexadecimal number behind its first character.
pub open spec fn colour_number(colour: Seq<char>) -> Option<u32> {
    if colour.len() == 0 {
        None
    } else {
        hex_number(colour.subrange(1, colour.len() as int))
    }
}

impl EmbedOpts {
    /// The colour of the bar at the side; see [`colour_number`].
    pub fn colour_value(&self) -> (r: Option<u32>)
        ensures
            r == colour_number(self.colour@),
    {
        let v = to_chars(self.colour.as_str());
        if v.len() == 0 {
            return None;
        }
        let rest = crate::text::to_text(&v, 1, v.len());
        parse_hex(rest.as_str())
    }
}

} // verus!
