//! Blocks in the chunks of a world, and the requests of the script that fills the info board.

use crate::nbt::Nbt;
use crate::number::{int_number, parse_int};
use crate::text::{
    find, find_char, push_decimal, same_text, split_words, texts, to_chars, to_text, trim,
    trim_bounds, words,
};
use vstd::prelude::*;

verus! {

/// The width of a chunk and the height of a section, in blocks.
pub const SECTION_SIZE: i64 = 16;

/// The section of a chunk that holds the height `y`: sections are counted from the bottom,
/// sixteen blocks each. Heights just below zero count to the lowest section; heights further
/// down are in none.
pub open spec fn section_index(y: int) -> Option<int> {
    if y >= 0 {
        Some(y / 16)
    } else if y > -16 {
        Some(0)
    } else {
        None
    }
}

/// The place of a block in its section's arrays: layer by layer, row by row.
pub open spec fn block_offset(x: int, y: int, z: int) -> int {
    ((y % 16) * 16 + (z % 16)) * 16 + (x % 16)
}

/// The byte that a signed byte stands for.
pub open spec fn byte_of(b: i8) -> u8 {
    if b >= 0 {
        b as u8
    } else {
        (b + 256) as u8
    }
}

/// The block's four bits of data: two blocks share a byte, the even one has the low half.
pub open spec fn nibble(b: i8, offset: int) -> u8 {
    if offset % 2 == 0 {
        byte_of(b) % 16
    } else {
        byte_of(b) / 16
    }
}

/// The arrays `Blocks` and `Data` of the section that holds the height `y`.
pub open spec fn section_arrays(chunk: Nbt, y: int) -> Option<(Seq<i8>, Seq<i8>)> {
    match chunk.field("Level"@) {
        Some(Nbt::Compound(level)) => match Nbt::Compound(level).field("Sections"@) {
            Some(Nbt::List(sections)) => match section_index(y) {
                Some(i) => if i < sections.len() {
                    match sections[i] {
                        Nbt::Compound(section) => match (
                            Nbt::Compound(section).field("Blocks"@),
                            Nbt::Compound(section).field("Data"@),
                        ) {
                            (Some(Nbt::Bytes(blocks)), Some(Nbt::Bytes(data))) => Some(
                                (blocks@, data@),
                            ),
                            _ => None,
                        },
                        _ => None,
                    }
                } else {
                    None
                },
                None => None,
            },
            _ => None,
        },
        _ => None,
    }
}

/// The block at `x`, `y`, `z` in the chunk `chunk` that holds it: its kind and its data.
/// `None` where the chunk has no such section, or the section's arrays are not there or too
/// short.
pub open spec fn block_at(x: int, y: int, z: int, chunk: Nbt) -> Option<(u8, u8)> {
    match section_arrays(chunk, y) {
        Some((blocks, data)) => {
            let o = block_offset(x, y, z);
            if o < blocks.len() && o / 2 < data.len() {
                Some((byte_of(blocks[o]), nibble(data[o / 2], o)))
            } else {
                None
            }
        },
        None => None,
    }
}

/// The remainder of `v` by sixteen, never negative.
fn wrap16(v: i64) -> (r: usize)
    ensures
        r == v % 16,
        r < 16,
{
    if v >= 0 {
        (v % 16) as usize
    } else {
        let m = (-(v + 1)) % 16;
        (15 - m) as usize
    }
}

/// The byte that a signed byte stands for.
fn to_byte(b: i8) -> (r: u8)
    ensures
        r == byte_of(b),
{
    if b >= 0 {
        b as u8
    } else {
        (b as i16 + 256) as u8
    }
}

/// The arrays of the section that holds the height `y`; see [`section_arrays`].
fn find_section(chunk: &Nbt, y: i64) -> (r: Option<(&Vec<i8>, &Vec<i8>)>)
    ensures
        match r {
            Some((blocks, data)) => section_arrays(*chunk, y as int) == Some((blocks@, data@)),
            None => section_arrays(*chunk, y as int) is None,
        },
{
    let level = match chunk.get("Level") {
        Some(Nbt::Compound(_)) => chunk.get("Level").unwrap(),
        _ => {
            return None;
        },
    };
    let sections = match level.get("Sections") {
        Some(Nbt::List(sections)) => sections,
        _ => {
            return None;
        },
    };
    if y <= -16 {
        return None;
    }
    let index: u64 = if y >= 0 {
        (y / 16) as u64
    } else {
        0
    };
    if index >= sections.len() as u64 {
        return None;
    }
    let section = &sections[index as usize];
    match section {
        Nbt::Compound(_) => {},
        _ => {
            return None;
        },
    }
    let blocks = match section.get("Blocks") {
        Some(Nbt::Bytes(blocks)) => blocks,
        _ => {
            return None;
        },
    };
    match section.get("Data") {
        Some(Nbt::Bytes(data)) => Some((blocks, data)),
        _ => None,
    }
}

/// Looks a block up in the chunk that holds it; see [`block_at`].
pub fn get_block(x: i64, y: i64, z: i64, chunk: &Nbt) -> (r: Option<(u8, u8)>)
    ensures
        r == block_at(x as int, y as int, z as int, *chunk),
{
    let (blocks, data) = match find_section(chunk, y) {
        Some(pair) => pair,
        None => {
            return None;
        },
    };
    let offset = (wrap16(y) * 16 + wrap16(z)) * 16 + wrap16(x);
    if offset >= blocks.len() || offset / 2 >= data.len() {
        return None;
    }
    let packed = to_byte(data[offset / 2]);
    let value = if offset % 2 == 0 {
        packed % 16
    } else {
        packed / 16
    };
    Some((to_byte(blocks[offset]), value))
}

/// The chunk that holds the coordinate `v`, as the region files count chunks: the quotient
/// by sixteen, rounded down, where 32 bits hold it.
pub fn chunk_coord(v: i64) -> (r: Option<i32>)
    ensures
        r == if i32::MIN <= v / 16 <= i32::MAX {
            Some((v / 16) as i32)
        } else {
            None
        },
{
    let q: i64 = if v >= 0 {
        v / 16
    } else {
        -((-(v + 1)) / 16) - 1
    };
    if q < i32::MIN as i64 || q > i32::MAX as i64 {
        None
    } else {
        Some(q as i32)
    }
}

/// The answer to a request for a block: its kind and its data, in decimal, on one line.
pub fn block_reply(kind: u8, data: u8) -> (r: String)
    ensures
        r@ == crate::text::decimal(kind as nat) + seq![' '] + crate::text::decimal(data as nat)
            + seq!['\n'],
{
    let mut out = String::new();
    push_decimal(&mut out, kind as u64);
    out.push(' ');
    push_decimal(&mut out, data as u64);
    out.push('\n');
    out
}

/// One of the three dimensions of a world.
#[derive(Debug, Clone, Copy, PartialEq, Eq, Structural)]
pub enum Dimension {
    Overworld,
    Nether,
    End,
}

/// What the info board's script asks of the bot, one line at a time.
#[derive(Debug, Clone, PartialEq, Eq)]
pub enum Request {
    /// The block at these coordinates.
    Get { dimension: Dimension, x: i64, y: i64, z: i64 },
    /// A line for the info board.
    Print(String),
    /// A command that the bot does not know.
    Unknown(String),
    /// Nothing to do: the line is blank, or a known command is not well formed.
    Nothing,
}

/// What a [`Request`] holds.
pub enum RequestText {
    Get { dimension: Dimension, x: i64, y: i64, z: i64 },
    Print(Seq<char>),
    Unknown(Seq<char>),
    Nothing,
}

impl View for Request {
    type V = RequestText;

    open spec fn view(&self) -> RequestText {
        match self {
            Request::Get { dimension, x, y, z } => RequestText::Get {
                dimension: *dimension,
                x: *x,
                y: *y,
                z: *z,
            },
            Request::Print(line) => RequestText::Print(line@),
            Request::Unknown(word) => RequestText::Unknown(word@),
            Request::Nothing => RequestText::Nothing,
        }
    }
}

/// The dimension that `name` names.
pub open spec fn dimension_named(name: Seq<char>) -> Option<Dimension> {
    if name == "overworld"@ {
        Some(Dimension::Overworld)
    } else if name == "nether"@ {
        Some(Dimension::Nether)
    } else if name == "end"@ {
        Some(Dimension::End)
    } else {
        None
    }
}

/// What a line of the script asks for. `GET dimension x y z` asks for a block, where the
/// line has just these five words, the coordinates are whole numbers and the dimension is
/// known. `PRINT` with more words behind it gives the info board what follows the first
/// space of the line, white space around the line aside. Any other first word is unknown.
pub open spec fn request_of(line: Seq<char>) -> RequestText {
    let w = words(line);
    if w.len() == 0 {
        RequestText::Nothing
    } else if w[0] == "GET"@ {
        if w.len() != 5 {
            RequestText::Nothing
        } else {
            match (int_number(w[2]), int_number(w[3]), int_number(w[4]), dimension_named(w[1])) {
                (Some(x), Some(y), Some(z), Some(dimension)) => RequestText::Get {
                    dimension,
                    x,
                    y,
                    z,
                },
                _ => RequestText::Nothing,
            }
        }
    } else if w[0] == "PRINT"@ {
        if w.len() == 1 {
            RequestText::Nothing
        } else {
            let input = trim(line);
            let space = find(input, ' ', 0);
            RequestText::Print(
                if space < input.len() {
                    input.subrange(space + 1, input.len() as int)
                } else {
                    input
                },
            )
        }
    } else {
        RequestText::Unknown(w[0])
    }
}

/// Reads the name of a dimension; see [`dimension_named`].
pub fn read_dimension(name: &str) -> (r: Option<Dimension>)
    ensures
        r == dimension_named(name@),
{
    if same_text(name, "overworld") {
        Some(Dimension::Overworld)
    } else if same_text(name, "nether") {
        Some(Dimension::Nether)
    } else if same_text(name, "end") {
        Some(Dimension::End)
    } else {
        None
    }
}

/// Reads a line of the script; see [`request_of`].
pub fn parse_request(line: &str) -> (r: Request)
    ensures
        r@ == request_of(line@),
{
    let w = split_words(line);
    if w.len() == 0 {
        return Request::Nothing;
    }
    assert(texts(w@)[0] == w@[0]@);
    if same_text(w[0].as_str(), "GET") {
        if w.len() != 5 {
            return Request::Nothing;
        }
        assert(texts(w@)[1] == w@[1]@);
        assert(texts(w@)[2] == w@[2]@);
        assert(texts(w@)[3] == w@[3]@);
        assert(texts(w@)[4] == w@[4]@);
        let x = parse_int(w[2].as_str());
        let y = parse_int(w[3].as_str());
        let z = parse_int(w[4].as_str());
        let dimension = read_dimension(w[1].as_str());
        match (x, y, z, dimension) {
            (Some(x), Some(y), Some(z), Some(dimension)) => Request::Get { dimension, x, y, z },
            _ => Request::Nothing,
        }
    } else if same_text(w[0].as_str(), "PRINT") {
        if w.len() == 1 {
            return Request::Nothing;
        }
        let v = to_chars(line);
        let (a, b) = trim_bounds(&v);
        let input = to_chars(to_text(&v, a, b).as_str());
        let space = find_char(&input, ' ', 0);
        if space < input.len() {
            Request::Print(to_text(&input, space + 1, input.len()))
        } else {
            assert(input@.subrange(0, input.len() as int) =~= input@);
            Request::Print(to_text(&input, 0, input.len()))
        }
    } else {
        Request::Unknown(w[0].clone())
    }
}

} // verus!
