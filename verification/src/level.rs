//! Packed files of the game, and what a level file says.

use crate::nbt::Nbt;
use vstd::prelude::*;
use vstd::string::StringExecFns;

verus! {

/// What a gzip stream unpacks to: the bytes, or the text of the error.
pub uninterp spec fn gunzipped(bytes: Seq<u8>) -> Result<Seq<u8>, Seq<char>>;

/// `flate2::bufread::GzDecoder` read to its end: the first member of the gzip stream
/// `bytes`, unpacked, or the text of the error that the decoder reports. It reads nothing
/// but `bytes`.
#[verifier::external_body]
fn gz_decode(bytes: &[u8]) -> (r: Result<Vec<u8>, String>)
    ensures
        match r {
            Ok(out) => gunzipped(bytes@) == Ok::<Seq<u8>, Seq<char>>(out@),
            Err(e) => gunzipped(bytes@) == Err::<Seq<u8>, Seq<char>>(e@),
        },
{
    let mut out = Vec::new();
    let mut decoder = flate2::bufread::GzDecoder::new(bytes);
    match std::io::Read::read_to_end(&mut decoder, &mut out) {
        Ok(_) => Ok(out),
        Err(e) => Err(e.to_string()),
    }
}

/// What a packed file of the game unpacks to, or the message that says why it does not:
/// `complaint`, and the decoder's words behind it.
pub open spec fn unpacked(bytes: Seq<u8>, complaint: Seq<char>) -> Result<Seq<u8>, Seq<char>> {
    match gunzipped(bytes) {
        Ok(out) => Ok(out),
        Err(e) => Err(complaint + e),
    }
}

/// What to say of a scoreboard file that does not unpack.
pub open spec fn score_file_complaint() -> Seq<char> {
    "Failed to read score file: "@
}

/// Unpacks a packed file of the game; see [`unpacked`].
pub fn unpack(bytes: &[u8], complaint: &str) -> (r: Result<Vec<u8>, String>)
    ensures
        match r {
            Ok(out) => unpacked(bytes@, complaint@) == Ok::<Seq<u8>, Seq<char>>(out@),
            Err(e) => unpacked(bytes@, complaint@) == Err::<Seq<u8>, Seq<char>>(e@),
        },
{
    match gz_decode(bytes) {
        Ok(out) => Ok(out),
        Err(e) => {
            let mut message = String::from_str(complaint);
            message.append(e.as_str());
            Err(message)
        },
    }
}

/// Unpacks a scoreboard file.
pub fn unpack_score_file(bytes: &[u8]) -> (r: Result<Vec<u8>, String>)
    ensures
        match r {
            Ok(out) => unpacked(bytes@, score_file_complaint()) == Ok::<Seq<u8>, Seq<char>>(
                out@,
            ),
            Err(e) => unpacked(bytes@, score_file_complaint()) == Err::<Seq<u8>, Seq<char>>(e@),
        },
{
    unpack(bytes, "Failed to read score file: ")
}

/// When the world described by the level file `root` was last played, in milliseconds since
/// 1970: the whole number `LastPlayed` in the compound `Data`.
pub open spec fn last_played_of(root: Nbt) -> Option<i64> {
    match root.field("Data"@) {
        Some(Nbt::Compound(data)) => match Nbt::Compound(data).field("LastPlayed"@) {
            Some(Nbt::Long(t)) => Some(t),
            _ => None,
        },
        _ => None,
    }
}

/// When the world was last played; see [`last_played_of`].
pub fn last_played(root: &Nbt) -> (r: Option<i64>)
    ensures
        r == last_played_of(*root),
{
    match root.get("Data") {
        Some(Nbt::Compound(_)) => match root.get("Data").unwrap().get("LastPlayed") {
            Some(Nbt::Long(t)) => Some(*t),
            _ => None,
        },
        _ => None,
    }
}

} // verus!
