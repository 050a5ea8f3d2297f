//! The credential file: one line that names the upstream key and gives it a
//! value.

use crate::error::StartupError;
use vstd::prelude::*;
use vstd::string::{StrSliceExecFns, StringExecFns};

verus! {

/// The name under which the credential file holds the upstream key.
pub const KEY_NAME: &'static str = "STEAM_API_KEY";

/// What a credential file holds when it is first created: the name of the
/// key, and no value yet.
pub const EMPTY_FILE: &'static str = "STEAM_API_KEY=";

/// The length of the first piece of a text that is cut after every `=`: up
/// to and including the first `=`, or the whole text where it has none.
pub open spec fn piece_len(text: Seq<char>) -> nat
    decreases text.len(),
{
    if text.len() == 0 {
        0
    } else if text[0] == '=' {
        1
    } else {
        1 + piece_len(text.skip(1))
    }
}

/// The second piece of a text that is cut after every `=`; empty where the
/// text has only one piece.
pub open spec fn second_piece(text: Seq<char>) -> Seq<char> {
    let rest = text.skip(piece_len(text) as int);
    rest.take(piece_len(rest) as int)
}

/// The key that a credential file gives, or the reason why it gives none.
/// The file has to begin with the name of the key. The key is then the
/// second piece of the contents cut after every `=`, taken as it stands: it
/// keeps a line end that follows it, and a second `=` with which it ends.
pub open spec fn api_key_in(contents: Seq<char>) -> Result<Seq<char>, StartupError> {
    if !KEY_NAME@.is_prefix_of(contents) {
        Err(StartupError::InvalidFile)
    } else if second_piece(contents).len() == 0 {
        Err(StartupError::MissingKey)
    } else {
        Ok(second_piece(contents))
    }
}

/// Whether `text` begins with `prefix`.
fn starts_with(text: &str, prefix: &str) -> (r: bool)
    ensures
        r == prefix@.is_prefix_of(text@),
{
    let n = prefix.unicode_len();
    if text.unicode_len() < n {
        return false;
    }
    let mut i: usize = 0;
    while i < n
        invariant
            i <= n,
            n == prefix@.len(),
            n <= text@.len(),
            forall|j: int| 0 <= j < i ==> text@[j] == prefix@[j],
        decreases n - i,
    {
        if text.get_char(i) != prefix.get_char(i) {
            assert(text@.subrange(0, n as int)[i as int] != prefix@[i as int]);
            return false;
        }
        i += 1;
    }
    assert(prefix@ =~= text@.subrange(0, n as int));
    true
}

/// Where the piece that begins at `from` ends.
fn piece_end(text: &str, from: usize) -> (end: usize)
    requires
        from <= text@.len(),
    ensures
        end == from + piece_len(text@.skip(from as int)),
        end <= text@.len(),
{
    let n = text.unicode_len();
    let mut i: usize = from;
    while i < n
        invariant
            from <= i <= n,
            n == text@.len(),
            piece_len(text@.skip(from as int)) == (i - from) + piece_len(text@.skip(i as int)),
        decreases n - i,
    {
        let ghost rest = text@.skip(i as int);
        assert(rest[0] == text@[i as int]);
        if text.get_char(i) == '=' {
            return i + 1;
        }
        assert(rest.skip(1) =~= text@.skip(i + 1));
        i += 1;
    }
    i
}

/// Takes the upstream key out of the contents of a credential file.
pub fn extract_api_key(contents: &str) -> (r: Result<String, StartupError>)
    ensures
        match r {
            Ok(key) => api_key_in(contents@) == Ok::<Seq<char>, StartupError>(key@),
            Err(e) => api_key_in(contents@) == Err::<Seq<char>, StartupError>(e),
        },
{
    if !starts_with(contents, KEY_NAME) {
        return Err(StartupError::InvalidFile);
    }
    let first = piece_end(contents, 0);
    assert(contents@.skip(0) =~= contents@);
    let second = piece_end(contents, first);
    if second == first {
        return Err(StartupError::MissingKey);
    }
    let key = contents.substring_char(first, second);
    proof {
        let rest = contents@.skip(first as int);
        assert(rest.take(piece_len(rest) as int) =~= contents@.subrange(
            first as int,
            second as int,
        ));
    }
    Ok(String::from_str(key))
}

} // verus!
