//! Track references.
//!
//! Clients and the Store name tracks by a reference string: either a
//! bare id made of ASCII alphanumerics, or a URI of the form
//! `spotify:track:{id}` or `spotify/track/{id}`. Parsing is delegated to
//! the Player's own id type, so the library accepts exactly what the
//! Player accepts; [`spec_track_id`] states that grammar, and the
//! library's verified code works with the extracted bare id.

use vstd::prelude::*;

verus! {

/// An ASCII alphanumeric character.
pub open spec fn is_ascii_alnum(c: char) -> bool {
    ('0' <= c && c <= '9') || ('a' <= c && c <= 'z') || ('A' <= c && c <= 'Z')
}

/// A string of ASCII alphanumerics (possibly empty).
pub open spec fn all_alnum(s: Seq<char>) -> bool {
    forall|i: int| 0 <= i < s.len() ==> is_ascii_alnum(#[trigger] s[i])
}

/// Whether `s` opens like a URI: the word `spotify` followed by `:` or
/// `/`.
pub open spec fn uri_shaped(s: Seq<char>) -> bool {
    s.len() >= 8 && s.take(7) == seq!['s', 'p', 'o', 't', 'i', 'f', 'y'] && (s[7] == ':' || s[7]
        == '/')
}

/// The last index at which `c` occurs in `s`, or `-1` if it does not.
pub open spec fn last_index_of(s: Seq<char>, c: char) -> int
    decreases s.len(),
{
    if s.len() == 0 {
        -1
    } else if s.last() == c {
        s.len() - 1
    } else {
        last_index_of(s.drop_last(), c)
    }
}

/// The track id named by a reference string, if the string is a valid
/// track reference: for a URI-shaped string, the part after the last
/// separator, provided the part before it is the word `track` and the id
/// is ASCII alphanumeric; for any other string, the string itself,
/// provided it is ASCII alphanumeric.
pub open spec fn spec_track_id(s: Seq<char>) -> Option<Seq<char>> {
    if uri_shaped(s) {
        let sep = s[7];
        let rest = s.skip(8);
        let m = last_index_of(rest, sep);
        if m < 0 {
            Option::None
        } else {
            let tpe = rest.take(m);
            let id = rest.skip(m + 1);
            if tpe == seq!['t', 'r', 'a', 'c', 'k'] && all_alnum(id) {
                Option::Some(id)
            } else {
                Option::None
            }
        }
    } else {
        if all_alnum(s) {
            Option::Some(s)
        } else {
            Option::None
        }
    }
}

/// Relies on rspotify's `TrackId::from_id_or_uri` (crate
/// `rspotify-model`, `idtypes.rs`): it strips a `spotify:`/`spotify/`
/// prefix, splits the remainder at the last separator into a type word
/// and an id, accepts only the type word `track` and an ASCII
/// alphanumeric id, and accepts a string without that prefix as a bare
/// id under the same character rule; `Id::id` then hands the id part
/// back.
#[verifier::external_body]
pub(crate) fn parse_track_ref(s: &str) -> (r: Option<String>)
    ensures
        r is Some <==> spec_track_id(s@) is Some,
        r matches Some(id) ==> Option::Some(id@) == spec_track_id(s@),
{
    match rspotify::model::TrackId::from_id_or_uri(s) {
        Ok(t) => Some(rspotify::model::Id::id(&t).to_string()),
        Err(_) => None,
    }
}

} // verus!
