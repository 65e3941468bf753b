//! The records the API returns: the target account, one follower, and
//! one entry of a search listing; and the rules that read them.

use vstd::prelude::*;
use vstd::string::StringExecFns;
use crate::strutil::contains_seq;
use crate::strutil::str_contains;

verus! {

/// The account whose followers are enumerated.
pub struct User {
    pub id: i32,
    pub username: String,
    pub followers_count: i32,
}

/// One follower: the avatar to download and a name for reporting.
#[derive(Clone)]
pub struct Follower {
    pub avatar_url: String,
    pub username: String,
}

/// One entry of a search listing, used to look an account up by name.
pub struct SearchResult {
    pub id: i32,
    pub kind: String,
    pub permalink: String,
}

/// Substring of an avatar URL that marks the default placeholder image.
pub open spec fn default_avatar_marker() -> Seq<char> {
    "default_avatar"@
}

/// The follower has the placeholder avatar and is skipped without any
/// download.
pub open spec fn spec_has_default_avatar(f: Follower) -> bool {
    contains_seq(f.avatar_url@, default_avatar_marker())
}

impl Follower {
    /// Whether the avatar URL carries the default-avatar marker,
    /// whatever the other fields hold.
    pub fn have_default_avatar(&self) -> (r: bool)
        ensures
            r == spec_has_default_avatar(*self),
    {
        str_contains(self.avatar_url.as_str(), "default_avatar")
    }
}

/// A search entry stands for the queried account: it is of user kind and
/// its permalink equals the queried name.
pub open spec fn search_matches(s: SearchResult, name: Seq<char>) -> bool {
    s.kind@ == "user"@ && s.permalink@ == name
}

impl SearchResult {
    /// Whether this search entry describes a user (and not, say, a track).
    pub fn is_an_user(&self) -> (r: bool)
        ensures
            r == (self.kind@ == "user"@),
    {
        let user_kind: String = String::from_str("user");
        self.kind == user_kind
    }
}

/// Identifier of the first search entry that stands for the account named
/// `name`, or nothing when no entry does.
pub fn pick_user_result(results: &Vec<SearchResult>, name: &str) -> (r: Option<i32>)
    ensures
        match r {
            None => forall|i: int|
                0 <= i < results@.len() ==> !search_matches(results@[i], name@),
            Some(id) => exists|i: int|
                0 <= i < results@.len() && #[trigger] search_matches(results@[i], name@)
                    && results@[i].id == id
                    && (forall|j: int| 0 <= j < i ==> !search_matches(results@[j], name@)),
        },
{
    let wanted: String = String::from_str(name);
    let mut i: usize = 0;
    while i < results.len()
        invariant
            wanted@ == name@,
            forall|j: int| 0 <= j < i ==> !search_matches(results@[j], name@),
            i <= results@.len(),
        decreases results@.len() - i,
    {
        let entry = &results[i];
        if entry.is_an_user() && entry.permalink == wanted {
            proof {
                assert(search_matches(results@[i as int], name@));
            }
            return Some(entry.id);
        }
        i = i + 1;
    }
    None
}

} // verus!
