//! The pagination state machine behind the follower listing.
//!
//! The caller owns the transport: it asks `next_request` for the URL of
//! the page to fetch, performs the request, parses the body into a
//! `Collection<Follower>` and hands it to `absorb`. A transport or parse
//! failure simply ends the loop; whatever was absorbed so far is the
//! best-effort result, never an error.

use vstd::prelude::*;
use vstd::string::StringExecFns;
use crate::endpoint::App;
use crate::endpoint::endpoint_view;
use crate::endpoint::pair_views;
use crate::pagination::Collection;
use crate::pagination::no_more_marker;
use crate::pagination::sentinel_cursor;
use crate::records::Follower;

verus! {

/// Page size requested on every followers call.
pub const FOLLOWERS_PAGE_LIMIT: &'static str = "200";

/// Resource path of the followers listing of one account.
pub open spec fn followers_resources(uid: Seq<char>) -> Seq<(Seq<char>, Seq<char>)> {
    seq![("users"@, uid), ("followers"@, Seq::empty())]
}

/// URL of the first followers page: no offset parameter yet.
pub open spec fn first_request_view(token: Seq<char>, uid: Seq<char>) -> Seq<char> {
    endpoint_view(token, followers_resources(uid), seq![("limit"@, FOLLOWERS_PAGE_LIMIT@)])
}

/// URL of a later followers page, at the given offset.
pub open spec fn offset_request_view(
    token: Seq<char>,
    uid: Seq<char>,
    off: Seq<char>,
) -> Seq<char> {
    endpoint_view(
        token,
        followers_resources(uid),
        seq![("limit"@, FOLLOWERS_PAGE_LIMIT@), ("offset"@, off)],
    )
}

/// The fetch loop's state: everything accumulated so far, the page whose
/// cursor decides whether and where to continue, and the offset of the
/// last request that was issued. The latter guards against a server that
/// keeps returning the same cursor: a repeated offset ends the loop
/// instead of spinning on it.
pub struct Fetcher {
    pub collected: Vec<Follower>,
    pub page: Collection<Follower>,
    pub last_offset: Option<String>,
}

/// The cursor has stopped advancing: it yields the very offset that the
/// previous request was issued at.
pub open spec fn fetch_stalled(f: Fetcher) -> bool {
    match f.last_offset {
        Some(prev) => prev@ == f.page.spec_next_offset(),
        None => false,
    }
}

/// A further request is owed: the cursor reports more data, and it is
/// either the first-request sentinel or carries a usable, advancing
/// offset.
pub open spec fn fetch_pending(f: Fetcher) -> bool {
    f.page.spec_has_more() && (f.page.spec_is_first()
        || (f.page.spec_next_offset() != no_more_marker() && !fetch_stalled(f)))
}

impl Fetcher {
    /// A fetch that has not issued any request yet: nothing collected,
    /// and the sentinel cursor in place.
    pub fn start() -> (r: Fetcher)
        ensures
            r.collected@ == Seq::<Follower>::empty(),
            r.page.collection@ == Seq::<Follower>::empty(),
            r.page.next_href matches Some(v) && v@ == sentinel_cursor(),
            r.last_offset is None,
            fetch_pending(r),
    {
        let page: Collection<Follower> = Collection {
            collection: Vec::new(),
            next_href: Some(String::from_str("st")),
        };
        proof {
            reveal_strlit("st");
        }
        Fetcher { collected: Vec::new(), page, last_offset: None }
    }

    /// URL of the next page to fetch, or nothing when pagination is over:
    /// the cursor is exhausted, it yields no further offset, or it has
    /// stopped advancing. An issued offset is remembered so that a
    /// repeated one ends the loop.
    pub fn next_request(&mut self, app: &App, user_id: &str) -> (r: Option<String>)
        ensures
            final(self).collected == old(self).collected,
            final(self).page == old(self).page,
            match r {
                None => !fetch_pending(*old(self))
                    && final(self).last_offset == old(self).last_offset,
                Some(u) => fetch_pending(*old(self))
                    && u@ == (if old(self).page.spec_is_first() {
                        first_request_view(app.cfg.client_token@, user_id@)
                    } else {
                        offset_request_view(
                            app.cfg.client_token@,
                            user_id@,
                            old(self).page.spec_next_offset(),
                        )
                    })
                    && (if old(self).page.spec_is_first() {
                        final(self).last_offset == old(self).last_offset
                    } else {
                        final(self).last_offset matches Some(v)
                            && v@ == old(self).page.spec_next_offset()
                    }),
            },
    {
        if !self.page.have_next_href() {
            return None;
        }
        let mut resources: Vec<(&str, String)> = Vec::new();
        resources.push(("users", String::from_str(user_id)));
        resources.push(("followers", String::new()));
        proof {
            assert(pair_views(resources@) =~= followers_resources(user_id@));
        }
        if self.page.is_first() {
            let mut args: Vec<(&str, String)> = Vec::new();
            args.push(("limit", String::from_str(FOLLOWERS_PAGE_LIMIT)));
            proof {
                assert(pair_views(args@) =~= seq![("limit"@, FOLLOWERS_PAGE_LIMIT@)]);
            }
            Some(app.build_endpoint(resources, args))
        } else {
            let off: String = self.page.get_next_href_offset();
            let marker: String = String::from_str("no more");
            if off == marker {
                return None;
            }
            match &self.last_offset {
                Some(prev) => {
                    if *prev == off {
                        return None;
                    }
                },
                None => {},
            }
            self.last_offset = Some(off.clone());
            let mut args: Vec<(&str, String)> = Vec::new();
            args.push(("limit", String::from_str(FOLLOWERS_PAGE_LIMIT)));
            args.push(("offset", off));
            proof {
                assert(pair_views(args@) =~= seq![
                    ("limit"@, FOLLOWERS_PAGE_LIMIT@),
                    ("offset"@, self.page.spec_next_offset()),
                ]);
            }
            Some(app.build_endpoint(resources, args))
        }
    }

    /// Take one fetched page in: its items join the accumulator in order,
    /// and its cursor becomes the current one. The record of the last
    /// issued offset stays, so a cursor that repeats it is caught.
    pub fn absorb(&mut self, page: Collection<Follower>)
        ensures
            final(self).collected@ == old(self).collected@ + page.collection@,
            final(self).page.next_href == page.next_href,
            final(self).last_offset == old(self).last_offset,
    {
        let mut page = page;
        self.collected.append(&mut page.collection);
        self.page = page;
    }

    /// Everything collected, in the order the pages delivered it.
    pub fn finish(self) -> (r: Vec<Follower>)
        ensures
            r@ == self.collected@,
    {
        self.collected
    }
}

} // verus!
