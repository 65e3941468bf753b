//! A page of items with its continuation cursor, and the parsing of the
//! `offset` query parameter out of a cursor URL.
//!
//! The cursor is modelled as a sequence of characters. Its offset is the
//! value bound to the first query parameter whose key is `offset`,
//! looking only at the part after the first `?`. A cursor without such a
//! parameter yields the distinguished "no more" marker, which callers
//! treat as the end of pagination.

use vstd::prelude::*;
use vstd::string::StrSliceExecFns;
use vstd::string::StringExecFns;
use crate::strutil::first_index_of;
use crate::strutil::starts_with;
use crate::strutil::lemma_first_index_of;
use crate::strutil::lemma_first_index_of_is;
use crate::strutil::find_char;
use crate::strutil::str_starts_with;

verus! {

/// One page of a paginated listing: the items of the page and the
/// continuation cursor of the next one, when there is a next one.
pub struct Collection<T> {
    pub collection: Vec<T>,
    pub next_href: Option<String>,
}

/// Key of the query parameter that carries the next page offset,
/// equals sign included.
pub open spec fn offset_key() -> Seq<char> {
    "offset="@
}

/// The in-band marker returned when a cursor yields no offset.
pub open spec fn no_more_marker() -> Seq<char> {
    "no more"@
}

/// The sentinel cursor of a collection on which no request was issued yet.
pub open spec fn sentinel_cursor() -> Seq<char> {
    "st"@
}

/// Value of the first `offset` parameter of a query string (the part of a
/// URL after its first `?`), or nothing when no parameter has that key.
pub open spec fn offset_in_query(q: Seq<char>) -> Option<Seq<char>>
    decreases q.len(),
{
    let e = first_index_of(q, '&');
    if e < 0 {
        if starts_with(q, offset_key()) {
            Some(q.skip(offset_key().len() as int))
        } else {
            None
        }
    } else {
        let p = q.subrange(0, e);
        if starts_with(p, offset_key()) {
            Some(p.skip(offset_key().len() as int))
        } else if e < q.len() {
            offset_in_query(q.skip(e + 1))
        } else {
            None
        }
    }
}

/// Offset carried by a cursor URL: the value of its `offset` query
/// parameter, or nothing when the cursor has no query part or no such
/// parameter.
pub open spec fn cursor_offset(s: Seq<char>) -> Option<Seq<char>> {
    let qi = first_index_of(s, '?');
    if qi < 0 {
        None
    } else {
        offset_in_query(s.skip(qi + 1))
    }
}

/// Exact value of `offset_in_query`, mirrored in executable code.
fn offset_in_query_exec(q: &str) -> (r: Option<String>)
    ensures
        match r {
            Some(k) => offset_in_query(q@) == Some(k@),
            None => offset_in_query(q@) is None,
        },
    decreases q@.len(),
{
    let n: usize = q.unicode_len();
    let key_len: usize = "offset=".unicode_len();
    match find_char(q, '&') {
        None => {
            if str_starts_with(q, "offset=") {
                Some(q.substring_char(key_len, n).to_owned())
            } else {
                None
            }
        },
        Some(e) => {
            proof {
                lemma_first_index_of(q@, '&');
            }
            let p: &str = q.substring_char(0, e);
            if str_starts_with(p, "offset=") {
                Some(p.substring_char(key_len, e).to_owned())
            } else {
                let rest: &str = q.substring_char(e + 1, n);
                offset_in_query_exec(rest)
            }
        },
    }
}

impl<T> Collection<T> {
    /// A further page exists: the cursor is present and non-empty.
    pub open spec fn spec_has_more(self) -> bool {
        match self.next_href {
            Some(v) => v@.len() > 0,
            None => false,
        }
    }

    /// The cursor is the first-request sentinel.
    pub open spec fn spec_is_first(self) -> bool {
        match self.next_href {
            Some(v) => v@ == sentinel_cursor(),
            None => false,
        }
    }

    /// What `get_next_href_offset` returns: the offset of the cursor, or
    /// the "no more" marker when the cursor is absent or yields none.
    pub open spec fn spec_next_offset(self) -> Seq<char> {
        match self.next_href {
            Some(v) => match cursor_offset(v@) {
                Some(k) => k,
                None => no_more_marker(),
            },
            None => no_more_marker(),
        }
    }

    /// Whether a further page exists. False on an absent or empty cursor.
    pub fn have_next_href(&self) -> (r: bool)
        ensures
            r == self.spec_has_more(),
    {
        match &self.next_href {
            Some(v) => !v.as_str().is_empty(),
            None => false,
        }
    }

    /// Whether the cursor is the first-request sentinel.
    pub fn is_first(&self) -> (r: bool)
        ensures
            r == self.spec_is_first(),
    {
        match &self.next_href {
            Some(v) => {
                let st: String = String::from_str("st");
                *v == st
            },
            None => false,
        }
    }

    /// Offset to request the next page at: the value of the cursor's
    /// `offset` query parameter. A missing or malformed cursor gives the
    /// "no more" marker, which callers treat as the end of pagination,
    /// never as an error.
    pub fn get_next_href_offset(&self) -> (r: String)
        ensures
            r@ == self.spec_next_offset(),
    {
        match &self.next_href {
            None => String::from_str("no more"),
            Some(v) => {
                let s: &str = v.as_str();
                match find_char(s, '?') {
                    None => String::from_str("no more"),
                    Some(qi) => {
                        proof {
                            lemma_first_index_of(s@, '?');
                        }
                        let n: usize = s.unicode_len();
                        let q: &str = s.substring_char(qi + 1, n);
                        match offset_in_query_exec(q) {
                            Some(k) => k,
                            None => String::from_str("no more"),
                        }
                    },
                }
            },
        }
    }
}

/// Every cursor of the form `<head>?offset=<k>&<tail>` — no `?` in the
/// head, no `&` in the offset value — yields exactly that value.
pub proof fn lemma_cursor_offset_of_form(head: Seq<char>, k: Seq<char>, tail: Seq<char>)
    requires
        forall|i: int| 0 <= i < head.len() ==> head[i] != '?',
        forall|i: int| 0 <= i < k.len() ==> k[i] != '&',
    ensures
        cursor_offset(head + "?offset="@ + k + "&"@ + tail) == Some(k),
{
    reveal_strlit("?offset=");
    reveal_strlit("offset=");
    reveal_strlit("&");
    let s = head + "?offset="@ + k + "&"@ + tail;
    let hl = head.len() as int;
    assert(s[hl] == '?');
    assert forall|j: int| 0 <= j < hl implies s[j] != '?' by {
        assert(s[j] == head[j]);
    }
    lemma_first_index_of_is(s, '?', hl);
    let q = s.skip(hl + 1);
    assert(q =~= "offset="@ + k + "&"@ + tail);
    let kl = offset_key().len() as int;
    assert(kl == 7);
    assert(q[kl + k.len()] == '&');
    assert forall|j: int| 0 <= j < kl + k.len() implies q[j] != '&' by {
        if j >= kl {
            assert(q[j] == k[j - 7]);
        }
    }
    lemma_first_index_of_is(q, '&', kl + k.len());
    let p = q.subrange(0, kl + k.len());
    assert(p.subrange(0, kl) =~= offset_key());
    assert(starts_with(p, offset_key()));
    assert(p.skip(kl) =~= k);
    assert(offset_in_query(q) == Some(k));
}

/// A cursor with no query part yields no offset.
pub proof fn lemma_cursor_without_query(s: Seq<char>)
    requires
        forall|i: int| 0 <= i < s.len() ==> s[i] != '?',
    ensures
        cursor_offset(s) is None,
{
    lemma_first_index_of(s, '?');
    let qi = first_index_of(s, '?');
    if qi != -1 {
        assert(s[qi] != '?');
    }
}

} // verus!
