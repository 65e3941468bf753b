//! The per-worker download plan: which followers of a slice get their
//! avatar fetched, and the name of the file each image is stored under.

use vstd::prelude::*;
use vstd::string::StrSliceExecFns;
use vstd::string::StringExecFns;
use crate::records::Follower;
use crate::records::spec_has_default_avatar;

verus! {

/// Characters a generated file name is drawn from.
pub open spec fn name_charset() -> Seq<char> {
    "abcdefghijklmnopqrstuvwxyz"@
}

/// Number of random characters in a generated file name.
pub open spec fn name_length() -> nat {
    7
}

/// Extension appended to every generated file name.
pub open spec fn name_extension() -> Seq<char> {
    ".jpg"@
}

/// Relies on random_string::generate: the result holds exactly `length`
/// characters, each drawn from `charset`; it panics on an empty charset.
#[verifier::external_body]
fn random_from_charset(length: usize, charset: &str) -> (r: String)
    requires
        charset@.len() > 0,
    ensures
        r@.len() == length,
        forall|i: int| 0 <= i < r@.len() ==> charset@.contains(#[trigger] r@[i]),
{
    random_string::generate(length, charset)
}

/// A fresh image file name: a fixed number of random lowercase letters,
/// then the fixed extension. Uniqueness is not checked; the caller
/// accepts the (unlikely) collision and overwrite.
pub fn avatar_file_name() -> (r: String)
    ensures
        r@.len() == name_length() + name_extension().len(),
        r@.skip(name_length() as int) == name_extension(),
        forall|i: int| 0 <= i < name_length() ==> 'a' <= #[trigger] r@[i] <= 'z',
{
    proof {
        reveal_strlit("abcdefghijklmnopqrstuvwxyz");
    }
    let base: String = random_from_charset(7, "abcdefghijklmnopqrstuvwxyz");
    proof {
        assert forall|i: int| 0 <= i < base@.len() implies 'a' <= #[trigger] base@[i] <= 'z' by {
            let c = base@[i];
            assert(name_charset().contains(c));
            let j = choose|j: int| 0 <= j < name_charset().len() && name_charset()[j] == c;
            assert('a' <= name_charset()[j] <= 'z');
        }
    }
    let r: String = base.concat(".jpg");
    proof {
        assert(r@.skip(name_length() as int) =~= name_extension());
    }
    r
}

/// A follower is part of the download plan: its avatar is not the
/// default placeholder.
pub open spec fn download_pred() -> spec_fn(Follower) -> bool {
    |f: Follower| !spec_has_default_avatar(f)
}

/// A follower whose avatar URL carries the default-avatar marker stands
/// in no download plan, whatever its other fields hold.
pub proof fn lemma_default_avatar_never_planned(slice: Seq<Follower>, i: int)
    requires
        0 <= i < slice.filter(download_pred()).len(),
    ensures
        !spec_has_default_avatar(slice.filter(download_pred())[i]),
{
    slice.lemma_filter_pred(download_pred(), i);
}

/// The followers of a slice whose avatar is actually fetched: those
/// without the default-avatar marker, in slice order. A follower with the
/// marker is never part of any plan, whatever its other fields.
pub fn to_download(slice: Vec<Follower>) -> (r: Vec<Follower>)
    ensures
        r@ == slice@.filter(download_pred()),
{
    let mut rest = slice;
    let mut out: Vec<Follower> = Vec::new();
    let ghost orig = rest@;
    let n: usize = rest.len();
    let mut i: usize = 0;
    while i < n
        invariant
            n == orig.len(),
            i <= n,
            rest@ == orig.skip(i as int),
            out@ == orig.take(i as int).filter(download_pred()),
        decreases n - i,
    {
        let f = rest.remove(0);
        proof {
            assert(f == orig[i as int]);
            assert(rest@ =~= orig.skip(i + 1));
        }
        if !f.have_default_avatar() {
            out.push(f);
        }
        proof {
            reveal(Seq::filter);
            assert(orig.take(i + 1).drop_last() =~= orig.take(i as int));
            assert(orig.take(i + 1).last() == orig[i as int]);
            assert(out@ == orig.take(i + 1).filter(download_pred()));
        }
        i = i + 1;
    }
    proof {
        assert(orig.take(orig.len() as int) =~= orig);
    }
    out
}

} // verus!
