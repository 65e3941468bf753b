//! Construction of fully qualified, authenticated request URLs from a
//! resource path and query parameters.

use vstd::prelude::*;
use vstd::string::StrSliceExecFns;
use vstd::string::StringExecFns;
use crate::config::Config;

verus! {

/// Base of every request URL.
pub const SC_API_BASE: &'static str = "https://api-v2.soundcloud.com";

/// View of the API base.
pub open spec fn api_base_view() -> Seq<char> {
    SC_API_BASE@
}

/// One resource path segment: `/key` alone when the value is empty,
/// `/key/value` otherwise.
pub open spec fn resource_piece(k: Seq<char>, v: Seq<char>) -> Seq<char> {
    if v.len() == 0 {
        "/"@ + k
    } else {
        "/"@ + k + "/"@ + v
    }
}

/// The resource path: all segments joined in order.
pub open spec fn resources_part(rs: Seq<(Seq<char>, Seq<char>)>) -> Seq<char>
    decreases rs.len(),
{
    if rs.len() == 0 {
        Seq::empty()
    } else {
        resource_piece(rs[0].0, rs[0].1) + resources_part(rs.skip(1))
    }
}

/// One query argument, rendered `&key=value`.
pub open spec fn arg_piece(k: Seq<char>, v: Seq<char>) -> Seq<char> {
    "&"@ + k + "="@ + v
}

/// All query arguments joined in order.
pub open spec fn args_part(args: Seq<(Seq<char>, Seq<char>)>) -> Seq<char>
    decreases args.len(),
{
    if args.len() == 0 {
        Seq::empty()
    } else {
        arg_piece(args[0].0, args[0].1) + args_part(args.skip(1))
    }
}

/// The whole endpoint: base, resource path, the credential as the first
/// query parameter, then the remaining arguments.
pub open spec fn endpoint_view(
    token: Seq<char>,
    rs: Seq<(Seq<char>, Seq<char>)>,
    args: Seq<(Seq<char>, Seq<char>)>,
) -> Seq<char> {
    api_base_view() + resources_part(rs) + "?client_id="@ + token + args_part(args)
}

/// Views of a list of key/value pairs.
pub open spec fn pair_views<'a>(ps: Seq<(&'a str, String)>) -> Seq<(Seq<char>, Seq<char>)> {
    ps.map_values(|p: (&str, String)| (p.0@, p.1@))
}

proof fn lemma_resources_part_push(rs: Seq<(Seq<char>, Seq<char>)>, k: Seq<char>, v: Seq<char>)
    ensures
        resources_part(rs.push((k, v))) == resources_part(rs) + resource_piece(k, v),
    decreases rs.len(),
{
    let s = rs.push((k, v));
    assert(s[rs.len() as int] == (k, v));
    assert(s.len() == rs.len() + 1);
    if rs.len() == 0 {
        assert(s.skip(1) =~= Seq::<(Seq<char>, Seq<char>)>::empty());
        assert(s[0] == (k, v));
        assert(resources_part(s) == resource_piece(s[0].0, s[0].1) + resources_part(s.skip(1)));
        assert(resources_part(s.skip(1)) == Seq::<char>::empty());
        assert(resource_piece(s[0].0, s[0].1) == resource_piece(k, v));
        assert(resource_piece(k, v) + Seq::<char>::empty() =~= resource_piece(k, v));
        assert(resources_part(rs) == Seq::<char>::empty());
        assert(Seq::<char>::empty() + resource_piece(k, v) =~= resource_piece(k, v));
        assert(resources_part(s) == resources_part(rs) + resource_piece(k, v));
    } else {
        lemma_resources_part_push(rs.skip(1), k, v);
        assert(rs.push((k, v)).skip(1) =~= rs.skip(1).push((k, v)));
        assert(rs.push((k, v))[0] == rs[0]);
        assert((resource_piece(rs[0].0, rs[0].1) + resources_part(rs.skip(1)))
            + resource_piece(k, v)
            =~= resource_piece(rs[0].0, rs[0].1) + (resources_part(rs.skip(1))
            + resource_piece(k, v)));
    }
}

proof fn lemma_args_part_push(args: Seq<(Seq<char>, Seq<char>)>, k: Seq<char>, v: Seq<char>)
    ensures
        args_part(args.push((k, v))) == args_part(args) + arg_piece(k, v),
    decreases args.len(),
{
    let s = args.push((k, v));
    assert(s[args.len() as int] == (k, v));
    assert(s.len() == args.len() + 1);
    if args.len() == 0 {
        assert(s.skip(1) =~= Seq::<(Seq<char>, Seq<char>)>::empty());
        assert(s[0] == (k, v));
        assert(args_part(s) == arg_piece(s[0].0, s[0].1) + args_part(s.skip(1)));
        assert(args_part(s.skip(1)) == Seq::<char>::empty());
        assert(arg_piece(k, v) + Seq::<char>::empty() =~= arg_piece(k, v));
        assert(args_part(args) == Seq::<char>::empty());
        assert(Seq::<char>::empty() + arg_piece(k, v) =~= arg_piece(k, v));
        assert(args_part(s) == args_part(args) + arg_piece(k, v));
    } else {
        lemma_args_part_push(args.skip(1), k, v);
        assert(args.push((k, v)).skip(1) =~= args.skip(1).push((k, v)));
        assert(args.push((k, v))[0] == args[0]);
        assert((arg_piece(args[0].0, args[0].1) + args_part(args.skip(1))) + arg_piece(k, v)
            =~= arg_piece(args[0].0, args[0].1) + (args_part(args.skip(1)) + arg_piece(k, v)));
    }
}

/// The application: the configuration it was started with.
pub struct App {
    pub cfg: Config,
}

impl App {
    /// A new application around the given configuration.
    pub fn new(with_config: Config) -> (r: Self)
        ensures
            r.cfg == with_config,
    {
        Self { cfg: with_config }
    }

    /// The fully qualified, authenticated URL for the given resource path
    /// segments and query arguments.
    pub fn build_endpoint(
        &self,
        with_ressources: Vec<(&str, String)>,
        and_args: Vec<(&str, String)>,
    ) -> (r: String)
        ensures
            r@ == endpoint_view(
                self.cfg.client_token@,
                pair_views(with_ressources@),
                pair_views(and_args@),
            ),
    {
        let mut out: String = String::new();
        out.append(SC_API_BASE);
        let ghost rs_views = pair_views(with_ressources@);
        let mut i: usize = 0;
        while i < with_ressources.len()
            invariant
                i <= with_ressources@.len(),
                rs_views == pair_views(with_ressources@),
                out@ == api_base_view() + resources_part(rs_views.take(i as int)),
            decreases with_ressources@.len() - i,
        {
            let pair = &with_ressources[i];
            out.append("/");
            out.append(pair.0);
            if !pair.1.as_str().is_empty() {
                out.append("/");
                out.append(pair.1.as_str());
            }
            proof {
                lemma_resources_part_push(
                    rs_views.take(i as int),
                    pair.0@,
                    pair.1@,
                );
                assert(rs_views.take(i as int).push((pair.0@, pair.1@))
                    =~= rs_views.take(i + 1));
            }
            i = i + 1;
        }
        proof {
            assert(rs_views.take(with_ressources@.len() as int) =~= rs_views);
        }
        out.append("?client_id=");
        out.append(self.cfg.client_token.as_str());
        let ghost arg_views = pair_views(and_args@);
        let ghost mid = api_base_view() + resources_part(rs_views) + "?client_id="@
            + self.cfg.client_token@;
        let mut j: usize = 0;
        while j < and_args.len()
            invariant
                j <= and_args@.len(),
                arg_views == pair_views(and_args@),
                out@ == mid + args_part(arg_views.take(j as int)),
            decreases and_args@.len() - j,
        {
            let pair = &and_args[j];
            out.append("&");
            out.append(pair.0);
            out.append("=");
            out.append(pair.1.as_str());
            proof {
                lemma_args_part_push(arg_views.take(j as int), pair.0@, pair.1@);
                assert(arg_views.take(j as int).push((pair.0@, pair.1@))
                    =~= arg_views.take(j + 1));
            }
            j = j + 1;
        }
        proof {
            assert(arg_views.take(and_args@.len() as int) =~= arg_views);
        }
        out
    }
}

} // verus!
