//! Helpers over path strings: relativity and the push-style join the
//! filesystem layer uses.

use vstd::prelude::*;

verus! {

/// A path string is relative when it does not open with `/`.
pub open spec fn spec_is_relative(s: Seq<char>) -> bool {
    !(s.len() > 0 && s[0] == '/')
}

pub fn is_relative_str(s: &str) -> (r: bool)
    ensures
        r == spec_is_relative(s@),
{
    let n = s.unicode_len();
    if n == 0 {
        return true;
    }
    s.get_char(0) != '/'
}

/// One push of a relative fragment onto a base path: a `/` is inserted
/// unless the base is empty or already ends with one.
pub open spec fn spec_join(base: Seq<char>, frag: Seq<char>) -> Seq<char> {
    if base.len() == 0 || base.last() == '/' {
        base + frag
    } else {
        base + seq!['/'] + frag
    }
}

/// Joins a relative fragment onto a base path.
pub fn join_path(base: &str, frag: &str) -> (r: String)
    ensures
        r@ == spec_join(base@, frag@),
{
    let n = base.unicode_len();
    let mut out = String::from_str(base);
    if n != 0 && base.get_char(n - 1) != '/' {
        out.append("/");
        proof {
            reveal_strlit("/");
            assert(out@ =~= base@ + seq!['/']);
        }
    }
    out.append(frag);
    out
}

/// An optional owned copy of an optional string.
pub fn clone_opt_string(o: &Option<String>) -> (r: Option<String>)
    ensures
        match r {
            Some(s) => o matches Some(s0) && s@ == s0@,
            None => o is None,
        },
{
    match o {
        Some(s) => Some(s.clone()),
        None => None,
    }
}

/// An owned copy of an optional borrowed string.
pub fn own_opt_str(o: &Option<&str>) -> (r: Option<String>)
    ensures
        match r {
            Some(s) => o matches Some(s0) && s@ == s0@,
            None => o is None,
        },
{
    match o {
        Some(s) => Some((*s).to_owned()),
        None => None,
    }
}

/// The prefix a request resolves to: the default when none was asked for; a
/// requested relative prefix lives under the configured prefix location; an
/// absolute one is taken as it is.
pub open spec fn spec_resolve_prefix(
    loc: Seq<char>,
    default: Seq<char>,
    req: Option<Seq<char>>,
) -> Seq<char> {
    match req {
        None => default,
        Some(p) => if spec_is_relative(p) {
            spec_join(loc, p)
        } else {
            p
        },
    }
}

/// Resolves a requested prefix against the configured location and default.
pub fn resolve_prefix(loc: &str, default: &str, req: &Option<&str>) -> (r: String)
    ensures
        r@ == spec_resolve_prefix(loc@, default@, opt_str_view(*req)),
{
    match req {
        None => default.to_owned(),
        Some(p) => {
            if is_relative_str(p) {
                join_path(loc, p)
            } else {
                (*p).to_owned()
            }
        },
    }
}

/// The view of an optional owned string.
pub open spec fn opt_string_view(o: Option<String>) -> Option<Seq<char>> {
    match o {
        Some(s) => Some(s@),
        None => None,
    }
}

/// The view of an optional borrowed string.
pub open spec fn opt_str_view(o: Option<&str>) -> Option<Seq<char>> {
    match o {
        Some(s) => Some(s@),
        None => None,
    }
}

} // verus!
