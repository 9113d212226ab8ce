//! Paths as the hub builds them: joined the way `PathBuf::join` joins Unix
//! paths, under the user's home directory.
use vstd::prelude::*;
use crate::text::{chars_of, push_all, starts_with, string_of};

verus! {

broadcast use vstd::string::group_string_axioms;

/// `PathBuf::from(base).join(rel)` on Unix: an absolute `rel` replaces the
/// base; otherwise a `/` is put between them unless the base is empty or
/// already ends with one.
pub open spec fn path_join(base: Seq<char>, rel: Seq<char>) -> Seq<char> {
    if starts_with(rel, "/"@) {
        rel
    } else if base.len() == 0 {
        rel
    } else if base.last() == '/' {
        base + rel
    } else {
        base + seq!['/'] + rel
    }
}

/// The home directory: `$HOME`, or `/tmp` when it is not set.
pub open spec fn spec_home_dir(home_var: Option<Seq<char>>) -> Seq<char> {
    match home_var {
        Some(h) => h,
        None => "/tmp"@,
    }
}

/// `PathBuf::from(base).join(rel)`, as a string.
pub fn join_path(base: &str, rel: &str) -> (p: String)
    ensures
        p@ == path_join(base@, rel@),
{
    proof {
        reveal_strlit("/");
    }
    let b = chars_of(base);
    let r = chars_of(rel);
    if r.len() > 0 && r[0] == '/' {
        assert(r@.subrange(0, 1) =~= "/"@);
        return string_of(&r);
    }
    assert(!starts_with(r@, "/"@)) by {
        if r@.len() >= 1 {
            assert(r@.subrange(0, 1)[0] == r@[0]);
        }
    }
    let mut p = String::new();
    if b.len() == 0 {
        push_all(&mut p, &r);
        assert(p@ =~= r@);
        return p;
    }
    push_all(&mut p, &b);
    if b[b.len() - 1] != '/' {
        crate::text::push_char(&mut p, '/');
    }
    push_all(&mut p, &r);
    assert(p@ =~= path_join(b@, r@));
    p
}

/// The home directory given the value of `$HOME`, if set.
pub fn home_dir(home_var: Option<&str>) -> (h: String)
    ensures
        h@ == spec_home_dir(
            match home_var {
                Some(s) => Some(s@),
                None => None,
            },
        ),
{
    match home_var {
        Some(h) => String::from_str(h),
        None => String::from_str("/tmp"),
    }
}

} // verus!
