//! Paths that a user types, with `/` between their parts.
use vstd::prelude::*;

use crate::text::{chars_of, has_prefix, starts_with};

verus! {

/// A path taken relative to a directory. An absolute path stays what it is.
pub open spec fn joined(base: Seq<char>, path: Seq<char>) -> Seq<char> {
    if path.len() > 0 && path[0] == '/' {
        path
    } else if base.len() == 0 || base.last() == '/' {
        base + path
    } else {
        base + "/"@ + path
    }
}

/// The path with a leading `~/` taken relative to the home directory; `None` where it has one and
/// there is no home directory.
pub open spec fn resolved(path: Seq<char>, home: Option<Seq<char>>) -> Option<Seq<char>> {
    if has_prefix(path, "~/"@) {
        match home {
            Some(h) => Some(joined(h, path.skip(2))),
            None => None,
        }
    } else {
        Some(path)
    }
}

/// The contents of an optional string.
pub open spec fn str_view(s: Option<&str>) -> Option<Seq<char>> {
    match s {
        Some(t) => Some(t@),
        None => None,
    }
}

/// The contents of an optional string.
pub open spec fn string_view(s: Option<String>) -> Option<Seq<char>> {
    match s {
        Some(t) => Some(t@),
        None => None,
    }
}

/// Takes `path` relative to the directory `base`.
pub fn join(base: &str, path: &str) -> (r: String)
    ensures
        r@ == joined(base@, path@),
{
    let cs = chars_of(path);
    if cs.len() > 0 && cs[0] == '/' {
        return path.to_owned();
    }
    let bs = chars_of(base);
    let mut r = base.to_owned();
    if bs.len() > 0 && bs[bs.len() - 1] != '/' {
        r.append("/");
    }
    r.append(path);
    r
}

/// Resolves a leading `~/` against the home directory.
pub fn resolve_home(path: &str, home: Option<&str>) -> (r: Option<String>)
    ensures
        string_view(r) == resolved(path@, str_view(home)),
{
    proof {
        reveal_strlit("~/");
    }
    if starts_with(path, "~/") {
        match home {
            Some(home) => {
                let rest = path.substring_char(2, path.unicode_len());
                assert(rest@ == path@.skip(2));
                Some(join(home, rest))
            },
            None => None,
        }
    } else {
        Some(path.to_owned())
    }
}

/// A path that does not begin with `~/` is taken as it was typed, whatever the home directory.
pub proof fn law_other_paths_stay(path: Seq<char>, home: Option<Seq<char>>)
    requires
        !has_prefix(path, "~/"@),
    ensures
        resolved(path, home) == Some(path),
{
}

/// `~/` stands for the home directory: what follows it is appended to that directory, with one
/// slash between them where the directory does not end in one. What follows stands alone where
/// it begins with a slash itself. Without a home directory there is no such path.
pub proof fn law_home(home: Seq<char>, rest: Seq<char>)
    ensures
        resolved(seq!['~', '/'] + rest, None) is None,
        rest.len() > 0 && rest[0] == '/' ==> resolved(seq!['~', '/'] + rest, Some(home)) == Some(
            rest,
        ),
        !(rest.len() > 0 && rest[0] == '/') && home.len() > 0 && home[home.len() - 1] != '/'
            ==> resolved(seq!['~', '/'] + rest, Some(home)) == Some(home + seq!['/'] + rest),
        !(rest.len() > 0 && rest[0] == '/') && home.len() > 0 && home[home.len() - 1] == '/'
            ==> resolved(seq!['~', '/'] + rest, Some(home)) == Some(home + rest),
        !(rest.len() > 0 && rest[0] == '/') && home.len() == 0 ==> resolved(
            seq!['~', '/'] + rest,
            Some(home),
        ) == Some(rest),
{
    reveal_strlit("~/");
    reveal_strlit("/");
    let path = seq!['~', '/'] + rest;
    assert(path.take(2) == "~/"@);
    assert(path.skip(2) == rest);
    assert("/"@ == seq!['/']);
    if home.len() == 0 {
        assert(home + rest == rest);
    }
}

/// A path that does not begin with the characters `~` and `/` is taken as it was typed.
pub proof fn law_plain_paths(path: Seq<char>, home: Option<Seq<char>>)
    requires
        !(path.len() >= 2 && path[0] == '~' && path[1] == '/'),
    ensures
        resolved(path, home) == Some(path),
{
    reveal_strlit("~/");
    if has_prefix(path, "~/"@) {
        assert(path.take(2)[0] == '~' && path.take(2)[1] == '/');
    }
}

/// An optional string is seen with its whole contents.
pub proof fn law_string_views(s: Option<String>, t: Option<&str>)
    ensures
        s is None <==> string_view(s) is None,
        s matches Some(text) ==> string_view(s) == Some(text@),
        t is None <==> str_view(t) is None,
        t matches Some(text) ==> str_view(t) == Some(text@),
{
}

/// A path is appended to its directory with one slash between them where the directory does not
/// end in one; below no directory, and with a slash at its beginning, it stands alone.
pub proof fn law_joining(base: Seq<char>, path: Seq<char>)
    ensures
        joined(base, seq!['/'] + path) == seq!['/'] + path,
        joined(Seq::empty(), path) == path,
        !(path.len() > 0 && path[0] == '/') ==> joined(base.push('/'), path) == base.push('/')
            + path,
        !(path.len() > 0 && path[0] == '/') && base.len() > 0 && base[base.len() - 1] != '/'
            ==> joined(base, path) == base.push('/') + path,
{
    reveal_strlit("/");
    assert("/"@ == seq!['/']);
    assert(Seq::<char>::empty() + path == path);
    assert(base + "/"@ + path == base.push('/') + path);
}

} // verus!
