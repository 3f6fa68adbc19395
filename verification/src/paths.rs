//! Paths of the store file, as text, joined the way `PathBuf::push` joins
//! them on Unix.

use vstd::prelude::*;

verus! {

/// `dir` joined with `name`: an absolute `name` replaces `dir`; otherwise a
/// `/` is put between them unless `dir` is empty or ends with one.
pub open spec fn joined(dir: Seq<char>, name: Seq<char>) -> Seq<char> {
    if name.len() > 0 && name[0] == '/' {
        name
    } else if dir.len() > 0 && dir.last() != '/' {
        dir + seq!['/'] + name
    } else {
        dir + name
    }
}

/// The path with a leading `~/` replaced by the home directory, where both
/// are there; otherwise the path unchanged.
pub open spec fn expanded(path: Seq<char>, home: Option<Seq<char>>) -> Seq<char> {
    if path.len() >= 2 && path[0] == '~' && path[1] == '/' && home is Some {
        joined(home.unwrap(), path.subrange(2, path.len() as int))
    } else {
        path
    }
}

/// Joins `dir` and `name`.
pub fn join_path(dir: &str, name: &str) -> (r: String)
    ensures
        r@ == joined(dir@, name@),
{
    let name_absolute = !name.is_empty() && name.get_char(0) == '/';
    if name_absolute {
        return name.to_owned();
    }
    let mut r = dir.to_owned();
    let n = dir.unicode_len();
    if n > 0 && dir.get_char(n - 1) != '/' {
        r.append("/");
        proof {
            reveal_strlit("/");
        }
    }
    r.append(name);
    r
}

/// Replaces a leading `~/` of `path` by `home`, where `home` is known.
pub fn expand_home(path: &str, home: &Option<String>) -> (r: String)
    ensures
        r@ == expanded(path@, crate::store::opt_view(*home)),
{
    let n = path.unicode_len();
    if n >= 2 && path.get_char(0) == '~' && path.get_char(1) == '/' {
        match home {
            Some(h) => {
                let rest = path.substring_char(2, n);
                return join_path(h.as_str(), rest);
            },
            None => {},
        }
    }
    path.to_owned()
}

/// A path that does not start with `~/` is left as it is.
pub proof fn lemma_expand_keeps_plain_paths(path: Seq<char>, home: Option<Seq<char>>)
    requires
        !(path.len() >= 2 && path[0] == '~' && path[1] == '/'),
    ensures
        expanded(path, home) == path,
{
}

/// Joining with an absolute name gives that name.
pub proof fn lemma_join_absolute(dir: Seq<char>, name: Seq<char>)
    requires
        name.len() > 0,
        name[0] == '/',
    ensures
        joined(dir, name) == name,
{
}

/// Joining keeps the directory as a prefix when the name is relative.
pub proof fn lemma_join_relative_prefix(dir: Seq<char>, name: Seq<char>)
    requires
        !(name.len() > 0 && name[0] == '/'),
    ensures
        joined(dir, name).subrange(0, dir.len() as int) == dir,
        joined(dir, name).subrange(joined(dir, name).len() - name.len(), joined(dir, name).len() as int)
            == name,
{
    let j = joined(dir, name);
    assert(j.subrange(0, dir.len() as int) =~= dir);
    assert(j.subrange(j.len() - name.len(), j.len() as int) =~= name);
}

} // verus!
