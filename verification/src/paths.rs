//! Paths of files, whose parts the operating system tells apart.

use vstd::prelude::*;

verus! {

/// Whether a character separates the parts of a path on some system.
pub open spec fn is_separator(c: char) -> bool {
    c == '/' || c == '\\'
}

/// Whether a path begins with a backslash.
pub open spec fn begins_with_backslash(path: Seq<char>) -> bool {
    path.len() > 0 && path[0] == '\\'
}

/// Whether a path begins with two separators, where some systems look for a server.
pub open spec fn begins_with_two(path: Seq<char>) -> bool {
    path.len() >= 2 && is_separator(path[0]) && is_separator(path[1])
}

/// Whether a path has a colon in the second place, where some systems look for a drive.
pub open spec fn has_mark(path: Seq<char>) -> bool {
    path.len() >= 2 && path[1] == ':'
}

/// Whether every system tells the parts of a path apart in the same way: by slashes alone.
pub open spec fn portable(path: Seq<char>) -> bool {
    &&& !has_mark(path)
    &&& !begins_with_two(path)
    &&& forall|i: int| 0 <= i < path.len() ==> #[trigger] path[i] != '\\'
}

/// Where the last slash of a path stands, or -1.
pub open spec fn last_slash(path: Seq<char>) -> int
    decreases path.len(),
{
    if path.len() == 0 {
        -1
    } else if path.last() == '/' {
        path.len() - 1
    } else {
        last_slash(path.drop_last())
    }
}

/// Where the last separator of a path stands, or -1.
pub open spec fn last_separator(path: Seq<char>) -> int
    decreases path.len(),
{
    if path.len() == 0 {
        -1
    } else if is_separator(path.last()) {
        path.len() - 1
    } else {
        last_separator(path.drop_last())
    }
}

/// Whether the last part of a path is a single dot, with a slash before it.
pub open spec fn ends_in_dot_part(path: Seq<char>) -> bool {
    path.len() >= 2 && path.last() == '.' && path[path.len() - 2] == '/'
}

/// A path without the slashes and the single dots at its end, which add no part to it. The root
/// is left as it is.
pub open spec fn tidy(path: Seq<char>) -> Seq<char>
    decreases path.len(),
{
    if path.len() >= 2 && (path.last() == '/' || ends_in_dot_part(path)) {
        tidy(path.drop_last())
    } else {
        path
    }
}

/// The directory above a portable path, up to slashes and single dots at its end; the root and
/// the empty path have none.
pub open spec fn parent_part(path: Seq<char>) -> Option<Seq<char>> {
    let t = tidy(path);
    let i = last_slash(t);
    if t.len() == 0 || t == "/"@ {
        None
    } else if i < 0 || t == "."@ {
        Some(Seq::empty())
    } else if i == 0 {
        Some("/"@)
    } else {
        Some(tidy(t.take(i)))
    }
}

/// Whether a single slash, and nothing else that adds no part, stands before the last part of a
/// path.
pub open spec fn clean_cut(path: Seq<char>) -> bool {
    let t = tidy(path);
    last_slash(t) > 0 ==> tidy(t.take(last_slash(t))) == t.take(last_slash(t))
}

/// The file name of a portable path: its last part, unless that leads back or nowhere.
pub open spec fn file_part(path: Seq<char>) -> Option<Seq<char>> {
    let t = tidy(path);
    let name = t.skip(last_slash(t) + 1);
    if name.len() == 0 || t == "."@ || name == ".."@ {
        None
    } else {
        Some(name)
    }
}

/// Whether a path ends in a name, whatever the system, and does not begin like the path of a
/// server.
pub open spec fn plain_end(path: Seq<char>) -> bool {
    &&& path.len() > 0
    &&& !is_separator(path.last()) && path.last() != ':' && path.last() != '.'
    &&& !begins_with_backslash(path)
    &&& !begins_with_two(path)
}

/// What stands behind the last slash of a path.
pub open spec fn after_slash(path: Seq<char>) -> Seq<char> {
    path.skip(last_slash(path) + 1)
}

/// What stands behind the last separator of a path, or behind the mark of its drive.
pub open spec fn after_separator(path: Seq<char>) -> Seq<char> {
    if has_mark(path) && last_separator(path) < 1 {
        path.skip(2)
    } else {
        path.skip(last_separator(path) + 1)
    }
}

/// Whether a path goes on behind a beginning of it with nothing but separators and dots, and
/// then a name.
pub open spec fn leaves_name(beginning: Seq<char>, path: Seq<char>, name: Seq<char>) -> bool {
    &&& beginning.len() + name.len() <= path.len()
    &&& forall|i: int|
        beginning.len() <= i < path.len() - name.len() ==> is_separator(#[trigger] path[i])
            || path[i] == '.'
}

/// What holds on every system of the parent of a path. It is a shorter beginning of the path.
/// It is known for a portable path. A path that ends in a name has a parent, which ends before
/// the name; where the name begins is for the system to say.
pub open spec fn is_parent(parent: Option<Seq<char>>, path: Seq<char>) -> bool {
    &&& parent matches Some(p) ==> p.is_prefix_of(path) && p.len() < path.len()
    &&& portable(path) ==> (parent is Some <==> parent_part(path) is Some)
    &&& portable(path) && parent is Some ==> Some(tidy(parent->0)) == parent_part(path)
    &&& portable(path) && clean_cut(path) ==> parent == parent_part(path)
    &&& plain_end(path) ==> parent is Some && (leaves_name(parent->0, path, after_slash(path))
        || leaves_name(parent->0, path, after_separator(path)))
}

/// Calls `std::path::Path::parent`. The contract says that a parent is a shorter beginning of
/// the path; that a portable path, unless it is empty or the root, has for its parent the path
/// without its last part, slashes and single dots at the end aside; and that a path which ends
/// in a name has a parent that ends before the name. Where other paths are cut depends on the
/// system and is left unsaid.
#[verifier::external_body]
pub(crate) fn path_parent(path: &str) -> (r: Option<String>)
    ensures
        is_parent(r.deep_view(), path@),
{
    match std::path::Path::new(path).parent() {
        Some(p) => Some(p.to_string_lossy().into_owned()),
        None => None,
    }
}

/// Whether `part` stands somewhere in `s` without a gap.
pub open spec fn occurs_in(part: Seq<char>, s: Seq<char>) -> bool {
    exists|i: int|
        0 <= i && i + part.len() <= s.len() && part == #[trigger] s.subrange(i, i + part.len())
}

/// What holds on every system of the file name of a path. It is a piece of the path and not
/// empty. It is known for a portable path. A path that ends in a name has a file name, which
/// begins behind the last slash, or behind the last character that the system takes for a
/// separator or for the mark of a drive.
pub open spec fn is_file_name(name: Option<Seq<char>>, path: Seq<char>) -> bool {
    &&& name matches Some(n) ==> n.len() > 0 && occurs_in(n, path)
    &&& portable(path) ==> name == file_part(path)
    &&& plain_end(path) ==> name == Some(after_slash(path)) || name == Some(after_separator(path))
}

/// Calls `std::path::Path::file_name`. The contract says that a file name is a piece of the
/// path and not empty; that a portable path has its last part for its file name, slashes and single dots at the end aside,
/// unless that is `..`, which is none; and that a path which ends in a name has what stands
/// behind its last separator, of those that the system knows. Which file name other paths have
/// depends on the system and is left unsaid.
#[verifier::external_body]
pub(crate) fn path_file_name(path: &str) -> (r: Option<String>)
    ensures
        is_file_name(r.deep_view(), path@),
{
    match std::path::Path::new(path).file_name() {
        Some(n) => Some(n.to_string_lossy().into_owned()),
        None => None,
    }
}

/// Whether `whole` is `path` with `name` behind it: alone behind the empty path, directly behind
/// a slash, and else behind the system's separator, which is not put behind a backslash or the
/// mark of a drive where the system takes them for such.
pub open spec fn put_behind(whole: Seq<char>, path: Seq<char>, name: Seq<char>) -> bool {
    if path.len() == 0 {
        whole == name
    } else if path.last() == '/' {
        whole == path + name
    } else {
        ||| whole == path + "/"@ + name
        ||| whole == path + "\\"@ + name
        ||| whole == path + name && (path.last() == '\\' || path.last() == ':')
    }
}

/// Whether a path begins with two backslashes, a question mark and a backslash, behind which
/// some systems resolve dots when a name is pushed to it.
pub open spec fn is_verbatim(path: Seq<char>) -> bool {
    path.len() >= 4 && path[0] == '\\' && path[1] == '\\' && path[2] == '?' && path[3] == '\\'
}

/// Whether a name is a single one on every system: without separators, without the mark of a
/// drive, and no way back or nowhere.
pub open spec fn is_single(name: Seq<char>) -> bool {
    &&& name.len() > 0
    &&& !has_mark(name)
    &&& name != "."@ && name != ".."@
    &&& forall|i: int| 0 <= i < name.len() ==> !is_separator(#[trigger] name[i])
}

/// Whether `name` takes the place of all of `path` but for the drive or the server that it may
/// begin with.
pub open spec fn takes_place(whole: Seq<char>, path: Seq<char>, name: Seq<char>) -> bool {
    let kept = whole.len() - name.len();
    &&& name.is_suffix_of(whole)
    &&& whole.take(kept).is_prefix_of(path)
    &&& kept == 0 || (kept == 2 && has_mark(path)) || begins_with_two(path)
}

/// What holds on every system of a path with a name pushed to its end, unless the path is
/// verbatim. A name that does not begin with a separator is put behind the path, or takes its
/// place where it begins with the mark of a drive and the system takes it for such. A name that
/// begins with a slash takes the place of the path, and so does one that begins with a backslash
/// where the system takes that for a separator. The empty name adds a separator at most.
pub open spec fn is_put(whole: Seq<char>, path: Seq<char>, name: Seq<char>) -> bool {
    if name.len() == 0 {
        whole == path || put_behind(whole, path, name)
    } else if name[0] == '/' {
        takes_place(whole, path, name)
    } else if name[0] == '\\' {
        put_behind(whole, path, name) || takes_place(whole, path, name)
    } else if has_mark(name) {
        whole == name || put_behind(whole, path, name)
    } else {
        put_behind(whole, path, name)
    }
}

/// What holds on every system of a path with a name pushed to its end. Behind a verbatim path a
/// single name stands at the end, and the path goes on beginning with a backslash.
pub open spec fn is_pushed(whole: Seq<char>, path: Seq<char>, name: Seq<char>) -> bool {
    &&& !is_verbatim(path) ==> is_put(whole, path, name)
    &&& is_verbatim(path) && is_single(name) ==> name.is_suffix_of(whole) && begins_with_backslash(
        whole,
    )
}

/// Calls `std::path::PathBuf::push`. The contract says that a name is put behind the path, and
/// that an absolute one takes its place but for a drive or a server, as far as every system
/// agrees on what is absolute. Behind a verbatim path it says that a single name comes to stand
/// at the end. Which separator is put between them, and what becomes of a verbatim path or of
/// other names behind one, depends on the system and is left unsaid.
#[verifier::external_body]
pub(crate) fn path_push(path: &str, name: &str) -> (r: String)
    ensures
        is_pushed(r@, path@, name@),
{
    let mut p = std::path::PathBuf::from(path);
    p.push(name);
    p.to_string_lossy().into_owned()
}

/// The text of a parent that a directory may not have: that of none is empty.
pub open spec fn parent_text(parent: Option<Seq<char>>) -> Seq<char> {
    match parent {
        Some(p) => p,
        None => Seq::empty(),
    }
}

/// The text of a parent that a directory may not have.
pub fn parent_or_empty(parent: Option<String>) -> (r: String)
    ensures
        r@ == parent_text(parent.deep_view()),
{
    match parent {
        Some(p) => p,
        None => String::new(),
    }
}

/// What holds on every system of the text of the directory above a path, which may be none.
pub open spec fn lies_above(parent: Seq<char>, path: Seq<char>) -> bool {
    is_parent(Some(parent), path) || (parent.len() == 0 && is_parent(None, path))
}

/// Bytes as text, where they are UTF-8.
pub open spec fn text_of_bytes(bytes: Seq<u8>) -> Option<Seq<char>> {
    if vstd::utf8::valid_utf8(bytes) {
        Some(vstd::utf8::decode_utf8(bytes))
    } else {
        None
    }
}

/// Calls `std::str::from_utf8`. The contract says that it gives the text that the bytes encode
/// in UTF-8, and fails exactly on bytes that are not UTF-8.
#[verifier::external_body]
pub(crate) fn utf8(bytes: &[u8]) -> (r: Option<String>)
    ensures
        r.deep_view() == text_of_bytes(bytes@),
{
    match std::str::from_utf8(bytes) {
        Ok(s) => Some(s.to_owned()),
        Err(_) => None,
    }
}

proof fn lemma_last_slash(dir: Seq<char>, name: Seq<char>)
    requires
        forall|i: int| 0 <= i < name.len() ==> #[trigger] name[i] != '/',
    ensures
        last_slash(dir + "/"@ + name) == dir.len(),
    decreases name.len(),
{
    reveal_strlit("/");
    let path = dir + "/"@ + name;
    if name.len() > 0 {
        assert(path.last() == name[name.len() - 1]);
        assert(path.drop_last() =~= dir + "/"@ + name.drop_last());
        lemma_last_slash(dir, name.drop_last());
    }
}

/// What lies in a directory with a portable path has a portable path itself, with the directory
/// for its parent and its own name for its file name.
pub proof fn law_parent_of_an_entry(dir: Seq<char>, name: Seq<char>)
    requires
        portable(dir),
        dir.len() > 0,
        dir.last() != '/',
        tidy(dir) == dir,
        name.len() > 0,
        forall|i: int| 0 <= i < name.len() ==> !is_separator(#[trigger] name[i]),
        name != "."@,
        name != ".."@,
    ensures
        portable(dir + "/"@ + name),
        clean_cut(dir + "/"@ + name),
        parent_part(dir + "/"@ + name) == Some(dir),
        file_part(dir + "/"@ + name) == Some(name),
{
    reveal_strlit("/");
    reveal_strlit(".");
    let path = dir + "/"@ + name;
    let n = dir.len() as int;
    lemma_last_slash(dir, name);
    assert(path.take(n) =~= dir);
    assert(path.skip(n + 1) =~= name);
    assert(path.last() == name[name.len() - 1]);
    assert(path[0] == dir[0]);
    assert forall|i: int| 0 <= i < path.len() implies #[trigger] path[i] != '\\' by {
        if i < n {
            assert(path[i] == dir[i]);
        } else if i > n {
            assert(path[i] == name[i - n - 1]);
        }
    }
    assert(tidy(path) == path) by {
        if ends_in_dot_part(path) {
            if name.len() > 1 {
                assert(path[path.len() - 2] == name[name.len() - 2]);
            } else {
                assert(name =~= "."@);
            }
        }
    }
    assert(path != "/"@ && path != "."@);
}

/// What lies above a path is empty, or a shorter beginning of the path; above a portable path
/// with a clean cut it is the path without its last part. The text of no directory is empty.
pub proof fn law_what_lies_above(parent: Seq<char>, path: Seq<char>)
    ensures
        parent_text(Some(parent)) == parent,
        parent_text(None).len() == 0,
        lies_above(parent, path) ==> parent.len() == 0 || (parent.len() < path.len() && parent
            == path.take(parent.len() as int)),
        lies_above(parent, path) && portable(path) && clean_cut(path) ==> match parent_part(path) {
            Some(p) => parent == p,
            None => parent.len() == 0,
        },
        lies_above(parent, path) <==> exists|p: Option<Seq<char>>| #[trigger]
            is_parent(p, path) && parent == (match p {
                Some(s) => s,
                None => Seq::empty(),
            }),
{
    if lies_above(parent, path) {
        if is_parent(Some(parent), path) {
            if parent.len() > 0 {
                assert(parent =~= path.take(parent.len() as int));
            }
        } else {
            assert(parent =~= Seq::empty());
            assert(is_parent(None, path));
        }
    }
    if exists|p: Option<Seq<char>>| #[trigger]
        is_parent(p, path) && parent == (match p {
            Some(s) => s,
            None => Seq::empty(),
        }) {
        let p = choose|p: Option<Seq<char>>| #[trigger]
            is_parent(p, path) && parent == (match p {
                Some(s) => s,
                None => Seq::empty(),
            });
        match p {
            Some(s) => {},
            None => {
                assert(parent.len() == 0);
            },
        }
    }
}

} // verus!
