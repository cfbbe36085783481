//! Parts of file paths.

use std::path::Path;

use vstd::prelude::*;

verus! {

/// Whether a path is a single ordinary name on every platform: not empty, neither `.` nor `..`,
/// and without a character that separates components or ends a prefix somewhere.
pub open spec fn plain_name(path: Seq<char>) -> bool {
    &&& path.len() > 0
    &&& !(path.len() == 1 && path[0] == '.')
    &&& !(path.len() == 2 && path[0] == '.' && path[1] == '.')
    &&& forall|i: int|
        0 <= i < path.len() ==> #[trigger] path[i] != '/' && path[i] != '\\' && path[i] != ':'
}

/// Whether `part` stands somewhere in `path`.
pub open spec fn stands_in(part: Seq<char>, path: Seq<char>) -> bool {
    exists|at: int|
        0 <= at && at + part.len() <= path.len() && #[trigger] path.subrange(
            at,
            at + part.len(),
        ) == part
}

/// Whether a character separates the components of a path: `/` does everywhere, `\\` where
/// `backslash` says so.
pub open spec fn is_separator(c: char, backslash: bool) -> bool {
    c == '/' || (backslash && c == '\\')
}

/// Where the part of the first `count` characters behind the last separator begins.
pub open spec fn tail_start(path: Seq<char>, count: int, backslash: bool) -> int
    decreases count,
{
    if count <= 0 {
        0
    } else if is_separator(path[count - 1], backslash) {
        count
    } else {
        tail_start(path, count - 1, backslash)
    }
}

/// The part of a path behind its last separator.
pub open spec fn tail(path: Seq<char>, backslash: bool) -> Seq<char> {
    path.subrange(tail_start(path, path.len() as int, backslash), path.len() as int)
}

/// Whether a path ends in a plain name and does not begin like a share or a device, with two
/// separators. Such a path has a file name on Unix and on Windows.
pub open spec fn names_file(path: Seq<char>) -> bool {
    &&& plain_name(tail(path, true))
    &&& !(path.len() >= 2 && is_separator(path[0], true) && is_separator(path[1], true))
}

/// What holds of a path's file name on Unix and on Windows: it is a part of the path that is not
/// empty; an empty path has none; and a path that ends in a plain name has what stands behind its
/// last separator, `\\` being one or not.
pub open spec fn file_name_outcome(path: Seq<char>, file_name: Option<String>) -> bool {
    &&& file_name is Some ==> file_name->0@.len() > 0 && stands_in(file_name->0@, path)
    &&& path.len() == 0 ==> file_name is None
    &&& names_file(path) ==> {
        &&& file_name is Some
        &&& file_name->0@ == tail(path, true) || file_name->0@ == tail(path, false)
    }
}

/// Whether `parent` is what is left of a path before its last component and the separators, and
/// components `.`, in front of that. It ends in a separator only when that is a root, alone or
/// behind a drive.
pub open spec fn leads_to_tail(parent: Seq<char>, path: Seq<char>, backslash: bool) -> bool {
    let start = tail_start(path, path.len() as int, backslash);
    &&& parent.len() <= start
    &&& forall|i: int|
        parent.len() <= i < start ==> is_separator(#[trigger] path[i], backslash) || path[i] == '.'
    &&& parent.len() > 1 && is_separator(parent.last(), backslash) ==> parent[parent.len() - 2]
        == ':'
}

/// What holds of a path's parent on Unix and on Windows: it is the beginning of the path without at
/// least one character; an empty path has none; and for a path that ends in a plain name it is what
/// is left before that.
pub open spec fn parent_outcome(path: Seq<char>, parent: Option<String>) -> bool {
    &&& parent is Some ==> parent->0@.len() < path.len() && parent->0@ == path.subrange(
        0,
        parent->0@.len() as int,
    )
    &&& path.len() == 0 ==> parent is None
    &&& names_file(path) ==> {
        &&& parent is Some
        &&& leads_to_tail(parent->0@, path, true) || leads_to_tail(parent->0@, path, false)
    }
}

/// Calls `std::path::Path::parent`: the path without its final component, so a beginning of it;
/// nothing for the empty path. Components end at `/`, and on Windows at `\\` too; repeated
/// separators and components `.` between them are ignored. For a path whose last component is not
/// plain, or that begins like a share or a device, nothing more is said.
#[verifier::external_body]
pub(crate) fn path_parent(path: &str) -> (r: Option<String>)
    ensures
        parent_outcome(path@, r),
{
    Path::new(path).parent().map(|value| value.to_string_lossy().into_owned())
}

/// Calls `std::path::Path::file_name`: the final component of the path, so a part of it; nothing
/// for the empty path. Components end at `/`, and on Windows at `\\` too. For a path whose last
/// component is not plain, or that begins like a share or a device, nothing more is said.
#[verifier::external_body]
pub(crate) fn path_file_name(path: &str) -> (r: Option<String>)
    ensures
        file_name_outcome(path@, r),
{
    Path::new(path).file_name().map(|value| value.to_string_lossy().into_owned())
}

/// A part without separators begins where the path does.
proof fn lemma_no_separator(path: Seq<char>, count: int, backslash: bool)
    requires
        0 <= count <= path.len(),
        forall|i: int| 0 <= i < path.len() ==> !is_separator(#[trigger] path[i], backslash),
    ensures
        tail_start(path, count, backslash) == 0,
    decreases count,
{
    if count > 0 {
        lemma_no_separator(path, count - 1, backslash);
    }
}

/// A plain name is its own file name, and nothing is left before it.
pub proof fn law_plain_names_have_no_directory(
    path: Seq<char>,
    file_name: Option<String>,
    parent: Option<String>,
)
    requires
        plain_name(path),
        file_name_outcome(path, file_name),
        parent_outcome(path, parent),
    ensures
        file_name is Some && file_name->0@ == path,
        parent is Some && parent->0@.len() == 0,
{
    assert forall|backslash: bool| #[trigger] tail_start(path, path.len() as int, backslash) == 0 by {
        assert forall|i: int| 0 <= i < path.len() implies !is_separator(
            #[trigger] path[i],
            backslash,
        ) by {}
        lemma_no_separator(path, path.len() as int, backslash);
    }
    assert(tail(path, true) =~= path);
    assert(tail(path, false) =~= path);
}

/// The tail begins behind a separator that none follows.
proof fn lemma_tail_behind(path: Seq<char>, start: int, count: int)
    requires
        0 < start <= count <= path.len(),
        path[start - 1] == '/',
        forall|i: int| start <= i < path.len() ==> #[trigger] path[i] != '/' && path[i] != '\\',
    ensures
        tail_start(path, count, true) == start,
        tail_start(path, count, false) == start,
    decreases count,
{
    if count > start {
        lemma_tail_behind(path, start, count - 1);
    }
}

/// Whether a directory ends where a path `directory/name` has it end on either system: it has no
/// backslash, does not begin like a share, and its last character can neither be ignored nor be
/// part of a root.
pub open spec fn plain_directory(directory: Seq<char>) -> bool {
    &&& directory.len() > 0
    &&& forall|i: int| 0 <= i < directory.len() ==> #[trigger] directory[i] != '\\'
    &&& directory.last() != '/'
    &&& directory.last() != '.'
    &&& directory.last() != ':'
    &&& !(directory.len() >= 2 && directory[0] == '/' && directory[1] == '/')
}

/// The tail of a joined path is its name.
proof fn lemma_joined_tail(directory: Seq<char>, name: Seq<char>)
    requires
        plain_directory(directory),
        plain_name(name),
    ensures
        ({
            let path = directory.push('/') + name;
            &&& tail_start(path, path.len() as int, true) == directory.len() + 1
            &&& tail_start(path, path.len() as int, false) == directory.len() + 1
            &&& tail(path, true) == name
            &&& tail(path, false) == name
            &&& names_file(path)
        }),
{
    let path = directory.push('/') + name;
    let start = directory.len() as int + 1;
    assert forall|i: int| start <= i < path.len() implies #[trigger] path[i] != '/' && path[i]
        != '\\' by {
        assert(path[i] == name[i - start]);
    }
    assert(path[start - 1] == '/');
    lemma_tail_behind(path, start, path.len() as int);
    assert(tail(path, true) =~= name);
    assert(tail(path, false) =~= name);
    assert(path[0] == directory[0]);
    if directory.len() >= 2 {
        assert(path[1] == directory[1]);
    } else {
        assert(directory[0] == directory.last());
    }
}

/// What leads to the tail of a joined path is its directory.
proof fn lemma_joined_parent(
    directory: Seq<char>,
    name: Seq<char>,
    parent: Seq<char>,
    backslash: bool,
)
    requires
        plain_directory(directory),
        plain_name(name),
        leads_to_tail(parent, directory.push('/') + name, backslash),
        parent == (directory.push('/') + name).subrange(0, parent.len() as int),
    ensures
        parent == directory,
{
    let path = directory.push('/') + name;
    lemma_joined_tail(directory, name);
    let last = directory.len() - 1;
    assert(path[last] == directory.last());
    assert(path[last + 1] == '/');
    if parent.len() == directory.len() + 1 {
        assert(parent.last() == path[last + 1]);
        assert(parent[parent.len() - 2] == path[last]);
    }
    assert(parent.len() == directory.len());
    assert(parent =~= directory);
}

/// A path `directory/name` has that file name, and that directory as its parent.
pub proof fn law_joined_paths_split_again(
    directory: Seq<char>,
    name: Seq<char>,
    file_name: Option<String>,
    parent: Option<String>,
)
    requires
        plain_directory(directory),
        plain_name(name),
        file_name_outcome(directory.push('/') + name, file_name),
        parent_outcome(directory.push('/') + name, parent),
    ensures
        file_name is Some && file_name->0@ == name,
        parent is Some && parent->0@ == directory,
{
    lemma_joined_tail(directory, name);
    let path = directory.push('/') + name;
    if leads_to_tail(parent->0@, path, true) {
        lemma_joined_parent(directory, name, parent->0@, true);
    } else {
        lemma_joined_parent(directory, name, parent->0@, false);
    }
}

/// The place of the last dot among the first `count` characters of a file name that is not its
/// first character; 0 when there is none.
pub open spec fn inner_dot(name: Seq<char>, count: int) -> int
    decreases count,
{
    if count <= 1 {
        0
    } else if name[count - 1] == '.' {
        count - 1
    } else {
        inner_dot(name, count - 1)
    }
}

/// The stem of a file name: what stands before its last dot, or the whole name when no dot stands
/// behind its first character.
pub open spec fn stem_of(name: Seq<char>) -> Seq<char> {
    let dot = inner_dot(name, name.len() as int);
    if dot > 0 {
        name.subrange(0, dot)
    } else {
        name
    }
}

/// The extension of a file name: what stands behind its last dot, unless no dot stands behind its
/// first character.
pub open spec fn extension_of(name: Seq<char>) -> Option<Seq<char>> {
    let dot = inner_dot(name, name.len() as int);
    if dot > 0 {
        Some(name.subrange(dot + 1, name.len() as int))
    } else {
        None
    }
}

/// A dot that counts stands inside the name.
pub proof fn lemma_inner_dot(name: Seq<char>, count: int)
    requires
        0 <= count <= name.len(),
    ensures
        0 <= inner_dot(name, count) <= count,
        inner_dot(name, count) > 0 ==> inner_dot(name, count) < count && name[inner_dot(
            name,
            count,
        )] == '.',
        forall|i: int|
            inner_dot(name, count) < i < count && i > 0 ==> #[trigger] name[i] != '.',
    decreases count,
{
    if count > 1 && name[count - 1] != '.' {
        lemma_inner_dot(name, count - 1);
    }
}

/// Splits a file name into its stem and its extension.
pub fn split_file_name(name: &str) -> (r: (String, Option<String>))
    ensures
        ({
            let (stem, extension) = r;
            &&& stem@ == stem_of(name@)
            &&& match extension_of(name@) {
                Some(text) => extension is Some && extension->0@ == text,
                None => extension is None,
            }
        }),
{
    let length: usize = name.unicode_len();
    let mut count: usize = length;
    while count > 1 && name.get_char(count - 1) != '.'
        invariant
            count <= length,
            length == name@.len(),
            inner_dot(name@, length as int) == inner_dot(name@, count as int),
        decreases count,
    {
        count -= 1;
    }
    if count <= 1 {
        return (name.to_owned(), None);
    }
    let dot: usize = count - 1;
    (
        name.substring_char(0, dot).to_owned(),
        Some(name.substring_char(dot + 1, length).to_owned()),
    )
}

/// The stem and the extension split a file name at a dot, which is the last one.
pub proof fn law_stem_and_extension_split_the_name(name: Seq<char>)
    ensures
        match extension_of(name) {
            Some(extension) => {
                &&& name == stem_of(name).push('.') + extension
                &&& stem_of(name).len() > 0
                &&& forall|i: int| 0 <= i < extension.len() ==> #[trigger] extension[i] != '.'
            },
            None => {
                &&& stem_of(name) == name
                &&& forall|i: int| 0 < i < name.len() ==> #[trigger] name[i] != '.'
            },
        },
{
    lemma_inner_dot(name, name.len() as int);
    let dot = inner_dot(name, name.len() as int);
    if dot > 0 {
        let extension = name.subrange(dot + 1, name.len() as int);
        assert(name =~= name.subrange(0, dot).push('.') + extension);
        assert forall|i: int| 0 <= i < extension.len() implies #[trigger] extension[i] != '.' by {
            assert(extension[i] == name[dot + 1 + i]);
        }
    }
}

} // verus!
