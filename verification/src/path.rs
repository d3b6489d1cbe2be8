//! Paths as the byte strings that a Unix file system holds.
//!
//! A path is cut at every `/` and read as a list of components, after the
//! conventions of the platform's path type: a leading `/` is the root, empty
//! pieces and `.` pieces are skipped (but for a `.` that opens a relative
//! path), and `..` is the parent. Nothing is resolved against the file system.

use crate::split::{lemma_split_concat, lemma_split_len, split_bytes, split_on};
use crate::text::{bytes_eq, views};
use vstd::prelude::*;
use vstd::slice::{slice_subrange, slice_to_vec};

verus! {

/// The byte `/`, which separates the components of a path.
pub const SEPARATOR: u8 = 0x2F;

/// The byte `.`, which sets the extension off from the rest of a file name.
pub const DOT: u8 = 0x2E;

/// One component of a path, as a mathematical value.
pub enum Part {
    /// The root directory: a path that begins with `/`.
    Root,
    /// The current directory: a `.` at the front of a relative path.
    Current,
    /// The parent directory: `..`.
    Parent,
    /// A file or directory name.
    Named(Seq<u8>),
}

/// One component of a path.
#[derive(Debug, PartialEq, Eq)]
pub enum Component {
    /// The root directory: a path that begins with `/`.
    Root,
    /// The current directory: a `.` at the front of a relative path.
    Current,
    /// The parent directory: `..`.
    Parent,
    /// A file or directory name.
    Named(Vec<u8>),
}

impl View for Component {
    type V = Part;

    open spec fn view(&self) -> Part {
        match self {
            Component::Root => Part::Root,
            Component::Current => Part::Current,
            Component::Parent => Part::Parent,
            Component::Named(name) => Part::Named(name@),
        }
    }
}

/// Whether a path begins at the root.
pub open spec fn has_root(path: Seq<u8>) -> bool {
    path.len() > 0 && path[0] == SEPARATOR
}

/// The components that the pieces of a path stand for: nothing for an empty
/// piece or a `.`, the parent for `..`, a name for any other piece.
pub open spec fn named_parts(pieces: Seq<Seq<u8>>) -> Seq<Part>
    decreases pieces.len(),
{
    if pieces.len() == 0 {
        Seq::empty()
    } else {
        let before = named_parts(pieces.drop_last());
        let piece = pieces.last();
        if piece.len() == 0 || piece == seq![DOT] {
            before
        } else if piece == seq![DOT, DOT] {
            before.push(Part::Parent)
        } else {
            before.push(Part::Named(piece))
        }
    }
}

/// What the front of a path contributes: the root for an absolute path, the
/// current directory for a relative path whose first piece is `.`.
pub open spec fn leading_parts(path: Seq<u8>) -> Seq<Part> {
    if has_root(path) {
        seq![Part::Root]
    } else if split_on(path, SEPARATOR)[0] == seq![DOT] {
        seq![Part::Current]
    } else {
        Seq::empty()
    }
}

/// The components of a path, in order.
pub open spec fn components(path: Seq<u8>) -> Seq<Part> {
    leading_parts(path) + named_parts(split_on(path, SEPARATOR))
}

/// Whether `path` begins with all the components of `base`, whole component
/// by whole component.
pub open spec fn starts_with(path: Seq<u8>, base: Seq<u8>) -> bool {
    components(base).is_prefix_of(components(path))
}

/// The last component of a path, where that is a name.
pub open spec fn file_name(path: Seq<u8>) -> Option<Seq<u8>> {
    let parts = components(path);
    if parts.len() > 0 && parts.last() is Named {
        Some(parts.last()->Named_0)
    } else {
        None
    }
}

/// The position of the last `.` in a name, or -1 where it has none.
pub open spec fn last_dot(name: Seq<u8>) -> int
    decreases name.len(),
{
    if name.len() == 0 {
        -1
    } else if name.last() == DOT {
        name.len() - 1
    } else {
        last_dot(name.drop_last())
    }
}

/// The extension of a file name: what follows its last `.`, unless the name
/// has no `.` or only the one it begins with.
pub open spec fn name_extension(name: Seq<u8>) -> Option<Seq<u8>> {
    if last_dot(name) <= 0 {
        None
    } else {
        Some(name.skip(last_dot(name) + 1))
    }
}

/// The extension of a path: that of its file name.
pub open spec fn extension(path: Seq<u8>) -> Option<Seq<u8>> {
    match file_name(path) {
        Some(name) => name_extension(name),
        None => None,
    }
}

/// The path of `name` under `base`. A `name` that begins at the root stands
/// for itself; otherwise it follows `base`, after a `/` where `base` is not
/// empty and does not end in one.
pub open spec fn join(base: Seq<u8>, name: Seq<u8>) -> Seq<u8> {
    if has_root(name) {
        name
    } else if base.len() == 0 || base.last() == SEPARATOR {
        base + name
    } else {
        base.push(SEPARATOR) + name
    }
}

/// `last_dot` is the greatest position that holds a `.`.
pub proof fn lemma_last_dot(name: Seq<u8>)
    ensures
        -1 <= last_dot(name) < name.len(),
        last_dot(name) >= 0 ==> name[last_dot(name)] == DOT,
        forall|j: int| last_dot(name) < j < name.len() ==> name[j] != DOT,
    decreases name.len(),
{
    if name.len() > 0 && name.last() != DOT {
        let front = name.drop_last();
        lemma_last_dot(front);
        assert forall|j: int| last_dot(name) < j < name.len() implies name[j] != DOT by {
            if j < front.len() {
                assert(front[j] == name[j]);
            }
        }
    }
}

/// A position that holds a `.` and has none after it is `last_dot`; so is -1
/// where the name holds no `.` at all.
pub proof fn lemma_last_dot_unique(name: Seq<u8>, d: int)
    requires
        -1 <= d < name.len(),
        d >= 0 ==> name[d] == DOT,
        forall|j: int| d < j < name.len() ==> name[j] != DOT,
    ensures
        last_dot(name) == d,
{
    lemma_last_dot(name);
}

/// The components of two lists of pieces in a row are the components of the
/// first followed by those of the second.
pub proof fn lemma_named_parts_concat(first: Seq<Seq<u8>>, second: Seq<Seq<u8>>)
    ensures
        named_parts(first + second) == named_parts(first) + named_parts(second),
    decreases second.len(),
{
    if second.len() > 0 {
        lemma_named_parts_concat(first, second.drop_last());
        assert((first + second).drop_last() =~= first + second.drop_last());
    }
}

/// A path joined with a name that does not begin at the root lies under that
/// path: it begins with all of the path's components.
pub proof fn lemma_join_starts_with(base: Seq<u8>, name: Seq<u8>)
    requires
        !has_root(name),
    ensures
        starts_with(join(base, name), base),
{
    let joined = join(base, name);
    if base.len() == 0 {
        assert(named_parts(split_on(base, SEPARATOR).drop_last()) =~= Seq::<Part>::empty());
    } else {
        let front = if base.last() == SEPARATOR {
            base.drop_last()
        } else {
            base
        };
        assert(joined =~= front.push(SEPARATOR) + name);
        lemma_split_concat(front, name, SEPARATOR);
        let pieces = split_on(front, SEPARATOR);
        lemma_named_parts_concat(pieces, split_on(name, SEPARATOR));
        assert(named_parts(split_on(base, SEPARATOR)) == named_parts(pieces)) by {
            if base.last() == SEPARATOR {
                let longer = pieces.push(Seq::<u8>::empty());
                assert(longer.drop_last() =~= pieces);
            }
        }
        assert(split_on(base, SEPARATOR)[0] == pieces[0]);
    }
}

/// What lies under a path lies under everything that the path lies under.
pub proof fn lemma_starts_with_transitive(path: Seq<u8>, middle: Seq<u8>, base: Seq<u8>)
    requires
        starts_with(path, middle),
        starts_with(middle, base),
    ensures
        starts_with(path, base),
{
    let p = components(path);
    let b = components(base);
    assert(b =~= p.subrange(0, b.len() as int));
}

/// Reads a path as its list of components.
pub fn parse_components(path: &[u8]) -> (parts: Vec<Component>)
    ensures
        views(parts@) == components(path@),
{
    let pieces = split_bytes(path, SEPARATOR);
    proof {
        lemma_split_len(path@, SEPARATOR);
    }
    let mut parts: Vec<Component> = Vec::new();
    if path.len() > 0 && path[0] == SEPARATOR {
        parts.push(Component::Root);
    } else if pieces[0].len() == 1 && pieces[0][0] == DOT {
        assert(pieces@[0]@ =~= seq![DOT]);
        parts.push(Component::Current);
    }
    let mut i: usize = 0;
    while i < pieces.len()
        invariant
            i <= pieces.len(),
            views(pieces@) == split_on(path@, SEPARATOR),
            views(parts@) == leading_parts(path@) + named_parts(views(pieces@).take(i as int)),
        decreases pieces.len() - i,
    {
        let piece = &pieces[i];
        let ghost before = views(parts@);
        let ghost seen = named_parts(views(pieces@).take(i as int));
        proof {
            assert(views(pieces@).take(i + 1).drop_last() =~= views(pieces@).take(i as int));
        }
        if piece.len() == 1 && piece[0] == DOT {
            assert(piece@ =~= seq![DOT]);
        } else if piece.len() == 2 && piece[0] == DOT && piece[1] == DOT {
            assert(piece@ =~= seq![DOT, DOT]);
            parts.push(Component::Parent);
            assert(views(parts@) =~= before.push(Part::Parent));
        } else if piece.len() > 0 {
            assert(piece@ != seq![DOT]);
            assert(piece@ != seq![DOT, DOT]);
            parts.push(Component::Named(slice_to_vec(piece.as_slice())));
            assert(before.push(Part::Named(piece@)) =~= leading_parts(path@) + seen.push(
                Part::Named(piece@),
            ));
        }
        i += 1;
    }
    assert(views(pieces@).take(i as int) =~= views(pieces@));
    parts
}

/// Whether two components are the same.
pub fn component_eq(a: &Component, b: &Component) -> (same: bool)
    ensures
        same == (a@ == b@),
{
    match (a, b) {
        (Component::Root, Component::Root) => true,
        (Component::Current, Component::Current) => true,
        (Component::Parent, Component::Parent) => true,
        (Component::Named(x), Component::Named(y)) => bytes_eq(x.as_slice(), y.as_slice()),
        _ => false,
    }
}

/// Whether `path` begins with all the components of `base`.
pub fn path_starts_with(path: &[u8], base: &[u8]) -> (inside: bool)
    ensures
        inside == starts_with(path@, base@),
{
    let whole = parse_components(path);
    let front = parse_components(base);
    if front.len() > whole.len() {
        return false;
    }
    let mut i: usize = 0;
    while i < front.len()
        invariant
            i <= front.len() <= whole.len(),
            views(whole@) == components(path@),
            views(front@) == components(base@),
            forall|k: int| 0 <= k < i ==> views(front@)[k] == views(whole@)[k],
        decreases front.len() - i,
    {
        if !component_eq(&front[i], &whole[i]) {
            assert(views(front@)[i as int] != views(whole@).subrange(0, front@.len() as int)[i as int]);
            return false;
        }
        i += 1;
    }
    true
}

/// The last component of a path, where that is a name.
pub fn path_file_name(path: &[u8]) -> (name: Option<Vec<u8>>)
    ensures
        match name {
            Some(n) => file_name(path@) == Some(n@),
            None => file_name(path@) is None,
        },
{
    let mut parts = parse_components(path);
    match parts.pop() {
        Some(Component::Named(name)) => {
            Some(name)
        },
        Some(_) => None,
        None => None,
    }
}

/// The extension of a file name.
pub fn file_name_extension(name: &[u8]) -> (ext: Option<Vec<u8>>)
    ensures
        match ext {
            Some(e) => name_extension(name@) == Some(e@),
            None => name_extension(name@) is None,
        },
{
    let mut i: usize = name.len();
    while i > 0
        invariant
            i <= name.len(),
            forall|j: int| i <= j < name.len() ==> name@[j] != DOT,
        decreases i,
    {
        if name[i - 1] == DOT {
            proof {
                lemma_last_dot_unique(name@, i - 1);
            }
            if i == 1 {
                return None;
            }
            let ext = slice_to_vec(slice_subrange(name, i, name.len()));
            return Some(ext);
        }
        i -= 1;
    }
    proof {
        lemma_last_dot_unique(name@, -1);
    }
    None
}

/// The extension of a path.
pub fn path_extension(path: &[u8]) -> (ext: Option<Vec<u8>>)
    ensures
        match ext {
            Some(e) => extension(path@) == Some(e@),
            None => extension(path@) is None,
        },
{
    match path_file_name(path) {
        Some(name) => file_name_extension(name.as_slice()),
        None => None,
    }
}

/// The path of `name` under `base`.
pub fn path_join(base: &[u8], name: &[u8]) -> (joined: Vec<u8>)
    ensures
        joined@ == join(base@, name@),
{
    let mut joined: Vec<u8> = Vec::new();
    if name.len() > 0 && name[0] == SEPARATOR {
        joined.extend_from_slice(name);
        return joined;
    }
    joined.extend_from_slice(base);
    if base.len() > 0 && base[base.len() - 1] != SEPARATOR {
        joined.push(SEPARATOR);
    }
    joined.extend_from_slice(name);
    joined
}

} // verus!
