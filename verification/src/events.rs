//! Which change notifications call for a purge, and for which files.
//!
//! A notification names a kind of change and the paths it touched. Only a
//! removal or a rename can leave a thumbnail behind. Of the paths of such a
//! notification, those inside the cache itself are passed over, so that the
//! purger's own deletions are not taken up again, and so are those whose
//! extension no installed thumbnailer handles.

use crate::extensions::{matches_ignoring_case, ExtensionSet};
use crate::path::{extension, path_extension, path_starts_with, starts_with};
use crate::text::{utf8_text, views};
use vstd::prelude::*;
use vstd::utf8::{decode_utf8, valid_utf8};

verus! {

/// What a modification changed.
#[derive(Clone, Copy, PartialEq, Eq, Structural, Debug)]
pub enum ModifyKind {
    /// Not known.
    Any,
    /// The content of the file.
    Data,
    /// Permissions, times or other metadata.
    Metadata,
    /// The name: the file was renamed or moved.
    Name,
    /// Something else.
    Other,
}

/// The kind of change that a notification reports.
#[derive(Clone, Copy, PartialEq, Eq, Structural, Debug)]
pub enum ChangeKind {
    /// Not known.
    Any,
    /// The file was opened, read or closed.
    Access,
    /// The file was created.
    Create,
    /// The file was modified.
    Modify(ModifyKind),
    /// The file was removed.
    Remove,
    /// Something else.
    Other,
}

impl ChangeKind {
    /// Whether a change of this kind can leave a thumbnail behind: a removal
    /// or a rename.
    pub open spec fn calls_for_purge(self) -> bool {
        self == ChangeKind::Remove || self == ChangeKind::Modify(ModifyKind::Name)
    }

    /// Whether this is a removal or a rename.
    pub fn is_removal_or_rename(self) -> (purge: bool)
        ensures
            purge == self.calls_for_purge(),
    {
        match self {
            ChangeKind::Remove => true,
            ChangeKind::Modify(ModifyKind::Name) => true,
            _ => false,
        }
    }
}

/// One change notification.
#[derive(Debug, PartialEq, Eq)]
pub struct ChangeEvent {
    /// What happened.
    pub kind: ChangeKind,
    /// The paths it happened to. A rename may carry the old and the new path.
    pub paths: Vec<Vec<u8>>,
}

/// Whether some thumbnailer handles files named like `path`: the path has an
/// extension, the extension is text, and it matches a member of `exts`
/// without regard to case.
pub open spec fn is_candidate(path: Seq<u8>, exts: Set<Seq<char>>) -> bool {
    match extension(path) {
        Some(ext) => valid_utf8(ext) && matches_ignoring_case(exts, decode_utf8(ext)),
        None => false,
    }
}

/// Whether a purge is due for `path`: it lies outside the cache and is a
/// candidate.
pub open spec fn qualifies(path: Seq<u8>, cache_dir: Seq<u8>, exts: Set<Seq<char>>) -> bool {
    !starts_with(path, cache_dir) && is_candidate(path, exts)
}

/// The paths of a notification for which a purge is due, in their order.
pub open spec fn paths_to_purge(
    kind: ChangeKind,
    paths: Seq<Seq<u8>>,
    cache_dir: Seq<u8>,
    exts: Set<Seq<char>>,
) -> Seq<Seq<u8>> {
    if kind.calls_for_purge() {
        paths.filter(|path: Seq<u8>| qualifies(path, cache_dir, exts))
    } else {
        Seq::empty()
    }
}

/// A path is purged exactly when the notification is a removal or a rename,
/// carries the path, and the path qualifies.
pub proof fn lemma_purged_paths(
    kind: ChangeKind,
    paths: Seq<Seq<u8>>,
    cache_dir: Seq<u8>,
    exts: Set<Seq<char>>,
    path: Seq<u8>,
)
    ensures
        paths_to_purge(kind, paths, cache_dir, exts).contains(path) <==> kind.calls_for_purge()
            && paths.contains(path) && qualifies(path, cache_dir, exts),
{
    let due = |p: Seq<u8>| qualifies(p, cache_dir, exts);
    if kind.calls_for_purge() && paths.filter(due).contains(path) {
        paths.lemma_filter_contains_rev(due, path);
    }
}

/// No path inside the cache is purged, whatever the kind of the notification
/// and whatever the path's extension.
pub proof fn lemma_cache_paths_rejected(
    kind: ChangeKind,
    paths: Seq<Seq<u8>>,
    cache_dir: Seq<u8>,
    exts: Set<Seq<char>>,
    path: Seq<u8>,
)
    requires
        starts_with(path, cache_dir),
    ensures
        !paths_to_purge(kind, paths, cache_dir, exts).contains(path),
{
}

/// No path without an extension is purged.
pub proof fn lemma_extensionless_rejected(
    kind: ChangeKind,
    paths: Seq<Seq<u8>>,
    cache_dir: Seq<u8>,
    exts: Set<Seq<char>>,
    path: Seq<u8>,
)
    requires
        extension(path) is None,
    ensures
        !paths_to_purge(kind, paths, cache_dir, exts).contains(path),
{
}

/// A notification that is neither a removal nor a rename purges nothing; a
/// removal and a rename purge the same paths, and among them every path of
/// the notification that qualifies.
pub proof fn lemma_kind_decides(
    kind: ChangeKind,
    paths: Seq<Seq<u8>>,
    cache_dir: Seq<u8>,
    exts: Set<Seq<char>>,
)
    ensures
        !kind.calls_for_purge() ==> paths_to_purge(kind, paths, cache_dir, exts)
            == Seq::<Seq<u8>>::empty(),
        paths_to_purge(ChangeKind::Remove, paths, cache_dir, exts) == paths_to_purge(
            ChangeKind::Modify(ModifyKind::Name),
            paths,
            cache_dir,
            exts,
        ),
        forall|path: Seq<u8>|
            paths.contains(path) && qualifies(path, cache_dir, exts) ==> #[trigger] paths_to_purge(
                ChangeKind::Remove,
                paths,
                cache_dir,
                exts,
            ).contains(path),
{
}

/// Each path of a notification is judged by itself: what is purged of two
/// lists of paths in a row is what is purged of the first, followed by what
/// is purged of the second.
pub proof fn lemma_paths_judged_alone(
    kind: ChangeKind,
    first: Seq<Seq<u8>>,
    second: Seq<Seq<u8>>,
    cache_dir: Seq<u8>,
    exts: Set<Seq<char>>,
)
    ensures
        paths_to_purge(kind, first + second, cache_dir, exts) == paths_to_purge(
            kind,
            first,
            cache_dir,
            exts,
        ) + paths_to_purge(kind, second, cache_dir, exts),
{
}

/// Whether some installed thumbnailer handles files named like `path`.
pub fn is_thumbnail_candidate(path: &[u8], valid_exts: &ExtensionSet) -> (candidate: bool)
    ensures
        candidate == is_candidate(path@, valid_exts@),
{
    let ext = match path_extension(path) {
        Some(ext) => ext,
        None => { return false; },
    };
    match utf8_text(ext.as_slice()) {
        Some(text) => valid_exts.contains_ignoring_case(text),
        None => false,
    }
}

/// Whether `path` lies inside the cache directory.
pub fn is_in_thumbnail_cache(path: &[u8], cache_dir: &[u8]) -> (inside: bool)
    ensures
        inside == starts_with(path@, cache_dir@),
{
    path_starts_with(path, cache_dir)
}

/// The paths of a notification for which a purge is due, in their order.
pub fn classify(event: &ChangeEvent, cache_dir: &[u8], valid_exts: &ExtensionSet) -> (due: Vec<
    Vec<u8>,
>)
    ensures
        views(due@) == paths_to_purge(event.kind, views(event.paths@), cache_dir@, valid_exts@),
{
    let mut due: Vec<Vec<u8>> = Vec::new();
    if !event.kind.is_removal_or_rename() {
        return due;
    }
    let ghost wanted = |path: Seq<u8>| qualifies(path, cache_dir@, valid_exts@);
    let mut i: usize = 0;
    while i < event.paths.len()
        invariant
            i <= event.paths.len(),
            wanted == |path: Seq<u8>| qualifies(path, cache_dir@, valid_exts@),
            views(due@) == views(event.paths@).take(i as int).filter(wanted),
        decreases event.paths.len() - i,
    {
        let path = &event.paths[i];
        proof {
            assert(views(event.paths@).take(i + 1).drop_last() =~= views(event.paths@).take(
                i as int,
            ));
            reveal(Seq::filter);
        }
        if !is_in_thumbnail_cache(path.as_slice(), cache_dir) && is_thumbnail_candidate(
            path.as_slice(),
            valid_exts,
        ) {
            due.push(path.clone());
        }
        i += 1;
    }
    assert(views(event.paths@).take(i as int) =~= views(event.paths@));
    due
}

} // verus!
