//! Which cache entries go when a file is gone.
//!
//! The cache keeps one subdirectory for each size of thumbnail. The entry of a
//! file in a subdirectory is named after the file's key, with the suffix
//! `.png`. A purge looks for the entry in every subdirectory and removes those
//! it finds; that an entry is missing is the common case and no fault.

use crate::cache_key::{compute_thumbnail_hash, thumbnail_key};
use crate::events::{lemma_cache_paths_rejected, paths_to_purge, ChangeKind};
use crate::path::{
    join, lemma_join_starts_with, lemma_starts_with_transitive, path_join, starts_with, SEPARATOR,
};
use crate::text::{bytes_eq, views};
use vstd::prelude::*;
use vstd::utf8::{encode_utf8, is_ascii_chars, is_ascii_chars_encode_utf8};

verus! {

/// The suffix of an entry's file name.
pub const ENTRY_SUFFIX: &'static str = ".png";

/// The directory under a user's home that holds their caches.
pub const CACHE_HOME: &'static str = ".cache";

/// The directory under the cache home that holds the thumbnails.
pub const THUMBNAIL_DIR: &'static str = "thumbnails";

/// A size of thumbnail that the cache holds.
#[derive(Clone, Copy, PartialEq, Eq, Structural, Debug)]
pub enum Variant {
    /// The regular size.
    Normal,
    /// The large size.
    Large,
}

impl Variant {
    /// The name of the variant's subdirectory.
    pub open spec fn dir_name(self) -> Seq<char> {
        match self {
            Variant::Normal => "normal"@,
            Variant::Large => "large"@,
        }
    }

    /// The name of the variant's subdirectory.
    pub fn name(self) -> (name: &'static str)
        ensures
            name@ == self.dir_name(),
    {
        match self {
            Variant::Normal => "normal",
            Variant::Large => "large",
        }
    }
}

/// The thumbnail cache of the user whose home directory is `home`.
pub open spec fn cache_root(home: Seq<u8>) -> Seq<u8> {
    join(join(home, encode_utf8(CACHE_HOME@)), encode_utf8(THUMBNAIL_DIR@))
}

/// The file name of the entry with the given key.
pub open spec fn entry_name(key: Seq<char>) -> Seq<u8> {
    encode_utf8(key) + encode_utf8(ENTRY_SUFFIX@)
}

/// The path of the entry with the given key in one variant's subdirectory.
pub open spec fn cache_entry(cache_dir: Seq<u8>, variant: Variant, key: Seq<char>) -> Seq<u8> {
    join(join(cache_dir, encode_utf8(variant.dir_name())), entry_name(key))
}

/// The paths of the entries with the given key, one for each variant.
pub open spec fn cache_entries(cache_dir: Seq<u8>, key: Seq<char>) -> Seq<Seq<u8>> {
    seq![
        cache_entry(cache_dir, Variant::Normal, key),
        cache_entry(cache_dir, Variant::Large, key),
    ]
}

/// The files left in a cache that held `files`, after a purge of `key` in
/// which every removal went through.
pub open spec fn after_purge(files: Set<Seq<u8>>, cache_dir: Seq<u8>, key: Seq<char>) -> Set<
    Seq<u8>,
> {
    files.difference(cache_entries(cache_dir, key).to_set())
}

/// A purge of a key that has no entry in the cache leaves the cache as it was.
pub proof fn lemma_purge_without_entries(files: Set<Seq<u8>>, cache_dir: Seq<u8>, key: Seq<char>)
    requires
        !files.contains(cache_entry(cache_dir, Variant::Normal, key)),
        !files.contains(cache_entry(cache_dir, Variant::Large, key)),
    ensures
        after_purge(files, cache_dir, key) == files,
{
    assert(after_purge(files, cache_dir, key) =~= files);
}

/// A purge removes the entries of its key in every variant and nothing else;
/// a second purge of the same key finds nothing left to remove.
pub proof fn lemma_purge_with_entries(files: Set<Seq<u8>>, cache_dir: Seq<u8>, key: Seq<char>)
    ensures
        !after_purge(files, cache_dir, key).contains(cache_entry(cache_dir, Variant::Normal, key)),
        !after_purge(files, cache_dir, key).contains(cache_entry(cache_dir, Variant::Large, key)),
        forall|f: Seq<u8>|
            files.contains(f) && f != cache_entry(cache_dir, Variant::Normal, key) && f
                != cache_entry(cache_dir, Variant::Large, key) ==> after_purge(
                files,
                cache_dir,
                key,
            ).contains(f),
        after_purge(after_purge(files, cache_dir, key), cache_dir, key) == after_purge(
            files,
            cache_dir,
            key,
        ),
{
    assert(after_purge(after_purge(files, cache_dir, key), cache_dir, key) =~= after_purge(
        files,
        cache_dir,
        key,
    ));
}

/// The entry of a key lies inside the cache, provided the key is plain ASCII
/// and does not begin with `/`.
pub proof fn lemma_entry_inside_cache(cache_dir: Seq<u8>, variant: Variant, key: Seq<char>)
    requires
        is_ascii_chars(key),
        key.len() > 0 ==> key[0] != '/',
    ensures
        starts_with(cache_entry(cache_dir, variant, key), cache_dir),
{
    reveal_strlit("normal");
    reveal_strlit("large");
    reveal_strlit(".png");
    let dir_name = encode_utf8(variant.dir_name());
    let name = entry_name(key);
    is_ascii_chars_encode_utf8(variant.dir_name());
    is_ascii_chars_encode_utf8(key);
    is_ascii_chars_encode_utf8(ENTRY_SUFFIX@);
    assert(name[0] != SEPARATOR);
    let dir = join(cache_dir, dir_name);
    lemma_join_starts_with(cache_dir, dir_name);
    lemma_join_starts_with(dir, name);
    lemma_starts_with_transitive(cache_entry(cache_dir, variant, key), dir, cache_dir);
}

/// The entries that a purge removes lie inside the cache, so that no
/// notification of their removal calls for a purge in turn.
pub proof fn lemma_purge_is_not_taken_up(
    kind: ChangeKind,
    paths: Seq<Seq<u8>>,
    cache_dir: Seq<u8>,
    exts: Set<Seq<char>>,
    path: Seq<u8>,
    variant: Variant,
)
    ensures
        starts_with(cache_entry(cache_dir, variant, thumbnail_key(path)), cache_dir),
        !paths_to_purge(kind, paths, cache_dir, exts).contains(
            cache_entry(cache_dir, variant, thumbnail_key(path)),
        ),
{
    let key = thumbnail_key(path);
    lemma_entry_inside_cache(cache_dir, variant, key);
    lemma_cache_paths_rejected(
        kind,
        paths,
        cache_dir,
        exts,
        cache_entry(cache_dir, variant, key),
    );
}

/// The thumbnail cache of the user whose home directory is `home`.
pub fn cache_root_of(home: &[u8]) -> (root: Vec<u8>)
    ensures
        root@ == cache_root(home@),
{
    let caches = path_join(home, CACHE_HOME.as_bytes());
    path_join(caches.as_slice(), THUMBNAIL_DIR.as_bytes())
}

/// The path of the entry with the given key in one variant's subdirectory.
pub fn cache_entry_path(cache_dir: &[u8], variant: Variant, hash: &str) -> (entry: Vec<u8>)
    ensures
        entry@ == cache_entry(cache_dir@, variant, hash@),
{
    let dir = path_join(cache_dir, variant.name().as_bytes());
    let mut name: Vec<u8> = Vec::new();
    name.extend_from_slice(hash.as_bytes());
    name.extend_from_slice(ENTRY_SUFFIX.as_bytes());
    path_join(dir.as_slice(), name.as_slice())
}

/// The entries that a purge of `hash` looks for and removes where it finds
/// them: one for each variant, the regular size first.
pub fn purge_thumbnail(hash: &str, cache_dir: &[u8]) -> (entries: Vec<Vec<u8>>)
    ensures
        views(entries@) == cache_entries(cache_dir@, hash@),
{
    let mut entries: Vec<Vec<u8>> = Vec::new();
    entries.push(cache_entry_path(cache_dir, Variant::Normal, hash));
    entries.push(cache_entry_path(cache_dir, Variant::Large, hash));
    entries
}

/// The cache entries to remove now that the file at `path` is gone.
pub fn handle_deleted(path: &[u8], cache_dir: &[u8]) -> (entries: Vec<Vec<u8>>)
    ensures
        views(entries@) == cache_entries(cache_dir@, thumbnail_key(path@)),
{
    let hash = compute_thumbnail_hash(path);
    purge_thumbnail(hash.as_str(), cache_dir)
}

/// Whether a byte string is one of a list.
pub fn contains_bytes(list: &Vec<Vec<u8>>, item: &[u8]) -> (found: bool)
    ensures
        found == views(list@).contains(item@),
{
    let mut i: usize = 0;
    while i < list.len()
        invariant
            i <= list.len(),
            forall|k: int| 0 <= k < i ==> views(list@)[k] != item@,
        decreases list.len() - i,
    {
        if bytes_eq(list[i].as_slice(), item) {
            assert(views(list@)[i as int] == item@);
            return true;
        }
        i += 1;
    }
    false
}

/// Carries a purge out on a listing of the cache: the files of `files` that
/// are no entry of `hash`, in their order.
pub fn purge_listing(files: &Vec<Vec<u8>>, hash: &str, cache_dir: &[u8]) -> (kept: Vec<Vec<u8>>)
    ensures
        views(kept@).to_set() == after_purge(views(files@).to_set(), cache_dir@, hash@),
        views(kept@) == views(files@).filter(
            |f: Seq<u8>| !cache_entries(cache_dir@, hash@).contains(f),
        ),
{
    let entries = purge_thumbnail(hash, cache_dir);
    let ghost stays = |f: Seq<u8>| !cache_entries(cache_dir@, hash@).contains(f);
    let mut kept: Vec<Vec<u8>> = Vec::new();
    let mut i: usize = 0;
    while i < files.len()
        invariant
            i <= files.len(),
            views(entries@) == cache_entries(cache_dir@, hash@),
            stays == |f: Seq<u8>| !cache_entries(cache_dir@, hash@).contains(f),
            views(kept@) == views(files@).take(i as int).filter(stays),
        decreases files.len() - i,
    {
        proof {
            assert(views(files@).take(i + 1).drop_last() =~= views(files@).take(i as int));
            reveal(Seq::filter);
        }
        if !contains_bytes(&entries, files[i].as_slice()) {
            kept.push(files[i].clone());
        }
        i += 1;
    }
    assert(views(files@).take(i as int) =~= views(files@));
    proof {
        let all = views(files@);
        assert forall|f: Seq<u8>| views(kept@).to_set().contains(f) implies after_purge(
            all.to_set(),
            cache_dir@,
            hash@,
        ).contains(f) by {
            all.lemma_filter_contains_rev(stays, f);
        }
        assert(views(kept@).to_set() =~= after_purge(all.to_set(), cache_dir@, hash@));
    }
    kept
}

} // verus!
