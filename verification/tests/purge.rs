use thumbnail_purge::events::{ChangeEvent, ChangeKind, ModifyKind};
use thumbnail_purge::extensions::ExtensionSet;
use thumbnail_purge::purge::{
    cache_entry_path, cache_root_of, contains_bytes, handle_deleted, purge_listing,
    purge_thumbnail, Variant,
};
use thumbnail_purge::watch::{start, step, Reaction, Signal, WatchState};

const CACHE: &[u8] = b"/home/u/.cache/thumbnails";
const KEY_OF_A: &str = "0fb3e5ae9585de7c772a0049f49c3ca9";

fn entry(variant: &str, key: &str) -> Vec<u8> {
    format!("/home/u/.cache/thumbnails/{}/{}.png", variant, key).into_bytes()
}

#[test]
fn cache_root_lies_under_the_home_directory() {
    assert_eq!(cache_root_of(b"/home/u"), CACHE.to_vec());
    assert_eq!(cache_root_of(b"/home/u/"), CACHE.to_vec());
    assert_eq!(cache_root_of(b"/"), b"/.cache/thumbnails".to_vec());
    assert_eq!(cache_root_of(b""), b".cache/thumbnails".to_vec());
}

#[test]
fn entry_is_named_after_variant_and_key() {
    assert_eq!(cache_entry_path(CACHE, Variant::Normal, "abc"), entry("normal", "abc"));
    assert_eq!(cache_entry_path(CACHE, Variant::Large, "abc"), entry("large", "abc"));
    assert_eq!(cache_entry_path(b"/c/", Variant::Normal, "k"), b"/c/normal/k.png".to_vec());
    assert_eq!(cache_entry_path(b"", Variant::Large, ""), b"large/.png".to_vec());
    assert_eq!(Variant::Normal.name(), "normal");
    assert_eq!(Variant::Large.name(), "large");
}

#[test]
fn purge_looks_for_one_entry_in_each_variant() {
    assert_eq!(purge_thumbnail("abc", CACHE), vec![entry("normal", "abc"), entry("large", "abc")]);
    assert_eq!(
        purge_thumbnail(KEY_OF_A, b"/home/u/.cache/thumbnails/"),
        vec![entry("normal", KEY_OF_A), entry("large", KEY_OF_A)]
    );
}

#[test]
fn deleted_file_gives_the_entries_of_its_key() {
    assert_eq!(
        handle_deleted(b"/home/u/a.jpg", CACHE),
        vec![entry("normal", KEY_OF_A), entry("large", KEY_OF_A)]
    );
    assert_eq!(
        handle_deleted(b"/home/user/photo.jpg", CACHE),
        vec![
            entry("normal", "ae93eb3af87cf8cb077d50ab28c6eded"),
            entry("large", "ae93eb3af87cf8cb077d50ab28c6eded"),
        ]
    );
}

#[test]
fn purge_without_entries_deletes_nothing() {
    let files = vec![
        entry("normal", "0123456789abcdef0123456789abcdef"),
        entry("large", "fedcba9876543210fedcba9876543210"),
        b"/home/u/.cache/thumbnails/fail/other.png".to_vec(),
    ];
    assert_eq!(purge_listing(&files, KEY_OF_A, CACHE), files);
    assert_eq!(purge_listing(&Vec::new(), KEY_OF_A, CACHE), Vec::<Vec<u8>>::new());
    for target in purge_thumbnail(KEY_OF_A, CACHE) {
        assert!(!contains_bytes(&files, &target));
    }
}

#[test]
fn purge_with_both_entries_removes_both() {
    let other = entry("normal", "0123456789abcdef0123456789abcdef");
    let files = vec![
        entry("large", KEY_OF_A),
        other.clone(),
        entry("normal", KEY_OF_A),
        b"/home/u/a.jpg".to_vec(),
    ];
    let left = purge_listing(&files, KEY_OF_A, CACHE);
    assert_eq!(left, vec![other.clone(), b"/home/u/a.jpg".to_vec()]);
    let again = purge_listing(&left, KEY_OF_A, CACHE);
    assert_eq!(again, left);
}

#[test]
fn purge_with_one_entry_removes_that_one() {
    let files = vec![entry("large", KEY_OF_A), entry("large", "abc")];
    assert_eq!(purge_listing(&files, KEY_OF_A, CACHE), vec![entry("large", "abc")]);
    let files = vec![entry("normal", KEY_OF_A), entry("normal", KEY_OF_A)];
    assert_eq!(purge_listing(&files, KEY_OF_A, CACHE), Vec::<Vec<u8>>::new());
}

#[test]
fn listing_is_searched_by_content() {
    let files = vec![b"a".to_vec(), Vec::new(), b"\xff".to_vec()];
    assert!(contains_bytes(&files, b"a"));
    assert!(contains_bytes(&files, b""));
    assert!(contains_bytes(&files, b"\xff"));
    assert!(!contains_bytes(&files, b"b"));
    assert!(!contains_bytes(&Vec::new(), b""));
}

#[test]
fn removal_of_a_file_purges_its_thumbnail() {
    let mut exts = ExtensionSet::new();
    exts.insert("jpg".to_string());
    let other = entry("normal", "0123456789abcdef0123456789abcdef");
    let mut cache = vec![entry("normal", KEY_OF_A), other.clone()];

    let (state, reaction) = step(start(), &Signal::Subscribed, CACHE, &exts);
    assert_eq!(state, WatchState::Running);
    assert_eq!(reaction, Reaction::Wait);

    let removal = ChangeEvent { kind: ChangeKind::Remove, paths: vec![b"/home/u/a.jpg".to_vec()] };
    let (state, reaction) = step(state, &Signal::Change(removal), CACHE, &exts);
    assert_eq!(state, WatchState::Running);
    assert_eq!(reaction, Reaction::Purge(vec![b"/home/u/a.jpg".to_vec()]));
    if let Reaction::Purge(paths) = reaction {
        for path in paths {
            let targets = handle_deleted(&path, CACHE);
            assert_eq!(targets, vec![entry("normal", KEY_OF_A), entry("large", KEY_OF_A)]);
            cache = purge_listing(&cache, KEY_OF_A, CACHE);
        }
    }
    assert_eq!(cache, vec![other]);
    assert_eq!(exts.len(), 1);
    assert!(exts.contains("jpg"));
}

#[test]
fn rename_purges_the_thumbnails_of_the_paths_that_qualify() {
    let mut exts = ExtensionSet::new();
    exts.insert("jpg".to_string());
    let rename = ChangeEvent {
        kind: ChangeKind::Modify(ModifyKind::Name),
        paths: vec![b"/home/u/old.jpg".to_vec(), b"/home/u/new.txt".to_vec()],
    };
    let (state, reaction) = step(WatchState::Running, &Signal::Change(rename), CACHE, &exts);
    assert_eq!(state, WatchState::Running);
    assert_eq!(reaction, Reaction::Purge(vec![b"/home/u/old.jpg".to_vec()]));
    assert_eq!(
        handle_deleted(b"/home/u/old.jpg", CACHE),
        vec![
            entry("normal", "4712d9e69939411a2b4990403b7b3f7b"),
            entry("large", "4712d9e69939411a2b4990403b7b3f7b"),
        ]
    );
}

#[test]
fn entries_of_a_purge_call_for_no_further_purge() {
    let mut exts = ExtensionSet::new();
    exts.insert("png".to_string());
    exts.insert("jpg".to_string());
    for path in [&b"/home/u/a.jpg"[..], b"/home/u/b.png", b"", b"/tmp/\xff.png"] {
        let entries = handle_deleted(path, CACHE);
        assert_eq!(entries.len(), 2);
        for entry in &entries {
            assert!(thumbnail_purge::events::is_in_thumbnail_cache(entry, CACHE));
            assert!(thumbnail_purge::events::is_thumbnail_candidate(entry, &exts));
        }
        for kind in [ChangeKind::Remove, ChangeKind::Modify(ModifyKind::Name)] {
            let own = ChangeEvent { kind, paths: entries.clone() };
            let (state, reaction) = step(WatchState::Running, &Signal::Change(own), CACHE, &exts);
            assert_eq!(state, WatchState::Running);
            assert_eq!(reaction, Reaction::Wait);
        }
    }
}
