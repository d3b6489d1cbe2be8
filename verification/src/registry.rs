//! The registry of file extensions that installed thumbnailers can preview.
//!
//! A thumbnailer announces itself with a descriptor: a small sectioned
//! key-value file whose `Thumbnailer Entry` section lists, under `MimeType`,
//! the media types it handles, separated by semicolons. The registry folds the
//! extensions known for those media types into one set.

use crate::extensions::ExtensionSet;
use crate::path::{file_name, join, path_file_name, path_join};
use crate::split::{split_on, split_text};
use crate::text::{bytes_eq, utf8_text, views};
use vstd::prelude::*;
use vstd::slice::slice_to_vec;
use vstd::utf8::{decode_utf8, encode_utf8, valid_utf8};

verus! {

/// The directory that holds the descriptors installed for all users.
pub const SYSTEM_DESCRIPTOR_DIR: &'static str = "/usr/share/thumbnailers";

/// The directory under a user's data directory that holds their descriptors.
pub const USER_DESCRIPTOR_DIR: &'static str = "thumbnailers";

/// What the file name of a descriptor ends in.
pub const DESCRIPTOR_SUFFIX: &'static str = ".thumbnailer";

/// The section of a descriptor that describes the thumbnailer.
pub const DESCRIPTOR_SECTION: &'static str = "Thumbnailer Entry";

/// The key under which a descriptor lists its media types.
pub const MIME_TYPE_KEY: &'static str = "MimeType";

/// The character between two media types of a list.
pub const MIME_SEPARATOR: char = ';';

/// What one descriptor says of its thumbnailer.
#[derive(Debug, PartialEq, Eq)]
pub struct ThumbnailerDescriptor {
    /// The media types that the thumbnailer handles, in the order of the
    /// descriptor's list.
    pub mime_types: Vec<String>,
}

/// A parsed document of the `ini` crate.
#[verifier::external_type_specification]
#[verifier::external_body]
pub struct ExIni(ini::Ini);

/// What a parsed document holds in its named sections: for a section name and
/// a key, the first value of that key in the first section of that name.
pub uninterp spec fn ini_entries(document: ini::Ini) -> Map<(Seq<char>, Seq<char>), Seq<char>>;

/// What `Ini::load_from_str` makes of a text: the entries of the document, or
/// nothing where the text does not parse.
pub uninterp spec fn ini_document(text: Seq<char>) -> Option<
    Map<(Seq<char>, Seq<char>), Seq<char>>,
>;

/// Parses a text as a sectioned key-value document, by `Ini::load_from_str`.
///
/// Trusted: the document that comes back holds the entries that the parser
/// finds in the text, and none comes back where the parser reports an error.
#[verifier::external_body]
fn parse_ini(text: &str) -> (document: Option<ini::Ini>)
    ensures
        match document {
            Some(d) => ini_document(text@) == Some(ini_entries(d)),
            None => ini_document(text@) is None,
        },
{
    ini::Ini::load_from_str(text).ok()
}

/// Looks a key up in a named section, by `Ini::get_from`.
///
/// Trusted: the value that comes back is the entry of the document for that
/// section and key, and none comes back where the document has no such entry.
#[verifier::external_body]
fn ini_value<'a>(document: &'a ini::Ini, section: &str, key: &str) -> (value: Option<&'a str>)
    ensures
        match value {
            Some(v) => ini_entries(*document).contains_key((section@, key@)) && ini_entries(
                *document,
            )[(section@, key@)] == v@,
            None => !ini_entries(*document).contains_key((section@, key@)),
        },
{
    document.get_from(Some(section), key)
}

/// The extensions that `mime_guess` knows for a media type, in the order of
/// its table, or nothing where the type is unknown to it.
pub uninterp spec fn mime_extensions(mime: Seq<char>) -> Option<Seq<Seq<char>>>;

/// `mime_guess::get_mime_extensions_str` looks a media type up in the crate's
/// table; it reads no more than its argument and does not fail.
pub assume_specification[ mime_guess::get_mime_extensions_str ](mime_str: &str) -> (found: Option<
    &'static [&'static str],
>)
    ensures
        match found {
            Some(list) => mime_extensions(mime_str@) == Some(views(list@)),
            None => mime_extensions(mime_str@) is None,
        },
;

/// The directories to scan for descriptors, in order: the system-wide one,
/// then the one under the user's data directory.
pub open spec fn descriptor_dirs(data_dir: Seq<u8>) -> Seq<Seq<u8>> {
    seq![
        encode_utf8(SYSTEM_DESCRIPTOR_DIR@),
        join(data_dir, encode_utf8(USER_DESCRIPTOR_DIR@)),
    ]
}

/// Whether a directory entry is a descriptor: its file name ends in
/// `.thumbnailer`.
pub open spec fn is_descriptor(path: Seq<u8>) -> bool {
    match file_name(path) {
        Some(name) => encode_utf8(DESCRIPTOR_SUFFIX@).is_suffix_of(name),
        None => false,
    }
}

/// A descriptor's bytes without the byte-order mark that may precede them.
pub open spec fn strip_bom(content: Seq<u8>) -> Seq<u8> {
    if content.len() >= 3 && content[0] == 0xEF && content[1] == 0xBB && content[2] == 0xBF {
        content.skip(3)
    } else {
        content
    }
}

/// The text of a descriptor, where its bytes after the byte-order mark are
/// well-formed UTF-8.
pub open spec fn descriptor_text(content: Seq<u8>) -> Option<Seq<char>> {
    if valid_utf8(strip_bom(content)) {
        Some(decode_utf8(strip_bom(content)))
    } else {
        None
    }
}

/// The media-type list of a descriptor: the value of `MimeType` in its
/// `Thumbnailer Entry` section. A descriptor that is no text, does not parse
/// or has no such entry has none.
pub open spec fn mime_list_of(content: Seq<u8>) -> Option<Seq<char>> {
    match descriptor_text(content) {
        Some(text) => match ini_document(text) {
            Some(entries) => if entries.contains_key((DESCRIPTOR_SECTION@, MIME_TYPE_KEY@)) {
                Some(entries[(DESCRIPTOR_SECTION@, MIME_TYPE_KEY@)])
            } else {
                None
            },
            None => None,
        },
        None => None,
    }
}

/// The media types named in a list: its pieces between semicolons, without
/// the empty ones.
pub open spec fn mime_tokens(list: Seq<char>) -> Seq<Seq<char>> {
    split_on(list, MIME_SEPARATOR).filter(|token: Seq<char>| token.len() > 0)
}

/// The extensions known for one media type.
pub open spec fn extensions_for(mime: Seq<char>) -> Set<Seq<char>> {
    match mime_extensions(mime) {
        Some(list) => list.to_set(),
        None => Set::empty(),
    }
}

/// The extensions known for any of several media types.
pub open spec fn extensions_for_all(mimes: Seq<Seq<char>>) -> Set<Seq<char>>
    decreases mimes.len(),
{
    if mimes.len() == 0 {
        Set::empty()
    } else {
        extensions_for_all(mimes.drop_last()).union(extensions_for(mimes.last()))
    }
}

/// The media types that a descriptor declares, where it has a media-type
/// list.
pub open spec fn declared_mime_types(content: Seq<u8>) -> Option<Seq<Seq<char>>> {
    match mime_list_of(content) {
        Some(list) => Some(mime_tokens(list)),
        None => None,
    }
}

/// The extensions that one descriptor declares support for.
pub open spec fn descriptor_extensions(content: Seq<u8>) -> Set<Seq<char>> {
    match mime_list_of(content) {
        Some(list) => extensions_for_all(mime_tokens(list)),
        None => Set::empty(),
    }
}

/// The extensions that any of several descriptors declares support for.
pub open spec fn supported_extensions(descriptors: Seq<Seq<u8>>) -> Set<Seq<char>>
    decreases descriptors.len(),
{
    if descriptors.len() == 0 {
        Set::empty()
    } else {
        supported_extensions(descriptors.drop_last()).union(
            descriptor_extensions(descriptors.last()),
        )
    }
}

/// The directories to scan for descriptors. Without a data directory, pass
/// an empty `data_dir`.
pub fn descriptor_dirs_of(data_dir: &[u8]) -> (dirs: Vec<Vec<u8>>)
    ensures
        views(dirs@) == descriptor_dirs(data_dir@),
{
    let mut dirs: Vec<Vec<u8>> = Vec::new();
    dirs.push(slice_to_vec(SYSTEM_DESCRIPTOR_DIR.as_bytes()));
    dirs.push(path_join(data_dir, USER_DESCRIPTOR_DIR.as_bytes()));
    dirs
}

/// Whether a directory entry is a descriptor.
pub fn is_descriptor_file(path: &[u8]) -> (descriptor: bool)
    ensures
        descriptor == is_descriptor(path@),
{
    let name = match path_file_name(path) {
        Some(name) => name,
        None => { return false; },
    };
    let suffix = DESCRIPTOR_SUFFIX.as_bytes();
    if name.len() < suffix.len() {
        return false;
    }
    let tail = vstd::slice::slice_subrange(name.as_slice(), name.len() - suffix.len(), name.len());
    bytes_eq(tail, suffix)
}

/// Drops the byte-order mark from the front of a descriptor, if it has one.
pub fn without_bom(content: &[u8]) -> (body: &[u8])
    ensures
        body@ == strip_bom(content@),
{
    if content.len() >= 3 && content[0] == 0xEF && content[1] == 0xBB && content[2] == 0xBF {
        vstd::slice::slice_subrange(content, 3, content.len())
    } else {
        content
    }
}

/// Reads the media-type list out of a descriptor.
pub fn descriptor_mime_list(content: &[u8]) -> (list: Option<String>)
    ensures
        match list {
            Some(l) => mime_list_of(content@) == Some(l@),
            None => mime_list_of(content@) is None,
        },
{
    let text = match utf8_text(without_bom(content)) {
        Some(text) => text,
        None => { return None; },
    };
    let document = match parse_ini(text) {
        Some(document) => document,
        None => { return None; },
    };
    match ini_value(&document, DESCRIPTOR_SECTION, MIME_TYPE_KEY) {
        Some(value) => Some(value.to_owned()),
        None => None,
    }
}

/// Cuts a media-type list into the media types it names.
pub fn split_mime_list(list: &str) -> (tokens: Vec<String>)
    ensures
        views(tokens@) == mime_tokens(list@),
{
    let parts = split_text(list, MIME_SEPARATOR);
    let ghost keep = |token: Seq<char>| token.len() > 0;
    let mut tokens: Vec<String> = Vec::new();
    let mut i: usize = 0;
    while i < parts.len()
        invariant
            i <= parts.len(),
            views(parts@) == split_on(list@, MIME_SEPARATOR),
            keep == |token: Seq<char>| token.len() > 0,
            views(tokens@) == views(parts@).take(i as int).filter(keep),
        decreases parts.len() - i,
    {
        proof {
            assert(views(parts@).take(i + 1).drop_last() =~= views(parts@).take(i as int));
            reveal(Seq::filter);
        }
        if !parts[i].as_str().is_empty() {
            tokens.push(parts[i].clone());
        }
        i += 1;
    }
    assert(views(parts@).take(i as int) =~= views(parts@));
    tokens
}

/// Reads a descriptor. A descriptor that is no text, does not parse or has no
/// media-type list gives nothing.
pub fn parse_descriptor(content: &[u8]) -> (descriptor: Option<ThumbnailerDescriptor>)
    ensures
        match descriptor {
            Some(d) => declared_mime_types(content@) == Some(views(d.mime_types@)),
            None => declared_mime_types(content@) is None,
        },
{
    match descriptor_mime_list(content) {
        Some(list) => Some(ThumbnailerDescriptor { mime_types: split_mime_list(list.as_str()) }),
        None => None,
    }
}

/// Adds every extension of a list to the set.
pub fn add_extensions(set: &mut ExtensionSet, exts: &[&str])
    ensures
        final(set)@ == old(set)@.union(views(exts@).to_set()),
{
    let mut i: usize = 0;
    while i < exts.len()
        invariant
            i <= exts.len(),
            set@ == old(set)@.union(views(exts@).take(i as int).to_set()),
        decreases exts.len() - i,
    {
        let ghost seen = views(exts@).take(i as int);
        proof {
            assert(views(exts@).take(i + 1) =~= seen.push(exts@[i as int]@));
            seen.lemma_push_to_set_commute(exts@[i as int]@);
        }
        set.insert(exts[i].to_owned());
        i += 1;
    }
    assert(views(exts@).take(i as int) =~= views(exts@));
}

/// Adds the extensions known for one media type to the set.
pub fn add_mime_type(set: &mut ExtensionSet, mime: &str)
    ensures
        final(set)@ == old(set)@.union(extensions_for(mime@)),
{
    match mime_guess::get_mime_extensions_str(mime) {
        Some(exts) => add_extensions(set, exts),
        None => {},
    }
}

/// Adds the extensions known for each of several media types to the set.
pub fn add_mime_types(set: &mut ExtensionSet, mimes: &Vec<String>)
    ensures
        final(set)@ == old(set)@.union(extensions_for_all(views(mimes@))),
{
    let mut i: usize = 0;
    while i < mimes.len()
        invariant
            i <= mimes.len(),
            set@ == old(set)@.union(extensions_for_all(views(mimes@).take(i as int))),
        decreases mimes.len() - i,
    {
        proof {
            assert(views(mimes@).take(i + 1).drop_last() =~= views(mimes@).take(i as int));
        }
        add_mime_type(set, mimes[i].as_str());
        i += 1;
    }
    assert(views(mimes@).take(i as int) =~= views(mimes@));
}

/// Adds the extensions that one descriptor declares support for to the set.
///
/// A descriptor without a readable media-type list adds nothing.
pub fn add_descriptor(set: &mut ExtensionSet, content: &[u8])
    ensures
        final(set)@ == old(set)@.union(descriptor_extensions(content@)),
{
    match parse_descriptor(content) {
        Some(descriptor) => add_mime_types(set, &descriptor.mime_types),
        None => {},
    }
}

/// Builds the set of extensions that the given descriptors declare support
/// for. Each element of `descriptors` is the content of one descriptor file.
pub fn collect_supported_extensions(descriptors: &Vec<Vec<u8>>) -> (set: ExtensionSet)
    ensures
        set@ == supported_extensions(views(descriptors@)),
{
    let mut set = ExtensionSet::new();
    let mut i: usize = 0;
    while i < descriptors.len()
        invariant
            i <= descriptors.len(),
            set@ == supported_extensions(views(descriptors@).take(i as int)),
        decreases descriptors.len() - i,
    {
        proof {
            assert(views(descriptors@).take(i + 1).drop_last() =~= views(descriptors@).take(
                i as int,
            ));
        }
        add_descriptor(&mut set, descriptors[i].as_slice());
        i += 1;
    }
    assert(views(descriptors@).take(i as int) =~= views(descriptors@));
    set
}

} // verus!
