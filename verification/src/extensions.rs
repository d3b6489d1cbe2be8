//! The set of file extensions for which some thumbnailer is installed.

use crate::text::{lowercase_of, str_eq, to_lowercase, views};
use vstd::prelude::*;

verus! {

/// Whether a text matches some member of a set of extensions without regard
/// to case: the two have the same lowercase form.
pub open spec fn matches_ignoring_case(exts: Set<Seq<char>>, text: Seq<char>) -> bool {
    exists|member: Seq<char>| #[trigger]
        exts.contains(member) && lowercase_of(member) == lowercase_of(text)
}

/// Every member matches itself, and two texts with the same lowercase form
/// match the same sets.
pub proof fn lemma_match_ignores_case(exts: Set<Seq<char>>, first: Seq<char>, second: Seq<char>)
    ensures
        exts.contains(first) ==> matches_ignoring_case(exts, first),
        lowercase_of(first) == lowercase_of(second) ==> matches_ignoring_case(exts, first)
            == matches_ignoring_case(exts, second),
{
}

/// A set of extensions, each stored once.
///
/// Extensions are kept as given: without the leading dot, in whatever case the
/// source of the extension used.
#[derive(Debug)]
pub struct ExtensionSet {
    items: Vec<String>,
}

impl View for ExtensionSet {
    type V = Set<Seq<char>>;

    closed spec fn view(&self) -> Set<Seq<char>> {
        views(self.items@).to_set()
    }
}

impl ExtensionSet {
    #[verifier::type_invariant]
    spec fn well_formed(self) -> bool {
        views(self.items@).no_duplicates()
    }

    /// An empty set.
    pub fn new() -> (set: ExtensionSet)
        ensures
            set@ == Set::<Seq<char>>::empty(),
    {
        let set = ExtensionSet { items: Vec::new() };
        set
    }

    /// Whether `ext` is a member, compared character by character.
    pub fn contains(&self, ext: &str) -> (found: bool)
        ensures
            found == self@.contains(ext@),
    {
        let mut i: usize = 0;
        while i < self.items.len()
            invariant
                i <= self.items.len(),
                forall|k: int| 0 <= k < i ==> views(self.items@)[k] != ext@,
            decreases self.items.len() - i,
        {
            if str_eq(self.items[i].as_str(), ext) {
                assert(views(self.items@)[i as int] == ext@);
                return true;
            }
            i += 1;
        }
        false
    }

    /// Whether some member is `ext` but for the case of its letters. Both
    /// sides are put in lowercase for the comparison; the members stay as
    /// they are.
    pub fn contains_ignoring_case(&self, ext: &str) -> (found: bool)
        ensures
            found == matches_ignoring_case(self@, ext@),
    {
        let wanted = to_lowercase(ext);
        let mut i: usize = 0;
        while i < self.items.len()
            invariant
                i <= self.items.len(),
                wanted@ == lowercase_of(ext@),
                forall|k: int|
                    0 <= k < i ==> lowercase_of(#[trigger] views(self.items@)[k]) != lowercase_of(
                        ext@,
                    ),
            decreases self.items.len() - i,
        {
            let lower = to_lowercase(self.items[i].as_str());
            if str_eq(lower.as_str(), wanted.as_str()) {
                assert(self@.contains(views(self.items@)[i as int]));
                return true;
            }
            i += 1;
        }
        assert forall|member: Seq<char>| self@.contains(member) implies lowercase_of(member)
            != lowercase_of(ext@) by {
            let k = choose|k: int|
                0 <= k < views(self.items@).len() && views(self.items@)[k] == member;
            assert(lowercase_of(views(self.items@)[k]) != lowercase_of(ext@));
        }
        false
    }

    /// Adds `ext`; tells whether it was new.
    pub fn insert(&mut self, ext: String) -> (added: bool)
        ensures
            final(self)@ == old(self)@.insert(ext@),
            added == !old(self)@.contains(ext@),
    {
        proof {
            use_type_invariant(&*self);
        }
        if self.contains(ext.as_str()) {
            return false;
        }
        let ghost before = views(self.items@);
        let mut items: Vec<String> = Vec::new();
        std::mem::swap(&mut items, &mut self.items);
        items.push(ext);
        assert(views(items@) =~= before.push(ext@));
        self.items = items;
        proof {
            before.lemma_push_to_set_commute(ext@);
        }
        true
    }

    /// The number of extensions in the set.
    pub fn len(&self) -> (n: usize)
        ensures
            n == self@.len(),
            self@.finite(),
    {
        proof {
            use_type_invariant(self);
            views(self.items@).unique_seq_to_set();
        }
        self.items.len()
    }

    /// The members, each once.
    pub fn items(&self) -> (list: &Vec<String>)
        ensures
            views(list@).no_duplicates(),
            views(list@).to_set() == self@,
    {
        proof {
            use_type_invariant(self);
        }
        &self.items
    }
}

} // verus!
