//! A set of texts that also remembers the order in which they came.

use vstd::hash_set::StringHashSet;
use vstd::prelude::*;

use crate::text::texts;

verus! {

/// A set of texts.
pub struct TextSet {
    members: StringHashSet,
    listed: Vec<String>,
}

impl View for TextSet {
    type V = Set<Seq<char>>;

    closed spec fn view(&self) -> Set<Seq<char>> {
        self.members@
    }
}

impl TextSet {
    /// The list holds the members, each once.
    #[verifier::type_invariant]
    spec fn well_formed(self) -> bool {
        &&& texts(self.listed@).to_set() == self.members@
        &&& texts(self.listed@).no_duplicates()
    }

    /// The members in the order in which they came.
    pub closed spec fn in_order(self) -> Seq<Seq<char>> {
        texts(self.listed@)
    }

    /// The empty set.
    pub fn new() -> (set: Self)
        ensures
            set@ == Set::<Seq<char>>::empty(),
            set.in_order() == Seq::<Seq<char>>::empty(),
    {
        let listed: Vec<String> = Vec::new();
        let members = StringHashSet::new();
        assert(texts(listed@) =~= Seq::<Seq<char>>::empty());
        assert(texts(listed@).to_set() =~= members@);
        TextSet { members, listed }
    }

    /// Adds a text. Says whether it is new to the set.
    pub fn insert(&mut self, text: String) -> (new: bool)
        ensures
            final(self)@ == old(self)@.insert(text@),
            new == !old(self)@.contains(text@),
            final(self).in_order() == if new {
                old(self).in_order().push(text@)
            } else {
                old(self).in_order()
            },
    {
        proof {
            use_type_invariant(&*self);
        }
        let mut whole = TextSet::new();
        std::mem::swap(self, &mut whole);
        let TextSet { mut members, mut listed } = whole;
        let ghost before = texts(listed@);
        let copy = text.clone();
        let new = members.insert(text);
        if new {
            listed.push(copy);
        }
        proof {
            if new {
                assert(texts(listed@) =~= before.push(text@));
                before.lemma_push_to_set_commute(text@);
                assert(!before.to_set().contains(text@));
                assert(!before.contains(text@));
            } else {
                assert(before.to_set().insert(text@) =~= before.to_set());
            }
        }
        *self = TextSet { members, listed };
        new
    }

    /// Whether `text` is in the set.
    pub fn contains(&self, text: &str) -> (found: bool)
        ensures
            found == self@.contains(text@),
    {
        self.members.contains(text)
    }

    /// The members in the order in which they came, each once.
    pub fn list(&self) -> (list: &Vec<String>)
        ensures
            texts(list@) == self.in_order(),
            self.in_order().to_set() == self@,
            self.in_order().no_duplicates(),
    {
        proof {
            use_type_invariant(self);
        }
        &self.listed
    }
}

} // verus!
