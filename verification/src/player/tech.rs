use vstd::prelude::*;
use crate::strset::{string_views, StringSet};

verus! {

/// The technologies the player has unlocked, by id.
#[derive(Debug)]
pub struct TechSet(StringSet);

impl View for TechSet {
    type V = Set<Seq<char>>;

    closed spec fn view(&self) -> Set<Seq<char>> {
        self.0@
    }
}

impl Default for TechSet {
    fn default() -> (t: TechSet)
        ensures
            t@ == Set::<Seq<char>>::empty(),
            t.order() == Seq::<Seq<char>>::empty(),
    {
        TechSet(StringSet::new())
    }
}

impl TechSet {
    /// The unlocked technologies in the order they were unlocked.
    pub closed spec fn order(&self) -> Seq<Seq<char>> {
        self.0.order()
    }

    /// Whether technology `id` is unlocked.
    pub fn has(&self, id: &str) -> (r: bool)
        ensures
            r == self@.contains(id@),
    {
        self.0.contains(id)
    }

    /// Unlocks technology `id` (unlocking it again changes nothing).
    pub fn unlock(&mut self, id: &str)
        ensures
            final(self)@ == old(self)@.insert(id@),
            final(self).order() == if old(self)@.contains(id@) {
                old(self).order()
            } else {
                old(self).order().push(id@)
            },
    {
        self.0.insert(id);
    }

    /// A copy of the set.
    pub fn duplicate(&self) -> (r: TechSet)
        ensures
            r@ == self@,
            r.order() == self.order(),
    {
        TechSet(self.0.duplicate())
    }

    /// The unlocked technologies, each once, in the order they were unlocked.
    pub fn all(&self) -> (r: &Vec<String>)
        ensures
            string_views(r@) == self.order(),
            string_views(r@).to_set() == self@,
            string_views(r@).no_duplicates(),
    {
        self.0.items()
    }
}

/// Unlocking makes a technology available and leaves every other one as it
/// was.
pub proof fn lemma_unlock_grants_only_that(techs: Set<Seq<char>>, id: Seq<char>, other: Seq<char>)
    ensures
        techs.insert(id).contains(id),
        other != id ==> (techs.insert(id).contains(other) == techs.contains(other)),
{
}

/// Unlocking twice is the same as unlocking once.
pub proof fn lemma_unlock_idempotent(techs: Set<Seq<char>>, id: Seq<char>)
    ensures
        techs.insert(id).insert(id) == techs.insert(id),
{
    assert(techs.insert(id).insert(id) =~= techs.insert(id));
}

} // verus!
