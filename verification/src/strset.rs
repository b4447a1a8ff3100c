use vstd::prelude::*;
use crate::text::str_eq;

verus! {

/// The characters of each string in `v`, in order.
pub open spec fn string_views(v: Seq<String>) -> Seq<Seq<char>> {
    v.map_values(|s: String| s@)
}

/// A finite set of strings, kept in insertion order without repeats.
#[derive(Debug)]
pub struct StringSet {
    items: Vec<String>,
}

impl View for StringSet {
    type V = Set<Seq<char>>;

    closed spec fn view(&self) -> Set<Seq<char>> {
        string_views(self.items@).to_set()
    }
}

impl StringSet {
    /// The strings of the set in the order they were added.
    pub closed spec fn order(&self) -> Seq<Seq<char>> {
        string_views(self.items@)
    }

    /// No string is held twice.
    #[verifier::type_invariant]
    closed spec fn no_repeats(&self) -> bool {
        string_views(self.items@).no_duplicates()
    }

    /// The empty set.
    pub fn new() -> (r: StringSet)
        ensures
            r@ == Set::<Seq<char>>::empty(),
            r.order() == Seq::<Seq<char>>::empty(),
    {
        let r = StringSet { items: Vec::new() };
        assert(r.order() =~= Seq::<Seq<char>>::empty());
        assert(string_views(r.items@).to_set() =~= Set::<Seq<char>>::empty());
        r
    }

    /// Whether `s` is in the set.
    pub fn contains(&self, s: &str) -> (r: bool)
        ensures
            r == self@.contains(s@),
    {
        let mut i: usize = 0;
        while i < self.items.len()
            invariant
                i <= self.items@.len(),
                forall|j: int| 0 <= j < i ==> self.items@[j]@ != s@,
            decreases self.items@.len() - i,
        {
            if str_eq(self.items[i].as_str(), s) {
                assert(string_views(self.items@)[i as int] == s@);
                return true;
            }
            i = i + 1;
        }
        assert forall|j: int| 0 <= j < string_views(self.items@).len() implies string_views(
            self.items@,
        )[j] != s@ by {}
        false
    }

    /// Adds `s`; true when it was not already in the set.
    pub fn insert(&mut self, s: &str) -> (added: bool)
        ensures
            final(self)@ == old(self)@.insert(s@),
            added == !old(self)@.contains(s@),
            final(self).order() == if added {
                old(self).order().push(s@)
            } else {
                old(self).order()
            },
    {
        proof {
            use_type_invariant(&*self);
        }
        if self.contains(s) {
            assert(self@.insert(s@) =~= self@);
            false
        } else {
            let ghost before = string_views(self.items@);
            let mut items: Vec<String> = Vec::new();
            std::mem::swap(&mut items, &mut self.items);
            items.push(String::from_str(s));
            assert(string_views(items@) =~= before.push(s@));
            proof {
                before.lemma_push_to_set_commute(s@);
            }
            std::mem::swap(&mut items, &mut self.items);
            true
        }
    }

    /// The strings of the set, each once, in the order they were added.
    pub fn items(&self) -> (r: &Vec<String>)
        ensures
            string_views(r@) == self.order(),
            string_views(r@).to_set() == self@,
            string_views(r@).no_duplicates(),
    {
        proof {
            use_type_invariant(self);
        }
        &self.items
    }

    /// A copy of the set, in the same order.
    pub fn duplicate(&self) -> (r: StringSet)
        ensures
            r@ == self@,
            r.order() == self.order(),
    {
        proof {
            use_type_invariant(self);
        }
        let mut items: Vec<String> = Vec::new();
        let mut i: usize = 0;
        while i < self.items.len()
            invariant
                i <= self.items@.len(),
                items@ == self.items@.take(i as int),
            decreases self.items@.len() - i,
        {
            items.push(self.items[i].clone());
            i = i + 1;
            assert(items@ =~= self.items@.take(i as int));
        }
        assert(items@ =~= self.items@);
        StringSet { items }
    }

    /// Number of strings in the set.
    pub fn len(&self) -> (n: usize)
        ensures
            n == self@.len(),
    {
        proof {
            use_type_invariant(self);
            string_views(self.items@).unique_seq_to_set();
        }
        self.items.len()
    }
}

} // verus!
