use vstd::prelude::*;

use crate::expr::{ExprType, TypeValue};

verus! {

/// The variables in scope and their types. A later binding of a name hides
/// an earlier one, as an insert into a map replaces the old value.
pub struct TypingContext<'a> {
    entries: Vec<(&'a String, &'a ExprType)>,
}

/// The map that a list of bindings denotes, later bindings winning.
pub open spec fn bindings_map<'a>(s: Seq<(&'a String, &'a ExprType)>) -> Map<Seq<char>, TypeValue>
    decreases s.len(),
{
    if s.len() == 0 {
        Map::empty()
    } else {
        bindings_map(s.drop_last()).insert(s.last().0@, s.last().1@)
    }
}

/// A name is bound exactly when some binding names it.
pub proof fn lemma_bindings_map_domain<'a>(s: Seq<(&'a String, &'a ExprType)>, key: Seq<char>)
    ensures
        bindings_map(s).contains_key(key) <==> exists|i: int| 0 <= i < s.len() && #[trigger] s[i].0@ == key,
    decreases s.len(),
{
    if s.len() > 0 {
        let t = s.drop_last();
        lemma_bindings_map_domain(t, key);
        if exists|i: int| 0 <= i < s.len() && #[trigger] s[i].0@ == key {
            let i = choose|i: int| 0 <= i < s.len() && #[trigger] s[i].0@ == key;
            if i < s.len() - 1 {
                assert(t[i].0@ == key);
            }
        }
        if bindings_map(t).contains_key(key) {
            let i = choose|i: int| 0 <= i < t.len() && #[trigger] t[i].0@ == key;
            assert(s[i].0@ == key);
        }
    }
}

/// A name is bound to the type of the last binding that names it.
pub proof fn lemma_bindings_map_last<'a>(s: Seq<(&'a String, &'a ExprType)>, key: Seq<char>, i: int)
    requires
        0 <= i < s.len(),
        s[i].0@ == key,
        forall|j: int| i < j < s.len() ==> #[trigger] s[j].0@ != key,
    ensures
        bindings_map(s).contains_key(key),
        bindings_map(s)[key] == s[i].1@,
    decreases s.len(),
{
    if i < s.len() - 1 {
        let t = s.drop_last();
        assert(s[s.len() - 1].0@ != key);
        assert forall|j: int| i < j < t.len() implies #[trigger] t[j].0@ != key by {
            assert(s[j].0@ != key);
        }
        lemma_bindings_map_last(t, key, i);
    }
}

impl<'a> View for TypingContext<'a> {
    type V = Map<Seq<char>, TypeValue>;

    closed spec fn view(&self) -> Map<Seq<char>, TypeValue> {
        bindings_map(self.entries@)
    }
}

impl<'a> TypingContext<'a> {
    /// The empty context.
    pub fn new() -> (c: Self)
        ensures
            c@ == Map::<Seq<char>, TypeValue>::empty(),
    {
        TypingContext { entries: Vec::new() }
    }

    /// Binds `name` to `ty`, hiding any earlier binding of `name`.
    pub fn insert(&mut self, name: &'a String, ty: &'a ExprType)
        ensures
            final(self)@ == old(self)@.insert(name@, ty@),
    {
        self.entries.push((name, ty));
        assert(self.entries@.drop_last() =~= old(self).entries@);
    }

    /// The type bound to `name`, if any.
    pub fn get(&self, name: &String) -> (r: Option<&'a ExprType>)
        ensures
            match r {
                Some(t) => self@.contains_key(name@) && self@[name@] == t@,
                None => !self@.contains_key(name@),
            },
    {
        let mut i = self.entries.len();
        while i > 0
            invariant
                i <= self.entries@.len(),
                forall|j: int| i <= j < self.entries@.len() ==> #[trigger] self.entries@[j].0@ != name@,
            decreases i,
        {
            i = i - 1;
            let (n, t) = self.entries[i];
            if *n == *name {
                proof {
                    lemma_bindings_map_last(self.entries@, name@, i as int);
                }
                return Some(t);
            }
        }
        proof {
            lemma_bindings_map_domain(self.entries@, name@);
        }
        None
    }

    /// A copy of the context with the same bindings.
    pub fn duplicate(&self) -> (c: Self)
        ensures
            c@ == self@,
    {
        let mut entries: Vec<(&'a String, &'a ExprType)> = Vec::new();
        let n = self.entries.len();
        for i in 0..n
            invariant
                n == self.entries@.len(),
                entries@ == self.entries@.subrange(0, i as int),
        {
            entries.push(self.entries[i]);
            assert(entries@ =~= self.entries@.subrange(0, i + 1));
        }
        assert(entries@ =~= self.entries@);
        TypingContext { entries }
    }
}

} // verus!
