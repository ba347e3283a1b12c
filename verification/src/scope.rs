//! Scopes: names bound to values, one binding per name, the last write
//! winning. A scope keeps its bindings in the order in which their names
//! were first bound, so that what it hands out does not depend on chance.

use vstd::prelude::*;

verus! {

/// The mapping that a list of bindings stands for. Where a name occurs more
/// than once, the later binding wins.
pub open spec fn bindings_map<V>(s: Seq<(Seq<char>, V)>) -> Map<Seq<char>, V>
    decreases s.len(),
{
    if s.len() == 0 {
        Map::empty()
    } else {
        bindings_map(s.drop_last()).insert(s.last().0, s.last().1)
    }
}

/// No name is bound twice.
pub open spec fn names_distinct<V>(s: Seq<(Seq<char>, V)>) -> bool {
    forall|i: int, j: int| 0 <= i < j < s.len() ==> s[i].0 != s[j].0
}

/// Where `name` is first bound in `s`, or `s.len()` where it is not bound.
pub open spec fn index_of<V>(s: Seq<(Seq<char>, V)>, name: Seq<char>) -> int
    decreases s.len(),
{
    if s.len() == 0 {
        0
    } else {
        let k = index_of(s.drop_last(), name);
        if k < s.len() - 1 {
            k
        } else if s.last().0 == name {
            s.len() - 1
        } else {
            s.len() as int
        }
    }
}

/// `s` after `name` is bound to `value`: the binding takes the place of an
/// earlier one of that name, or comes last where there was none.
pub open spec fn bind<V>(s: Seq<(Seq<char>, V)>, name: Seq<char>, value: V) -> Seq<
    (Seq<char>, V),
> {
    let k = index_of(s, name);
    if k < s.len() {
        s.update(k, (name, value))
    } else {
        s.push((name, value))
    }
}

/// `s` after each binding of `more` is bound in turn.
pub open spec fn bind_all<V>(s: Seq<(Seq<char>, V)>, more: Seq<(Seq<char>, V)>) -> Seq<
    (Seq<char>, V),
>
    decreases more.len(),
{
    if more.len() == 0 {
        s
    } else {
        bind(bind_all(s, more.drop_last()), more.last().0, more.last().1)
    }
}

/// Bindings as they are held and handed out, seen with their names as
/// plain text.
pub open spec fn named<V>(s: Seq<(String, V)>) -> Seq<(Seq<char>, V)> {
    Seq::new(s.len(), |i: int| (s[i].0@, s[i].1))
}

/// `index_of` finds the first binding of the name: nothing before it binds
/// the name.
pub proof fn lemma_index_of<V>(s: Seq<(Seq<char>, V)>, name: Seq<char>)
    ensures
        0 <= index_of(s, name) <= s.len(),
        index_of(s, name) < s.len() ==> s[index_of(s, name)].0 == name,
        forall|j: int| 0 <= j < index_of(s, name) ==> s[j].0 != name,
    decreases s.len(),
{
    if s.len() > 0 {
        lemma_index_of(s.drop_last(), name);
        assert forall|j: int| 0 <= j < index_of(s, name) implies s[j].0 != name by {
            if j < s.len() - 1 {
                assert(s.drop_last()[j] == s[j]);
            }
        }
    }
}

/// A name is in the mapping exactly where some binding has it.
pub proof fn lemma_bindings_map<V>(s: Seq<(Seq<char>, V)>, name: Seq<char>)
    ensures
        bindings_map(s).contains_key(name) <==> index_of(s, name) < s.len(),
    decreases s.len(),
{
    if s.len() > 0 {
        lemma_bindings_map(s.drop_last(), name);
        lemma_index_of(s.drop_last(), name);
        lemma_index_of(s, name);
    }
}

/// The mapping gives the value of the last binding of a name.
pub proof fn lemma_bindings_map_last<V>(s: Seq<(Seq<char>, V)>, i: int)
    requires
        0 <= i < s.len(),
        forall|j: int| i < j < s.len() ==> s[j].0 != s[i].0,
    ensures
        bindings_map(s).contains_key(s[i].0),
        bindings_map(s)[s[i].0] == s[i].1,
    decreases s.len(),
{
    if i < s.len() - 1 {
        lemma_bindings_map_last(s.drop_last(), i);
    }
}

/// With one binding per name, the mapping gives each binding's value.
pub proof fn lemma_bindings_map_distinct<V>(s: Seq<(Seq<char>, V)>, i: int)
    requires
        names_distinct(s),
        0 <= i < s.len(),
    ensures
        bindings_map(s).contains_key(s[i].0),
        bindings_map(s)[s[i].0] == s[i].1,
        index_of(s, s[i].0) == i,
{
    lemma_bindings_map_last(s, i);
    lemma_index_of(s, s[i].0);
}

/// Binding a name keeps one binding per name and changes the mapping at
/// that name only.
pub proof fn lemma_bind<V>(s: Seq<(Seq<char>, V)>, name: Seq<char>, value: V)
    requires
        names_distinct(s),
    ensures
        names_distinct(bind(s, name, value)),
        bindings_map(bind(s, name, value)) == bindings_map(s).insert(name, value),
{
    let k = index_of(s, name);
    let t = bind(s, name, value);
    lemma_index_of(s, name);
    if k < s.len() {
        lemma_update_at(s, k, value);
    } else {
        assert(t.drop_last() =~= s);
    }
}

/// Replacing the value of a binding where it stands changes the mapping at
/// its name only, provided that no later binding has the name.
proof fn lemma_update_at<V>(s: Seq<(Seq<char>, V)>, k: int, value: V)
    requires
        0 <= k < s.len(),
        forall|j: int| k < j < s.len() ==> s[j].0 != s[k].0,
    ensures
        bindings_map(s.update(k, (s[k].0, value))) == bindings_map(s).insert(s[k].0, value),
    decreases s.len(),
{
    let name = s[k].0;
    let t = s.update(k, (name, value));
    if k == s.len() - 1 {
        assert(t.drop_last() =~= s.drop_last());
    } else {
        lemma_update_at(s.drop_last(), k, value);
        assert(t.drop_last() =~= s.drop_last().update(k, (name, value)));
    }
}

/// Binding a list of bindings in turn gives the mapping in which they
/// shadow what was bound before, and keeps one binding per name.
pub proof fn lemma_bind_all<V>(s: Seq<(Seq<char>, V)>, more: Seq<(Seq<char>, V)>)
    requires
        names_distinct(s),
    ensures
        names_distinct(bind_all(s, more)),
        bindings_map(bind_all(s, more)) == bindings_map(s).union_prefer_right(bindings_map(more)),
    decreases more.len(),
{
    if more.len() > 0 {
        lemma_bind_all(s, more.drop_last());
        lemma_bind(bind_all(s, more.drop_last()), more.last().0, more.last().1);
    }
}

/// What `index_of` finds in a prefix, it finds in the whole list.
proof fn lemma_index_of_prefix<V>(s: Seq<(Seq<char>, V)>, n: int, name: Seq<char>)
    requires
        0 <= n <= s.len(),
        index_of(s.take(n), name) < n,
    ensures
        index_of(s, name) == index_of(s.take(n), name),
    decreases s.len() - n,
{
    if n < s.len() {
        assert(s.take(n + 1).drop_last() =~= s.take(n));
        lemma_index_of_prefix(s, n + 1, name);
    } else {
        assert(s.take(n) =~= s);
    }
}

/// Names bound to values of one kind.
#[derive(Debug)]
pub struct Scope<V> {
    entries: Vec<(String, V)>,
}

impl<V> Scope<V> {
    /// The bindings, in the order in which their names were first bound.
    pub closed spec fn bindings(&self) -> Seq<(Seq<char>, V)> {
        named(self.entries@)
    }

    /// What holds of every scope: no name is bound twice.
    #[verifier::type_invariant]
    pub open spec fn one_binding_per_name(&self) -> bool {
        names_distinct(self.bindings())
    }

    /// The scope as a mapping from names to values.
    pub open spec fn view(&self) -> Map<Seq<char>, V> {
        bindings_map(self.bindings())
    }

    pub fn new() -> (r: Self)
        ensures
            r.bindings() == Seq::<(Seq<char>, V)>::empty(),
            r@ == Map::<Seq<char>, V>::empty(),
    {
        Scope { entries: Vec::new() }
    }

    /// A scope of the given bindings, bound in turn: among bindings of one
    /// name the last wins.
    pub fn from_bindings(bindings: Vec<(String, V)>) -> (r: Self)
        ensures
            r.bindings() == bind_all(Seq::<(Seq<char>, V)>::empty(), named(bindings@)),
            r@ == bindings_map(named(bindings@)),
    {
        let mut r = Scope::new();
        r.extend(bindings);
        r
    }

    /// A scope of bindings that bind no name twice, as they stand.
    pub(crate) fn from_distinct(bindings: Vec<(String, V)>) -> (r: Self)
        requires
            names_distinct(named(bindings@)),
        ensures
            r.bindings() == named(bindings@),
    {
        Scope { entries: bindings }
    }

    /// How many names are bound.
    pub fn len(&self) -> (r: usize)
        ensures
            r == self.bindings().len(),
    {
        self.entries.len()
    }

    /// Where `name` is bound, or the number of bindings where it is not.
    fn find(&self, name: &String) -> (r: usize)
        ensures
            r == index_of(self.bindings(), name@),
            r <= self.bindings().len(),
    {
        let ghost s = named(self.entries@);
        let mut i: usize = 0;
        while i < self.entries.len()
            invariant
                s == named(self.entries@),
                i <= self.entries@.len(),
                index_of(s.take(i as int), name@) == i,
            decreases self.entries@.len() - i,
        {
            proof {
                assert(s.take(i + 1).drop_last() =~= s.take(i as int));
            }
            if self.entries[i].0 == *name {
                proof {
                    lemma_index_of_prefix(s, i + 1, name@);
                }
                return i;
            }
            i += 1;
        }
        proof {
            assert(s.take(i as int) =~= s);
        }
        i
    }

    /// Binds `name` to `value`. An earlier binding of the name is replaced
    /// where it stands; no other binding changes.
    pub fn insert(&mut self, name: String, value: V)
        ensures
            final(self).bindings() == bind(old(self).bindings(), name@, value),
            final(self)@ == old(self)@.insert(name@, value),
    {
        proof {
            use_type_invariant(&*self);
            lemma_bind(named(self.entries@), name@, value);
        }
        let k = self.find(&name);
        let mut entries: Vec<(String, V)> = Vec::new();
        core::mem::swap(&mut entries, &mut self.entries);
        if k < entries.len() {
            entries.set(k, (name, value));
            assert(named(entries@) =~= bind(old(self).bindings(), name@, value));
        } else {
            entries.push((name, value));
            assert(named(entries@) =~= bind(old(self).bindings(), name@, value));
        }
        core::mem::swap(&mut entries, &mut self.entries);
    }

    /// Binds each of `more` in turn: they shadow what was bound before, and
    /// among themselves the later wins.
    pub fn extend(&mut self, more: Vec<(String, V)>)
        ensures
            final(self).bindings() == bind_all(old(self).bindings(), named(more@)),
            final(self)@ == old(self)@.union_prefer_right(bindings_map(named(more@))),
    {
        proof {
            use_type_invariant(&*self);
            lemma_bind_all(named(self.entries@), named(more@));
        }
        let ghost all = named(more@);
        for binding in it: more
            invariant
                all == named(it.seq()),
                self.bindings() == bind_all(old(self).bindings(), all.take(it.index() as int)),
        {
            proof {
                assert(all.take(it.index() + 1).drop_last() =~= all.take(it.index() as int));
            }
            self.insert(binding.0, binding.1);
        }
        proof {
            assert(all.take(all.len() as int) =~= all);
        }
    }

    /// The value bound to `name`, if the name is bound.
    pub fn get(&self, name: &str) -> (r: Option<&V>)
        ensures
            match r {
                Some(value) => self@.contains_key(name@) && *value == self@[name@],
                None => !self@.contains_key(name@),
            },
    {
        proof {
            use_type_invariant(self);
            lemma_bindings_map(named(self.entries@), name@);
            lemma_index_of(named(self.entries@), name@);
        }
        let key = String::from_str(name);
        let k = self.find(&key);
        if k < self.entries.len() {
            proof {
                lemma_bindings_map_distinct(named(self.entries@), k as int);
            }
            Some(&self.entries[k].1)
        } else {
            None
        }
    }

    /// The `i`-th binding, if there are that many.
    pub fn binding(&self, i: usize) -> (r: Option<(&String, &V)>)
        ensures
            match r {
                Some(b) => i < self.bindings().len() && b.0@ == self.bindings()[i as int].0 && *b.1
                    == self.bindings()[i as int].1,
                None => i >= self.bindings().len(),
            },
    {
        if i < self.entries.len() {
            Some((&self.entries[i].0, &self.entries[i].1))
        } else {
            None
        }
    }

    /// Hands the bindings out, one per name.
    pub fn into_bindings(self) -> (r: Vec<(String, V)>)
        ensures
            named(r@) == self.bindings(),
            names_distinct(named(r@)),
    {
        proof {
            use_type_invariant(&self);
        }
        self.entries
    }
}

} // verus!
