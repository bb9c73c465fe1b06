//! The ability registry: a table from ability name to the constructor that
//! makes a fresh instance of that ability.
//!
//! The registry is generic over the constructor type, so that content can
//! register plain functions, closures, or boxed trait objects alike.

use vstd::prelude::*;

verus! {

/// Whether an ability acts on its target directly or changes a state.
#[derive(Clone, Copy, Debug, PartialEq, Eq, Structural)]
pub enum AbilityCategory {
    Attack,
    Status,
}

/// Why a registry operation failed.
#[derive(Clone, Copy, Debug, PartialEq, Eq, Structural)]
pub enum RegistryError {
    /// No constructor is registered under the name.
    NameNotFound,
    /// A constructor is already registered under the name.
    DuplicateName,
}

/// Ability name -> constructor. Names are unique.
pub struct AbilityMap<C> {
    names: Vec<String>,
    constructors: Vec<C>,
}

impl<C> AbilityMap<C> {
    closed spec fn name_seq(&self) -> Seq<Seq<char>> {
        self.names@.map_values(|s: String| s@)
    }

    closed spec fn slot(&self, name: Seq<char>) -> int {
        choose|i: int| 0 <= i < self.names@.len() && self.names@[i]@ == name
    }

    pub closed spec fn wf(&self) -> bool {
        &&& self.names@.len() == self.constructors@.len()
        &&& forall|i: int, j: int|
            0 <= i < self.names@.len() && 0 <= j < self.names@.len() && self.names@[i]@
                == self.names@[j]@ ==> i == j
    }

    /// The registered constructors, by name.
    pub closed spec fn view(&self) -> Map<Seq<char>, C> {
        Map::new(
            |k: Seq<char>| self.name_seq().contains(k),
            |k: Seq<char>| self.constructors@[self.slot(k)],
        )
    }

    /// An empty registry.
    pub fn new() -> (r: AbilityMap<C>)
        ensures
            r.wf(),
            r.view() == Map::<Seq<char>, C>::empty(),
    {
        let r = AbilityMap { names: Vec::new(), constructors: Vec::new() };
        assert(r.view() =~= Map::<Seq<char>, C>::empty());
        r
    }

    /// The index under which `name` is registered, if any.
    fn find(&self, name: &String) -> (r: Option<usize>)
        requires
            self.wf(),
        ensures
            match r {
                Some(i) => i < self.names@.len() && self.names@[i as int]@ == name@ && i
                    == self.slot(name@) && self.view().dom().contains(name@),
                None => !self.view().dom().contains(name@),
            },
    {
        let mut i: usize = 0;
        while i < self.names.len()
            invariant
                self.wf(),
                i <= self.names.len(),
                forall|j: int| 0 <= j < i ==> self.names@[j]@ != name@,
            decreases self.names.len() - i,
        {
            if self.names[i] == *name {
                assert(self.name_seq()[i as int] == name@);
                return Some(i);
            }
            i += 1;
        }
        assert(!self.name_seq().contains(name@)) by {
            if self.name_seq().contains(name@) {
                let j = choose|j: int| 0 <= j < self.name_seq().len() && self.name_seq()[j] == name@;
                assert(self.names@[j]@ == name@);
            }
        }
        None
    }

    /// Registers `constructor` under `name`.
    ///
    /// Fails with `DuplicateName`, changing nothing, when the name is taken.
    pub fn add_ability(&mut self, name: &str, constructor: C) -> (r: Result<(), RegistryError>)
        requires
            old(self).wf(),
        ensures
            final(self).wf(),
            old(self).view().dom().contains(name@) ==> r == Err::<(), RegistryError>(
                RegistryError::DuplicateName,
            ) && final(self).view() == old(self).view(),
            !old(self).view().dom().contains(name@) ==> r is Ok && final(self).view() == old(
                self,
            ).view().insert(name@, constructor),
    {
        let key = name.to_owned();
        match self.find(&key) {
            Some(_) => Err(RegistryError::DuplicateName),
            None => {
                let ghost before = *self;
                self.names.push(key);
                self.constructors.push(constructor);
                proof {
                    assert(self.name_seq() =~= before.name_seq().push(name@));
                    assert forall|i: int, j: int|
                        0 <= i < self.names@.len() && 0 <= j < self.names@.len()
                            && self.names@[i]@ == self.names@[j]@ implies i == j by {
                        let n = before.names@.len() as int;
                        if i < n && j == n {
                            assert(before.name_seq()[i] == name@);
                        } else if i == n && j < n {
                            assert(before.name_seq()[j] == name@);
                        }
                    }
                    assert forall|k: Seq<char>| #[trigger] self.name_seq().contains(k) && k
                        != name@ implies self.slot(k) == before.slot(k) && before.name_seq().contains(k) by {
                        let i = self.slot(k);
                        let w = choose|w: int| 0 <= w < self.name_seq().len() && self.name_seq()[w] == k;
                        assert(self.names@[w]@ == k);
                        assert(w < before.names@.len());
                        assert(before.names@[w]@ == k);
                        assert(before.name_seq()[w] == k);
                    }
                    assert(self.slot(name@) == before.names@.len()) by {
                        let n = before.names@.len() as int;
                        assert(self.names@[n]@ == name@);
                    }
                    let expected = before.view().insert(name@, constructor);
                    assert forall|k: Seq<char>| #[trigger] self.view().dom().contains(k)
                        == expected.dom().contains(k) by {
                        if before.name_seq().contains(k) {
                            let w = choose|w: int| 0 <= w < before.name_seq().len() && before.name_seq()[w] == k;
                            assert(self.name_seq()[w] == k);
                        }
                        if k == name@ {
                            assert(self.name_seq()[before.names@.len() as int] == k);
                        }
                    }
                    assert forall|k: Seq<char>| #[trigger] self.view().dom().contains(k)
                        implies self.view()[k] == expected[k] by {
                        if k != name@ {
                            assert(self.slot(k) == before.slot(k));
                            assert(before.slot(k) < before.names@.len()) by {
                                let w = choose|w: int| 0 <= w < before.name_seq().len() && before.name_seq()[w] == k;
                                assert(before.names@[w]@ == k);
                            }
                        }
                    }
                    assert(self.view() =~= expected);
                }
                Ok(())
            },
        }
    }

    /// Whether a constructor is registered under `name`.
    pub fn is_ability_name(&self, name: &str) -> (r: bool)
        requires
            self.wf(),
        ensures
            r == self.view().dom().contains(name@),
    {
        let key = name.to_owned();
        match self.find(&key) {
            Some(_) => true,
            None => false,
        }
    }

    /// A fresh instance from the constructor registered under `name`.
    ///
    /// Fails with `NameNotFound` when no constructor is registered under it.
    pub fn new_ability<A>(&self, name: &str) -> (r: Result<A, RegistryError>) where
        C: Fn() -> A,
        requires
            self.wf(),
            forall|k: Seq<char>| #[trigger]
                self.view().dom().contains(k) ==> call_requires(self.view()[k], ()),
        ensures
            self.view().dom().contains(name@) ==> (r matches Ok(a) && call_ensures(
                self.view()[name@],
                (),
                a,
            )),
            !self.view().dom().contains(name@) ==> r == Err::<A, RegistryError>(
                RegistryError::NameNotFound,
            ),
    {
        let key = name.to_owned();
        match self.find(&key) {
            Some(i) => {
                proof {
                    assert(self.name_seq()[i as int] == name@);
                    assert(self.view().dom().contains(name@));
                }
                let constructor = &self.constructors[i];
                Ok(constructor())
            },
            None => Err(RegistryError::NameNotFound),
        }
    }
}

/// Registering `constructor` under a new `name` makes the name known, and
/// creating by that name then runs that constructor; every other name stays
/// known or unknown as it was. Whether a name is known is also exactly whether
/// creating by it succeeds, since both say so of `view().dom()`.
pub proof fn lemma_register_then_create<C>(
    m: Map<Seq<char>, C>,
    name: Seq<char>,
    constructor: C,
    other: Seq<char>,
)
    requires
        !m.dom().contains(name),
    ensures
        m.insert(name, constructor).dom().contains(name),
        m.insert(name, constructor)[name] == constructor,
        other != name ==> (m.insert(name, constructor).dom().contains(other) <==> m.dom().contains(
            other,
        )),
{
}

} // verus!
