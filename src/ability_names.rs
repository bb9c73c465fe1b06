//! The ability names a creature has learned.

use vstd::prelude::*;
use crate::global_string::GlobalString;
use crate::tag_set::{TagSet, TagIter, TagError, list_error, add_error};

verus! {

/// How many abilities a creature can know at once.
pub const MAX_ABILITIES_COUNT: usize = 5;

/// The names of a creature's abilities: distinct, non-empty interned names in
/// the order they were learned.
#[derive(Clone, Copy)]
pub struct AbilityNames {
    names: TagSet<GlobalString, MAX_ABILITIES_COUNT>,
}

impl View for AbilityNames {
    type V = Seq<GlobalString>;

    closed spec fn view(&self) -> Seq<GlobalString> {
        self.names@
    }
}

impl AbilityNames {
    pub closed spec fn wf(&self) -> bool {
        self.names.wf()
    }

    /// No abilities.
    pub fn default() -> (r: AbilityNames)
        ensures
            r.wf(),
            r@ == Seq::<GlobalString>::empty(),
    {
        AbilityNames { names: TagSet::empty() }
    }

    /// The names `in_abilities`, in that order; all or nothing.
    ///
    /// Fails with `CapacityExceeded` when there are more than
    /// `MAX_ABILITIES_COUNT` names, else with `DuplicateTag` or
    /// `InvalidTagValue` for the first name that repeats an earlier one or is
    /// the empty string's handle.
    pub fn new(in_abilities: Vec<GlobalString>) -> (r: Result<AbilityNames, TagError>)
        ensures
            match list_error(in_abilities@, MAX_ABILITIES_COUNT as nat) {
                Some(e) => r == Err::<AbilityNames, TagError>(e),
                None => r matches Ok(set) && set.wf() && set@ == in_abilities@,
            },
    {
        match TagSet::from_list(&in_abilities) {
            Ok(names) => Ok(AbilityNames { names }),
            Err(e) => Err(e),
        }
    }

    /// Whether `in_ability` is one of the names.
    pub fn has_ability(&self, in_ability: GlobalString) -> (r: bool)
        requires
            self.wf(),
        ensures
            r == self@.contains(in_ability),
    {
        self.names.contains(in_ability)
    }

    /// Adds `in_ability` after the current names.
    ///
    /// Fails, changing nothing, with `DuplicateTag` when it is already present,
    /// else with `CapacityExceeded` when all slots are taken, else with
    /// `InvalidTagValue` when it is the empty string's handle.
    pub fn add_ability(&mut self, in_ability: GlobalString) -> (r: Result<(), TagError>)
        requires
            old(self).wf(),
        ensures
            final(self).wf(),
            match add_error(old(self)@, in_ability, MAX_ABILITIES_COUNT as nat) {
                Some(e) => r == Err::<(), TagError>(e) && final(self)@ == old(self)@,
                None => r is Ok && final(self)@ == old(self)@.push(in_ability),
            },
    {
        self.names.add(in_ability)
    }

    /// The number of names.
    pub fn get_count(&self) -> (r: usize)
        requires
            self.wf(),
        ensures
            r == self@.len(),
    {
        self.names.count()
    }

    /// The names, in order, as a new vector.
    pub fn get_names(&self) -> (r: Vec<GlobalString>)
        requires
            self.wf(),
        ensures
            r@ == self@,
    {
        self.names.to_list()
    }

    /// A cursor over the names, in order.
    pub fn iter(&self) -> (r: AbilityNamesIter<'_>)
        requires
            self.wf(),
        ensures
            r.wf(),
            r.remaining() == self@,
    {
        AbilityNamesIter { inner: self.names.iter() }
    }
}

/// A read-only cursor over the members of an [`AbilityNames`], in order.
pub struct AbilityNamesIter<'a> {
    inner: TagIter<'a, GlobalString, MAX_ABILITIES_COUNT>,
}

impl<'a> AbilityNamesIter<'a> {
    pub closed spec fn wf(&self) -> bool {
        &&& self.inner.set().wf()
        &&& self.inner.position() <= self.inner.set()@.len()
    }

    /// The names not yet handed out, in order.
    pub closed spec fn remaining(&self) -> Seq<GlobalString> {
        self.inner.set()@.subrange(self.inner.position() as int, self.inner.set()@.len() as int)
    }

    /// The next name, or `None` once all have been handed out.
    pub fn next(&mut self) -> (r: Option<GlobalString>)
        requires
            old(self).wf(),
        ensures
            final(self).wf(),
            old(self).remaining().len() == 0 ==> r is None && final(self).remaining() == old(
                self,
            ).remaining(),
            old(self).remaining().len() > 0 ==> r == Some(old(self).remaining()[0])
                && final(self).remaining() == old(self).remaining().drop_first(),
    {
        let r = self.inner.next();
        assert(self.remaining() =~= old(self).remaining().drop_first() || r is None);
        r
    }
}

} // verus!
