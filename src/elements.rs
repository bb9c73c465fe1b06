//! Elemental affinities: the kinds, and the set of them that an ability or a
//! creature has.

use vstd::prelude::*;
use crate::palette::{self, KIND_COUNT, spec_label_of, spec_color_of, painted, renders, listing, kinds_listing};
use crate::tag_set::{Tag, TagSet, TagIter, TagError, list_error, add_error, valid_members};

verus! {

/// How many elements a set can hold: every real kind once.
pub const ELEMENT_COUNT: usize = 11;

/// An elemental kind. `Invalid` is the sentinel and never a member of a set.
#[derive(Clone, Copy, Debug, PartialEq, Eq, Structural)]
pub enum ElementKind {
    Invalid,
    Standard,
    Fire,
    Water,
    Nature,
    Electric,
    Air,
    Ground,
    Metal,
    Light,
    Dark,
    Dragon,
}

impl ElementKind {
    /// The stable numeric identifier of the kind.
    pub open spec fn spec_id(self) -> u32 {
        match self {
            ElementKind::Invalid => 0,
            ElementKind::Standard => 1,
            ElementKind::Fire => 2,
            ElementKind::Water => 3,
            ElementKind::Nature => 4,
            ElementKind::Electric => 5,
            ElementKind::Air => 6,
            ElementKind::Ground => 7,
            ElementKind::Metal => 8,
            ElementKind::Light => 9,
            ElementKind::Dark => 10,
            ElementKind::Dragon => 11,
        }
    }

    pub fn id(&self) -> (r: u32)
        ensures
            r == self.spec_id(),
    {
        match self {
            ElementKind::Invalid => 0,
            ElementKind::Standard => 1,
            ElementKind::Fire => 2,
            ElementKind::Water => 3,
            ElementKind::Nature => 4,
            ElementKind::Electric => 5,
            ElementKind::Air => 6,
            ElementKind::Ground => 7,
            ElementKind::Metal => 8,
            ElementKind::Light => 9,
            ElementKind::Dark => 10,
            ElementKind::Dragon => 11,
        }
    }

    /// The kind whose identifier is `value`.
    pub fn from_id(value: u32) -> (r: ElementKind)
        requires
            value <= KIND_COUNT,
        ensures
            r.spec_id() == value,
    {
        match value {
            0 => ElementKind::Invalid,
            1 => ElementKind::Standard,
            2 => ElementKind::Fire,
            3 => ElementKind::Water,
            4 => ElementKind::Nature,
            5 => ElementKind::Electric,
            6 => ElementKind::Air,
            7 => ElementKind::Ground,
            8 => ElementKind::Metal,
            9 => ElementKind::Light,
            10 => ElementKind::Dark,
            _ => ElementKind::Dragon,
        }
    }

    /// The display label, such as `Fire`.
    pub fn label(&self) -> (r: &'static str)
        requires
            *self != ElementKind::Invalid,
        ensures
            r@ == spec_label_of(self.spec_id()),
    {
        palette::label_of(self.id())
    }

    /// The display color, as red, green and blue.
    pub fn color(&self) -> (r: (u8, u8, u8))
        requires
            *self != ElementKind::Invalid,
        ensures
            r == spec_color_of(self.spec_id()),
    {
        palette::color_of(self.id())
    }

    /// The label, in the kind's color where the terminal shows colors.
    pub fn to_colored_string(&self) -> (r: String)
        requires
            *self != ElementKind::Invalid,
        ensures
            painted(r@, spec_label_of(self.spec_id())),
    {
        palette::colored_label(self.id())
    }
}

impl Tag for ElementKind {
    open spec fn spec_is_sentinel(&self) -> bool {
        *self == ElementKind::Invalid
    }

    fn sentinel() -> (r: Self) {
        ElementKind::Invalid
    }

    fn is_sentinel(&self) -> (r: bool) {
        *self == ElementKind::Invalid
    }

    fn same(&self, other: &Self) -> (r: bool) {
        *self == *other
    }
}

/// The elemental affinities of an ability or a creature: distinct, valid
/// kinds in the order they were added.
#[derive(Clone, Copy)]
pub struct Elements {
    set: TagSet<ElementKind, ELEMENT_COUNT>,
}

impl View for Elements {
    type V = Seq<ElementKind>;

    closed spec fn view(&self) -> Seq<ElementKind> {
        self.set@
    }
}

impl Elements {
    pub closed spec fn wf(&self) -> bool {
        self.set.wf()
    }

    /// The set of `in_elements`, in that order; all or nothing.
    ///
    /// Fails with `CapacityExceeded` when there are more than `ELEMENT_COUNT`
    /// kinds, else with `DuplicateTag` or `InvalidTagValue` for the first kind
    /// that repeats an earlier one or is `Invalid`.
    pub fn new(in_elements: Vec<ElementKind>) -> (r: Result<Elements, TagError>)
        ensures
            match list_error(in_elements@, ELEMENT_COUNT as nat) {
                Some(e) => r == Err::<Elements, TagError>(e),
                None => r matches Ok(set) && set.wf() && set@ == in_elements@,
            },
    {
        match TagSet::from_list(&in_elements) {
            Ok(set) => Ok(Elements { set }),
            Err(e) => Err(e),
        }
    }

    /// Whether `in_elements` is one of the affinities.
    pub fn has_elements(&self, in_elements: ElementKind) -> (r: bool)
        requires
            self.wf(),
        ensures
            r == self@.contains(in_elements),
    {
        self.set.contains(in_elements)
    }

    /// Adds `in_elements` after the current affinities.
    ///
    /// Fails, changing nothing, with `DuplicateTag` when it is already present,
    /// else with `CapacityExceeded` when the set is full, else with
    /// `InvalidTagValue` when it is `Invalid`.
    pub fn add_elements(&mut self, in_elements: ElementKind) -> (r: Result<(), TagError>)
        requires
            old(self).wf(),
        ensures
            final(self).wf(),
            match add_error(old(self)@, in_elements, ELEMENT_COUNT as nat) {
                Some(e) => r == Err::<(), TagError>(e) && final(self)@ == old(self)@,
                None => r is Ok && final(self)@ == old(self)@.push(in_elements),
            },
    {
        self.set.add(in_elements)
    }

    /// The affinities, in order, as a new vector.
    pub fn get_elements(&self) -> (r: Vec<ElementKind>)
        requires
            self.wf(),
        ensures
            r@ == self@,
    {
        let mut v: Vec<ElementKind> = Vec::new();
        let mut it = self.iter();
        loop
            invariant
                it.wf(),
                v@ + it.remaining() == self@,
            ensures
                v@ == self@,
            decreases it.remaining().len(),
        {
            let ghost before = it.remaining();
            match it.next() {
                Some(t) => {
                    v.push(t);
                    assert(v@ + it.remaining() =~= self@) by {
                        assert(before =~= seq![t] + before.drop_first());
                    }
                },
                None => {
                    assert(v@ =~= self@) by {
                        assert(before =~= Seq::<ElementKind>::empty());
                    }
                    break;
                },
            }
        }
        v
    }

    /// The number of affinities.
    pub fn get_elements_count(&self) -> (r: u8)
        requires
            self.wf(),
        ensures
            r == self@.len(),
    {
        proof {
            self.set.lemma_members();
        }
        self.set.count() as u8
    }

    /// A cursor over the affinities, in order.
    pub fn iter(&self) -> (r: ElementIter<'_>)
        requires
            self.wf(),
        ensures
            r.wf(),
            r.remaining() == self@,
    {
        ElementIter { inner: self.set.iter() }
    }

    /// A listing such as `Elements { Elements_count: 2, elements: [Fire, Water] }`,
    /// each kind in its color where the terminal shows colors.
    pub fn to_debug_string(&self) -> (r: String)
        requires
            self.wf(),
        ensures
            exists|parts: Seq<Seq<char>>|
                renders(parts, self@.map_values(|k: ElementKind| k.spec_id())) && r@ == listing(
                    "Elements { Elements_count: "@,
                    ", elements: ["@,
                    parts,
                ),
    {
        proof {
            self.set.lemma_members();
        }
        let kinds = self.get_elements();
        let mut ids: Vec<u32> = Vec::new();
        let mut i: usize = 0;
        while i < kinds.len()
            invariant
                kinds@ == self@,
                valid_members(self@),
                i <= kinds.len(),
                ids@ == self@.subrange(0, i as int).map_values(|k: ElementKind| k.spec_id()),
            decreases kinds.len() - i,
        {
            ids.push(kinds[i].id());
            i += 1;
            assert(ids@ =~= self@.subrange(0, i as int).map_values(|k: ElementKind| k.spec_id()));
        }
        assert(self@.subrange(0, self@.len() as int) =~= self@);
        assert forall|j: int| 0 <= j < ids.len() implies 1 <= #[trigger] ids@[j] <= KIND_COUNT by {
            assert(!self@[j].spec_is_sentinel());
        }
        kinds_listing("Elements { Elements_count: ", ", elements: [", &ids)
    }
}

/// A read-only cursor over the members of an [`Elements`], in order.
pub struct ElementIter<'a> {
    inner: TagIter<'a, ElementKind, ELEMENT_COUNT>,
}

impl<'a> ElementIter<'a> {
    pub closed spec fn wf(&self) -> bool {
        &&& self.inner.set().wf()
        &&& self.inner.position() <= self.inner.set()@.len()
    }

    /// The members not yet handed out, in order.
    pub closed spec fn remaining(&self) -> Seq<ElementKind> {
        self.inner.set()@.subrange(self.inner.position() as int, self.inner.set()@.len() as int)
    }

    /// The next member, or `None` once all have been handed out.
    pub fn next(&mut self) -> (r: Option<ElementKind>)
        requires
            old(self).wf(),
        ensures
            final(self).wf(),
            old(self).remaining().len() == 0 ==> r is None && final(self).remaining() == old(
                self,
            ).remaining(),
            old(self).remaining().len() > 0 ==> r == Some(old(self).remaining()[0])
                && final(self).remaining() == old(self).remaining().drop_first(),
    {
        let r = self.inner.next();
        assert(self.remaining() =~= old(self).remaining().drop_first() || r is None);
        r
    }
}

} // verus!
