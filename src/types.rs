//! Creature types: the kinds, and the set of them that a creature has.

use vstd::prelude::*;
use crate::palette::{self, KIND_COUNT, spec_label_of, spec_color_of, painted, renders, listing, kinds_listing};
use crate::tag_set::{Tag, TagSet, TagIter, TagError, list_error, add_error, valid_members};

verus! {

/// How many types a set can hold: every real kind once.
pub const TYPE_COUNT: usize = 11;

/// A creature type kind. `Invalid` is the sentinel and never a member of a set.
#[derive(Clone, Copy, Debug, PartialEq, Eq, Structural)]
pub enum TypeKind {
    Invalid,
    Standard,
    Fire,
    Water,
    Nature,
    Electric,
    Air,
    Ground,
    Metal,
    Light,
    Dark,
    Dragon,
}

impl TypeKind {
    /// The stable numeric identifier of the kind.
    pub open spec fn spec_id(self) -> u32 {
        match self {
            TypeKind::Invalid => 0,
            TypeKind::Standard => 1,
            TypeKind::Fire => 2,
            TypeKind::Water => 3,
            TypeKind::Nature => 4,
            TypeKind::Electric => 5,
            TypeKind::Air => 6,
            TypeKind::Ground => 7,
            TypeKind::Metal => 8,
            TypeKind::Light => 9,
            TypeKind::Dark => 10,
            TypeKind::Dragon => 11,
        }
    }

    pub fn id(&self) -> (r: u32)
        ensures
            r == self.spec_id(),
    {
        match self {
            TypeKind::Invalid => 0,
            TypeKind::Standard => 1,
            TypeKind::Fire => 2,
            TypeKind::Water => 3,
            TypeKind::Nature => 4,
            TypeKind::Electric => 5,
            TypeKind::Air => 6,
            TypeKind::Ground => 7,
            TypeKind::Metal => 8,
            TypeKind::Light => 9,
            TypeKind::Dark => 10,
            TypeKind::Dragon => 11,
        }
    }

    /// The kind whose identifier is `value`.
    pub fn from_id(value: u32) -> (r: TypeKind)
        requires
            value <= KIND_COUNT,
        ensures
            r.spec_id() == value,
    {
        match value {
            0 => TypeKind::Invalid,
            1 => TypeKind::Standard,
            2 => TypeKind::Fire,
            3 => TypeKind::Water,
            4 => TypeKind::Nature,
            5 => TypeKind::Electric,
            6 => TypeKind::Air,
            7 => TypeKind::Ground,
            8 => TypeKind::Metal,
            9 => TypeKind::Light,
            10 => TypeKind::Dark,
            _ => TypeKind::Dragon,
        }
    }

    /// The display label, such as `Fire`.
    pub fn label(&self) -> (r: &'static str)
        requires
            *self != TypeKind::Invalid,
        ensures
            r@ == spec_label_of(self.spec_id()),
    {
        palette::label_of(self.id())
    }

    /// The display color, as red, green and blue.
    pub fn color(&self) -> (r: (u8, u8, u8))
        requires
            *self != TypeKind::Invalid,
        ensures
            r == spec_color_of(self.spec_id()),
    {
        palette::color_of(self.id())
    }

    /// The label, in the kind's color where the terminal shows colors.
    pub fn to_colored_string(&self) -> (r: String)
        requires
            *self != TypeKind::Invalid,
        ensures
            painted(r@, spec_label_of(self.spec_id())),
    {
        palette::colored_label(self.id())
    }
}

impl Tag for TypeKind {
    open spec fn spec_is_sentinel(&self) -> bool {
        *self == TypeKind::Invalid
    }

    fn sentinel() -> (r: Self) {
        TypeKind::Invalid
    }

    fn is_sentinel(&self) -> (r: bool) {
        *self == TypeKind::Invalid
    }

    fn same(&self, other: &Self) -> (r: bool) {
        *self == *other
    }
}

/// The types of a creature: distinct, valid kinds in the order they were added.
#[derive(Clone, Copy)]
pub struct Type {
    set: TagSet<TypeKind, TYPE_COUNT>,
}

impl View for Type {
    type V = Seq<TypeKind>;

    closed spec fn view(&self) -> Seq<TypeKind> {
        self.set@
    }
}

impl Type {
    pub closed spec fn wf(&self) -> bool {
        self.set.wf()
    }

    /// The set of `in_type`, in that order; all or nothing.
    ///
    /// Fails with `CapacityExceeded` when there are more than `TYPE_COUNT`
    /// kinds, else with `DuplicateTag` or `InvalidTagValue` for the first kind
    /// that repeats an earlier one or is `Invalid`.
    pub fn new(in_type: Vec<TypeKind>) -> (r: Result<Type, TagError>)
        ensures
            match list_error(in_type@, TYPE_COUNT as nat) {
                Some(e) => r == Err::<Type, TagError>(e),
                None => r matches Ok(set) && set.wf() && set@ == in_type@,
            },
    {
        match TagSet::from_list(&in_type) {
            Ok(set) => Ok(Type { set }),
            Err(e) => Err(e),
        }
    }

    /// Whether `in_type` is one of the types.
    pub fn has_type(&self, in_type: TypeKind) -> (r: bool)
        requires
            self.wf(),
        ensures
            r == self@.contains(in_type),
    {
        self.set.contains(in_type)
    }

    /// Adds `in_type` after the current types.
    ///
    /// Fails, changing nothing, with `DuplicateTag` when it is already present,
    /// else with `CapacityExceeded` when the set is full, else with
    /// `InvalidTagValue` when it is `Invalid`.
    pub fn add_type(&mut self, in_type: TypeKind) -> (r: Result<(), TagError>)
        requires
            old(self).wf(),
        ensures
            final(self).wf(),
            match add_error(old(self)@, in_type, TYPE_COUNT as nat) {
                Some(e) => r == Err::<(), TagError>(e) && final(self)@ == old(self)@,
                None => r is Ok && final(self)@ == old(self)@.push(in_type),
            },
    {
        self.set.add(in_type)
    }

    /// The types, in order, as a new vector.
    pub fn get_types(&self) -> (r: Vec<TypeKind>)
        requires
            self.wf(),
        ensures
            r@ == self@,
    {
        let mut v: Vec<TypeKind> = Vec::new();
        let mut it = self.iter();
        loop
            invariant
                it.wf(),
                v@ + it.remaining() == self@,
            ensures
                v@ == self@,
            decreases it.remaining().len(),
        {
            let ghost before = it.remaining();
            match it.next() {
                Some(t) => {
                    v.push(t);
                    assert(v@ + it.remaining() =~= self@) by {
                        assert(before =~= seq![t] + before.drop_first());
                    }
                },
                None => {
                    assert(v@ =~= self@) by {
                        assert(before =~= Seq::<TypeKind>::empty());
                    }
                    break;
                },
            }
        }
        v
    }

    /// The number of types.
    pub fn get_type_count(&self) -> (r: u8)
        requires
            self.wf(),
        ensures
            r == self@.len(),
    {
        proof {
            self.set.lemma_members();
        }
        self.set.count() as u8
    }

    /// A cursor over the types, in order.
    pub fn iter(&self) -> (r: TypeIter<'_>)
        requires
            self.wf(),
        ensures
            r.wf(),
            r.remaining() == self@,
    {
        TypeIter { inner: self.set.iter() }
    }

    /// A listing such as `Type { type_count: 2, types: [Fire, Water] }`, each kind
    /// in its color where the terminal shows colors.
    pub fn to_debug_string(&self) -> (r: String)
        requires
            self.wf(),
        ensures
            exists|parts: Seq<Seq<char>>|
                renders(parts, self@.map_values(|k: TypeKind| k.spec_id())) && r@ == listing(
                    "Type { type_count: "@,
                    ", types: ["@,
                    parts,
                ),
    {
        proof {
            self.set.lemma_members();
        }
        let kinds = self.get_types();
        let mut ids: Vec<u32> = Vec::new();
        let mut i: usize = 0;
        while i < kinds.len()
            invariant
                kinds@ == self@,
                valid_members(self@),
                i <= kinds.len(),
                ids@ == self@.subrange(0, i as int).map_values(|k: TypeKind| k.spec_id()),
            decreases kinds.len() - i,
        {
            ids.push(kinds[i].id());
            i += 1;
            assert(ids@ =~= self@.subrange(0, i as int).map_values(|k: TypeKind| k.spec_id()));
        }
        assert(self@.subrange(0, self@.len() as int) =~= self@);
        assert forall|j: int| 0 <= j < ids.len() implies 1 <= #[trigger] ids@[j] <= KIND_COUNT by {
            assert(!self@[j].spec_is_sentinel());
        }
        kinds_listing("Type { type_count: ", ", types: [", &ids)
    }
}

/// A read-only cursor over the members of an [`Type`], in order.
pub struct TypeIter<'a> {
    inner: TagIter<'a, TypeKind, TYPE_COUNT>,
}

impl<'a> TypeIter<'a> {
    pub closed spec fn wf(&self) -> bool {
        &&& self.inner.set().wf()
        &&& self.inner.position() <= self.inner.set()@.len()
    }

    /// The members not yet handed out, in order.
    pub closed spec fn remaining(&self) -> Seq<TypeKind> {
        self.inner.set()@.subrange(self.inner.position() as int, self.inner.set()@.len() as int)
    }

    /// The next member, or `None` once all have been handed out.
    pub fn next(&mut self) -> (r: Option<TypeKind>)
        requires
            old(self).wf(),
        ensures
            final(self).wf(),
            old(self).remaining().len() == 0 ==> r is None && final(self).remaining() == old(
                self,
            ).remaining(),
            old(self).remaining().len() > 0 ==> r == Some(old(self).remaining()[0])
                && final(self).remaining() == old(self).remaining().drop_first(),
    {
        let r = self.inner.next();
        assert(self.remaining() =~= old(self).remaining().drop_first() || r is None);
        r
    }
}

} // verus!
