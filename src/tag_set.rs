//! A small, fixed-capacity, duplicate-free, insertion-ordered collection.

use vstd::prelude::*;

verus! {

/// A value that can be held in a [`TagSet`].
///
/// Every tag type has one sentinel value (the "none" or "invalid" tag),
/// which a tag set never holds.
pub trait Tag: Copy + Sized {
    /// Whether this value is the sentinel.
    spec fn spec_is_sentinel(&self) -> bool;

    /// The sentinel value, used to fill unused slots.
    fn sentinel() -> (r: Self)
        ensures
            r.spec_is_sentinel(),
    ;

    /// Whether this value is the sentinel.
    fn is_sentinel(&self) -> (r: bool)
        ensures
            r == self.spec_is_sentinel(),
    ;

    /// Whether two tags are equal.
    fn same(&self, other: &Self) -> (r: bool)
        ensures
            r == (*self == *other),
    ;
}

/// Why a tag could not be added to a tag set.
#[derive(Clone, Copy, Debug, PartialEq, Eq, Structural)]
pub enum TagError {
    /// The tag is already a member.
    DuplicateTag,
    /// The set already holds as many tags as its capacity allows.
    CapacityExceeded,
    /// The tag is the sentinel value.
    InvalidTagValue,
}

/// An ordered sequence of at most `N` distinct, non-sentinel tags, stored inline.
#[derive(Clone, Copy)]
pub struct TagSet<T, const N: usize> {
    items: [T; N],
    count: usize,
}

/// No two members are equal and none is the sentinel.
pub open spec fn valid_members<T: Tag>(s: Seq<T>) -> bool {
    &&& forall|i: int, j: int| 0 <= i < j < s.len() ==> s[i] != s[j]
    &&& forall|i: int| 0 <= i < s.len() ==> !(#[trigger] s[i]).spec_is_sentinel()
}

/// What building a set of capacity `cap` from `items`, one after another, fails
/// with, if anything: the first item that repeats an earlier one or is the sentinel.
pub open spec fn list_error<T: Tag>(items: Seq<T>, cap: nat) -> Option<TagError>
    decreases items.len(),
{
    if items.len() > cap {
        Some(TagError::CapacityExceeded)
    } else if items.len() == 0 {
        None
    } else {
        match list_error(items.drop_last(), cap) {
            Some(e) => Some(e),
            None => add_error(items.drop_last(), items.last(), cap),
        }
    }
}

/// What adding `item` to a set holding `s`, of capacity `cap`, fails with, if anything.
pub open spec fn add_error<T: Tag>(s: Seq<T>, item: T, cap: nat) -> Option<TagError> {
    if s.contains(item) {
        Some(TagError::DuplicateTag)
    } else if s.len() >= cap {
        Some(TagError::CapacityExceeded)
    } else if item.spec_is_sentinel() {
        Some(TagError::InvalidTagValue)
    } else {
        None
    }
}

impl<T: Tag, const N: usize> View for TagSet<T, N> {
    type V = Seq<T>;

    closed spec fn view(&self) -> Seq<T> {
        self.items@.subrange(0, self.count as int)
    }
}

impl<T: Tag, const N: usize> TagSet<T, N> {
    pub closed spec fn wf(&self) -> bool {
        &&& self.count <= N
        &&& valid_members(self@)
    }

    /// A well-formed set holds at most `N` distinct, non-sentinel members.
    pub proof fn lemma_members(&self)
        requires
            self.wf(),
        ensures
            self@.len() <= N,
            valid_members(self@),
    {
    }

    /// A set with no members.
    pub fn empty() -> (r: Self)
        ensures
            r.wf(),
            r@ == Seq::<T>::empty(),
    {
        TagSet { items: [T::sentinel(); N], count: 0 }
    }

    /// Whether `item` is a member; a linear scan.
    pub fn contains(&self, item: T) -> (r: bool)
        requires
            self.wf(),
        ensures
            r == self@.contains(item),
    {
        let mut i: usize = 0;
        while i < self.count
            invariant
                self.wf(),
                i <= self.count,
                forall|j: int| 0 <= j < i ==> self@[j] != item,
            decreases self.count - i,
        {
            if self.items[i].same(&item) {
                assert(self@[i as int] == item);
                return true;
            }
            i += 1;
        }
        false
    }

    /// Appends `item` after the current members.
    ///
    /// Fails, leaving the set unchanged, with `DuplicateTag` when `item` is
    /// already a member, else with `CapacityExceeded` when the set is full, else
    /// with `InvalidTagValue` when `item` is the sentinel.
    pub fn add(&mut self, item: T) -> (r: Result<(), TagError>)
        requires
            old(self).wf(),
        ensures
            final(self).wf(),
            match add_error(old(self)@, item, N as nat) {
                Some(e) => r == Err::<(), TagError>(e) && final(self)@ == old(self)@,
                None => r is Ok && final(self)@ == old(self)@.push(item),
            },
    {
        if self.contains(item) {
            return Err(TagError::DuplicateTag);
        }
        if self.count >= N {
            return Err(TagError::CapacityExceeded);
        }
        if item.is_sentinel() {
            return Err(TagError::InvalidTagValue);
        }
        let ghost before = self@;
        self.items[self.count] = item;
        self.count = self.count + 1;
        assert(self@ =~= before.push(item));
        Ok(())
    }

    /// Builds a set from `items`, added in order; all or nothing.
    ///
    /// Fails with `CapacityExceeded` when there are more than `N` items, else
    /// with the error of the first item that repeats an earlier one or is the
    /// sentinel.
    pub fn from_list(items: &Vec<T>) -> (r: Result<Self, TagError>)
        ensures
            match list_error(items@, N as nat) {
                Some(e) => r == Err::<Self, TagError>(e),
                None => r matches Ok(set) && set.wf() && set@ == items@,
            },
    {
        if items.len() > N {
            return Err(TagError::CapacityExceeded);
        }
        let mut set = Self::empty();
        let mut i: usize = 0;
        while i < items.len()
            invariant
                items.len() <= N,
                i <= items.len(),
                set.wf(),
                set@ == items@.subrange(0, i as int),
                list_error(items@.subrange(0, i as int), N as nat) is None,
            decreases items.len() - i,
        {
            let ghost prefix = items@.subrange(0, i as int);
            let ghost next = items@.subrange(0, i as int + 1);
            assert(next.drop_last() =~= prefix);
            match set.add(items[i]) {
                Ok(()) => {},
                Err(e) => {
                    proof { lemma_list_error_extends(items@, i as int + 1, N as nat); }
                    return Err(e);
                },
            }
            i += 1;
        }
        assert(items@.subrange(0, items.len() as int) =~= items@);
        Ok(set)
    }

    /// The number of members.
    pub fn count(&self) -> (r: usize)
        requires
            self.wf(),
        ensures
            r == self@.len(),
    {
        self.count
    }

    /// The members, in insertion order.
    pub fn to_list(&self) -> (r: Vec<T>)
        requires
            self.wf(),
        ensures
            r@ == self@,
    {
        let mut v: Vec<T> = Vec::new();
        let mut i: usize = 0;
        while i < self.count
            invariant
                self.wf(),
                i <= self.count,
                v@ == self@.subrange(0, i as int),
            decreases self.count - i,
        {
            v.push(self.items[i]);
            i += 1;
            assert(v@ =~= self@.subrange(0, i as int));
        }
        assert(self@.subrange(0, self.count as int) =~= self@);
        v
    }

    /// A fresh cursor over the members, starting at the first.
    pub fn iter(&self) -> (r: TagIter<T, N>)
        requires
            self.wf(),
        ensures
            r.set() == *self,
            r.position() == 0,
    {
        TagIter { set: self, index: 0 }
    }
}

/// Building a set from a list succeeds exactly when the list fits and its
/// items are distinct and none is the sentinel.
pub proof fn lemma_list_accepted<T: Tag>(items: Seq<T>, cap: nat)
    ensures
        list_error(items, cap) is None <==> (items.len() <= cap && valid_members(items)),
    decreases items.len(),
{
    if items.len() > 0 && items.len() <= cap {
        let prefix = items.drop_last();
        let x = items.last();
        lemma_list_accepted(prefix, cap);
        if valid_members(items) {
            assert(valid_members(prefix)) by {
                assert forall|i: int| 0 <= i < prefix.len() implies !(
                #[trigger] prefix[i]).spec_is_sentinel() by {
                    assert(prefix[i] == items[i]);
                }
            }
            assert(!prefix.contains(x)) by {
                if prefix.contains(x) {
                    let i = choose|i: int| 0 <= i < prefix.len() && prefix[i] == x;
                    assert(items[i] == items[items.len() - 1]);
                }
            }
            assert(!x.spec_is_sentinel()) by {
                assert(items[items.len() - 1] == x);
            }
        }
        if list_error(items, cap) is None {
            assert(!prefix.contains(x));
            assert forall|i: int, j: int| 0 <= i < j < items.len() implies items[i] != items[j] by {
                if j == items.len() - 1 {
                    assert(prefix[i] == items[i]);
                } else {
                    assert(prefix[i] == items[i] && prefix[j] == items[j]);
                }
            }
            assert forall|i: int| 0 <= i < items.len() implies !(
            #[trigger] items[i]).spec_is_sentinel() by {
                if i < items.len() - 1 {
                    assert(prefix[i] == items[i]);
                }
            }
        }
    }
}

/// Adding a member that is already present fails with `DuplicateTag`; adding
/// a new tag to a set that is full fails with `CapacityExceeded`.
pub proof fn lemma_add_rejects<T: Tag>(s: Seq<T>, item: T, cap: nat)
    ensures
        s.contains(item) ==> add_error(s, item, cap) == Some(TagError::DuplicateTag),
        !s.contains(item) && s.len() >= cap ==> add_error(s, item, cap) == Some(
            TagError::CapacityExceeded,
        ),
{
}

/// The members after adding `items` one after another to a set holding `s`,
/// each add taking effect only if it succeeds.
pub open spec fn after_adds<T: Tag>(s: Seq<T>, items: Seq<T>, cap: nat) -> Seq<T>
    decreases items.len(),
{
    if items.len() == 0 {
        s
    } else {
        let before = after_adds(s, items.drop_last(), cap);
        if add_error(before, items.last(), cap) is None {
            before.push(items.last())
        } else {
            before
        }
    }
}

/// How many of those adds succeed.
pub open spec fn successful_adds<T: Tag>(s: Seq<T>, items: Seq<T>, cap: nat) -> nat
    decreases items.len(),
{
    if items.len() == 0 {
        0
    } else {
        let before = after_adds(s, items.drop_last(), cap);
        successful_adds(s, items.drop_last(), cap) + if add_error(before, items.last(), cap) is None {
            1nat
        } else {
            0nat
        }
    }
}

/// Each successful add adds one member and a failed one none: after `k`
/// successful adds to an empty set, it holds `k` members, never more than its
/// capacity, all distinct and none the sentinel.
pub proof fn lemma_adds_count<T: Tag>(s: Seq<T>, items: Seq<T>, cap: nat)
    requires
        s.len() <= cap,
        valid_members(s),
    ensures
        after_adds(s, items, cap).len() == s.len() + successful_adds(s, items, cap),
        after_adds(s, items, cap).len() <= cap,
        valid_members(after_adds(s, items, cap)),
    decreases items.len(),
{
    if items.len() > 0 {
        lemma_adds_count(s, items.drop_last(), cap);
        let before = after_adds(s, items.drop_last(), cap);
        let x = items.last();
        if add_error(before, x, cap) is None {
            let after = before.push(x);
            assert forall|i: int, j: int| 0 <= i < j < after.len() implies after[i] != after[j] by {
                if j == before.len() {
                    assert(after[i] == before[i]);
                    assert(before.contains(before[i]));
                }
            }
            assert forall|i: int| 0 <= i < after.len() implies !(
            #[trigger] after[i]).spec_is_sentinel() by {
                if i < before.len() {
                    assert(after[i] == before[i]);
                }
            }
        }
    }
}

/// Once building has failed at some prefix of `items`, it fails with the
/// same error on every longer prefix.
proof fn lemma_list_error_extends<T: Tag>(items: Seq<T>, k: int, cap: nat)
    requires
        0 <= k <= items.len(),
        items.len() <= cap,
        list_error(items.subrange(0, k), cap) is Some,
    ensures
        list_error(items, cap) == list_error(items.subrange(0, k), cap),
    decreases items.len() - k,
{
    if k < items.len() {
        assert(items.subrange(0, k + 1).drop_last() =~= items.subrange(0, k));
        lemma_list_error_extends(items, k + 1, cap);
    } else {
        assert(items.subrange(0, k) =~= items);
    }
}

/// A read-only cursor over the members of a [`TagSet`], in insertion order.
///
/// The set cannot be changed while the cursor borrows it.
pub struct TagIter<'a, T, const N: usize> {
    set: &'a TagSet<T, N>,
    index: usize,
}

impl<'a, T: Tag, const N: usize> TagIter<'a, T, N> {
    pub closed spec fn set(&self) -> TagSet<T, N> {
        *self.set
    }

    /// How many members this cursor has handed out.
    pub closed spec fn position(&self) -> nat {
        self.index as nat
    }

    /// The next member, or `None` once every member has been handed out.
    pub fn next(&mut self) -> (r: Option<T>)
        requires
            old(self).set().wf(),
            old(self).position() <= old(self).set()@.len(),
        ensures
            final(self).set() == old(self).set(),
            final(self).position() <= final(self).set()@.len(),
            old(self).position() < old(self).set()@.len() ==> {
                &&& r == Some(old(self).set()@[old(self).position() as int])
                &&& final(self).position() == old(self).position() + 1
            },
            old(self).position() >= old(self).set()@.len() ==> {
                &&& r is None
                &&& final(self).position() == old(self).position()
            },
    {
        if self.index >= self.set.count {
            return None;
        }
        let item = self.set.items[self.index];
        self.index = self.index + 1;
        Some(item)
    }
}

} // verus!
