//! String interning: each distinct text gets one small, stable handle.
//!
//! An [`Interner`] is an append-only table: slot 0 holds the empty string, and
//! each new text takes the next slot. A [`GlobalString`] is a slot number; it
//! carries no text and is resolved against the table that issued it. Lookups
//! scan the table; each table belongs to one owner, which shares it as it sees fit.

use vstd::prelude::*;
use crate::tag_set::Tag;

verus! {

/// A table of texts is well formed: slot 0 holds the empty string, no text
/// appears twice, and every slot number fits in a handle.
pub open spec fn texts_valid(t: Seq<Seq<char>>) -> bool {
    &&& t.len() >= 1
    &&& t[0] == Seq::<char>::empty()
    &&& t.len() <= u32::MAX
    &&& forall|i: int, j: int| 0 <= i < t.len() && 0 <= j < t.len() && t[i] == t[j] ==> i == j
}

/// The slot that interning `s` into `t` hands out: the slot that already holds
/// `s`, or else the next free one.
pub open spec fn slot_of(t: Seq<Seq<char>>, s: Seq<char>) -> int {
    if t.contains(s) {
        choose|i: int| 0 <= i < t.len() && t[i] == s
    } else {
        t.len() as int
    }
}

/// The table after interning `s` into `t`: unchanged if `s` is present, else
/// with `s` appended.
pub open spec fn after_intern(t: Seq<Seq<char>>, s: Seq<char>) -> Seq<Seq<char>> {
    if t.contains(s) {
        t
    } else {
        t.push(s)
    }
}

/// Interning is idempotent: interning a text a second time hands out the same
/// handle as the first time and leaves the table as the first call left it.
pub proof fn lemma_intern_idempotent(t: Seq<Seq<char>>, s: Seq<char>)
    requires
        texts_valid(t),
    ensures
        after_intern(after_intern(t, s), s) == after_intern(t, s),
        slot_of(after_intern(t, s), s) == slot_of(t, s),
{
    if !t.contains(s) {
        let t2 = t.push(s);
        assert(t2[t.len() as int] == s);
        assert(t2.contains(s));
        let i = slot_of(t2, s);
        if i != t.len() {
            assert(t[i] == s);
        }
    }
}

/// Distinct texts get distinct handles: interning `s` and then `u != s` hands
/// out two different handles.
pub proof fn lemma_intern_distinct(t: Seq<Seq<char>>, s: Seq<char>, u: Seq<char>)
    requires
        texts_valid(t),
        s != u,
    ensures
        slot_of(t, s) != slot_of(after_intern(t, s), u),
{
    lemma_intern_resolves(t, s);
    let t2 = after_intern(t, s);
    if t2.contains(u) {
        let j = slot_of(t2, u);
        assert(t2[j] == u);
    }
}

/// The handle that interning hands out resolves, in the table as interning
/// left it, to the text; and the empty string's handle, slot 0, resolves to
/// the empty string.
pub proof fn lemma_intern_resolves(t: Seq<Seq<char>>, s: Seq<char>)
    requires
        texts_valid(t),
    ensures
        0 <= slot_of(t, s) < after_intern(t, s).len(),
        after_intern(t, s)[slot_of(t, s)] == s,
        after_intern(t, s)[0] == Seq::<char>::empty(),
{
}

/// Why a handle could not be resolved.
#[derive(Clone, Copy, Debug, PartialEq, Eq, Structural)]
pub enum InternError {
    /// The handle names no slot of this table: another table issued it.
    InvalidHandle,
}

/// An append-only table of texts, slot by slot.
pub struct Interner {
    texts: Vec<String>,
}

impl View for Interner {
    type V = Seq<Seq<char>>;

    closed spec fn view(&self) -> Seq<Seq<char>> {
        self.texts@.map_values(|s: String| s@)
    }
}

impl Interner {
    pub open spec fn wf(&self) -> bool {
        texts_valid(self@)
    }

    /// A table that holds only the empty string, in slot 0.
    pub fn new() -> (r: Interner)
        ensures
            r.wf(),
            r@ == seq![Seq::<char>::empty()],
    {
        let mut texts: Vec<String> = Vec::new();
        texts.push(String::new());
        let r = Interner { texts };
        assert(r@ =~= seq![Seq::<char>::empty()]);
        r
    }

    /// The number of slots in use.
    pub fn len(&self) -> (r: usize)
        ensures
            r == self@.len(),
    {
        self.texts.len()
    }

    /// The slot that holds `s`, if any.
    fn position(&self, s: &String) -> (r: Option<usize>)
        requires
            self.wf(),
        ensures
            match r {
                Some(i) => i < self@.len() && self@[i as int] == s@ && i == slot_of(self@, s@),
                None => !self@.contains(s@),
            },
    {
        let mut i: usize = 0;
        while i < self.texts.len()
            invariant
                self.wf(),
                i <= self.texts.len(),
                forall|j: int| 0 <= j < i ==> self@[j] != s@,
            decreases self.texts.len() - i,
        {
            if self.texts[i] == *s {
                assert(self@[i as int] == s@);
                assert(self@.contains(s@));
                return Some(i);
            }
            i += 1;
        }
        None
    }
}

/// A handle to a text held by an [`Interner`]. Two handles from one table are
/// equal exactly when they name the same text.
#[derive(Clone, Copy, Debug, PartialEq, Eq, Structural)]
pub struct GlobalString {
    string_id: u32,
}

impl GlobalString {
    /// The slot this handle names.
    pub closed spec fn slot(self) -> int {
        self.string_id as int
    }

    /// Two handles are equal exactly when they name the same slot.
    pub proof fn lemma_slot_identifies(self, other: GlobalString)
        ensures
            (self == other) <==> (self.slot() == other.slot()),
    {
    }

    /// The handle of the empty string, slot 0 of every table.
    pub fn default() -> (r: GlobalString)
        ensures
            r.slot() == 0,
    {
        GlobalString { string_id: 0 }
    }

    /// The handle of `in_string`, adding it to `table` if it is not there yet.
    pub fn new(table: &mut Interner, in_string: &String) -> (r: GlobalString)
        requires
            old(table).wf(),
            old(table)@.len() < u32::MAX,
        ensures
            final(table).wf(),
            final(table)@ == after_intern(old(table)@, in_string@),
            r.slot() == slot_of(old(table)@, in_string@),
    {
        match table.position(in_string) {
            Some(i) => GlobalString { string_id: i as u32 },
            None => {
                let ghost before = table@;
                let id = table.texts.len() as u32;
                table.texts.push(in_string.clone());
                assert(table@ =~= before.push(in_string@));
                assert(texts_valid(table@)) by {
                    assert(forall|j: int| 0 <= j < before.len() ==> before[j] != in_string@);
                }
                GlobalString { string_id: id }
            },
        }
    }

    /// The handle of `in_string` if `table` holds it, else the handle of the
    /// empty string; the table is not changed.
    pub fn new_if_exists(table: &Interner, in_string: &String) -> (r: GlobalString)
        requires
            table.wf(),
        ensures
            table@.contains(in_string@) ==> r.slot() == slot_of(table@, in_string@),
            !table@.contains(in_string@) ==> r.slot() == 0,
    {
        match table.position(in_string) {
            Some(i) => GlobalString { string_id: i as u32 },
            None => GlobalString::default(),
        }
    }

    /// A copy of the text this handle names in `table`.
    ///
    /// Fails with `InvalidHandle` when `table` has no such slot, which only a
    /// handle issued by another table can cause.
    pub fn to_string(&self, table: &Interner) -> (r: Result<String, InternError>)
        ensures
            self.slot() < table@.len() ==> (r matches Ok(s) && s@ == table@[self.slot()]),
            self.slot() >= table@.len() ==> r == Err::<String, InternError>(
                InternError::InvalidHandle,
            ),
    {
        let i = self.string_id as usize;
        if i < table.texts.len() {
            Ok(table.texts[i].clone())
        } else {
            Err(InternError::InvalidHandle)
        }
    }
}

/// The handle of the empty string is the sentinel: no ability is unnamed.
impl Tag for GlobalString {
    open spec fn spec_is_sentinel(&self) -> bool {
        self.slot() == 0
    }

    fn sentinel() -> (r: Self) {
        GlobalString::default()
    }

    fn is_sentinel(&self) -> (r: bool) {
        self.string_id == 0
    }

    fn same(&self, other: &Self) -> (r: bool) {
        *self == *other
    }
}

} // verus!
