//! Course modules as the catalogue lists them.

use vstd::prelude::*;
use crate::time::Timestamp;
use crate::text::text_lt;
use crate::text::text_precedes;
use crate::text::lemma_text_irreflexive;
use crate::text::lemma_text_transitive;
use crate::text::lemma_text_asymmetric;
use crate::text::lemma_text_connected;
use crate::order::Ranked;
use crate::groups::Grouped;

verus! {

/// One module of the catalogue, as a fetch observed it. `M` is the handle of
/// the remote session that the module came from; it is carried along for
/// follow-up calls and never stored.
#[derive(Debug)]
pub struct Module<M> {
    pub id: String,
    pub code: String,
    pub name: String,
    pub term: String,
    pub is_taking: bool,
    pub is_teaching: bool,
    /// When the fetch that produced or confirmed this record was started.
    pub last_updated: Timestamp,
    pub internal_module: Option<M>,
}

/// What the user can ask of the list of modules.
#[derive(Debug, Clone, Copy, PartialEq, Eq, Structural)]
pub enum ModuleMessage {
    RefreshModules,
}

/// `copy` is a clone of the handle `source`, or both are absent.
pub open spec fn handle_cloned<H: Clone>(source: Option<H>, copy: Option<H>) -> bool {
    match source {
        Some(h) => copy is Some && cloned::<H>(h, copy->0),
        None => copy is None,
    }
}

impl<M: Clone> Module<M> {
    /// `self` is a copy of `source`: the same record, with a clone of its
    /// handle.
    pub open spec fn copy_of(&self, source: &Self) -> bool {
        &&& self.id == source.id
        &&& self.code == source.code
        &&& self.name == source.name
        &&& self.term == source.term
        &&& self.is_taking == source.is_taking
        &&& self.is_teaching == source.is_teaching
        &&& self.last_updated == source.last_updated
        &&& handle_cloned(source.internal_module, self.internal_module)
    }
}

/// The handles that the modules `items` hold, in their order.
pub open spec fn handles_of<M>(items: Seq<Module<M>>) -> Seq<M>
    decreases items.len(),
{
    if items.len() == 0 {
        Seq::empty()
    } else {
        let rest = handles_of(items.drop_last());
        match items.last().internal_module {
            Some(handle) => rest.push(handle),
            None => rest,
        }
    }
}

/// `copies` holds a clone of each entry of `sources`, in their order.
pub open spec fn all_cloned<H: Clone>(sources: Seq<H>, copies: Seq<H>) -> bool {
    &&& copies.len() == sources.len()
    &&& forall|k: int| 0 <= k < sources.len() ==> cloned::<H>(sources[k], #[trigger] copies[k])
}

/// Clones of the handles that `modules` hold, in their order.
pub fn module_handles<M: Clone>(modules: &Vec<Module<M>>) -> (handles: Vec<M>)
    ensures
        all_cloned(handles_of(modules@), handles@),
{
    let mut handles: Vec<M> = Vec::new();
    let n = modules.len();
    let mut i: usize = 0;
    while i < n
        invariant
            i <= n,
            n == modules.len(),
            all_cloned(handles_of(modules@.subrange(0, i as int)), handles@),
        decreases n - i,
    {
        assert(modules@.subrange(0, i + 1).drop_last() =~= modules@.subrange(0, i as int));
        assert(modules@.subrange(0, i + 1).last() == modules[i as int]);
        match &modules[i].internal_module {
            Some(handle) => {
                handles.push(handle.clone());
            },
            None => {},
        }
        i += 1;
    }
    assert(modules@.subrange(0, n as int) =~= modules@);
    handles
}

impl<M: Clone> Clone for Module<M> {
    fn clone(&self) -> (copy: Self)
        ensures
            copy.copy_of(self),
    {
        Module {
            id: self.id.clone(),
            code: self.code.clone(),
            name: self.name.clone(),
            term: self.term.clone(),
            is_taking: self.is_taking,
            is_teaching: self.is_teaching,
            last_updated: self.last_updated,
            internal_module: self.internal_module.clone(),
        }
    }
}

impl<M> Module<M> {
    /// A record with empty texts, the epoch as its time and no handle.
    pub fn empty() -> (m: Self)
        ensures
            m.id@ == Seq::<char>::empty(),
            m.code@ == Seq::<char>::empty(),
            m.name@ == Seq::<char>::empty(),
            m.term@ == Seq::<char>::empty(),
            !m.is_taking,
            !m.is_teaching,
            m.last_updated.is_epoch(),
            m.internal_module is None,
    {
        Module {
            id: String::new(),
            code: String::new(),
            name: String::new(),
            term: String::new(),
            is_taking: false,
            is_teaching: false,
            last_updated: Timestamp::epoch(),
            internal_module: None,
        }
    }

    /// The record of a module that the fetch started at `last_updated` saw,
    /// holding the remote handle it came with.
    pub fn new(
        id: String,
        code: String,
        name: String,
        term: String,
        is_taking: bool,
        is_teaching: bool,
        last_updated: Timestamp,
        internal_module: M,
    ) -> (m: Self)
        ensures
            m == (Module {
                id,
                code,
                name,
                term,
                is_taking,
                is_teaching,
                last_updated,
                internal_module: Some(internal_module),
            }),
    {
        Module {
            id,
            code,
            name,
            term,
            is_taking,
            is_teaching,
            last_updated,
            internal_module: Some(internal_module),
        }
    }
}

/// Whether `a` and `b` belong to one offering, that is to one `(term, code)`.
pub open spec fn same_offering<M>(a: &Module<M>, b: &Module<M>) -> bool {
    a.term@ == b.term@ && a.code@ == b.code@
}

/// Whether the offering of `a` is listed before that of `b`: later terms come
/// first, and within a term the codes ascend.
pub open spec fn listed_before<M>(a: &Module<M>, b: &Module<M>) -> bool {
    ||| text_lt(b.term@, a.term@)
    ||| a.term@ == b.term@ && text_lt(a.code@, b.code@)
}

/// Offerings are totally ordered by `listed_before`.
pub proof fn lemma_offering_order<M>(a: &Module<M>, b: &Module<M>, c: &Module<M>)
    ensures
        same_offering(a, a),
        same_offering(a, b) ==> same_offering(b, a),
        same_offering(a, b) && same_offering(b, c) ==> same_offering(a, c),
        listed_before(a, b) || same_offering(a, b) || listed_before(b, a),
        !(listed_before(a, b) && same_offering(a, b)),
        !(listed_before(a, b) && listed_before(b, a)),
        listed_before(a, b) && listed_before(b, c) ==> listed_before(a, c),
        same_offering(a, b) && listed_before(b, c) ==> listed_before(a, c),
        listed_before(a, b) && same_offering(b, c) ==> listed_before(a, c),
{
    lemma_text_irreflexive(a.term@);
    lemma_text_irreflexive(a.code@);
    lemma_text_irreflexive(b.term@);
    lemma_text_irreflexive(b.code@);
    if !text_lt(a.term@, b.term@) && !text_lt(b.term@, a.term@) {
        lemma_text_connected(a.term@, b.term@);
    }
    if !text_lt(a.code@, b.code@) && !text_lt(b.code@, a.code@) {
        lemma_text_connected(a.code@, b.code@);
    }
    if text_lt(a.term@, b.term@) {
        lemma_text_asymmetric(a.term@, b.term@);
    }
    if text_lt(a.code@, b.code@) {
        lemma_text_asymmetric(a.code@, b.code@);
    }
    if text_lt(c.term@, b.term@) && text_lt(b.term@, a.term@) {
        lemma_text_transitive(c.term@, b.term@, a.term@);
    }
    if text_lt(a.code@, b.code@) && text_lt(b.code@, c.code@) {
        lemma_text_transitive(a.code@, b.code@, c.code@);
    }
}

/// The records of one offering form a group. They rank by offering, and
/// within an offering by the time of their fetch, oldest first.
impl<M> Ranked for Module<M> {
    open spec fn before(&self, other: &Self) -> bool {
        ||| listed_before(self, other)
        ||| same_offering(self, other) && self.last_updated.earlier_than(other.last_updated)
    }

    fn precedes(&self, other: &Self) -> (r: bool) {
        proof {
            lemma_text_irreflexive(self.term@);
            lemma_text_irreflexive(self.code@);
        }
        if !(self.term == other.term) {
            text_precedes(other.term.as_str(), self.term.as_str())
        } else if !(self.code == other.code) {
            text_precedes(self.code.as_str(), other.code.as_str())
        } else {
            self.last_updated.is_before(&other.last_updated)
        }
    }

    proof fn lemma_irreflexive(a: &Self) {
        lemma_offering_order(a, a, a);
    }

    proof fn lemma_transitive(a: &Self, b: &Self, c: &Self) {
        lemma_offering_order(a, b, c);
        lemma_offering_order(a, c, b);
    }

    proof fn lemma_ties_transitive(a: &Self, b: &Self, c: &Self) {
        lemma_offering_order(a, b, c);
        lemma_offering_order(b, c, a);
        lemma_offering_order(c, a, b);
    }
}

impl<M> Grouped for Module<M> {
    open spec fn same_group(&self, other: &Self) -> bool {
        same_offering(self, other)
    }

    open spec fn group_before(&self, other: &Self) -> bool {
        listed_before(self, other)
    }

    proof fn lemma_group_order(a: &Self, b: &Self, c: &Self) {
        lemma_offering_order(a, b, c);
        lemma_offering_order(b, a, c);
    }
}

} // verus!
