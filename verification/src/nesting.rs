//! The nested-ownership state machine.
//!
//! Per parent token it tracks two sets of child references: children proposed
//! but not yet confirmed (`pending`) and children whose attachment is
//! confirmed (`accepted`).  A child reference occupies at most one of the two
//! sets of a parent at any observable point.  Membership tracks intent; the
//! registry hosting a child remains the source of truth for who really owns
//! it, and hand-offs of that ownership are delegated to the registry by the
//! caller.

use vstd::prelude::*;

use crate::types::{ChildRef, ChildRefModel, Error, TokenId, TokenIdModel};

verus! {

/// The mathematical state of the machine: for every parent identifier, the
/// set of pending and the set of accepted child references.  Both maps are
/// total; a parent that never had a child added maps to empty sets.
#[verifier::ext_equal]
pub struct NestState {
    pub pending: Map<TokenIdModel, Set<ChildRefModel>>,
    pub accepted: Map<TokenIdModel, Set<ChildRefModel>>,
}

/// Proposing `c` as a child of `p`: it joins the pending set of `p`.
pub open spec fn nest_add_pending(s: NestState, p: TokenIdModel, c: ChildRefModel) -> NestState {
    NestState { pending: s.pending.insert(p, s.pending[p].insert(c)), accepted: s.accepted }
}

/// Admitting `c` directly as an accepted child of `p`.
pub open spec fn nest_add_accepted(s: NestState, p: TokenIdModel, c: ChildRefModel) -> NestState {
    NestState { pending: s.pending, accepted: s.accepted.insert(p, s.accepted[p].insert(c)) }
}

/// Dropping `c` from the pending set of `p` (a rejection).
pub open spec fn nest_remove_pending(s: NestState, p: TokenIdModel, c: ChildRefModel) -> NestState {
    NestState { pending: s.pending.insert(p, s.pending[p].remove(c)), accepted: s.accepted }
}

/// Dropping `c` from the accepted set of `p` (a removal).
pub open spec fn nest_remove_accepted(
    s: NestState,
    p: TokenIdModel,
    c: ChildRefModel,
) -> NestState {
    NestState { pending: s.pending, accepted: s.accepted.insert(p, s.accepted[p].remove(c)) }
}

/// Accepting `c`: it moves from the pending to the accepted set of `p`.
pub open spec fn nest_accept(s: NestState, p: TokenIdModel, c: ChildRefModel) -> NestState {
    nest_add_accepted(nest_remove_pending(s, p, c), p, c)
}

/// The set of child-reference values a sequence holds.
pub open spec fn refs_set(s: Seq<ChildRef>) -> Set<ChildRefModel> {
    Set::new(|m: ChildRefModel| exists|i: int| 0 <= i < s.len() && s[i]@ == m)
}

/// No two elements of the sequence are the same reference.
pub open spec fn distinct_refs(s: Seq<ChildRef>) -> bool {
    forall|i: int, j: int| 0 <= i < j < s.len() ==> s[i]@ != s[j]@
}

/// No reference occurs in both sequences.
pub open spec fn disjoint_refs(a: Seq<ChildRef>, b: Seq<ChildRef>) -> bool {
    forall|m: ChildRefModel| !(refs_set(a).contains(m) && refs_set(b).contains(m))
}

/// The bookkeeping of one parent token: the children proposed for it and the
/// children it has accepted.  Created lazily on the first proposal and never
/// deleted, though both sets may become empty again.
pub struct NestingRecord {
    parent: TokenId,
    pending: Vec<ChildRef>,
    accepted: Vec<ChildRef>,
}

/// The nested-ownership bookkeeping of one collection.
pub struct NestingData {
    records: Vec<NestingRecord>,
}

impl View for NestingData {
    type V = NestState;

    closed spec fn view(&self) -> NestState {
        NestState {
            pending: Map::new(|p: TokenIdModel| true, |p: TokenIdModel| self.pending_of(p)),
            accepted: Map::new(|p: TokenIdModel| true, |p: TokenIdModel| self.accepted_of(p)),
        }
    }
}

impl NestingData {
    /// Whether a record exists for parent `p`.
    pub closed spec fn has_record(self, p: TokenIdModel) -> bool {
        exists|i: int| 0 <= i < self.records@.len() && self.records@[i].parent@ == p
    }

    /// The index of the record of `p` (meaningful when `has_record`).
    closed spec fn rec_index_of(self, p: TokenIdModel) -> int {
        choose|i: int| 0 <= i < self.records@.len() && self.records@[i].parent@ == p
    }

    /// The pending children of `p`.
    pub closed spec fn pending_of(self, p: TokenIdModel) -> Set<ChildRefModel> {
        if self.has_record(p) {
            refs_set(self.records@[self.rec_index_of(p)].pending@)
        } else {
            Set::empty()
        }
    }

    /// The accepted children of `p`.
    pub closed spec fn accepted_of(self, p: TokenIdModel) -> Set<ChildRefModel> {
        if self.has_record(p) {
            refs_set(self.records@[self.rec_index_of(p)].accepted@)
        } else {
            Set::empty()
        }
    }

    /// Well-formedness: one record per parent, no duplicates within a
    /// membership list, and no child both pending and accepted under the
    /// same parent.
    pub closed spec fn wf(self) -> bool {
        &&& forall|i: int, j: int|
            0 <= i < j < self.records@.len() ==> self.records@[i].parent@
                != self.records@[j].parent@
        &&& forall|i: int|
            0 <= i < self.records@.len() ==> distinct_refs(#[trigger] self.records@[i].pending@)
        &&& forall|i: int|
            0 <= i < self.records@.len() ==> distinct_refs(#[trigger] self.records@[i].accepted@)
        &&& forall|i: int|
            0 <= i < self.records@.len() ==> disjoint_refs(
                #[trigger] self.records@[i].pending@,
                self.records@[i].accepted@,
            )
    }

    /// A record that exists sits at a well-defined index.
    proof fn lemma_rec_has_index(self, p: TokenIdModel)
        requires
            self.has_record(p),
        ensures
            0 <= self.rec_index_of(p) < self.records@.len(),
            self.records@[self.rec_index_of(p)].parent@ == p,
    {
        let i = choose|i: int| 0 <= i < self.records@.len() && self.records@[i].parent@ == p;
        assert(0 <= i < self.records@.len() && self.records@[i].parent@ == p);
    }

    /// With one record per parent, a record holding `p` is the one the
    /// membership specs read.
    proof fn lemma_rec_index_unique(self, k: int, p: TokenIdModel)
        requires
            self.wf(),
            0 <= k < self.records@.len(),
            self.records@[k].parent@ == p,
        ensures
            self.has_record(p),
            self.rec_index_of(p) == k,
            self.pending_of(p) == refs_set(self.records@[k].pending@),
            self.accepted_of(p) == refs_set(self.records@[k].accepted@),
    {
        assert(self.has_record(p));
        self.lemma_rec_has_index(p);
        let j = self.rec_index_of(p);
        if j != k {
            assert(self.records@[j].parent@ != self.records@[k].parent@);
        }
    }

    /// Bridges the state view to the per-parent membership specs.
    pub proof fn lemma_view_at(self, p: TokenIdModel)
        ensures
            self@.pending.dom().contains(p),
            self@.accepted.dom().contains(p),
            self@.pending[p] == self.pending_of(p),
            self@.accepted[p] == self.accepted_of(p),
    {
    }

    /// An empty machine: no parent has any child.
    pub fn new() -> (r: NestingData)
        ensures
            r.wf(),
            forall|p: TokenIdModel| r.pending_of(p) == Set::<ChildRefModel>::empty(),
            forall|p: TokenIdModel| r.accepted_of(p) == Set::<ChildRefModel>::empty(),
    {
        let r = NestingData { records: Vec::new() };
        proof {
            assert(forall|p: TokenIdModel| !r.has_record(p));
        }
        r
    }

    /// Finds the record of `parent`, if one exists.
    fn find_record(&self, parent: &TokenId) -> (r: Option<usize>)
        requires
            self.wf(),
        ensures
            match r {
                Some(i) => self.has_record(parent@) && i < self.records@.len()
                    && self.rec_index_of(parent@) == i,
                None => !self.has_record(parent@),
            },
    {
        let mut i: usize = 0;
        while i < self.records.len()
            invariant
                self.wf(),
                0 <= i <= self.records@.len(),
                forall|k: int| 0 <= k < i ==> self.records@[k].parent@ != parent@,
            decreases self.records@.len() - i,
        {
            if self.records[i].parent == *parent {
                proof {
                    self.lemma_rec_index_unique(i as int, parent@);
                }
                return Some(i);
            }
            i = i + 1;
        }
        proof {
            if self.has_record(parent@) {
                self.lemma_rec_has_index(parent@);
            }
        }
        None
    }
}

/// Whether `v` holds a reference equal to `c`.
fn refs_contains(v: &Vec<ChildRef>, c: &ChildRef) -> (r: bool)
    ensures
        r == refs_set(v@).contains(c@),
{
    let mut i: usize = 0;
    while i < v.len()
        invariant
            0 <= i <= v@.len(),
            forall|k: int| 0 <= k < i ==> v@[k]@ != c@,
        decreases v@.len() - i,
    {
        if v[i] == *c {
            proof {
                assert(refs_set(v@).contains(c@));
            }
            return true;
        }
        i = i + 1;
    }
    proof {
        if refs_set(v@).contains(c@) {
            let j = choose|j: int| 0 <= j < v@.len() && v@[j]@ == c@;
            assert(v@[j]@ != c@);
        }
    }
    false
}

impl NestingData {
    /// Fails with `DuplicateChild` when `child` is already an accepted child
    /// of `parent`.  Read-only.
    pub fn already_accepted(&self, parent: &TokenId, child: &ChildRef) -> (r: Result<(), Error>)
        requires
            self.wf(),
        ensures
            r == if self@.accepted[parent@].contains(child@) {
                Err::<(), Error>(Error::DuplicateChild)
            } else {
                Ok::<(), Error>(())
            },
    {
        proof {
            self.lemma_view_at(parent@);
        }
        match self.find_record(parent) {
            Some(i) => {
                if refs_contains(&self.records[i].accepted, child) {
                    Err(Error::DuplicateChild)
                } else {
                    Ok(())
                }
            },
            None => Ok(()),
        }
    }

    /// Fails with `DuplicateChild` when `child` is already a pending child
    /// of `parent`.  Read-only.
    pub fn already_pending(&self, parent: &TokenId, child: &ChildRef) -> (r: Result<(), Error>)
        requires
            self.wf(),
        ensures
            r == if self@.pending[parent@].contains(child@) {
                Err::<(), Error>(Error::DuplicateChild)
            } else {
                Ok::<(), Error>(())
            },
    {
        proof {
            self.lemma_view_at(parent@);
        }
        match self.find_record(parent) {
            Some(i) => {
                if refs_contains(&self.records[i].pending, child) {
                    Err(Error::DuplicateChild)
                } else {
                    Ok(())
                }
            },
            None => Ok(()),
        }
    }

    /// Whether `child` is a pending child of `parent`.
    pub fn has_pending_child(&self, parent: &TokenId, child: &ChildRef) -> (r: bool)
        requires
            self.wf(),
        ensures
            r == self@.pending[parent@].contains(child@),
    {
        proof {
            self.lemma_view_at(parent@);
        }
        match self.find_record(parent) {
            Some(i) => refs_contains(&self.records[i].pending, child),
            None => false,
        }
    }

    /// Whether `child` is an accepted child of `parent`.
    pub fn has_accepted_child(&self, parent: &TokenId, child: &ChildRef) -> (r: bool)
        requires
            self.wf(),
        ensures
            r == self@.accepted[parent@].contains(child@),
    {
        proof {
            self.lemma_view_at(parent@);
        }
        match self.find_record(parent) {
            Some(i) => refs_contains(&self.records[i].accepted, child),
            None => false,
        }
    }
}

/// Appending a reference adds exactly it to the held set.
proof fn lemma_refs_push(s: Seq<ChildRef>, c: ChildRef)
    ensures
        refs_set(s.push(c)) == refs_set(s).insert(c@),
{
    let t = s.push(c);
    assert forall|m: ChildRefModel| refs_set(t).contains(m) == refs_set(s).insert(c@).contains(
        m,
    ) by {
        if refs_set(t).contains(m) {
            let i = choose|i: int| 0 <= i < t.len() && t[i]@ == m;
            if i < s.len() {
                assert(s[i]@ == m);
                assert(refs_set(s).contains(m));
            } else {
                assert(t[i] == c);
            }
        }
        if refs_set(s).contains(m) {
            let i = choose|i: int| 0 <= i < s.len() && s[i]@ == m;
            assert(t[i]@ == m);
            assert(refs_set(t).contains(m));
        }
        if m == c@ {
            assert(t[s.len() as int]@ == m);
            assert(refs_set(t).contains(m));
        }
    }
    assert(refs_set(t) =~= refs_set(s).insert(c@));
}

/// Appending a reference not yet held keeps the sequence duplicate-free.
proof fn lemma_refs_push_distinct(s: Seq<ChildRef>, c: ChildRef)
    requires
        distinct_refs(s),
        !refs_set(s).contains(c@),
    ensures
        distinct_refs(s.push(c)),
{
    let t = s.push(c);
    assert forall|i: int, j: int| 0 <= i < j < t.len() implies t[i]@ != t[j]@ by {
        if j == s.len() {
            if s[i]@ == c@ {
                assert(refs_set(s).contains(c@));
            }
        } else {
            assert(s[i]@ != s[j]@);
        }
    }
}

/// Removing the element at `j` from a duplicate-free sequence removes
/// exactly its reference from the held set.
proof fn lemma_refs_remove_at(s: Seq<ChildRef>, j: int)
    requires
        distinct_refs(s),
        0 <= j < s.len(),
    ensures
        refs_set(s.remove(j)) == refs_set(s).remove(s[j]@),
        distinct_refs(s.remove(j)),
{
    let t = s.remove(j);
    assert forall|m: ChildRefModel| refs_set(t).contains(m) == refs_set(s).remove(s[j]@).contains(
        m,
    ) by {
        if refs_set(t).contains(m) {
            let i = choose|i: int| 0 <= i < t.len() && t[i]@ == m;
            if i < j {
                assert(s[i]@ == m);
                assert(refs_set(s).contains(m));
                if m == s[j]@ {
                    assert(s[i]@ == s[j]@);
                }
            } else {
                assert(t[i] == s[i + 1]);
                assert(refs_set(s).contains(m));
                if m == s[j]@ {
                    assert(s[j]@ == s[i + 1]@);
                }
            }
        }
        if refs_set(s).contains(m) && m != s[j]@ {
            let i = choose|i: int| 0 <= i < s.len() && s[i]@ == m;
            assert(i != j);
            if i < j {
                assert(t[i]@ == m);
            } else {
                assert(t[i - 1] == s[i]);
            }
            assert(refs_set(t).contains(m));
        }
    }
    assert(refs_set(t) =~= refs_set(s).remove(s[j]@));
    assert forall|p: int, q: int| 0 <= p < q < t.len() implies t[p]@ != t[q]@ by {
        let sp: int = if p < j {
            p
        } else {
            p + 1
        };
        let sq: int = if q < j {
            q
        } else {
            q + 1
        };
        assert(t[p] == s[sp]);
        assert(t[q] == s[sq]);
        assert(s[sp]@ != s[sq]@);
    }
}

/// Removes the reference equal to `c` from `v`, if present.
fn refs_remove(v: &mut Vec<ChildRef>, c: &ChildRef) -> (r: bool)
    requires
        distinct_refs(old(v)@),
    ensures
        r == refs_set(old(v)@).contains(c@),
        distinct_refs(final(v)@),
        r ==> refs_set(final(v)@) == refs_set(old(v)@).remove(c@),
        !r ==> *final(v) == *old(v),
{
    let mut i: usize = 0;
    while i < v.len()
        invariant
            *v == *old(v),
            distinct_refs(v@),
            0 <= i <= v@.len(),
            forall|k: int| 0 <= k < i ==> v@[k]@ != c@,
        decreases v@.len() - i,
    {
        if v[i] == *c {
            proof {
                assert(refs_set(old(v)@).contains(c@));
                lemma_refs_remove_at(v@, i as int);
            }
            v.remove(i);
            return true;
        }
        i = i + 1;
    }
    proof {
        if refs_set(old(v)@).contains(c@) {
            let k = choose|k: int| 0 <= k < v@.len() && v@[k]@ == c@;
            assert(v@[k]@ != c@);
        }
    }
    false
}

impl NestingData {
    /// A state whose per-parent membership matches `t` everywhere has `t`
    /// as its view.
    proof fn lemma_view_matches(self, t: NestState)
        requires
            forall|q: TokenIdModel| #[trigger] t.pending.dom().contains(q),
            forall|q: TokenIdModel| #[trigger] t.accepted.dom().contains(q),
            forall|q: TokenIdModel| self.pending_of(q) == #[trigger] t.pending[q],
            forall|q: TokenIdModel| self.accepted_of(q) == #[trigger] t.accepted[q],
        ensures
            self@ == t,
    {
        assert(self@.pending =~= t.pending);
        assert(self@.accepted =~= t.accepted);
        assert(self@ =~= t);
    }

    /// After replacing the membership sets of `p` and touching nothing
    /// else, the view is the prior one with both maps updated at `p`.
    proof fn lemma_view_update(
        self,
        pre: NestingData,
        p: TokenIdModel,
        newpend: Set<ChildRefModel>,
        newacc: Set<ChildRefModel>,
    )
        requires
            forall|q: TokenIdModel|
                q != p ==> #[trigger] self.pending_of(q) == pre.pending_of(q),
            forall|q: TokenIdModel|
                q != p ==> #[trigger] self.accepted_of(q) == pre.accepted_of(q),
            self.pending_of(p) == newpend,
            self.accepted_of(p) == newacc,
        ensures
            self@ == (NestState {
                pending: pre@.pending.insert(p, newpend),
                accepted: pre@.accepted.insert(p, newacc),
            }),
    {
        let t = NestState {
            pending: pre@.pending.insert(p, newpend),
            accepted: pre@.accepted.insert(p, newacc),
        };
        assert forall|q: TokenIdModel|
            (#[trigger] t.pending.dom().contains(q) && t.accepted.dom().contains(q)) by {
            pre.lemma_view_at(q);
        }
        assert forall|q: TokenIdModel|
            (self.pending_of(q) == #[trigger] t.pending[q] && self.accepted_of(q)
                == t.accepted[q]) by {
            pre.lemma_view_at(q);
        }
        self.lemma_view_matches(t);
    }

    /// Replacing the record at `at` while keeping its parent and the local
    /// set discipline preserves well-formedness and every other parent's
    /// membership.
    proof fn lemma_records_update(pre: NestingData, post: NestingData, at: int)
        requires
            pre.wf(),
            0 <= at < pre.records@.len(),
            post.records@.len() == pre.records@.len(),
            post.records@[at].parent@ == pre.records@[at].parent@,
            forall|k: int|
                0 <= k < pre.records@.len() && k != at ==> post.records@[k] == pre.records@[k],
            distinct_refs(post.records@[at].pending@),
            distinct_refs(post.records@[at].accepted@),
            disjoint_refs(post.records@[at].pending@, post.records@[at].accepted@),
        ensures
            post.wf(),
            forall|q: TokenIdModel|
                q != pre.records@[at].parent@ ==> #[trigger] post.pending_of(q)
                    == pre.pending_of(q),
            forall|q: TokenIdModel|
                q != pre.records@[at].parent@ ==> #[trigger] post.accepted_of(q)
                    == pre.accepted_of(q),
            post.pending_of(pre.records@[at].parent@) == refs_set(post.records@[at].pending@),
            post.accepted_of(pre.records@[at].parent@) == refs_set(post.records@[at].accepted@),
            pre.pending_of(pre.records@[at].parent@) == refs_set(pre.records@[at].pending@),
            pre.accepted_of(pre.records@[at].parent@) == refs_set(pre.records@[at].accepted@),
    {
        let p = pre.records@[at].parent@;
        assert forall|i: int, j: int|
            0 <= i < j < post.records@.len() implies post.records@[i].parent@
            != post.records@[j].parent@ by {
            assert(pre.records@[i].parent@ != pre.records@[j].parent@);
        }
        assert forall|i: int|
            0 <= i < post.records@.len() implies distinct_refs(
            #[trigger] post.records@[i].pending@,
        ) && distinct_refs(post.records@[i].accepted@) && disjoint_refs(
            post.records@[i].pending@,
            post.records@[i].accepted@,
        ) by {
            if i != at {
                assert(post.records@[i] == pre.records@[i]);
                assert(distinct_refs(pre.records@[i].pending@));
                assert(distinct_refs(pre.records@[i].accepted@));
                assert(disjoint_refs(pre.records@[i].pending@, pre.records@[i].accepted@));
            }
        }
        assert(post.wf());
        pre.lemma_rec_index_unique(at, p);
        post.lemma_rec_index_unique(at, p);
        assert forall|q: TokenIdModel| q != p implies #[trigger] post.pending_of(q)
            == pre.pending_of(q) && post.accepted_of(q) == pre.accepted_of(q) by {
            if pre.has_record(q) {
                pre.lemma_rec_has_index(q);
                let k = pre.rec_index_of(q);
                assert(k != at);
                assert(post.records@[k] == pre.records@[k]);
                pre.lemma_rec_index_unique(k, q);
                post.lemma_rec_index_unique(k, q);
            } else {
                if post.has_record(q) {
                    post.lemma_rec_has_index(q);
                    let k = post.rec_index_of(q);
                    assert(pre.records@[k].parent@ == q);
                    assert(pre.has_record(q));
                }
            }
        }
    }

    /// Appending a record for a parent that had none preserves
    /// well-formedness and every other parent's membership.
    proof fn lemma_records_push(pre: NestingData, post: NestingData)
        requires
            pre.wf(),
            post.records@.len() == pre.records@.len() + 1,
            forall|k: int| 0 <= k < pre.records@.len() ==> post.records@[k] == pre.records@[k],
            !pre.has_record(post.records@[pre.records@.len() as int].parent@),
            distinct_refs(post.records@[pre.records@.len() as int].pending@),
            distinct_refs(post.records@[pre.records@.len() as int].accepted@),
            disjoint_refs(
                post.records@[pre.records@.len() as int].pending@,
                post.records@[pre.records@.len() as int].accepted@,
            ),
        ensures
            post.wf(),
            forall|q: TokenIdModel|
                q != post.records@[pre.records@.len() as int].parent@ ==> #[trigger] post
                    .pending_of(q) == pre.pending_of(q),
            forall|q: TokenIdModel|
                q != post.records@[pre.records@.len() as int].parent@ ==> #[trigger] post
                    .accepted_of(q) == pre.accepted_of(q),
            post.pending_of(post.records@[pre.records@.len() as int].parent@) == refs_set(
                post.records@[pre.records@.len() as int].pending@,
            ),
            post.accepted_of(post.records@[pre.records@.len() as int].parent@) == refs_set(
                post.records@[pre.records@.len() as int].accepted@,
            ),
            pre.pending_of(post.records@[pre.records@.len() as int].parent@) == Set::<
                ChildRefModel,
            >::empty(),
            pre.accepted_of(post.records@[pre.records@.len() as int].parent@) == Set::<
                ChildRefModel,
            >::empty(),
    {
        let n = pre.records@.len() as int;
        let p = post.records@[n].parent@;
        assert forall|i: int, j: int|
            0 <= i < j < post.records@.len() implies post.records@[i].parent@
            != post.records@[j].parent@ by {
            if j < n {
                assert(pre.records@[i].parent@ != pre.records@[j].parent@);
            } else {
                assert(post.records@[i] == pre.records@[i]);
                if pre.records@[i].parent@ == p {
                    assert(pre.has_record(p));
                }
            }
        }
        assert forall|i: int|
            0 <= i < post.records@.len() implies distinct_refs(
            #[trigger] post.records@[i].pending@,
        ) && distinct_refs(post.records@[i].accepted@) && disjoint_refs(
            post.records@[i].pending@,
            post.records@[i].accepted@,
        ) by {
            if i < n {
                assert(post.records@[i] == pre.records@[i]);
                assert(distinct_refs(pre.records@[i].pending@));
                assert(distinct_refs(pre.records@[i].accepted@));
                assert(disjoint_refs(pre.records@[i].pending@, pre.records@[i].accepted@));
            }
        }
        assert(post.wf());
        post.lemma_rec_index_unique(n, p);
        assert forall|q: TokenIdModel| q != p implies #[trigger] post.pending_of(q)
            == pre.pending_of(q) && post.accepted_of(q) == pre.accepted_of(q) by {
            if pre.has_record(q) {
                pre.lemma_rec_has_index(q);
                let k = pre.rec_index_of(q);
                assert(post.records@[k] == pre.records@[k]);
                pre.lemma_rec_index_unique(k, q);
                post.lemma_rec_index_unique(k, q);
            } else {
                if post.has_record(q) {
                    post.lemma_rec_has_index(q);
                    let k = post.rec_index_of(q);
                    assert(k != n);
                    assert(pre.records@[k].parent@ == q);
                    assert(pre.has_record(q));
                }
            }
        }
    }

    /// Records `child` as a pending child of `parent`.  The caller has
    /// checked that the child sits in neither membership set.
    pub fn add_to_pending(&mut self, parent: TokenId, child: ChildRef)
        requires
            old(self).wf(),
            !old(self)@.pending[parent@].contains(child@),
            !old(self)@.accepted[parent@].contains(child@),
        ensures
            final(self).wf(),
            final(self)@ == nest_add_pending(old(self)@, parent@, child@),
    {
        proof {
            old(self).lemma_view_at(parent@);
        }
        let ghost p = parent@;
        let ghost c = child@;
        let ghost pre = *self;
        match self.find_record(&parent) {
            Some(i) => {
                let mut rec = self.records.remove(i);
                proof {
                    assert(rec == pre.records@[i as int]);
                    pre.lemma_rec_index_unique(i as int, p);
                    assert(!refs_set(rec.pending@).contains(c));
                    assert(!refs_set(rec.accepted@).contains(c));
                    assert(distinct_refs(rec.pending@));
                    lemma_refs_push(rec.pending@, child);
                    lemma_refs_push_distinct(rec.pending@, child);
                }
                let ghost pend_pre = rec.pending@;
                rec.pending.push(child);
                let ghost newrec = rec;
                self.records.insert(i, rec);
                proof {
                    assert(self.records@.len() == pre.records@.len());
                    assert(self.records@[i as int] == newrec);
                    assert forall|k: int|
                        0 <= k < pre.records@.len() && k != i implies self.records@[k]
                        == pre.records@[k] by {}
                    assert(refs_set(newrec.pending@) == refs_set(pend_pre).insert(c));
                    assert forall|m: ChildRefModel|
                        !(refs_set(newrec.pending@).contains(m) && refs_set(
                            newrec.accepted@,
                        ).contains(m)) by {
                        if refs_set(newrec.accepted@).contains(m) {
                            assert(m != c);
                            assert(!(refs_set(pend_pre).contains(m) && refs_set(
                                newrec.accepted@,
                            ).contains(m)));
                        }
                    }
                    Self::lemma_records_update(pre, *self, i as int);
                    self.lemma_view_update(
                        pre,
                        p,
                        pre@.pending[p].insert(c),
                        pre.accepted_of(p),
                    );
                    pre.lemma_view_at(p);
                    assert(pre@.accepted.insert(p, pre@.accepted[p]) =~= pre@.accepted);
                    assert(self@ =~= nest_add_pending(pre@, p, c));
                }
            },
            None => {
                let mut pending_vec: Vec<ChildRef> = Vec::new();
                pending_vec.push(child);
                let accepted_vec: Vec<ChildRef> = Vec::new();
                self.records.push(NestingRecord { parent, pending: pending_vec, accepted: accepted_vec });
                proof {
                    let n = pre.records@.len() as int;
                    assert(self.records@[n].parent@ == p);
                    assert(self.records@[n].pending@ =~= Seq::<ChildRef>::empty().push(child));
                    assert(distinct_refs(self.records@[n].pending@));
                    assert(distinct_refs(self.records@[n].accepted@));
                    assert forall|m: ChildRefModel|
                        !(refs_set(self.records@[n].pending@).contains(m) && refs_set(
                            self.records@[n].accepted@,
                        ).contains(m)) by {
                        if refs_set(self.records@[n].accepted@).contains(m) {
                            let z = choose|z: int|
                                0 <= z < self.records@[n].accepted@.len()
                                    && self.records@[n].accepted@[z]@ == m;
                        }
                    }
                    Self::lemma_records_push(pre, *self);
                    assert(refs_set(self.records@[n].pending@) =~= Set::<
                        ChildRefModel,
                    >::empty().insert(c)) by {
                        assert(self.records@[n].pending@[0]@ == c);
                    }
                    assert(pre@.pending[p] == Set::<ChildRefModel>::empty());
                    assert(refs_set(self.records@[n].accepted@) =~= Set::<
                        ChildRefModel,
                    >::empty());
                    self.lemma_view_update(
                        pre,
                        p,
                        pre@.pending[p].insert(c),
                        pre.accepted_of(p),
                    );
                    pre.lemma_view_at(p);
                    assert(pre@.accepted.insert(p, pre@.accepted[p]) =~= pre@.accepted);
                    assert(self@ =~= nest_add_pending(pre@, p, c));
                }
            },
        }
    }
}

impl NestingData {
    /// Records `child` as an accepted child of `parent`.  The caller has
    /// checked that the child sits in neither membership set.
    pub fn add_to_accepted(&mut self, parent: TokenId, child: ChildRef)
        requires
            old(self).wf(),
            !old(self)@.pending[parent@].contains(child@),
            !old(self)@.accepted[parent@].contains(child@),
        ensures
            final(self).wf(),
            final(self)@ == nest_add_accepted(old(self)@, parent@, child@),
    {
        proof {
            old(self).lemma_view_at(parent@);
        }
        let ghost p = parent@;
        let ghost c = child@;
        let ghost pre = *self;
        match self.find_record(&parent) {
            Some(i) => {
                let mut rec = self.records.remove(i);
                proof {
                    assert(rec == pre.records@[i as int]);
                    pre.lemma_rec_index_unique(i as int, p);
                    assert(!refs_set(rec.pending@).contains(c));
                    assert(!refs_set(rec.accepted@).contains(c));
                    assert(distinct_refs(rec.accepted@));
                    lemma_refs_push(rec.accepted@, child);
                    lemma_refs_push_distinct(rec.accepted@, child);
                }
                let ghost acc_pre = rec.accepted@;
                rec.accepted.push(child);
                let ghost newrec = rec;
                self.records.insert(i, rec);
                proof {
                    assert(self.records@.len() == pre.records@.len());
                    assert(self.records@[i as int] == newrec);
                    assert forall|k: int|
                        0 <= k < pre.records@.len() && k != i implies self.records@[k]
                        == pre.records@[k] by {}
                    assert(refs_set(newrec.accepted@) == refs_set(acc_pre).insert(c));
                    assert forall|m: ChildRefModel|
                        !(refs_set(newrec.pending@).contains(m) && refs_set(
                            newrec.accepted@,
                        ).contains(m)) by {
                        if refs_set(newrec.pending@).contains(m) {
                            assert(m != c);
                            assert(!(refs_set(newrec.pending@).contains(m) && refs_set(
                                acc_pre,
                            ).contains(m)));
                        }
                    }
                    Self::lemma_records_update(pre, *self, i as int);
                    self.lemma_view_update(
                        pre,
                        p,
                        pre.pending_of(p),
                        pre@.accepted[p].insert(c),
                    );
                    pre.lemma_view_at(p);
                    assert(pre@.pending.insert(p, pre@.pending[p]) =~= pre@.pending);
                    assert(self@ =~= nest_add_accepted(pre@, p, c));
                }
            },
            None => {
                let pending_vec: Vec<ChildRef> = Vec::new();
                let mut accepted_vec: Vec<ChildRef> = Vec::new();
                accepted_vec.push(child);
                self.records.push(NestingRecord { parent, pending: pending_vec, accepted: accepted_vec });
                proof {
                    let n = pre.records@.len() as int;
                    assert(self.records@[n].parent@ == p);
                    assert(distinct_refs(self.records@[n].pending@));
                    assert(distinct_refs(self.records@[n].accepted@));
                    assert forall|m: ChildRefModel|
                        !(refs_set(self.records@[n].pending@).contains(m) && refs_set(
                            self.records@[n].accepted@,
                        ).contains(m)) by {
                        if refs_set(self.records@[n].pending@).contains(m) {
                            let z = choose|z: int|
                                0 <= z < self.records@[n].pending@.len()
                                    && self.records@[n].pending@[z]@ == m;
                        }
                    }
                    Self::lemma_records_push(pre, *self);
                    assert(refs_set(self.records@[n].accepted@) =~= Set::<
                        ChildRefModel,
                    >::empty().insert(c)) by {
                        assert(self.records@[n].accepted@[0]@ == c);
                    }
                    assert(refs_set(self.records@[n].pending@) =~= Set::<
                        ChildRefModel,
                    >::empty());
                    assert(pre@.accepted[p] == Set::<ChildRefModel>::empty());
                    self.lemma_view_update(
                        pre,
                        p,
                        pre.pending_of(p),
                        pre@.accepted[p].insert(c),
                    );
                    pre.lemma_view_at(p);
                    assert(pre@.pending.insert(p, pre@.pending[p]) =~= pre@.pending);
                    assert(self@ =~= nest_add_accepted(pre@, p, c));
                }
            },
        }
    }

    /// Deletes `child` from the pending set of `parent`; fails with
    /// `ChildNotFound`, changing nothing, when it is not pending there.
    pub fn remove_from_pending(&mut self, parent: &TokenId, child: &ChildRef) -> (r: Result<
        (),
        Error,
    >)
        requires
            old(self).wf(),
        ensures
            final(self).wf(),
            old(self)@.pending[parent@].contains(child@) ==> r == Ok::<(), Error>(())
                && final(self)@ == nest_remove_pending(old(self)@, parent@, child@),
            !old(self)@.pending[parent@].contains(child@) ==> r == Err::<(), Error>(
                Error::ChildNotFound,
            ) && *final(self) == *old(self),
    {
        proof {
            old(self).lemma_view_at(parent@);
        }
        let ghost p = parent@;
        let ghost c = child@;
        let ghost pre = *self;
        match self.find_record(parent) {
            Some(i) => {
                if !refs_contains(&self.records[i].pending, child) {
                    return Err(Error::ChildNotFound);
                }
                let mut rec = self.records.remove(i);
                proof {
                    assert(rec == pre.records@[i as int]);
                    pre.lemma_rec_index_unique(i as int, p);
                    assert(distinct_refs(rec.pending@));
                }
                let found = refs_remove(&mut rec.pending, child);
                let ghost newrec = rec;
                self.records.insert(i, rec);
                proof {
                    assert(found);
                    assert(self.records@.len() == pre.records@.len());
                    assert(self.records@[i as int] == newrec);
                    assert forall|k: int|
                        0 <= k < pre.records@.len() && k != i implies self.records@[k]
                        == pre.records@[k] by {}
                    assert(refs_set(newrec.pending@) == refs_set(
                        pre.records@[i as int].pending@,
                    ).remove(c));
                    assert(distinct_refs(newrec.accepted@));
                    assert forall|m: ChildRefModel|
                        !(refs_set(newrec.pending@).contains(m) && refs_set(
                            newrec.accepted@,
                        ).contains(m)) by {
                        if refs_set(newrec.pending@).contains(m) {
                            assert(refs_set(pre.records@[i as int].pending@).contains(m));
                            assert(!(refs_set(pre.records@[i as int].pending@).contains(m)
                                && refs_set(pre.records@[i as int].accepted@).contains(m)));
                        }
                    }
                    Self::lemma_records_update(pre, *self, i as int);
                    self.lemma_view_update(pre, p, pre@.pending[p].remove(c), pre.accepted_of(p));
                    pre.lemma_view_at(p);
                    assert(pre@.accepted.insert(p, pre@.accepted[p]) =~= pre@.accepted);
                    assert(self@ =~= nest_remove_pending(pre@, p, c));
                }
                Ok(())
            },
            None => Err(Error::ChildNotFound),
        }
    }

    /// Deletes `child` from the accepted set of `parent`; fails with
    /// `ChildNotFound`, changing nothing, when it is not accepted there.
    pub fn remove_from_accepted(&mut self, parent: &TokenId, child: &ChildRef) -> (r: Result<
        (),
        Error,
    >)
        requires
            old(self).wf(),
        ensures
            final(self).wf(),
            old(self)@.accepted[parent@].contains(child@) ==> r == Ok::<(), Error>(())
                && final(self)@ == nest_remove_accepted(old(self)@, parent@, child@),
            !old(self)@.accepted[parent@].contains(child@) ==> r == Err::<(), Error>(
                Error::ChildNotFound,
            ) && *final(self) == *old(self),
    {
        proof {
            old(self).lemma_view_at(parent@);
        }
        let ghost p = parent@;
        let ghost c = child@;
        let ghost pre = *self;
        match self.find_record(parent) {
            Some(i) => {
                if !refs_contains(&self.records[i].accepted, child) {
                    return Err(Error::ChildNotFound);
                }
                let mut rec = self.records.remove(i);
                proof {
                    assert(rec == pre.records@[i as int]);
                    pre.lemma_rec_index_unique(i as int, p);
                    assert(distinct_refs(rec.accepted@));
                }
                let found = refs_remove(&mut rec.accepted, child);
                let ghost newrec = rec;
                self.records.insert(i, rec);
                proof {
                    assert(found);
                    assert(self.records@.len() == pre.records@.len());
                    assert(self.records@[i as int] == newrec);
                    assert forall|k: int|
                        0 <= k < pre.records@.len() && k != i implies self.records@[k]
                        == pre.records@[k] by {}
                    assert(refs_set(newrec.accepted@) == refs_set(
                        pre.records@[i as int].accepted@,
                    ).remove(c));
                    assert(distinct_refs(newrec.pending@));
                    assert forall|m: ChildRefModel|
                        !(refs_set(newrec.pending@).contains(m) && refs_set(
                            newrec.accepted@,
                        ).contains(m)) by {
                        if refs_set(newrec.accepted@).contains(m) {
                            assert(refs_set(pre.records@[i as int].accepted@).contains(m));
                            assert(!(refs_set(pre.records@[i as int].pending@).contains(m)
                                && refs_set(pre.records@[i as int].accepted@).contains(m)));
                        }
                    }
                    Self::lemma_records_update(pre, *self, i as int);
                    self.lemma_view_update(pre, p, pre.pending_of(p), pre@.accepted[p].remove(c));
                    pre.lemma_view_at(p);
                    assert(pre@.pending.insert(p, pre@.pending[p]) =~= pre@.pending);
                    assert(self@ =~= nest_remove_accepted(pre@, p, c));
                }
                Ok(())
            },
            None => Err(Error::ChildNotFound),
        }
    }
}

/// Law: proposing a child, accepting it, and then removing it returns the
/// membership state to exactly what it was before the proposal.
pub proof fn lemma_accept_remove_round_trip(s: NestState, p: TokenIdModel, c: ChildRefModel)
    requires
        s.pending.dom().contains(p),
        s.accepted.dom().contains(p),
        !s.pending[p].contains(c),
        !s.accepted[p].contains(c),
    ensures
        nest_remove_accepted(nest_accept(nest_add_pending(s, p, c), p, c), p, c) == s,
{
    let s1 = nest_add_pending(s, p, c);
    let s2 = nest_accept(s1, p, c);
    let s3 = nest_remove_accepted(s2, p, c);
    assert(s1.pending[p] == s.pending[p].insert(c));
    assert(s2.pending[p] == s.pending[p].insert(c).remove(c));
    assert(s.pending[p].insert(c).remove(c) =~= s.pending[p]);
    assert(s3.pending =~= s.pending);
    assert(s2.accepted[p] == s.accepted[p].insert(c));
    assert(s3.accepted[p] == s.accepted[p].insert(c).remove(c));
    assert(s.accepted[p].insert(c).remove(c) =~= s.accepted[p]);
    assert(s3.accepted =~= s.accepted);
    assert(s3 =~= s);
}

/// Law: proposing a child and then rejecting it returns the membership state
/// to exactly what it was before the proposal; a rejection touches the
/// pending set alone.
pub proof fn lemma_reject_round_trip(s: NestState, p: TokenIdModel, c: ChildRefModel)
    requires
        s.pending.dom().contains(p),
        !s.pending[p].contains(c),
    ensures
        nest_remove_pending(nest_add_pending(s, p, c), p, c) == s,
{
    let s1 = nest_add_pending(s, p, c);
    let s2 = nest_remove_pending(s1, p, c);
    assert(s1.pending[p] == s.pending[p].insert(c));
    assert(s2.pending[p] == s.pending[p].insert(c).remove(c));
    assert(s.pending[p].insert(c).remove(c) =~= s.pending[p]);
    assert(s2.pending =~= s.pending);
    assert(s2 =~= s);
}

/// A child reference is never both pending and accepted under the same
/// parent: the two membership sets of any parent are exclusive in every
/// well-formed state.
pub proof fn lemma_pending_accepted_exclusive(nd: NestingData, p: TokenIdModel, c: ChildRefModel)
    requires
        nd.wf(),
    ensures
        !(nd@.pending[p].contains(c) && nd@.accepted[p].contains(c)),
{
    nd.lemma_view_at(p);
    if nd.has_record(p) {
        nd.lemma_rec_has_index(p);
        let k = nd.rec_index_of(p);
        assert(disjoint_refs(nd.records@[k].pending@, nd.records@[k].accepted@));
    }
}

} // verus!
