use vstd::prelude::*;

verus! {

/// Identifier of one state: an index into the shared transition table.
/// Ids are handed out in strictly increasing order as states are appended
/// and are never reused.
pub type QId = usize;

/// One outgoing transition: an optional label and a target state.
/// `None` as the label is an epsilon transition, consumed without
/// reading an input symbol.
pub type Transition = (Option<char>, QId);

/// One row of the transition table: the two outgoing slots of one state.
/// Every state has out-degree at most two; nondeterministic choice with
/// higher fan-out is expressed by dedicated branch states instead.
#[derive(Debug, PartialEq, Eq, Clone, Copy)]
pub struct StateRow {
    /// slot 0, by convention the left alternative of a branch state
    pub slot0: Option<Transition>,
    /// slot 1, by convention the right alternative of a branch state
    pub slot1: Option<Transition>,
}

impl StateRow {
    /// A dangling state: no outgoing transition in either slot.
    /// A fragment may be consumed by a combinator only while its final
    /// state is still dangling.
    pub open spec fn dangling(self) -> bool {
        self.slot0 is None && self.slot1 is None
    }

    /// Runtime check for [`StateRow::dangling`].
    pub fn is_dangling(&self) -> (b: bool)
        ensures
            b == self.dangling(),
    {
        self.slot0.is_none() && self.slot1.is_none()
    }
}

/// A state with no outgoing transitions.
pub open spec fn empty_row() -> StateRow {
    StateRow { slot0: None, slot1: None }
}

/// A state whose only transition is an epsilon edge to `target`.
pub open spec fn epsilon_row(target: QId) -> StateRow {
    StateRow { slot0: Some((None, target)), slot1: None }
}

/// A state whose only transition consumes the symbol `c` and moves to `target`.
pub open spec fn literal_row(c: char, target: QId) -> StateRow {
    StateRow { slot0: Some((Some(c), target)), slot1: None }
}

/// A branch state: epsilon edges to `left` (slot 0) and `right` (slot 1).
pub open spec fn branch_row(left: QId, right: QId) -> StateRow {
    StateRow { slot0: Some((None, left)), slot1: Some((None, right)) }
}

/// Reference to a sub-automaton's initial and final states.
///
/// Pure data: it indexes into the shared table and owns no storage.
#[derive(Debug, PartialEq)]
pub struct AutomataRef {
    /// initial state
    pub q0: QId,
    /// final state
    pub f: QId,
}

/// Augmented non-deterministic finite automaton under construction.
///
/// The table `delta` is shared by every fragment of the automaton and is
/// append-only: operations may push new rows and may rewrite the slots of a
/// fragment's dangling final state, but never remove or reorder rows.
#[derive(Debug, PartialEq)]
pub struct ANFA {
    /// the transition table, indexed by state id
    pub delta: Vec<StateRow>,
    /// global initial state, unset until finalized
    pub q0: Option<QId>,
    /// global final state, unset until finalized
    pub f: Option<QId>,
}

/// The table only grew, and every row present before kept its value,
/// except the rows whose ids are in `touched`.
///
/// Every construction step satisfies this with `touched` holding at most
/// the final states of its operand fragments, which is what makes grafting
/// fragments into the shared table non-destructive.
pub open spec fn grows_preserving(pre: Seq<StateRow>, post: Seq<StateRow>, touched: Set<int>) -> bool {
    &&& pre.len() <= post.len()
    &&& forall|i: int| 0 <= i < pre.len() && !touched.contains(i) ==> post[i] == pre[i]
}

/// The table after a successful concatenation of `a` and `b`: the one
/// change is an epsilon edge from `a`'s final state to `b`'s initial state.
pub open spec fn concat_table(d: Seq<StateRow>, a: AutomataRef, b: AutomataRef) -> Seq<StateRow> {
    d.update(a.f as int, epsilon_row(b.q0))
}

/// The fragment reference a successful concatenation returns: it enters
/// through `a` and ends at `b`'s final state.
pub open spec fn concat_ref(a: AutomataRef, b: AutomataRef) -> AutomataRef {
    AutomataRef { q0: a.q0, f: b.f }
}

impl ANFA {
    /// The fragment's final state is still dangling, so the fragment has
    /// not yet been consumed by a combinator.
    pub open spec fn ref_dangling(self, r: AutomataRef) -> bool {
        self.delta@[r.f as int].dangling()
    }

    /// Returns an automaton with no states and no designated initial or
    /// final state. Must eventually be finalized with `in_and_fin`.
    pub fn new() -> (m: ANFA)
        ensures
            m.delta@ == Seq::<StateRow>::empty(),
            m.q0 is None,
            m.f is None,
    {
        ANFA { delta: Vec::new(), q0: None, f: None }
    }

    /// Finalizes the automaton: records the initial and final states of
    /// `machine_ref_a` as the global initial and final states. Always
    /// succeeds and leaves the table untouched.
    pub fn in_and_fin(&mut self, machine_ref_a: &AutomataRef) -> (r: Result<(), &'static str>)
        ensures
            final(self).delta@ == old(self).delta@,
            final(self).q0 == Some(machine_ref_a.q0),
            final(self).f == Some(machine_ref_a.f),
            r is Ok,
    {
        self.q0 = Some(machine_ref_a.q0);
        self.f = Some(machine_ref_a.f);

        Ok(())
    }

    /// Appends an acceptor of the empty language: two fresh states with no
    /// transitions at all, so no path connects the initial state to the
    /// final one. Always succeeds.
    pub fn expr_0(&mut self) -> (r: Result<AutomataRef, &'static str>)
        requires
            old(self).delta@.len() < usize::MAX,
        ensures
            final(self).q0 == old(self).q0,
            final(self).f == old(self).f,
            final(self).delta@ == old(self).delta@.push(empty_row()).push(empty_row()),
            final(self).delta@.len() == old(self).delta@.len() + 2,
            r matches Ok(h) && h.q0 == old(self).delta@.len() && h.f == old(self).delta@.len() + 1,
            grows_preserving(old(self).delta@, final(self).delta@, Set::empty()),
    {
        let q0 = self.delta.len();
        let f = q0 + 1;
        self.delta.push(StateRow { slot0: None, slot1: None });
        self.delta.push(StateRow { slot0: None, slot1: None });

        Ok(AutomataRef { q0, f })
    }

    /// Appends an acceptor of the language holding only the empty string:
    /// one fresh state, already final, with no transitions. The returned
    /// reference has its initial and final state coincide. Always succeeds.
    pub fn expr_1(&mut self) -> (r: Result<AutomataRef, &'static str>)
        ensures
            final(self).q0 == old(self).q0,
            final(self).f == old(self).f,
            final(self).delta@ == old(self).delta@.push(empty_row()),
            final(self).delta@.len() == old(self).delta@.len() + 1,
            r matches Ok(h) && h.q0 == old(self).delta@.len() && h.f == h.q0,
            grows_preserving(old(self).delta@, final(self).delta@, Set::empty()),
    {
        let q0: usize = self.delta.len();
        self.delta.push(StateRow { slot0: None, slot1: None });

        Ok(AutomataRef { q0, f: q0 })
    }

    /// Appends an acceptor of the one-symbol language `{c}`: two fresh
    /// states joined by a single transition labeled `c`. Always succeeds.
    pub fn expr_a(&mut self, c: char) -> (r: Result<AutomataRef, &'static str>)
        requires
            old(self).delta@.len() < usize::MAX,
        ensures
            final(self).q0 == old(self).q0,
            final(self).f == old(self).f,
            final(self).delta@ == old(self).delta@
                .push(literal_row(c, (old(self).delta@.len() + 1) as usize))
                .push(empty_row()),
            final(self).delta@.len() == old(self).delta@.len() + 2,
            r matches Ok(h) && h.q0 == old(self).delta@.len() && h.f == old(self).delta@.len() + 1,
            grows_preserving(old(self).delta@, final(self).delta@, Set::empty()),
    {
        let q0 = self.delta.len();
        let f = q0 + 1;
        self.delta.push(StateRow { slot0: Some((Some(c), f)), slot1: None });
        self.delta.push(StateRow { slot0: None, slot1: None });

        Ok(AutomataRef { q0, f })
    }

    /// Concatenates the fragments `machine_ref_a` and `machine_ref_b`,
    /// which must live in this table.
    ///
    /// Succeeds exactly when the final states of both fragments are still
    /// dangling; it then wires an epsilon edge from `machine_ref_a`'s final
    /// state to `machine_ref_b`'s initial state, appends no state, and
    /// returns the combined fragment. On failure the table is untouched.
    ///
    /// Concatenation is an associative, binary operation; see
    /// [`lemma_concatenate_associative`].
    pub fn concatenate(
        &mut self,
        machine_ref_a: &AutomataRef,
        machine_ref_b: &AutomataRef,
    ) -> (r: Result<AutomataRef, &'static str>)
        requires
            machine_ref_a.f < old(self).delta@.len(),
            machine_ref_b.f < old(self).delta@.len(),
        ensures
            final(self).q0 == old(self).q0,
            final(self).f == old(self).f,
            final(self).delta@.len() == old(self).delta@.len(),
            old(self).ref_dangling(*machine_ref_a) && old(self).ref_dangling(*machine_ref_b) ==> {
                &&& r matches Ok(h) && h == concat_ref(*machine_ref_a, *machine_ref_b)
                &&& final(self).delta@ == concat_table(old(self).delta@, *machine_ref_a, *machine_ref_b)
            },
            !(old(self).ref_dangling(*machine_ref_a) && old(self).ref_dangling(*machine_ref_b)) ==> {
                &&& r matches Err(m) && m@ == "Final states of machine_ref_a and machine_ref_b can NOT have transitions"@
                &&& final(self).delta@ == old(self).delta@
            },
            grows_preserving(old(self).delta@, final(self).delta@, set![machine_ref_a.f as int]),
    {
        let row_a = self.delta[machine_ref_a.f];
        let row_b = self.delta[machine_ref_b.f];
        if !(row_a.is_dangling() && row_b.is_dangling()) {
            return Err("Final states of machine_ref_a and machine_ref_b can NOT have transitions");
        }

        self.delta[machine_ref_a.f] = StateRow { slot0: Some((None, machine_ref_b.q0)), slot1: None };

        Ok(AutomataRef { q0: machine_ref_a.q0, f: machine_ref_b.f })
    }

    /// Closes the fragment `machine_ref_a` under zero-or-more repetition.
    ///
    /// Succeeds exactly when the fragment's final state is still dangling;
    /// it then appends three states in order — a new initial state, a
    /// branch state, a new final state — and wires: initial --eps--> branch;
    /// branch, slot 0, --eps--> the fragment's initial state; branch,
    /// slot 1, --eps--> the new final state; the fragment's old final state
    /// --eps--> branch, closing the loop. On failure the table is untouched.
    pub fn star(&mut self, machine_ref_a: &AutomataRef) -> (r: Result<AutomataRef, &'static str>)
        requires
            machine_ref_a.f < old(self).delta@.len(),
            old(self).delta@.len() + 2 <= usize::MAX,
        ensures
            final(self).q0 == old(self).q0,
            final(self).f == old(self).f,
            old(self).ref_dangling(*machine_ref_a) ==> {
                &&& r matches Ok(h)
                &&& h.q0 == old(self).delta@.len()
                &&& h.f == old(self).delta@.len() + 2
                &&& final(self).delta@ == old(self).delta@
                    .push(epsilon_row((old(self).delta@.len() + 1) as usize))
                    .push(branch_row(machine_ref_a.q0, (old(self).delta@.len() + 2) as usize))
                    .push(empty_row())
                    .update(machine_ref_a.f as int, epsilon_row((old(self).delta@.len() + 1) as usize))
                &&& final(self).delta@.len() == old(self).delta@.len() + 3
            },
            !old(self).ref_dangling(*machine_ref_a) ==> {
                &&& r matches Err(m) && m@ == "Final state of machine_ref_a can NOT have transitions"@
                &&& final(self).delta@ == old(self).delta@
            },
            grows_preserving(old(self).delta@, final(self).delta@, set![machine_ref_a.f as int]),
    {
        let row_a = self.delta[machine_ref_a.f];
        if !row_a.is_dangling() {
            return Err("Final state of machine_ref_a can NOT have transitions");
        }

        let q0 = self.delta.len();
        let q_next = q0 + 1;
        let f = q_next + 1;

        self.delta.push(StateRow { slot0: Some((None, q_next)), slot1: None });
        self.delta.push(StateRow { slot0: Some((None, machine_ref_a.q0)), slot1: Some((None, f)) });
        self.delta.push(StateRow { slot0: None, slot1: None });
        self.delta[machine_ref_a.f] = StateRow { slot0: Some((None, q_next)), slot1: None };

        Ok(AutomataRef { q0, f })
    }

    /// Joins the fragments `machine_ref_a` and `machine_ref_b` into one
    /// that accepts either.
    ///
    /// Succeeds exactly when the final states of both fragments are still
    /// dangling; it then appends two states — a branch state whose slot 0
    /// goes by epsilon to `machine_ref_a`'s initial state (the left operand
    /// always occupies slot 0) and whose slot 1 goes by epsilon to
    /// `machine_ref_b`'s initial state, and a new final state that both
    /// fragments' old final states reach by a fresh epsilon edge. On
    /// failure the table is untouched.
    pub fn union(
        &mut self,
        machine_ref_a: &AutomataRef,
        machine_ref_b: &AutomataRef,
    ) -> (r: Result<AutomataRef, &'static str>)
        requires
            machine_ref_a.f < old(self).delta@.len(),
            machine_ref_b.f < old(self).delta@.len(),
            old(self).delta@.len() < usize::MAX,
        ensures
            final(self).q0 == old(self).q0,
            final(self).f == old(self).f,
            old(self).ref_dangling(*machine_ref_a) && old(self).ref_dangling(*machine_ref_b) ==> {
                &&& r matches Ok(h)
                &&& h.q0 == old(self).delta@.len()
                &&& h.f == old(self).delta@.len() + 1
                &&& final(self).delta@ == old(self).delta@
                    .push(branch_row(machine_ref_a.q0, machine_ref_b.q0))
                    .push(empty_row())
                    .update(machine_ref_a.f as int, epsilon_row((old(self).delta@.len() + 1) as usize))
                    .update(machine_ref_b.f as int, epsilon_row((old(self).delta@.len() + 1) as usize))
                &&& final(self).delta@.len() == old(self).delta@.len() + 2
            },
            !(old(self).ref_dangling(*machine_ref_a) && old(self).ref_dangling(*machine_ref_b)) ==> {
                &&& r matches Err(m) && m@ == "Final states of machine_ref_a and machine_ref_b can NOT have transitions"@
                &&& final(self).delta@ == old(self).delta@
            },
            grows_preserving(
                old(self).delta@,
                final(self).delta@,
                set![machine_ref_a.f as int, machine_ref_b.f as int],
            ),
    {
        let row_a = self.delta[machine_ref_a.f];
        let row_b = self.delta[machine_ref_b.f];
        if !(row_a.is_dangling() && row_b.is_dangling()) {
            return Err("Final states of machine_ref_a and machine_ref_b can NOT have transitions");
        }

        let q0 = self.delta.len();
        self.delta.push(StateRow {
            slot0: Some((None, machine_ref_a.q0)),
            slot1: Some((None, machine_ref_b.q0)),
        });

        let f = q0 + 1;
        self.delta.push(StateRow { slot0: None, slot1: None });

        self.delta[machine_ref_a.f] = StateRow { slot0: Some((None, f)), slot1: None };
        self.delta[machine_ref_b.f] = StateRow { slot0: Some((None, f)), slot1: None };

        Ok(AutomataRef { q0, f })
    }
}

/// Law: concatenation is associative. For fragments `x`, `y`, `z` whose
/// final states are distinct rows of the table (as they are whenever the
/// fragments were built side by side, e.g. by `expr_a`), concatenating
/// `(x . y) . z` and `x . (y . z)` yields the same table and the same
/// resulting fragment reference.
pub proof fn lemma_concatenate_associative(d: Seq<StateRow>, x: AutomataRef, y: AutomataRef, z: AutomataRef)
    requires
        x.f < d.len(),
        y.f < d.len(),
        x.f != y.f,
    ensures
        concat_table(concat_table(d, x, y), concat_ref(x, y), z)
            == concat_table(concat_table(d, y, z), x, concat_ref(y, z)),
        concat_ref(concat_ref(x, y), z) == concat_ref(x, concat_ref(y, z)),
{
    assert(concat_table(concat_table(d, x, y), concat_ref(x, y), z)
        =~= concat_table(concat_table(d, y, z), x, concat_ref(y, z)));
}

/// Law: the table is append-only across any sequence of operations. If one
/// step only grows the table while preserving the rows outside `t1`, and a
/// later step likewise preserves the rows outside `t2`, then the two steps
/// together preserve every original row outside `t1 + t2`.
pub proof fn lemma_grows_preserving_trans(
    d1: Seq<StateRow>,
    d2: Seq<StateRow>,
    d3: Seq<StateRow>,
    t1: Set<int>,
    t2: Set<int>,
)
    requires
        grows_preserving(d1, d2, t1),
        grows_preserving(d2, d3, t2),
    ensures
        grows_preserving(d1, d3, t1.union(t2)),
{
    assert forall|i: int| 0 <= i < d1.len() && !t1.union(t2).contains(i) implies d3[i] == d1[i] by {
        assert(d2[i] == d1[i]);
        assert(d3[i] == d2[i]);
    }
}

} // verus!
