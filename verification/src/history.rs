//! Undo/redo navigation history: two stacks of addresses scoped to one
//! browsing session. Navigating somewhere new pushes the left-behind
//! address onto `back` and clears `forward`; undo and redo move the
//! current address between the stacks.

use vstd::prelude::*;

use crate::path_tools::RclonePath;

verus! {

pub struct NavigationHistory {
    back: Vec<RclonePath>,
    forward: Vec<RclonePath>,
}

impl NavigationHistory {
    pub closed spec fn back_seq(&self) -> Seq<RclonePath> {
        self.back@
    }

    pub closed spec fn forward_seq(&self) -> Seq<RclonePath> {
        self.forward@
    }

    pub fn new() -> (r: Self)
        ensures
            r.back_seq() == Seq::<RclonePath>::empty(),
            r.forward_seq() == Seq::<RclonePath>::empty(),
    {
        NavigationHistory { back: Vec::new(), forward: Vec::new() }
    }

    pub fn can_undo(&self) -> (r: bool)
        ensures
            r == (self.back_seq().len() > 0),
    {
        self.back.len() > 0
    }

    pub fn can_redo(&self) -> (r: bool)
        ensures
            r == (self.forward_seq().len() > 0),
    {
        self.forward.len() > 0
    }

    /// Called before any direct navigation is applied: remembers the
    /// address being left and forgets every redo target.
    pub fn push_current_and_clear_forward(&mut self, old_path: RclonePath)
        ensures
            final(self).back_seq() == old(self).back_seq().push(old_path),
            final(self).forward_seq() == (Seq::<RclonePath>::empty()),
    {
        self.back.push(old_path);
        self.forward.clear();
    }

    /// Pops the most recent `back` entry as the new current address,
    /// remembering the caller's current one as a redo target. A no-op
    /// returning nothing when `back` is empty.
    pub fn undo(&mut self, current: &RclonePath) -> (r: Option<RclonePath>)
        ensures
            old(self).back_seq().len() == 0 ==> (r is None
                && final(self).back_seq() == old(self).back_seq()
                && final(self).forward_seq() == old(self).forward_seq()),
            old(self).back_seq().len() > 0 ==> (r == Some(old(self).back_seq().last())
                && final(self).back_seq() == old(self).back_seq().drop_last()
                && final(self).forward_seq() == old(self).forward_seq().push(*current)),
    {
        match self.back.pop() {
            Some(p) => {
                self.forward.push(current.clone());
                proof {
                    assert(final(self).back_seq() =~= old(self).back_seq().drop_last());
                }
                Some(p)
            },
            None => None,
        }
    }

    /// The mirror of `undo`: pops the most recent `forward` entry,
    /// remembering the caller's current address as an undo target.
    pub fn redo(&mut self, current: &RclonePath) -> (r: Option<RclonePath>)
        ensures
            old(self).forward_seq().len() == 0 ==> (r is None
                && final(self).back_seq() == old(self).back_seq()
                && final(self).forward_seq() == old(self).forward_seq()),
            old(self).forward_seq().len() > 0 ==> (r == Some(old(self).forward_seq().last())
                && final(self).forward_seq() == old(self).forward_seq().drop_last()
                && final(self).back_seq() == old(self).back_seq().push(*current)),
    {
        match self.forward.pop() {
            Some(p) => {
                self.back.push(current.clone());
                proof {
                    assert(final(self).forward_seq() =~= old(self).forward_seq().drop_last());
                }
                Some(p)
            },
            None => None,
        }
    }
}

// ---------------------------------------------------------------------------
// The round-trip law of navigation, stated over an abstract session state
// mirroring the methods above
// ---------------------------------------------------------------------------

/// One browsing session: the two stacks and the current address.
pub struct NavState {
    pub back: Seq<RclonePath>,
    pub forward: Seq<RclonePath>,
    pub current: RclonePath,
}

/// A direct navigation, as the controller performs it: push the current
/// address, clear `forward`, then go to the destination.
pub open spec fn nav_step(st: NavState, dest: RclonePath) -> NavState {
    NavState { back: st.back.push(st.current), forward: Seq::empty(), current: dest }
}

pub open spec fn apply_navs(st: NavState, dests: Seq<RclonePath>) -> NavState
    decreases dests.len(),
{
    if dests.len() == 0 {
        st
    } else {
        nav_step(apply_navs(st, dests.drop_last()), dests.last())
    }
}

/// One undo, as the controller performs it on a successful pop.
pub open spec fn undo_step(st: NavState) -> NavState {
    if st.back.len() > 0 {
        NavState {
            back: st.back.drop_last(),
            forward: st.forward.push(st.current),
            current: st.back.last(),
        }
    } else {
        st
    }
}

pub open spec fn apply_undos(st: NavState, n: nat) -> NavState
    decreases n,
{
    if n == 0 {
        st
    } else {
        apply_undos(undo_step(st), (n - 1) as nat)
    }
}

/// One redo: the mirror of `undo_step`.
pub open spec fn redo_step(st: NavState) -> NavState {
    if st.forward.len() > 0 {
        NavState {
            back: st.back.push(st.current),
            forward: st.forward.drop_last(),
            current: st.forward.last(),
        }
    } else {
        st
    }
}

pub open spec fn apply_redos(st: NavState, n: nat) -> NavState
    decreases n,
{
    if n == 0 {
        st
    } else {
        apply_redos(redo_step(st), (n - 1) as nat)
    }
}

/// Undoing only ever appends to `forward`: the stack it starts with sits
/// untouched beneath whatever undoing adds.
proof fn lemma_undos_extend_forward(st: NavState, n: nat)
    ensures
        ({
            let bare = apply_undos(NavState { forward: Seq::empty(), ..st }, n);
            apply_undos(st, n) == NavState { forward: st.forward + bare.forward, ..bare }
        }),
    decreases n,
{
    let bare0 = NavState { forward: Seq::empty(), ..st };
    if n == 0 {
        assert(st.forward + Seq::<RclonePath>::empty() =~= st.forward);
    } else {
        if st.back.len() == 0 {
            lemma_undos_extend_forward(st, (n - 1) as nat);
            assert(undo_step(st) == st);
            assert(undo_step(bare0) == bare0);
        } else {
            let st1 = undo_step(st);
            lemma_undos_extend_forward(st1, (n - 1) as nat);
            let bare1 = NavState { forward: Seq::empty(), ..st1 };
            let a = apply_undos(bare1, (n - 1) as nat);
            assert(apply_undos(st1, (n - 1) as nat) == NavState {
                forward: st1.forward + a.forward,
                ..a
            });
            // the bare run takes the same steps, with [current] in place of
            // forward.push(current)
            let bare_step = undo_step(bare0);
            assert(bare_step == NavState { forward: seq![st.current], ..bare1 });
            lemma_undos_extend_forward(bare_step, (n - 1) as nat);
            assert(NavState { forward: Seq::empty(), ..bare_step } == bare1);
            let b = apply_undos(bare_step, (n - 1) as nat);
            assert(b == NavState { forward: seq![st.current] + a.forward, ..a });
            assert(st.forward + (seq![st.current] + a.forward) =~= (st.forward.push(st.current))
                + a.forward);
        }
    }
}

/// Navigating to N destinations and then undoing N times restores the
/// original stacks and address, with `forward` holding the visited
/// destinations in reverse order.
pub proof fn lemma_navigate_then_undo_roundtrip(st0: NavState, dests: Seq<RclonePath>)
    ensures
        dests.len() > 0 ==> apply_undos(apply_navs(st0, dests), dests.len()) == (NavState {
            back: st0.back,
            forward: dests.reverse(),
            current: st0.current,
        }),
        dests.len() == 0 ==> apply_undos(apply_navs(st0, dests), dests.len()) == st0,
    decreases dests.len(),
{
    if dests.len() == 0 {
    } else {
        let ddl = dests.drop_last();
        let s1 = apply_navs(st0, ddl);
        let after_navs = apply_navs(st0, dests);
        assert(after_navs == nav_step(s1, dests.last()));
        assert(after_navs.back.len() > 0);
        let st1 = undo_step(after_navs);
        assert(s1.back.push(s1.current).drop_last() =~= s1.back);
        assert(Seq::<RclonePath>::empty().push(dests.last()) =~= seq![dests.last()]);
        assert(st1 == NavState {
            back: s1.back,
            forward: seq![dests.last()],
            current: s1.current,
        });
        assert(apply_undos(after_navs, dests.len()) == apply_undos(st1, ddl.len()));
        lemma_navigate_then_undo_roundtrip(st0, ddl);
        lemma_undos_extend_forward(st1, ddl.len());
        let bare1 = NavState { forward: Seq::empty(), ..st1 };
        let bare = apply_undos(bare1, ddl.len());
        if ddl.len() == 0 {
            assert(apply_undos(st1, 0) == st1);
            assert(dests.reverse() =~= seq![dests.last()]);
        } else {
            assert(bare1 == NavState { forward: Seq::empty(), ..s1 });
            assert(apply_undos(s1, ddl.len()) == NavState {
                forward: s1.forward + bare.forward,
                ..bare
            });
            assert(apply_undos(s1, ddl.len()) == NavState {
                back: st0.back,
                forward: ddl.reverse(),
                current: st0.current,
            });
            // the nav run left s1.forward empty, so the bare run equals it
            assert(s1.forward =~= Seq::<RclonePath>::empty());
            assert(bare1 == s1);
            assert(bare == NavState {
                back: st0.back,
                forward: ddl.reverse(),
                current: st0.current,
            });
            assert(apply_undos(st1, ddl.len()) == NavState {
                forward: st1.forward + bare.forward,
                ..bare
            });
            assert(seq![dests.last()] + ddl.reverse() =~= dests.reverse());
        }
    }
}

/// From the state the round trip leaves behind, redoing replays the same
/// destinations in their original order.
pub proof fn lemma_redos_replay(
    b: Seq<RclonePath>,
    c: RclonePath,
    dests: Seq<RclonePath>,
    k: nat,
)
    requires
        1 <= k <= dests.len(),
    ensures
        ({
            let st = NavState { back: b, forward: dests.reverse(), current: c };
            apply_redos(st, k) == NavState {
                back: b + seq![c] + dests.take(k - 1),
                forward: dests.skip(k as int).reverse(),
                current: dests[k - 1],
            }
        }),
    decreases k,
{
    let st = NavState { back: b, forward: dests.reverse(), current: c };
    assert(dests.reverse().len() == dests.len());
    assert(dests.reverse().last() == dests[0]);
    let st1 = redo_step(st);
    assert(dests.reverse().drop_last() =~= dests.skip(1).reverse());
    assert(st1 == NavState {
        back: b.push(c),
        forward: dests.skip(1).reverse(),
        current: dests[0],
    });
    if k == 1 {
        assert(apply_redos(st1, 0) == st1);
        assert(apply_redos(st, 1) == st1);
        assert(b + seq![c] + dests.take(0) =~= b.push(c));
    } else {
        lemma_redos_replay(b.push(c), dests[0], dests.skip(1), (k - 1) as nat);
        assert(apply_redos(st, k) == apply_redos(st1, (k - 1) as nat));
        assert(b.push(c) + seq![dests[0]] + dests.skip(1).take(k - 2) =~= b + seq![c]
            + dests.take(k - 1));
        assert(dests.skip(1).skip(k - 1) =~= dests.skip(k as int));
        assert(dests.skip(1)[k - 2] == dests[k - 1]);
    }
}

} // verus!
