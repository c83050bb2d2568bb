use vstd::prelude::*;

use crate::chord::ESCAPE_KEYSYM;
use crate::config::{Entry, Item, Menu, is_first_match, no_match};

verus! {

/// The level reached from `m` by opening its item `i`, if that item opens one.
pub open spec fn child_of(m: Menu, i: int) -> Option<Menu> {
    if 0 <= i < m.items@.len() {
        match m.items@[i].var {
            Entry::Rec { rec } => Some(rec),
            Entry::Cmd { .. } => None,
        }
    } else {
        None
    }
}

/// The level reached from `root` by opening, in turn, the items of `path`.
pub open spec fn node_at(root: Menu, path: Seq<usize>) -> Option<Menu>
    decreases path.len(),
{
    if path.len() == 0 {
        Some(root)
    } else {
        match node_at(root, path.drop_last()) {
            Some(m) => child_of(m, path.last() as int),
            None => None,
        }
    }
}

proof fn lemma_node_at_prefix(root: Menu, path: Seq<usize>, k: int)
    requires
        node_at(root, path) is Some,
        0 <= k <= path.len(),
    ensures
        node_at(root, path.take(k)) is Some,
    decreases path.len(),
{
    if k < path.len() {
        lemma_node_at_prefix(root, path.drop_last(), k);
        assert(path.drop_last().take(k) =~= path.take(k));
    } else {
        assert(path.take(k) =~= path);
    }
}

/// What a key event asks of the overlay.
pub enum KeyOutcome {
    /// Nothing changes.
    Ignored,
    /// The displayed level changed and must be drawn again.
    Redraw,
    /// Start the command detached, then close.
    Spawn(String),
    /// Close without starting anything.
    Exit,
}

/// One key event with the chord (`keysym`, `mods`) takes the stack from
/// `before` to `after` with outcome `r`.
///
/// A press of Escape closes the top level, or ends the run when only the
/// root is open. A press of any other chord runs the command bound to it,
/// opens the level bound to it, or is ignored when nothing is bound to it.
/// Releases are ignored, but for Escape: its release ends the run, unless it
/// follows a press of Escape that closed a level.
pub open spec fn key_step(
    before: Navigator,
    after: Navigator,
    press: bool,
    keysym: u32,
    mods: u32,
    r: KeyOutcome,
) -> bool {
    &&& after.root == before.root
    &&& after.depth() >= 1
    &&& (press && keysym == ESCAPE_KEYSYM && before.depth() > 1) ==> (r is Redraw
        && after.path@ == before.path@.drop_last() && after.escape_consumed)
    &&& (press && keysym == ESCAPE_KEYSYM && before.depth() == 1) ==> (r is Exit
        && after.path@ == before.path@)
    &&& (press && keysym != ESCAPE_KEYSYM && no_match(before.top().items@, keysym, mods)) ==> (
    r is Ignored && after.path@ == before.path@ && after.escape_consumed
        == before.escape_consumed)
    &&& (press && keysym != ESCAPE_KEYSYM) ==> forall|i: int|
        is_first_match(before.top().items@, keysym, mods, i) ==> match before.top().items@[i].var {
            Entry::Cmd { cmd } => r == KeyOutcome::Spawn(cmd) && after.path@ == before.path@,
            Entry::Rec { rec } => r is Redraw && after.path@ == before.path@.push(i as usize)
                && after.top() == rec && after.escape_consumed == before.escape_consumed,
        }
    &&& (!press && keysym == ESCAPE_KEYSYM && before.escape_consumed) ==> (r is Ignored
        && after.path@ == before.path@ && !after.escape_consumed)
    &&& (!press && keysym == ESCAPE_KEYSYM && !before.escape_consumed) ==> (r is Exit
        && after.path@ == before.path@)
    &&& (!press && keysym != ESCAPE_KEYSYM) ==> (r is Ignored && after.path@ == before.path@
        && after.escape_consumed == before.escape_consumed)
}

/// The stack of open menu levels. The root is always at the bottom; the
/// levels above it are named by the items that opened them.
pub struct Navigator {
    pub root: Menu,
    pub path: Vec<usize>,
    pub escape_consumed: bool,
}

impl Navigator {
    /// The path names a level that exists.
    pub open spec fn wf(&self) -> bool {
        node_at(self.root, self.path@) is Some
    }

    /// How many levels are open, the root included.
    pub open spec fn depth(&self) -> int {
        self.path@.len() as int + 1
    }

    /// The level on top of the stack.
    pub open spec fn top(&self) -> Menu {
        node_at(self.root, self.path@).unwrap()
    }

    /// Opens the root level.
    pub fn new(root: Menu) -> (r: Navigator)
        ensures
            r.wf(),
            r.root == root,
            r.path@.len() == 0,
            r.depth() == 1,
            !r.escape_consumed,
    {
        Navigator { root, path: Vec::new(), escape_consumed: false }
    }

    /// How many levels are open, the root included.
    pub fn level_count(&self) -> (r: usize)
        requires
            self.path@.len() < usize::MAX,
        ensures
            r == self.depth(),
    {
        self.path.len() + 1
    }

    /// The level on top of the stack, the one that is displayed.
    pub fn current(&self) -> (r: &Menu)
        requires
            self.wf(),
        ensures
            *r == self.top(),
    {
        let mut cur: &Menu = &self.root;
        let mut k: usize = 0;
        while k < self.path.len()
            invariant
                self.wf(),
                k <= self.path@.len(),
                node_at(self.root, self.path@.take(k as int)) == Some(*cur),
            decreases self.path@.len() - k,
        {
            proof {
                lemma_node_at_prefix(self.root, self.path@, k + 1);
                assert(self.path@.take(k + 1).drop_last() =~= self.path@.take(k as int));
            }
            let i = self.path[k];
            match &cur.items[i].var {
                Entry::Rec { rec } => {
                    cur = rec;
                },
                Entry::Cmd { .. } => {},
            }
            k = k + 1;
        }
        assert(self.path@.take(k as int) =~= self.path@);
        cur
    }

    /// Handles one key event with the chord (`keysym`, `mods`).
    ///
    /// A press of Escape closes the top level, or ends the run when only the
    /// root is open. A press of any other chord runs the command bound to it,
    /// opens the level bound to it, or is ignored when nothing is bound to it.
    /// Releases are ignored, but for Escape: its release ends the run, unless
    /// it follows a press of Escape that closed a level.
    pub fn key_event(&mut self, press: bool, keysym: u32, mods: u32) -> (r: KeyOutcome)
        requires
            old(self).wf(),
        ensures
            final(self).wf(),
            final(self).depth() >= 1,
            key_step(*old(self), *final(self), press, keysym, mods, r),
    {
        if keysym == ESCAPE_KEYSYM {
            if press {
                if self.path.len() > 0 {
                    let ghost p = self.path@;
                    self.path.pop();
                    proof {
                        lemma_node_at_prefix(self.root, p, p.len() - 1);
                        assert(p.take(p.len() - 1) =~= self.path@);
                    }
                    self.escape_consumed = true;
                    KeyOutcome::Redraw
                } else {
                    KeyOutcome::Exit
                }
            } else if self.escape_consumed {
                self.escape_consumed = false;
                KeyOutcome::Ignored
            } else {
                KeyOutcome::Exit
            }
        } else if !press {
            KeyOutcome::Ignored
        } else {
            let found = {
                let node = self.current();
                match node.find_binding(keysym, mods) {
                    None => None,
                    Some(i) => match &node.items[i].var {
                        Entry::Cmd { cmd } => Some((i, Some(cmd.clone()))),
                        Entry::Rec { .. } => Some((i, None)),
                    },
                }
            };
            match found {
                None => KeyOutcome::Ignored,
                Some((_, Some(cmd))) => KeyOutcome::Spawn(cmd),
                Some((i, None)) => {
                    let ghost p = self.path@;
                    self.path.push(i);
                    proof {
                        assert(self.path@.drop_last() =~= p);
                    }
                    KeyOutcome::Redraw
                },
            }
        }
    }
}

/// The root level is never popped: Escape pressed while only the root is
/// open ends the run and leaves the root open, and no key event leaves the
/// stack empty.
pub proof fn lemma_escape_at_root_exits(before: Navigator, after: Navigator, mods: u32, r: KeyOutcome)
    requires
        before.depth() == 1,
        key_step(before, after, true, ESCAPE_KEYSYM, mods, r),
    ensures
        r is Exit,
        after.depth() == 1,
{
}

} // verus!
