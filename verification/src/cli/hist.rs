//! Command history for the interactive prompt: a bounded list of past
//! inputs with a cursor that the arrow keys scrub through.

use vstd::prelude::*;

verus! {

/// How many inputs the history retains.
pub const HISTORY_CAPACITY: usize = 3000;

pub struct InputHistory {
    cmds: Vec<String>,
    cursor: usize,
    capacity: usize,
}

impl InputHistory {
    pub closed spec fn entries(self) -> Seq<Seq<char>> {
        self.cmds.deep_view()
    }

    pub closed spec fn spec_cursor(self) -> nat {
        self.cursor as nat
    }

    pub closed spec fn spec_capacity(self) -> nat {
        self.capacity as nat
    }

    pub closed spec fn wf(self) -> bool {
        &&& self.cursor <= self.cmds@.len()
        &&& self.cmds@.len() <= self.capacity
        &&& self.capacity >= 1
    }

    pub fn new() -> (r: InputHistory)
        ensures
            r.wf(),
            r.entries() == Seq::<Seq<char>>::empty(),
            r.spec_cursor() == 0,
            r.spec_capacity() == HISTORY_CAPACITY,
    {
        let cmds: Vec<String> = Vec::new();
        assert(cmds.deep_view() =~= Seq::<Seq<char>>::empty());
        InputHistory { cmds, cursor: 0, capacity: HISTORY_CAPACITY }
    }

    /// Stores a command and puts the cursor past the newest entry. Once the
    /// history is full, the slot the cursor wrapped to is overwritten instead.
    pub fn push(&mut self, cmd: String)
        requires
            old(self).wf(),
        ensures
            final(self).wf(),
            final(self).spec_capacity() == old(self).spec_capacity(),
            final(self).entries() == if old(self).entries().len() == old(self).spec_capacity() {
                old(self).entries().update(
                    (old(self).spec_cursor() % old(self).spec_capacity()) as int,
                    cmd@,
                )
            } else {
                old(self).entries().push(cmd@)
            },
            final(self).spec_cursor() == final(self).entries().len(),
    {
        if self.cmds.len() == self.capacity {
            let i = self.cursor % self.capacity;
            self.cmds.set(i, cmd);
        } else {
            self.cmds.push(cmd);
        }
        self.cursor = self.cmds.len();
        proof {
            assert(final(self).entries() =~= if old(self).entries().len()
                == old(self).spec_capacity() {
                old(self).entries().update(
                    (old(self).spec_cursor() % old(self).spec_capacity()) as int,
                    cmd@,
                )
            } else {
                old(self).entries().push(cmd@)
            });
        }
    }

    /// Steps the cursor back and returns the entry it lands on, or `None` at
    /// the oldest entry.
    pub fn prev(&mut self) -> (r: Option<&String>)
        requires
            old(self).wf(),
        ensures
            final(self).wf(),
            final(self).entries() == old(self).entries(),
            final(self).spec_capacity() == old(self).spec_capacity(),
            old(self).spec_cursor() == 0 ==> r is None && final(self).spec_cursor() == 0,
            old(self).spec_cursor() > 0 ==> {
                &&& final(self).spec_cursor() == old(self).spec_cursor() - 1
                &&& r matches Some(s) && s@ == old(self).entries()[old(self).spec_cursor() - 1]
            },
    {
        if self.cursor > 0 {
            self.cursor = self.cursor - 1;
            Some(&self.cmds[self.cursor])
        } else {
            None
        }
    }

    /// Steps the cursor forward and returns the entry it passed, or `None` at
    /// the newest entry.
    pub fn next(&mut self) -> (r: Option<&String>)
        requires
            old(self).wf(),
        ensures
            final(self).wf(),
            final(self).entries() == old(self).entries(),
            final(self).spec_capacity() == old(self).spec_capacity(),
            old(self).spec_cursor() == old(self).entries().len() ==> r is None
                && final(self).spec_cursor() == old(self).spec_cursor(),
            old(self).spec_cursor() < old(self).entries().len() ==> {
                &&& final(self).spec_cursor() == old(self).spec_cursor() + 1
                &&& r matches Some(s) && s@ == old(self).entries()[old(self).spec_cursor() as int]
            },
    {
        if self.cursor < self.cmds.len() {
            self.cursor = self.cursor + 1;
            Some(&self.cmds[self.cursor - 1])
        } else {
            None
        }
    }
}

impl Default for InputHistory {
    fn default() -> (r: InputHistory)
        ensures
            r.wf(),
            r.entries() == Seq::<Seq<char>>::empty(),
            r.spec_cursor() == 0,
            r.spec_capacity() == HISTORY_CAPACITY,
    {
        InputHistory::new()
    }
}

} // verus!
