//! The session context of the prompt: named variables and the messages the
//! prompt prints about them.

use vstd::prelude::*;
use vstd::string::*;

use crate::cli::renderer::RenderRequest;
use crate::cli::renderer::RenderRequestV;

verus! {

/// The value bound to `name`, if any.
pub open spec fn spec_lookup(entries: Seq<(Seq<char>, Seq<char>)>, name: Seq<char>) -> Option<
    Seq<char>,
>
    decreases entries.len(),
{
    if entries.len() == 0 {
        None
    } else if entries[0].0 == name {
        Some(entries[0].1)
    } else {
        spec_lookup(entries.skip(1), name)
    }
}

pub open spec fn distinct_keys(entries: Seq<(Seq<char>, Seq<char>)>) -> bool {
    forall|i: int, j: int|
        0 <= i < j < entries.len() ==> (#[trigger] entries[i]).0 != (#[trigger] entries[j]).0
}

proof fn lemma_lookup_at(entries: Seq<(Seq<char>, Seq<char>)>, i: int)
    requires
        distinct_keys(entries),
        0 <= i < entries.len(),
    ensures
        spec_lookup(entries, entries[i].0) == Some(entries[i].1),
    decreases i,
{
    if i > 0 {
        assert(entries[0].0 != entries[i].0);
        lemma_lookup_at(entries.skip(1), i - 1);
        assert(entries.skip(1)[i - 1] == entries[i]);
    }
}

proof fn lemma_lookup_none(entries: Seq<(Seq<char>, Seq<char>)>, name: Seq<char>)
    requires
        forall|i: int| 0 <= i < entries.len() ==> (#[trigger] entries[i]).0 != name,
    ensures
        spec_lookup(entries, name) is None,
    decreases entries.len(),
{
    if entries.len() > 0 {
        lemma_lookup_none(entries.skip(1), name);
    }
}

proof fn lemma_lookup_update(
    entries: Seq<(Seq<char>, Seq<char>)>,
    i: int,
    val: Seq<char>,
    other: Seq<char>,
)
    requires
        0 <= i < entries.len(),
        other != entries[i].0,
    ensures
        spec_lookup(entries.update(i, (entries[i].0, val)), other) == spec_lookup(entries, other),
    decreases i,
{
    let updated = entries.update(i, (entries[i].0, val));
    if entries.len() > 0 {
        if i == 0 {
            assert(updated.skip(1) =~= entries.skip(1));
        } else {
            assert(updated[0] == entries[0]);
            if entries[0].0 != other {
                assert(updated.skip(1) =~= entries.skip(1).update(i - 1, (entries[i].0, val)));
                assert(entries.skip(1)[i - 1] == entries[i]);
                lemma_lookup_update(entries.skip(1), i - 1, val, other);
            }
        }
    }
}

proof fn lemma_lookup_push(
    entries: Seq<(Seq<char>, Seq<char>)>,
    name: Seq<char>,
    val: Seq<char>,
    other: Seq<char>,
)
    requires
        other != name,
    ensures
        spec_lookup(entries.push((name, val)), other) == spec_lookup(entries, other),
    decreases entries.len(),
{
    if entries.len() == 0 {
        let pushed = entries.push((name, val));
        assert(pushed[0] == (name, val));
        assert(pushed[0].0 == name);
        assert(pushed.skip(1) =~= Seq::<(Seq<char>, Seq<char>)>::empty());
        assert(spec_lookup(pushed.skip(1), other) is None);
        assert(spec_lookup(pushed, other) is None);
        assert(spec_lookup(entries, other) is None);
    } else {
        let pushed = entries.push((name, val));
        assert(pushed[0] == entries[0]);
        assert(pushed.skip(1) =~= entries.skip(1).push((name, val)));
        if entries[0].0 == other {
            assert(spec_lookup(pushed, other) == Some(entries[0].1));
            assert(spec_lookup(entries, other) == Some(entries[0].1));
        } else {
            lemma_lookup_push(entries.skip(1), name, val, other);
            assert(spec_lookup(pushed, other) == spec_lookup(pushed.skip(1), other));
            assert(spec_lookup(entries, other) == spec_lookup(entries.skip(1), other));
        }
    }
}

/// Holds the variables a session has assigned.
pub struct ReplContext {
    variables: Vec<(String, String)>,
}

impl ReplContext {
    pub closed spec fn vars(self) -> Seq<(Seq<char>, Seq<char>)> {
        Seq::new(self.variables@.len(), |i: int| (self.variables@[i].0@, self.variables@[i].1@))
    }

    pub closed spec fn wf(self) -> bool {
        distinct_keys(self.vars())
    }

    /// The value bound to `name` in this context, if any.
    pub open spec fn value_of(self, name: Seq<char>) -> Option<Seq<char>> {
        spec_lookup(self.vars(), name)
    }

    pub fn new() -> (r: ReplContext)
        ensures
            r.wf(),
            r.vars() == Seq::<(Seq<char>, Seq<char>)>::empty(),
    {
        let variables: Vec<(String, String)> = Vec::new();
        let r = ReplContext { variables };
        proof {
            assert(r.vars() =~= Seq::<(Seq<char>, Seq<char>)>::empty());
        }
        r
    }

    fn find(&self, name: &String) -> (r: Option<usize>)
        ensures
            r matches Some(i) ==> i < self.vars().len() && self.vars()[i as int].0 == name@,
            r is None ==> forall|i: int|
                0 <= i < self.vars().len() ==> (#[trigger] self.vars()[i]).0 != name@,
    {
        let n = self.variables.len();
        let mut i: usize = 0;
        while i < n
            invariant
                0 <= i <= n,
                n == self.variables@.len(),
                forall|j: int| 0 <= j < i ==> (#[trigger] self.vars()[j]).0 != name@,
            decreases n - i,
        {
            if self.variables[i].0 == *name {
                assert(self.vars()[i as int].0 == name@);
                return Some(i);
            }
            assert(self.vars()[i as int].0 != name@);
            i = i + 1;
        }
        None
    }

    /// The message the prompt prints for `name`: its binding, or a note that
    /// the input was no command and no known variable.
    pub fn try_print_var(&self, name: &str) -> (r: RenderRequest)
        requires
            self.wf(),
        ensures
            r@ == RenderRequestV::WriteNewline(
                match self.value_of(name@) {
                    Some(val) => name@ + " = "@ + val,
                    None => "Invalid command or variable: "@ + name@,
                },
            ),
    {
        let name_string = String::from_str(name);
        match self.find(&name_string) {
            Some(i) => {
                proof {
                    lemma_lookup_at(self.vars(), i as int);
                }
                let mut msg = String::from_str(name);
                msg.append(" = ");
                msg.append(self.variables[i].1.as_str());
                RenderRequest::WriteNewline(msg)
            },
            None => {
                proof {
                    lemma_lookup_none(self.vars(), name@);
                }
                let mut msg = String::from_str("Invalid command or variable: ");
                msg.append(name);
                RenderRequest::WriteNewline(msg)
            },
        }
    }

    /// Binds `name` to `val` and returns the confirmation message.
    pub fn set_var(&mut self, name: String, val: String) -> (r: RenderRequest)
        requires
            old(self).wf(),
        ensures
            final(self).wf(),
            final(self).value_of(name@) == Some(val@),
            forall|other: Seq<char>|
                other != name@ ==> #[trigger] final(self).value_of(other) == old(self).value_of(
                    other,
                ),
            r@ == RenderRequestV::WriteNewline(
                "set `"@ + name@ + "` to `"@ + val@ + "`"@,
            ),
    {
        let mut msg = String::from_str("set `");
        msg.append(name.as_str());
        msg.append("` to `");
        msg.append(val.as_str());
        msg.append("`");
        match self.find(&name) {
            Some(i) => {
                let ghost pre = self.vars();
                self.variables.set(i, (name, val));
                proof {
                    assert(final(self).vars() =~= pre.update(i as int, (pre[i as int].0, val@)));
                    lemma_lookup_at(final(self).vars(), i as int);
                    assert forall|other: Seq<char>| other != pre[i as int].0 implies #[trigger] spec_lookup(
                        final(self).vars(),
                        other,
                    ) == spec_lookup(pre, other) by {
                        lemma_lookup_update(pre, i as int, val@, other);
                    }
                    assert(distinct_keys(final(self).vars()));
                }
                RenderRequest::WriteNewline(msg)
            },
            None => {
                let ghost pre = self.vars();
                self.variables.push((name, val));
                proof {
                    assert(final(self).vars() =~= pre.push((name@, val@)));
                    lemma_lookup_at(final(self).vars(), pre.len() as int);
                    assert forall|other: Seq<char>| other != name@ implies #[trigger] spec_lookup(
                        final(self).vars(),
                        other,
                    ) == spec_lookup(pre, other) by {
                        lemma_lookup_push(pre, name@, val@, other);
                    }
                    assert(distinct_keys(final(self).vars()));
                }
                RenderRequest::WriteNewline(msg)
            },
        }
    }
}

} // verus!
