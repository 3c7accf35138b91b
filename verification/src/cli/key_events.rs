//! The prompt's reaction to key events: editing the current input line,
//! moving the cursor, and scrubbing through the input history. Each handler
//! updates the edit state and says which render requests to emit; reading
//! the keys and carrying the requests to a terminal stays outside.

use vstd::prelude::*;
use vstd::string::*;

use crate::cli::hist::InputHistory;
use crate::text::push_char;
use crate::cli::renderer::RenderRequest;
use crate::cli::renderer::RenderRequestV;

verus! {

/// The edit state of the prompt: the cursor position inside the current
/// input line, and the input history.
pub struct Parser {
    cursor_pos: u16,
    hist: InputHistory,
}

/// The cursor position a line of this length maps to: its length, saturated
/// to what a cursor coordinate can hold.
pub open spec fn cursor_for_len(len: nat) -> u16 {
    if len > u16::MAX {
        u16::MAX
    } else {
        len as u16
    }
}

impl Parser {
    pub closed spec fn cursor(self) -> u16 {
        self.cursor_pos
    }

    pub closed spec fn history(self) -> InputHistory {
        self.hist
    }

    pub closed spec fn wf(self) -> bool {
        self.hist.wf()
    }

    pub fn new() -> (r: Parser)
        ensures
            r.wf(),
            r.cursor() == 0,
            r.history().entries() == Seq::<Seq<char>>::empty(),
    {
        Parser { cursor_pos: 0, hist: InputHistory::new() }
    }

    /// Records a submitted input line in the history.
    pub fn push_history(&mut self, cmd: String)
        requires
            old(self).wf(),
        ensures
            final(self).wf(),
            final(self).cursor() == old(self).cursor(),
            final(self).history().entries() == if old(self).history().entries().len() == old(
                self,
            ).history().spec_capacity() {
                old(self).history().entries().update(
                    (old(self).history().spec_cursor() % old(self).history().spec_capacity()) as int,
                    cmd@,
                )
            } else {
                old(self).history().entries().push(cmd@)
            },
    {
        self.hist.push(cmd);
    }

    /// Enter: the line is done; redraw it and put the cursor back at the
    /// start for the next line.
    pub fn handle_enter(&mut self, input: &String) -> (r: RenderRequest)
        requires
            old(self).wf(),
        ensures
            final(self).wf(),
            final(self).cursor() == 0,
            final(self).history() == old(self).history(),
            r@ == RenderRequestV::UpdateLine(input@),
    {
        self.cursor_pos = 0;
        RenderRequest::UpdateLine(input.clone())
    }

    /// A typed character goes at the end of the line and moves the cursor.
    pub fn insert_char(&mut self, input: &mut String, c: char) -> (r: RenderRequest)
        requires
            old(self).wf(),
            old(self).cursor() < u16::MAX,
        ensures
            final(self).wf(),
            final(self).cursor() == old(self).cursor() + 1,
            final(self).history() == old(self).history(),
            final(input)@ == old(input)@.push(c),
            r@ == RenderRequestV::UpdateLine(old(input)@.push(c)),
    {
        push_char(input, c);
        self.cursor_pos = self.cursor_pos + 1;
        RenderRequest::UpdateLine(input.clone())
    }

    /// Backspace removes the character before the cursor; with the cursor at
    /// the start the whole line is discarded. On an empty line nothing
    /// happens and nothing is drawn.
    pub fn backspace(&mut self, input: &mut String) -> (r: Option<RenderRequest>)
        requires
            old(self).wf(),
            old(self).cursor() as nat <= old(input)@.len(),
        ensures
            final(self).wf(),
            final(self).history() == old(self).history(),
            old(input)@.len() == 0 ==> {
                &&& r is None
                &&& final(input)@ == old(input)@
                &&& final(self).cursor() == old(self).cursor()
            },
            old(input)@.len() > 0 && old(self).cursor() > 0 ==> {
                &&& final(input)@ == old(input)@.remove(old(self).cursor() - 1)
                &&& final(self).cursor() == old(self).cursor() - 1
                &&& r matches Some(req) && req@ == RenderRequestV::Backspace(final(input)@)
            },
            old(input)@.len() > 0 && old(self).cursor() == 0 ==> {
                &&& final(input)@ == Seq::<char>::empty()
                &&& final(self).cursor() == 0
                &&& r matches Some(req) && req@ == RenderRequestV::Backspace(Seq::<char>::empty())
            },
    {
        if input.as_str().unicode_len() == 0 {
            return None;
        }
        if self.cursor_pos > 0 {
            self.cursor_pos = self.cursor_pos - 1;
            let at = self.cursor_pos as usize;
            let len = input.as_str().unicode_len();
            let head = input.as_str().substring_char(0, at);
            let mut edited = String::from_str(head);
            let tail = input.as_str().substring_char(at + 1, len);
            edited.append(tail);
            proof {
                assert(edited@ =~= old(input)@.remove(old(self).cursor() - 1));
            }
            *input = edited;
        } else {
            *input = String::new();
        }
        Some(RenderRequest::Backspace(input.clone()))
    }

    /// The left arrow moves the cursor one step left, stopping at the start.
    pub fn move_cursor_left(&mut self) -> (r: Option<RenderRequest>)
        requires
            old(self).wf(),
        ensures
            final(self).wf(),
            final(self).history() == old(self).history(),
            old(self).cursor() == 0 ==> r is None && final(self).cursor() == 0,
            old(self).cursor() > 0 ==> {
                &&& final(self).cursor() == old(self).cursor() - 1
                &&& r matches Some(req) && req@ == RenderRequestV::MoveCursorLeft
            },
    {
        if self.cursor_pos > 0 {
            self.cursor_pos = self.cursor_pos - 1;
            Some(RenderRequest::MoveCursorLeft)
        } else {
            None
        }
    }

    /// The right arrow moves the cursor one step right, stopping at the end
    /// of the line.
    pub fn move_cursor_right(&mut self, input_len: usize) -> (r: Option<RenderRequest>)
        requires
            old(self).wf(),
            old(self).cursor() < u16::MAX,
        ensures
            final(self).wf(),
            final(self).history() == old(self).history(),
            input_len <= old(self).cursor() ==> r is None && final(self).cursor() == old(
                self,
            ).cursor(),
            input_len > old(self).cursor() ==> {
                &&& final(self).cursor() == old(self).cursor() + 1
                &&& r matches Some(req) && req@ == RenderRequestV::MoveCursorRight
            },
    {
        if input_len > self.cursor_pos as usize {
            self.cursor_pos = self.cursor_pos + 1;
            Some(RenderRequest::MoveCursorRight)
        } else {
            None
        }
    }

    /// The up arrow recalls the previous history entry into the line and puts
    /// the cursor at its end; at the oldest entry nothing happens.
    pub fn scrub_hist_prev(&mut self, input: &mut String) -> (r: Vec<RenderRequest>)
        requires
            old(self).wf(),
        ensures
            final(self).wf(),
            final(self).history().entries() == old(self).history().entries(),
            old(self).history().spec_cursor() == 0 ==> {
                &&& r@.len() == 0
                &&& final(input)@ == old(input)@
                &&& final(self).cursor() == old(self).cursor()
            },
            old(self).history().spec_cursor() > 0 ==> {
                &&& final(input)@ == old(self).history().entries()[old(
                    self,
                ).history().spec_cursor() - 1]
                &&& final(self).cursor() == cursor_for_len(final(input)@.len())
                &&& r@.len() == 2
                &&& r@[0]@ == RenderRequestV::UpdateLine(final(input)@)
                &&& r@[1]@ == RenderRequestV::SetCursorPos(final(self).cursor())
            },
    {
        let mut out: Vec<RenderRequest> = Vec::new();
        let recalled: Option<String> = match self.hist.prev() {
            Some(prev) => Some(prev.clone()),
            None => None,
        };
        if let Some(prev) = recalled {
            *input = prev;
            self.cursor_pos = saturated_cursor(input);
            out.push(RenderRequest::UpdateLine(input.clone()));
            out.push(RenderRequest::SetCursorPos(self.cursor_pos));
        }
        out
    }

    /// The down arrow recalls the next history entry, or clears the line when
    /// the newest entry is passed.
    pub fn scrub_hist_next(&mut self, input: &mut String) -> (r: Vec<RenderRequest>)
        requires
            old(self).wf(),
        ensures
            final(self).wf(),
            final(self).history().entries() == old(self).history().entries(),
            old(self).history().spec_cursor() == old(self).history().entries().len() ==> {
                &&& final(input)@ == Seq::<char>::empty()
                &&& final(self).cursor() == 0
            },
            old(self).history().spec_cursor() < old(self).history().entries().len() ==> {
                &&& final(input)@ == old(self).history().entries()[old(
                    self,
                ).history().spec_cursor() as int]
                &&& final(self).cursor() == cursor_for_len(final(input)@.len())
            },
            r@.len() == 2,
            r@[0]@ == RenderRequestV::UpdateLine(final(input)@),
            r@[1]@ == RenderRequestV::SetCursorPos(final(self).cursor()),
    {
        let mut out: Vec<RenderRequest> = Vec::new();
        let recalled: Option<String> = match self.hist.next() {
            Some(next) => Some(next.clone()),
            None => None,
        };
        if let Some(next) = recalled {
            *input = next;
            self.cursor_pos = saturated_cursor(input);
        } else {
            *input = String::new();
            self.cursor_pos = 0;
        }
        out.push(RenderRequest::UpdateLine(input.clone()));
        out.push(RenderRequest::SetCursorPos(self.cursor_pos));
        out
    }

    /// Pasted text lands at the end of the line.
    pub fn handle_paste_event(&mut self, input: &mut String, pasted: &str) -> (r: RenderRequest)
        requires
            old(self).wf(),
        ensures
            final(self).wf(),
            final(self).cursor() == old(self).cursor(),
            final(self).history() == old(self).history(),
            final(input)@ == old(input)@ + pasted@,
            r@ == RenderRequestV::UpdateLine(final(input)@),
    {
        input.append(pasted);
        RenderRequest::UpdateLine(input.clone())
    }
}

fn saturated_cursor(input: &String) -> (r: u16)
    ensures
        r == cursor_for_len(input@.len()),
{
    let len = input.as_str().unicode_len();
    if len > u16::MAX as usize {
        u16::MAX
    } else {
        len as u16
    }
}

} // verus!
