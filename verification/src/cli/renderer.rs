//! The renderer turns render requests into the exact character sequences a
//! VT-style terminal expects, accumulating them in an output buffer. What
//! carries that buffer to a real terminal stays outside the engine.

use vstd::prelude::*;
use vstd::string::*;

use crate::text::push_char;

verus! {

/// A request to redraw some part of the prompt line.
pub enum RenderRequest {
    WriteNewline(String),
    UpdateLine(String),
    Backspace(String),
    MoveCursorLeft,
    MoveCursorRight,
    SetCursorPos(u16),
}

/// The mathematical shape of a render request.
pub enum RenderRequestV {
    WriteNewline(Seq<char>),
    UpdateLine(Seq<char>),
    Backspace(Seq<char>),
    MoveCursorLeft,
    MoveCursorRight,
    SetCursorPos(u16),
}

impl View for RenderRequest {
    type V = RenderRequestV;

    open spec fn view(&self) -> RenderRequestV {
        match self {
            RenderRequest::WriteNewline(s) => RenderRequestV::WriteNewline(s@),
            RenderRequest::UpdateLine(s) => RenderRequestV::UpdateLine(s@),
            RenderRequest::Backspace(s) => RenderRequestV::Backspace(s@),
            RenderRequest::MoveCursorLeft => RenderRequestV::MoveCursorLeft,
            RenderRequest::MoveCursorRight => RenderRequestV::MoveCursorRight,
            RenderRequest::SetCursorPos(p) => RenderRequestV::SetCursorPos(*p),
        }
    }
}

/// The prompt, followed by one space.
pub open spec fn prompt_chars() -> Seq<char> {
    seq!['~', '~', '>', ' ']
}

pub open spec fn esc() -> char {
    '\u{1b}'
}

/// Clear the whole current line: CSI 2 K.
pub open spec fn clear_line_chars() -> Seq<char> {
    seq![esc(), '[', '2', 'K']
}

/// Move the cursor to the first column: CSI 1 G.
pub open spec fn column_start_chars() -> Seq<char> {
    seq![esc(), '[', '1', 'G']
}

/// Move the cursor down one row: CSI 1 B.
pub open spec fn cursor_down_chars() -> Seq<char> {
    seq![esc(), '[', '1', 'B']
}

/// Move the cursor one column left: CSI 1 D.
pub open spec fn cursor_left_chars() -> Seq<char> {
    seq![esc(), '[', '1', 'D']
}

/// Move the cursor one column right: CSI 1 C.
pub open spec fn cursor_right_chars() -> Seq<char> {
    seq![esc(), '[', '1', 'C']
}

pub open spec fn digit_char(d: int) -> char {
    if d == 0 {
        '0'
    } else if d == 1 {
        '1'
    } else if d == 2 {
        '2'
    } else if d == 3 {
        '3'
    } else if d == 4 {
        '4'
    } else if d == 5 {
        '5'
    } else if d == 6 {
        '6'
    } else if d == 7 {
        '7'
    } else if d == 8 {
        '8'
    } else {
        '9'
    }
}

/// The decimal digits of `n`, most significant first.
pub open spec fn dec_chars(n: int) -> Seq<char>
    decreases n,
{
    if n < 10 {
        seq![digit_char(n)]
    } else {
        dec_chars(n / 10).push(digit_char(n % 10))
    }
}

/// Move the cursor to 1-based column `col`: CSI col G.
pub open spec fn column_to_chars(col: int) -> Seq<char> {
    seq![esc(), '['] + dec_chars(col) + seq!['G']
}

/// The column a cursor position maps to: just past the prompt, saturated to
/// the widest column a terminal accepts, and 1-based on the wire.
pub open spec fn cursor_column(pos: u16) -> int {
    let col = if pos + 3 > u16::MAX { u16::MAX as int } else { pos + 3 };
    col + 1
}

/// The characters one render request emits.
pub open spec fn render_of(req: RenderRequestV) -> Seq<char> {
    match req {
        RenderRequestV::WriteNewline(msg) => cursor_down_chars() + column_start_chars() + msg
            + seq!['\n'],
        RenderRequestV::UpdateLine(input) => clear_line_chars() + column_start_chars()
            + prompt_chars() + input,
        RenderRequestV::Backspace(input) => seq![esc(), '7'] + clear_line_chars()
            + column_start_chars() + prompt_chars() + input + seq![esc(), '8']
            + cursor_left_chars(),
        RenderRequestV::MoveCursorLeft => cursor_left_chars(),
        RenderRequestV::MoveCursorRight => cursor_right_chars(),
        RenderRequestV::SetCursorPos(pos) => column_to_chars(cursor_column(pos)),
    }
}

/// The characters a sequence of render requests emits.
pub open spec fn renders_of(reqs: Seq<RenderRequestV>) -> Seq<char>
    decreases reqs.len(),
{
    if reqs.len() == 0 {
        Seq::empty()
    } else {
        render_of(reqs[0]) + renders_of(reqs.skip(1))
    }
}

/// Accumulates rendered terminal output.
pub struct Renderer {
    buffer: String,
}

fn push_dec(s: &mut String, n: u32)
    ensures
        final(s)@ == old(s)@ + dec_chars(n as int),
    decreases n,
{
    if n >= 10 {
        push_dec(s, n / 10);
    }
    let d = n % 10;
    let c: char = if d == 0 {
        '0'
    } else if d == 1 {
        '1'
    } else if d == 2 {
        '2'
    } else if d == 3 {
        '3'
    } else if d == 4 {
        '4'
    } else if d == 5 {
        '5'
    } else if d == 6 {
        '6'
    } else if d == 7 {
        '7'
    } else if d == 8 {
        '8'
    } else {
        '9'
    };
    assert(c == digit_char(n as int % 10));
    push_char(s, c);
    proof {
        if n < 10 {
            assert(old(s)@ + dec_chars(n as int) =~= old(s)@.push(digit_char(n as int)));
        } else {
            assert(old(s)@ + dec_chars(n as int) =~= (old(s)@ + dec_chars(n as int / 10)).push(
                digit_char(n as int % 10),
            ));
        }
    }
}

impl Renderer {
    /// Everything rendered so far.
    pub closed spec fn out(self) -> Seq<char> {
        self.buffer@
    }

    pub fn new() -> (r: Renderer)
        ensures
            r.out() == Seq::<char>::empty(),
    {
        let buffer = String::new();
        assert(buffer@ =~= Seq::<char>::empty());
        Renderer { buffer }
    }

    /// The rendered output, as a string.
    pub fn output(&self) -> (r: &String)
        ensures
            r@ == self.out(),
    {
        &self.buffer
    }

    fn push_clear_line(&mut self)
        ensures
            final(self).out() == old(self).out() + clear_line_chars(),
    {
        push_char(&mut self.buffer, '\u{1b}');
        push_char(&mut self.buffer, '[');
        push_char(&mut self.buffer, '2');
        push_char(&mut self.buffer, 'K');
        proof {
            assert(final(self).out() =~= old(self).out() + clear_line_chars());
        }
    }

    fn push_column_start(&mut self)
        ensures
            final(self).out() == old(self).out() + column_start_chars(),
    {
        push_char(&mut self.buffer, '\u{1b}');
        push_char(&mut self.buffer, '[');
        push_char(&mut self.buffer, '1');
        push_char(&mut self.buffer, 'G');
        proof {
            assert(final(self).out() =~= old(self).out() + column_start_chars());
        }
    }

    fn push_csi_one(&mut self, tail: char)
        ensures
            final(self).out() == old(self).out() + seq![esc(), '[', '1', tail],
    {
        push_char(&mut self.buffer, '\u{1b}');
        push_char(&mut self.buffer, '[');
        push_char(&mut self.buffer, '1');
        push_char(&mut self.buffer, tail);
        proof {
            assert(final(self).out() =~= old(self).out() + seq![esc(), '[', '1', tail]);
        }
    }

    fn push_prompt(&mut self)
        ensures
            final(self).out() == old(self).out() + prompt_chars(),
    {
        push_char(&mut self.buffer, '~');
        push_char(&mut self.buffer, '~');
        push_char(&mut self.buffer, '>');
        push_char(&mut self.buffer, ' ');
        proof {
            assert(final(self).out() =~= old(self).out() + prompt_chars());
        }
    }

    /// Renders the prompt at the head of a fresh line.
    pub fn print_prompt(&mut self)
        ensures
            final(self).out() == old(self).out() + prompt_chars(),
    {
        self.push_prompt();
    }

    /// Renders one request.
    pub fn handle_event(&mut self, event: &RenderRequest)
        ensures
            final(self).out() == old(self).out() + render_of(event@),
    {
        match event {
            RenderRequest::WriteNewline(message) => {
                self.push_csi_one('B');
                self.push_column_start();
                self.buffer.append(message.as_str());
                push_char(&mut self.buffer, '\n');
                proof {
                    assert(final(self).out() =~= old(self).out() + render_of(event@));
                }
            },
            RenderRequest::UpdateLine(input) => {
                self.push_clear_line();
                self.push_column_start();
                self.push_prompt();
                self.buffer.append(input.as_str());
                proof {
                    assert(final(self).out() =~= old(self).out() + render_of(event@));
                }
            },
            RenderRequest::Backspace(input) => {
                push_char(&mut self.buffer, '\u{1b}');
                push_char(&mut self.buffer, '7');
                self.push_clear_line();
                self.push_column_start();
                self.push_prompt();
                self.buffer.append(input.as_str());
                push_char(&mut self.buffer, '\u{1b}');
                push_char(&mut self.buffer, '8');
                self.push_csi_one('D');
                proof {
                    assert(final(self).out() =~= old(self).out() + render_of(event@));
                }
            },
            RenderRequest::MoveCursorLeft => {
                self.push_csi_one('D');
                proof {
                    assert(final(self).out() =~= old(self).out() + render_of(event@));
                }
            },
            RenderRequest::MoveCursorRight => {
                self.push_csi_one('C');
                proof {
                    assert(final(self).out() =~= old(self).out() + render_of(event@));
                }
            },
            RenderRequest::SetCursorPos(pos) => {
                let col: u16 = if *pos > u16::MAX - 3 {
                    u16::MAX
                } else {
                    *pos + 3
                };
                push_char(&mut self.buffer, '\u{1b}');
                push_char(&mut self.buffer, '[');
                push_dec(&mut self.buffer, col as u32 + 1);
                push_char(&mut self.buffer, 'G');
                proof {
                    assert(cursor_column(*pos) == col + 1);
                    assert(final(self).out() =~= old(self).out() + render_of(event@));
                }
            },
        }
    }

    /// Renders the prompt and then every queued request, in order.
    pub fn listen(&mut self, events: &Vec<RenderRequest>)
        ensures
            final(self).out() == old(self).out() + prompt_chars() + renders_of(events.deep_view()),
    {
        self.print_prompt();
        let n = events.len();
        let mut i: usize = 0;
        while i < n
            invariant
                0 <= i <= n,
                n == events@.len(),
                self.out() == old(self).out() + prompt_chars() + renders_of(
                    events.deep_view().take(i as int),
                ),
            decreases n - i,
        {
            self.handle_event(&events[i]);
            proof {
                lemma_renders_of_take(events.deep_view(), i as int);
            }
            i = i + 1;
        }
        proof {
            assert(events.deep_view().take(n as int) =~= events.deep_view());
        }
    }
}

impl DeepView for RenderRequest {
    type V = RenderRequestV;

    open spec fn deep_view(&self) -> RenderRequestV {
        self@
    }
}

proof fn lemma_renders_of_take(reqs: Seq<RenderRequestV>, i: int)
    requires
        0 <= i < reqs.len(),
    ensures
        renders_of(reqs.take(i + 1)) == renders_of(reqs.take(i)) + render_of(reqs[i]),
    decreases i,
{
    if i == 0 {
        assert(reqs.take(1) =~= seq![reqs[0]]);
        assert(renders_of(seq![reqs[0]].skip(1)) == renders_of(Seq::<RenderRequestV>::empty()))
            by {
            assert(seq![reqs[0]].skip(1) =~= Seq::<RenderRequestV>::empty());
        }
        assert(renders_of(reqs.take(0)) == Seq::<char>::empty()) by {
            assert(reqs.take(0) =~= Seq::<RenderRequestV>::empty());
        }
        assert(renders_of(reqs.take(1)) =~= render_of(reqs[0]));
        assert(renders_of(reqs.take(0)) + render_of(reqs[0]) =~= render_of(reqs[0]));
    } else {
        lemma_renders_of_take(reqs.skip(1), i - 1);
        assert(reqs.take(i + 1)[0] == reqs[0]);
        assert(reqs.take(i + 1).skip(1) =~= reqs.skip(1).take(i));
        assert(reqs.take(i).skip(1) =~= reqs.skip(1).take(i - 1));
        assert(reqs.take(i)[0] == reqs[0]);
        assert(reqs.skip(1)[i - 1] == reqs[i]);
        assert(renders_of(reqs.take(i + 1)) == render_of(reqs[0]) + renders_of(
            reqs.skip(1).take(i),
        ));
        assert(renders_of(reqs.take(i)) == render_of(reqs[0]) + renders_of(reqs.skip(1).take(i - 1)));
        assert(renders_of(reqs.take(i)) + render_of(reqs[i]) =~= render_of(reqs[0]) + (renders_of(
            reqs.skip(1).take(i - 1),
        ) + render_of(reqs.skip(1)[i - 1])));
    }
}

} // verus!
