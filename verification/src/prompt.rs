//! The line that a user edits at a prompt, and what is printed to keep the
//! terminal in step with it.

use vstd::prelude::*;
use vstd::string::StringSliceAdditionalSpecFns;
use crate::framebuffer::is_printable as is_printable_byte;
use crate::framebuffer::spec_is_printable;
use crate::vt::{advance, events_view, is_fresh, new_parser, parse};
use crate::vt::{vt_events, vt_step, VtEvent, VtEventView};

verus! {

/// End of text, sent by Control-C.
pub const ETX_KEY: char = '\x03';

/// End of transmission, sent by Control-D.
pub const EOT_KEY: char = '\x04';

/// The digits of a number, most significant first.
pub open spec fn decimal(n: nat) -> Seq<char>
    decreases n,
{
    if n < 10 {
        seq![(('0' as u8) + n as u8) as char]
    } else {
        decimal(n / 10).push((('0' as u8) + (n % 10) as u8) as char)
    }
}

/// Appends the digits of a number.
pub fn push_decimal(out: &mut Vec<char>, n: usize)
    ensures
        final(out)@ == old(out)@ + decimal(n as nat),
    decreases n,
{
    if n < 10 {
        out.push((0x30u8 + n as u8) as char);
        assert(out@ =~= old(out)@ + decimal(n as nat));
    } else {
        push_decimal(out, n / 10);
        out.push((0x30u8 + (n % 10) as u8) as char);
        assert(out@ =~= old(out)@ + decimal(n as nat));
    }
}

/// The sequence that moves the cursor `n` columns to the left.
pub open spec fn cursor_back(n: nat) -> Seq<char> {
    seq!['\x1b', '['] + decimal(n) + seq!['D']
}

fn push_cursor_back(out: &mut Vec<char>, n: usize)
    ensures
        final(out)@ == old(out)@ + cursor_back(n as nat),
{
    out.push('\x1b');
    out.push('[');
    push_decimal(out, n);
    out.push('D');
    assert(out@ =~= old(out)@ + cursor_back(n as nat));
}

fn push_all(out: &mut Vec<char>, chars: &Vec<char>, from: usize)
    requires
        from <= chars@.len(),
    ensures
        final(out)@ == old(out)@ + chars@.skip(from as int),
{
    let mut i: usize = from;
    assert(out@ =~= old(out)@ + chars@.subrange(from as int, i as int));
    while i < chars.len()
        invariant
            from <= i <= chars@.len(),
            out@ == old(out)@ + chars@.subrange(from as int, i as int),
        decreases chars@.len() - i,
    {
        out.push(chars[i]);
        assert(out@ =~= old(out)@ + chars@.subrange(from as int, i + 1));
        i = i + 1;
    }
    assert(chars@.subrange(from as int, chars@.len() as int) =~= chars@.skip(from as int));
}

/// Whether the line editor takes a character into the line: a character
/// below U+00FF whose byte the terminal counts as printable.
pub open spec fn spec_is_printable_char(c: char) -> bool {
    (c as u32) < 0xFF && spec_is_printable(c as u8)
}

pub fn is_printable(c: char) -> (printable: bool)
    ensures
        printable == spec_is_printable_char(c),
{
    (c as u32) < 0xFF && is_printable_byte(c as u8)
}

/// How many bytes the UTF-8 form of a character has.
pub open spec fn spec_len_utf8(c: char) -> nat {
    if (c as u32) < 0x80 {
        1
    } else if (c as u32) < 0x800 {
        2
    } else if (c as u32) < 0x1_0000 {
        3
    } else {
        4
    }
}

pub fn len_utf8(c: char) -> (len: usize)
    ensures
        len == spec_len_utf8(c),
{
    let code: u32 = c as u32;
    if code < 0x80 {
        1
    } else if code < 0x800 {
        2
    } else if code < 0x1_0000 {
        3
    } else {
        4
    }
}

/// The UTF-8 form of a character.
pub open spec fn spec_utf8(c: char) -> Seq<u8> {
    let code = c as u32 as int;
    if code < 0x80 {
        seq![code as u8]
    } else if code < 0x800 {
        seq![(0xC0 + code / 0x40) as u8, (0x80 + code % 0x40) as u8]
    } else if code < 0x1_0000 {
        seq![
            (0xE0 + code / 0x1000) as u8,
            (0x80 + (code / 0x40) % 0x40) as u8,
            (0x80 + code % 0x40) as u8,
        ]
    } else {
        seq![
            (0xF0 + code / 0x4_0000) as u8,
            (0x80 + (code / 0x1000) % 0x40) as u8,
            (0x80 + (code / 0x40) % 0x40) as u8,
            (0x80 + code % 0x40) as u8,
        ]
    }
}

/// Turns a character into its UTF-8 form.
pub fn utf8(c: char) -> (bytes: Vec<u8>)
    ensures
        bytes@ == spec_utf8(c),
        bytes@.len() == spec_len_utf8(c),
{
    let code: u32 = c as u32;
    let mut bytes: Vec<u8> = Vec::new();
    if code < 0x80 {
        bytes.push(code as u8);
    } else if code < 0x800 {
        bytes.push((0xC0 + code / 0x40) as u8);
        bytes.push((0x80 + code % 0x40) as u8);
    } else if code < 0x1_0000 {
        bytes.push((0xE0 + code / 0x1000) as u8);
        bytes.push((0x80 + (code / 0x40) % 0x40) as u8);
        bytes.push((0x80 + code % 0x40) as u8);
    } else {
        bytes.push((0xF0 + code / 0x4_0000) as u8);
        bytes.push((0x80 + (code / 0x1000) % 0x40) as u8);
        bytes.push((0x80 + (code / 0x40) % 0x40) as u8);
        bytes.push((0x80 + code % 0x40) as u8);
    }
    assert(bytes@ =~= spec_utf8(c));
    bytes
}

/// How many bytes the characters take that a run of parser actions prints.
pub open spec fn printed_width(events: Seq<VtEventView>) -> nat
    decreases events.len(),
{
    if events.len() == 0 {
        0
    } else {
        printed_width(events.drop_last()) + match events.last() {
            VtEventView::Print(c) => spec_len_utf8(c),
            _ => 0,
        }
    }
}

/// How many bytes the characters take that a run of parser actions prints;
/// the largest number where the sum is beyond it.
pub fn width_of(events: &Vec<VtEvent>) -> (width: usize)
    ensures
        width == if printed_width(events_view(events@)) <= usize::MAX {
            printed_width(events_view(events@))
        } else {
            usize::MAX as nat
        },
{
    let ghost views = events_view(events@);
    let mut width: usize = 0;
    let mut i: usize = 0;
    assert(views.take(0) =~= Seq::<VtEventView>::empty());
    while i < events.len()
        invariant
            i <= events@.len(),
            views == events_view(events@),
            width == if printed_width(views.take(i as int)) <= usize::MAX {
                printed_width(views.take(i as int))
            } else {
                usize::MAX as nat
            },
        decreases events@.len() - i,
    {
        assert(views.take(i + 1).drop_last() =~= views.take(i as int));
        assert(views.take(i + 1).last() == events@[i as int]@);
        let add: usize = match &events[i] {
            VtEvent::Print(c) => len_utf8(*c),
            _ => 0,
        };
        width = if width > usize::MAX - add {
            usize::MAX
        } else {
            width + add
        };
        i = i + 1;
    }
    assert(views.take(events@.len() as int) =~= views);
    width
}

/// How far the prompt string moves the cursor: the bytes of the characters
/// that it prints, its escape sequences left out.
pub fn offset_from_prompt(s: &str) -> (offset: usize)
    ensures
        offset == if printed_width(vt_events(s.spec_bytes())) <= usize::MAX {
            printed_width(vt_events(s.spec_bytes()))
        } else {
            usize::MAX as nat
        },
{
    let events = parse(s.as_bytes());
    width_of(&events)
}

/// A line under edit.
pub struct Prompt {
    /// Where the line starts: the width of the prompt string.
    pub offset: usize,
    /// Where the cursor is, counted from the left edge.
    pub cursor: usize,
    pub line: Vec<char>,
    pub parser: vte::Parser,
}

/// A line under edit as contracts see it.
pub struct Editing {
    pub offset: int,
    pub cursor: int,
    pub line: Seq<char>,
    /// The parser that typed characters go through.
    pub parser: vte::Parser,
}

/// The line after an edit and what the edit prints.
pub struct Edit {
    pub state: Editing,
    pub output: Seq<char>,
}

impl Editing {
    /// The cursor lies on the line or just behind it.
    pub open spec fn wf(self) -> bool {
        &&& 0 <= self.offset <= self.cursor <= self.offset + self.line.len()
        &&& self.offset + self.line.len() <= usize::MAX
    }

    /// Position of the cursor in the line.
    pub open spec fn at(self) -> int {
        self.cursor - self.offset
    }

    /// The Delete key takes out the character under the cursor, where there
    /// is one, and prints the rest of the line over it.
    pub open spec fn delete(self) -> Edit {
        if self.cursor < self.offset + self.line.len() {
            let line = self.line.remove(self.at());
            Edit {
                state: Editing { line, ..self },
                output: line.skip(self.at()) + seq![' '] + cursor_back(
                    (line.len() - self.at() + 1) as nat,
                ),
            }
        } else {
            Edit { state: self, output: Seq::empty() }
        }
    }

    /// Backspace takes out the character before the cursor, where there is
    /// one, moves the cursor onto its place and prints the rest of the
    /// line there.
    pub open spec fn backspace(self) -> Edit {
        if self.cursor > self.offset {
            let line = self.line.remove(self.at() - 1);
            Edit {
                state: Editing { line, cursor: self.cursor - 1, ..self },
                output: seq!['\x08'] + line.skip(self.at() - 1) + seq![' '] + cursor_back(
                    (line.len() - (self.at() - 1) + 1) as nat,
                ),
            }
        } else {
            Edit { state: self, output: Seq::empty() }
        }
    }

    /// A printable character goes into the line at the cursor, the cursor
    /// moves behind it, and the line from the character on is printed. Any
    /// other character, and one for which the line has no room, is ignored.
    pub open spec fn printable(self, c: char) -> Edit {
        if spec_is_printable_char(c) && self.offset + self.line.len() < usize::MAX {
            let line = self.line.insert(self.at(), c);
            Edit {
                state: Editing { line, cursor: self.cursor + 1, ..self },
                output: line.skip(self.at()) + cursor_back((line.len() - self.at()) as nat),
            }
        } else {
            Edit { state: self, output: Seq::empty() }
        }
    }

    /// What a control byte does: backspace edits, the others do nothing.
    pub open spec fn execute(self, b: u8) -> Edit {
        if b == 0x08 {
            self.backspace()
        } else {
            Edit { state: self, output: Seq::empty() }
        }
    }

    /// What a character from the parser does: U+007F deletes, the others
    /// go into the line.
    pub open spec fn print(self, c: char) -> Edit {
        if c == '\x7f' {
            self.delete()
        } else {
            self.printable(c)
        }
    }

    /// What the control sequence that ends in `~` does: a delete for each
    /// parameter 3.
    pub open spec fn tilde(self, params: Seq<u16>) -> Edit
        decreases params.len(),
    {
        if params.len() == 0 {
            Edit { state: self, output: Seq::empty() }
        } else {
            let before = self.tilde(params.drop_last());
            if params.last() == 3 {
                Edit {
                    state: before.state.delete().state,
                    output: before.output + before.state.delete().output,
                }
            } else {
                before
            }
        }
    }

    /// What a control sequence does.
    pub open spec fn csi(self, params: Seq<u16>, c: char) -> Edit {
        if c == '~' {
            self.tilde(params)
        } else {
            Edit { state: self, output: Seq::empty() }
        }
    }

    /// What one action of the parser does.
    pub open spec fn apply(self, event: VtEventView) -> Edit {
        match event {
            VtEventView::Print(c) => self.print(c),
            VtEventView::Execute(b) => self.execute(b),
            VtEventView::Csi { params, action } => self.csi(params, action),
        }
    }

    /// What a run of actions does, first to last.
    pub open spec fn apply_all(self, events: Seq<VtEventView>) -> Edit
        decreases events.len(),
    {
        if events.len() == 0 {
            Edit { state: self, output: Seq::empty() }
        } else {
            let before = self.apply_all(events.drop_last());
            Edit {
                state: before.state.apply(events.last()).state,
                output: before.output + before.state.apply(events.last()).output,
            }
        }
    }

    /// What typed bytes do: they go through the parser, which moves on to
    /// `next`, and what it reports for them is carried out.
    pub open spec fn fed(self, next: vte::Parser, bytes: Seq<u8>) -> Edit {
        (Editing { parser: next, ..self }).apply_all(vt_step(self.parser, bytes))
    }
}

impl View for Prompt {
    type V = Editing;

    open spec fn view(&self) -> Editing {
        Editing {
            offset: self.offset as int,
            cursor: self.cursor as int,
            line: self.line@,
            parser: self.parser,
        }
    }
}

/// What a typed character comes to.
#[derive(Debug)]
pub enum InputStep {
    /// The line is still under edit; this is to be printed.
    Editing(Vec<char>),
    /// The line is given up; the result of the input is the empty line.
    Cancelled,
    /// The input has ended; there is no result.
    Ended,
    /// The line is entered; it is the result.
    Entered(Vec<char>),
}

impl Prompt {
    pub open spec fn wf(&self) -> bool {
        self@.wf()
    }

    pub fn new() -> (prompt: Self)
        ensures
            prompt.wf(),
            prompt@ == (Editing {
                offset: 0,
                cursor: 0,
                line: Seq::empty(),
                parser: prompt@.parser,
            }),
            is_fresh(prompt@.parser),
    {
        Prompt { offset: 0, cursor: 0, line: Vec::with_capacity(80), parser: new_parser() }
    }

    /// Starts the edit of a new line behind the prompt string.
    pub fn begin(&mut self, prompt: &str)
        ensures
            final(self).wf(),
            final(self)@.line == Seq::<char>::empty(),
            final(self)@.cursor == final(self)@.offset,
            final(self)@.offset == if printed_width(vt_events(prompt.spec_bytes()))
                <= usize::MAX {
                printed_width(vt_events(prompt.spec_bytes()))
            } else {
                usize::MAX as nat
            },
            is_fresh(final(self)@.parser),
    {
        self.offset = offset_from_prompt(prompt);
        self.cursor = self.offset;
        self.line = Vec::with_capacity(80);
        self.parser = new_parser();
    }

    pub fn handle_delete_key(&mut self) -> (output: Vec<char>)
        requires
            old(self).wf(),
        ensures
            final(self).wf(),
            final(self)@ == old(self)@.delete().state,
            output@ == old(self)@.delete().output,
    {
        let mut out: Vec<char> = Vec::new();
        if self.cursor - self.offset < self.line.len() {
            let i: usize = self.cursor - self.offset;
            self.line.remove(i);
            let n: usize = self.line.len() - i + 1;
            push_all(&mut out, &self.line, i);
            out.push(' ');
            push_cursor_back(&mut out, n);
            assert(out@ =~= old(self)@.delete().output);
        }
        out
    }

    pub fn handle_backspace_key(&mut self) -> (output: Vec<char>)
        requires
            old(self).wf(),
        ensures
            final(self).wf(),
            final(self)@ == old(self)@.backspace().state,
            output@ == old(self)@.backspace().output,
    {
        let mut out: Vec<char> = Vec::new();
        if self.cursor > self.offset {
            let i: usize = self.cursor - self.offset - 1;
            self.line.remove(i);
            let n: usize = self.line.len() - i + 1;
            out.push('\x08');
            push_all(&mut out, &self.line, i);
            out.push(' ');
            push_cursor_back(&mut out, n);
            self.cursor = self.cursor - 1;
            assert(out@ =~= old(self)@.backspace().output);
        }
        out
    }

    pub fn handle_printable_key(&mut self, c: char) -> (output: Vec<char>)
        requires
            old(self).wf(),
        ensures
            final(self).wf(),
            final(self)@ == old(self)@.printable(c).state,
            output@ == old(self)@.printable(c).output,
    {
        let mut out: Vec<char> = Vec::new();
        if is_printable(c) && self.line.len() < usize::MAX - self.offset {
            let i: usize = self.cursor - self.offset;
            self.line.insert(i, c);
            let n: usize = self.line.len() - i;
            push_all(&mut out, &self.line, i);
            push_cursor_back(&mut out, n);
            self.cursor = self.cursor + 1;
            assert(out@ =~= old(self)@.printable(c).output);
        }
        out
    }

    /// Handles a control byte that the parser reports.
    pub fn execute(&mut self, b: u8) -> (output: Vec<char>)
        requires
            old(self).wf(),
        ensures
            final(self).wf(),
            final(self)@ == old(self)@.execute(b).state,
            output@ == old(self)@.execute(b).output,
    {
        if b == 0x08 {
            self.handle_backspace_key()
        } else {
            Vec::new()
        }
    }

    /// Handles a character that the parser reports.
    pub fn print(&mut self, c: char) -> (output: Vec<char>)
        requires
            old(self).wf(),
        ensures
            final(self).wf(),
            final(self)@ == old(self)@.print(c).state,
            output@ == old(self)@.print(c).output,
    {
        if c == '\x7f' {
            self.handle_delete_key()
        } else {
            self.handle_printable_key(c)
        }
    }

    /// Handles a control sequence that the parser reports.
    pub fn csi_dispatch(&mut self, params: &[u16], c: char) -> (output: Vec<char>)
        requires
            old(self).wf(),
        ensures
            final(self).wf(),
            final(self)@ == old(self)@.csi(params@, c).state,
            output@ == old(self)@.csi(params@, c).output,
    {
        let mut out: Vec<char> = Vec::new();
        if c == '~' {
            let mut i: usize = 0;
            assert(params@.take(0) =~= Seq::<u16>::empty());
            while i < params.len()
                invariant
                    i <= params@.len(),
                    self.wf(),
                    self@ == old(self)@.tilde(params@.take(i as int)).state,
                    out@ == old(self)@.tilde(params@.take(i as int)).output,
                decreases params@.len() - i,
            {
                assert(params@.take(i + 1).drop_last() =~= params@.take(i as int));
                if params[i] == 3 {
                    let mut more = self.handle_delete_key();
                    out.append(&mut more);
                }
                i = i + 1;
            }
            assert(params@.take(params@.len() as int) =~= params@);
        }
        out
    }

    /// Carries out one action of the parser.
    pub fn apply(&mut self, event: &VtEvent) -> (output: Vec<char>)
        requires
            old(self).wf(),
        ensures
            final(self).wf(),
            final(self)@ == old(self)@.apply(event@).state,
            output@ == old(self)@.apply(event@).output,
    {
        match event {
            VtEvent::Print(c) => self.print(*c),
            VtEvent::Execute(b) => self.execute(*b),
            VtEvent::Csi { params, action } => self.csi_dispatch(params.as_slice(), *action),
        }
    }

    /// Carries out a run of actions, first to last.
    pub fn apply_events(&mut self, events: &Vec<VtEvent>) -> (output: Vec<char>)
        requires
            old(self).wf(),
        ensures
            final(self).wf(),
            final(self)@ == old(self)@.apply_all(events_view(events@)).state,
            output@ == old(self)@.apply_all(events_view(events@)).output,
    {
        let ghost views = events_view(events@);
        let mut out: Vec<char> = Vec::new();
        let mut i: usize = 0;
        assert(views.take(0) =~= Seq::<VtEventView>::empty());
        while i < events.len()
            invariant
                i <= events@.len(),
                views == events_view(events@),
                self.wf(),
                self@ == old(self)@.apply_all(views.take(i as int)).state,
                out@ == old(self)@.apply_all(views.take(i as int)).output,
            decreases events@.len() - i,
        {
            assert(views.take(i + 1).drop_last() =~= views.take(i as int));
            assert(views.take(i + 1).last() == events@[i as int]@);
            let mut more = self.apply(&events[i]);
            out.append(&mut more);
            i = i + 1;
        }
        assert(views.take(events@.len() as int) =~= views);
        out
    }

    /// Takes a typed character. Control-C gives the line up, Control-D ends
    /// the input, a line feed enters the line; any other character goes
    /// through the parser in its UTF-8 form, and the line is edited by what
    /// the parser reports.
    pub fn input(&mut self, c: char) -> (step: InputStep)
        requires
            old(self).wf(),
        ensures
            final(self).wf(),
            final(self)@.offset == old(self)@.offset,
            c == ETX_KEY ==> step is Cancelled && final(self)@ == old(self)@,
            c == EOT_KEY ==> step is Ended && final(self)@ == old(self)@,
            c == '\n' ==> (step matches InputStep::Entered(line) && line@ == old(self)@.line
                && final(self)@ == old(self)@),
            c != ETX_KEY && c != EOT_KEY && c != '\n' ==> (step matches InputStep::Editing(output)
                && final(self)@ == old(self)@.fed(final(self)@.parser, spec_utf8(c)).state
                && output@ == old(self)@.fed(final(self)@.parser, spec_utf8(c)).output),
    {
        if c == ETX_KEY {
            InputStep::Cancelled
        } else if c == EOT_KEY {
            InputStep::Ended
        } else if c == '\n' {
            let mut line: Vec<char> = Vec::new();
            push_all(&mut line, &self.line, 0);
            assert(self.line@.skip(0) =~= self.line@);
            InputStep::Entered(line)
        } else {
            let bytes = utf8(c);
            let events = advance(&mut self.parser, bytes.as_slice());
            proof {
                lemma_apply_all_keeps(self@, events_view(events@));
                assert(self@ == (Editing { parser: self@.parser, ..old(self)@ }));
            }
            InputStep::Editing(self.apply_events(&events))
        }
    }
}

/// An edit leaves the cursor on the line and the start of the line where
/// it was.
pub proof fn lemma_apply_keeps(state: Editing, event: VtEventView)
    requires
        state.wf(),
    ensures
        state.apply(event).state.wf(),
        state.apply(event).state.offset == state.offset,
        state.apply(event).state.parser == state.parser,
{
    match event {
        VtEventView::Csi { params, action } => {
            lemma_tilde_keeps(state, params);
        },
        _ => {},
    }
}

proof fn lemma_tilde_keeps(state: Editing, params: Seq<u16>)
    requires
        state.wf(),
    ensures
        state.tilde(params).state.wf(),
        state.tilde(params).state.offset == state.offset,
        state.tilde(params).state.parser == state.parser,
    decreases params.len(),
{
    if params.len() > 0 {
        lemma_tilde_keeps(state, params.drop_last());
    }
}

/// Whatever the parser reports, the cursor stays on the line.
pub proof fn lemma_apply_all_keeps(state: Editing, events: Seq<VtEventView>)
    requires
        state.wf(),
    ensures
        state.apply_all(events).state.wf(),
        state.apply_all(events).state.offset == state.offset,
        state.apply_all(events).state.parser == state.parser,
    decreases events.len(),
{
    if events.len() > 0 {
        lemma_apply_all_keeps(state, events.drop_last());
        lemma_apply_keeps(state.apply_all(events.drop_last()).state, events.last());
    }
}

} // verus!
