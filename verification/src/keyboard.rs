//! Scancodes on their way from the keyboard interrupt to the line that is
//! being typed.

use vstd::prelude::*;
use crate::queue::{pushed_onto, queue_capacity, queue_items, queue_new, queue_pop, queue_push};

verus! {

/// How many scancodes can wait to be read.
pub const KEYBOARD_QUEUE_SIZE: usize = 100;

/// The scancodes that wait to be read, with the task that reads them.
pub struct ScancodeStream {
    queue: crossbeam_queue::ArrayQueue<u8>,
}

impl View for ScancodeStream {
    type V = Seq<u8>;

    /// The scancodes that wait, oldest first.
    closed spec fn view(&self) -> Seq<u8> {
        queue_items(self.queue)
    }
}

impl ScancodeStream {
    /// How many scancodes the stream holds at most.
    pub closed spec fn capacity(&self) -> nat {
        queue_capacity(self.queue)
    }

    /// An empty stream of the standard capacity.
    pub fn new() -> (stream: Self)
        ensures
            stream@ == Seq::<u8>::empty(),
            stream.capacity() == KEYBOARD_QUEUE_SIZE,
    {
        ScancodeStream { queue: queue_new(KEYBOARD_QUEUE_SIZE) }
    }

    /// Takes the oldest scancode out, if one waits.
    pub fn poll_next(&mut self) -> (scancode: Option<u8>)
        ensures
            final(self).capacity() == old(self).capacity(),
            match scancode {
                Some(code) => old(self)@.len() > 0 && code == old(self)@[0] && final(self)@
                    == old(self)@.skip(1),
                None => old(self)@.len() == 0 && final(self)@ == old(self)@,
            },
    {
        queue_pop(&mut self.queue)
    }
}

/// Hands a scancode from the keyboard to the stream. Where the stream is
/// full the scancode is dropped. Returns whether it was taken, and so
/// whether the reading task is to be woken.
pub fn add_scancode(stream: &mut ScancodeStream, scancode: u8) -> (taken: bool)
    ensures
        final(stream).capacity() == old(stream).capacity(),
        taken == (old(stream)@.len() < old(stream).capacity()),
        final(stream)@ == pushed_onto(old(stream)@, old(stream).capacity(), scancode),
{
    queue_push(&mut stream.queue, scancode)
}


/// The PS/2 decoder of the pc_keyboard crate for scancode set 1 and the US
/// layout with 104 keys. What it has seen of a scancode sequence is its
/// own affair.
#[verifier::external_body]
pub struct Decoder {
    inner: pc_keyboard::PS2Keyboard<pc_keyboard::layouts::Us104Key, pc_keyboard::ScancodeSet1>,
}

/// A key as the line editor tells keys apart.
#[derive(Clone, Copy, Debug, PartialEq, Eq, Structural)]
pub enum Key {
    /// A key that stands for a character.
    Unicode(char),
    Backspace,
    Delete,
    /// Any other key without a character.
    Other,
}

/// `PS2Keyboard::new` of the pc_keyboard crate, with the control key left
/// alone.
#[verifier::external_body]
fn new_decoder() -> (decoder: Decoder) {
    Decoder {
        inner: pc_keyboard::PS2Keyboard::new(
            pc_keyboard::ScancodeSet1::new(),
            pc_keyboard::layouts::Us104Key,
            pc_keyboard::HandleControl::Ignore,
        ),
    }
}

/// The key that a scancode completes in a decoder, given the scancodes that
/// the decoder has taken before; none where the scancode completes no key.
pub uninterp spec fn decoded(decoder: Decoder, scancode: u8) -> Option<Key>;

/// `PS2Keyboard::add_byte` and, on the key event that it may give,
/// `PS2Keyboard::process_keyevent` of the pc_keyboard crate. What comes out
/// is decided by the decoder as it stands and the scancode.
#[verifier::external_body]
fn decode(decoder: &mut Decoder, scancode: u8) -> (key: Option<Key>)
    ensures
        key == decoded(*old(decoder), scancode),
{
    match decoder.inner.add_byte(scancode) {
        Ok(Some(event)) => match decoder.inner.process_keyevent(event) {
            Some(pc_keyboard::DecodedKey::Unicode(c)) => Some(Key::Unicode(c)),
            Some(pc_keyboard::DecodedKey::RawKey(pc_keyboard::KeyCode::Backspace)) => Some(
                Key::Backspace,
            ),
            Some(pc_keyboard::DecodedKey::RawKey(pc_keyboard::KeyCode::Delete)) => Some(Key::Delete),
            Some(pc_keyboard::DecodedKey::RawKey(_)) => Some(Key::Other),
            None => None,
        },
        _ => None,
    }
}

/// What the shell is to do with a line.
#[derive(Clone, Copy, Debug, PartialEq, Eq, Structural)]
pub enum Command {
    /// Greet.
    Hello,
    /// Show the system and the processor.
    Neofetch,
    /// List the PCI devices.
    Pci,
    Unknown,
}

pub open spec fn spec_run(line: Seq<char>) -> Command {
    if line == seq!['h', 'e', 'l', 'l', 'o'] {
        Command::Hello
    } else if line == seq!['n', 'e', 'o', 'f', 'e', 't', 'c', 'h'] {
        Command::Neofetch
    } else if line == seq!['p', 'c', 'i'] {
        Command::Pci
    } else {
        Command::Unknown
    }
}

fn is_word(line: &Vec<char>, word: &[char]) -> (same: bool)
    ensures
        same == (line@ == word@),
{
    if line.len() != word.len() {
        return false;
    }
    let mut i: usize = 0;
    while i < line.len()
        invariant
            i <= line@.len(),
            line@.len() == word@.len(),
            forall|k: int| 0 <= k < i ==> line@[k] == word@[k],
        decreases line@.len() - i,
    {
        if line[i] != word[i] {
            return false;
        }
        i = i + 1;
    }
    assert(line@ =~= word@);
    true
}

/// Tells what a typed line asks for.
pub fn run(line: &Vec<char>) -> (command: Command)
    ensures
        command == spec_run(line@),
{
    let hello: [char; 5] = ['h', 'e', 'l', 'l', 'o'];
    let neofetch: [char; 8] = ['n', 'e', 'o', 'f', 'e', 't', 'c', 'h'];
    let pci: [char; 3] = ['p', 'c', 'i'];
    assert(hello@ =~= seq!['h', 'e', 'l', 'l', 'o']);
    assert(neofetch@ =~= seq!['n', 'e', 'o', 'f', 'e', 't', 'c', 'h']);
    assert(pci@ =~= seq!['p', 'c', 'i']);
    if is_word(line, hello.as_slice()) {
        Command::Hello
    } else if is_word(line, neofetch.as_slice()) {
        Command::Neofetch
    } else if is_word(line, pci.as_slice()) {
        Command::Pci
    } else {
        Command::Unknown
    }
}

/// What a key does: the characters to print, and the command to carry out
/// before the prompt, which is the end of what is printed, is shown.
#[derive(Debug)]
pub struct KeyEffect {
    pub before: Vec<char>,
    pub command: Option<Command>,
    pub after: Vec<char>,
}

/// What a key does, as contracts see it.
pub struct Typed {
    pub line: Seq<char>,
    pub before: Seq<char>,
    pub command: Option<Command>,
    pub after: Seq<char>,
}

/// What a key does to the line: a line end prints a new line, hands the
/// line over as a command, empties it and shows the prompt again; backspace
/// and delete take the last character off; any other character is printed
/// and joins the line; other keys do nothing.
pub open spec fn typed(line: Seq<char>, key: Key) -> Typed {
    match key {
        Key::Unicode(c) => if c == '\r' || c == '\n' {
            Typed {
                line: Seq::empty(),
                before: seq!['\n'],
                command: Some(spec_run(line)),
                after: seq!['>', ' '],
            }
        } else if c == '\u{8}' {
            Typed {
                line: if line.len() > 0 {
                    line.drop_last()
                } else {
                    line
                },
                before: Seq::empty(),
                command: None,
                after: Seq::empty(),
            }
        } else {
            Typed { line: line.push(c), before: seq![c], command: None, after: Seq::empty() }
        },
        Key::Backspace | Key::Delete => Typed {
            line: if line.len() > 0 {
                line.drop_last()
            } else {
                line
            },
            before: Seq::empty(),
            command: None,
            after: Seq::empty(),
        },
        Key::Other => Typed {
            line,
            before: Seq::empty(),
            command: None,
            after: Seq::empty(),
        },
    }
}

/// The line that is being typed, with the decoder that turns scancodes into
/// keys.
pub struct LineEditor {
    pub line: Vec<char>,
    pub decoder: Decoder,
}

impl LineEditor {
    /// An editor with an empty line.
    pub fn new() -> (editor: Self)
        ensures
            editor.line@ == Seq::<char>::empty(),
    {
        LineEditor { line: Vec::new(), decoder: new_decoder() }
    }

    /// The prompt that is shown before anything is typed.
    pub fn prompt() -> (prompt: Vec<char>)
        ensures
            prompt@ == seq!['>', ' '],
    {
        let mut prompt: Vec<char> = Vec::new();
        prompt.push('>');
        prompt.push(' ');
        assert(prompt@ =~= seq!['>', ' ']);
        prompt
    }

    /// Takes a key.
    pub fn handle_key(&mut self, key: Key) -> (effect: KeyEffect)
        ensures
            final(self).line@ == typed(old(self).line@, key).line,
            effect.before@ == typed(old(self).line@, key).before,
            effect.command == typed(old(self).line@, key).command,
            effect.after@ == typed(old(self).line@, key).after,
    {
        let mut before: Vec<char> = Vec::new();
        let mut after: Vec<char> = Vec::new();
        let mut command: Option<Command> = None;
        match key {
            Key::Unicode(c) => {
                if c == '\r' || c == '\n' {
                    before.push('\n');
                    command = Some(run(&self.line));
                    self.line.clear();
                    after = LineEditor::prompt();
                    assert(before@ =~= seq!['\n']);
                } else if c == '\u{8}' {
                    self.line.pop();
                } else {
                    before.push(c);
                    self.line.push(c);
                    assert(before@ =~= seq![c]);
                }
            },
            Key::Backspace | Key::Delete => {
                self.line.pop();
            },
            Key::Other => {},
        }
        KeyEffect { before, command, after }
    }

    /// Takes a scancode from the keyboard: where it completes a key in the
    /// decoder, the key is handled; where it does not, the line stays.
    pub fn print_keypresses(&mut self, scancode: u8) -> (effect: Option<KeyEffect>)
        ensures
            effect is Some == decoded(old(self).decoder, scancode) is Some,
            match effect {
                Some(effect) => {
                    let key = decoded(old(self).decoder, scancode).unwrap();
                    &&& final(self).line@ == typed(old(self).line@, key).line
                    &&& effect.before@ == typed(old(self).line@, key).before
                    &&& effect.command == typed(old(self).line@, key).command
                    &&& effect.after@ == typed(old(self).line@, key).after
                },
                None => final(self).line@ == old(self).line@,
            },
    {
        match decode(&mut self.decoder, scancode) {
            Some(key) => {
                let effect = self.handle_key(key);
                Some(effect)
            },
            None => None,
        }
    }
}

} // verus!
