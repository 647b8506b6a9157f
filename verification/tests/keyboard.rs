use gate_os::keyboard::{
    add_scancode, run, Command, Key, LineEditor, ScancodeStream, KEYBOARD_QUEUE_SIZE,
};
use gate_os::mouse::{add_packet, PacketStream, MOUSE_QUEUE_SIZE};

fn text(chars: &[char]) -> String {
    chars.iter().collect()
}

#[test]
fn scancodes_come_out_in_the_order_they_went_in() {
    let mut stream = ScancodeStream::new();
    assert_eq!(stream.poll_next(), None);
    assert!(add_scancode(&mut stream, 0x1E));
    assert!(add_scancode(&mut stream, 0x9E));
    assert!(add_scancode(&mut stream, 0x30));
    assert_eq!(stream.poll_next(), Some(0x1E));
    assert_eq!(stream.poll_next(), Some(0x9E));
    assert_eq!(stream.poll_next(), Some(0x30));
    assert_eq!(stream.poll_next(), None);
}

#[test]
fn a_full_queue_keeps_the_oldest_and_drops_the_newest() {
    assert_eq!(KEYBOARD_QUEUE_SIZE, 100);
    let mut stream = ScancodeStream::new();
    for n in 0..150u8 {
        assert_eq!(add_scancode(&mut stream, n), n < 100);
    }
    for n in 0..100u8 {
        assert_eq!(stream.poll_next(), Some(n));
    }
    assert_eq!(stream.poll_next(), None);
    assert!(add_scancode(&mut stream, 7));
    assert_eq!(stream.poll_next(), Some(7));
}

#[test]
fn the_mouse_queue_holds_two_hundred_bytes() {
    assert_eq!(MOUSE_QUEUE_SIZE, 200);
    let mut stream = PacketStream::new();
    for n in 0..201u32 {
        assert_eq!(add_packet(&mut stream, n as u8), n < 200);
    }
    assert_eq!(stream.poll_next(), Some(0));
    assert!(add_packet(&mut stream, 9));
    for n in 1..200u32 {
        assert_eq!(stream.poll_next(), Some(n as u8));
    }
    assert_eq!(stream.poll_next(), Some(9));
    assert_eq!(stream.poll_next(), None);
}

#[test]
fn lines_name_commands() {
    let line = |s: &str| s.chars().collect::<Vec<char>>();
    assert_eq!(run(&line("hello")), Command::Hello);
    assert_eq!(run(&line("neofetch")), Command::Neofetch);
    assert_eq!(run(&line("pci")), Command::Pci);
    assert_eq!(run(&line("")), Command::Unknown);
    assert_eq!(run(&line("hello ")), Command::Unknown);
    assert_eq!(run(&line("hell")), Command::Unknown);
}

#[test]
fn enter_after_hello_prints_the_line_and_the_prompt() {
    let mut editor = LineEditor::new();
    let mut shown = String::new();
    for c in "hello".chars() {
        let effect = editor.handle_key(Key::Unicode(c));
        assert_eq!(effect.command, None);
        shown.push_str(&text(&effect.before));
        shown.push_str(&text(&effect.after));
    }
    assert_eq!(text(&editor.line), "hello");
    let effect = editor.handle_key(Key::Unicode('\n'));
    shown.push_str(&text(&effect.before));
    assert_eq!(shown, "hello\n");
    assert_eq!(effect.command, Some(Command::Hello));
    assert_eq!(text(&effect.after), "> ");
    assert!(editor.line.is_empty());
    assert_eq!(text(&LineEditor::prompt()), "> ");
}

#[test]
fn backspace_and_delete_take_the_last_character_off() {
    let mut editor = LineEditor::new();
    for key in [Key::Unicode('a'), Key::Unicode('b'), Key::Unicode('c')] {
        editor.handle_key(key);
    }
    let effect = editor.handle_key(Key::Backspace);
    assert!(effect.before.is_empty() && effect.after.is_empty() && effect.command.is_none());
    assert_eq!(text(&editor.line), "ab");
    editor.handle_key(Key::Delete);
    assert_eq!(text(&editor.line), "a");
    editor.handle_key(Key::Unicode('\u{8}'));
    editor.handle_key(Key::Unicode('\u{8}'));
    assert!(editor.line.is_empty());
    editor.handle_key(Key::Other);
    assert!(editor.line.is_empty());
    let effect = editor.handle_key(Key::Unicode('\r'));
    assert_eq!(effect.command, Some(Command::Unknown));
}

#[test]
fn scancodes_are_decoded_into_keys() {
    let mut editor = LineEditor::new();
    let mut shown = String::new();
    // make and break codes of scancode set 1 for p, c, i and Enter
    for code in [0x19u8, 0x99, 0x2E, 0xAE, 0x17, 0x97] {
        if let Some(effect) = editor.print_keypresses(code) {
            shown.push_str(&text(&effect.before));
        }
    }
    assert_eq!(shown, "pci");
    assert_eq!(text(&editor.line), "pci");
    let effect = editor.print_keypresses(0x1C).expect("Enter is a key");
    assert_eq!(effect.command, Some(Command::Pci));
    assert!(editor.line.is_empty());
    // the break code of Enter and a shift key alone give nothing to print
    let printed = |effect: Option<gate_os::keyboard::KeyEffect>| {
        effect.map(|e| e.before.len() + e.after.len()).unwrap_or(0)
    };
    assert_eq!(printed(editor.print_keypresses(0x9C)), 0);
    assert_eq!(printed(editor.print_keypresses(0x2A)), 0);
    // with shift held, the letter is a capital
    let effect = editor.print_keypresses(0x1E).expect("a key");
    assert_eq!(text(&effect.before), "A");
}
