use gate_os::prompt::{
    is_printable, len_utf8, offset_from_prompt, push_decimal, utf8, width_of, InputStep, Prompt,
    EOT_KEY, ETX_KEY,
};
use gate_os::shell::{
    action, bin_path, exec, is_space, outcome, path_action, prompt_string, words, PathAction,
    ShellAction,
};
use gate_os::syscall::FileType;
use gate_os::process::{set_dir, ExitCode, ProcessTable};
use gate_os::vt::VtEvent;

fn text(chars: &[char]) -> String {
    chars.iter().collect()
}

fn typed(prompt: &mut Prompt, s: &str) -> String {
    let mut shown = String::new();
    for c in s.chars() {
        match prompt.input(c) {
            InputStep::Editing(out) => shown.push_str(&text(&out)),
            other => panic!("the edit ended: {:?}", other),
        }
    }
    shown
}

#[test]
fn numbers_are_written_in_decimal() {
    for n in [0usize, 7, 10, 42, 999, 1000, 18446744073709551615] {
        let mut out = vec!['#'];
        push_decimal(&mut out, n);
        assert_eq!(text(&out), format!("#{}", n));
    }
}

#[test]
fn characters_are_encoded_as_utf8() {
    for c in ['a', '\u{7f}', '\u{80}', 'é', '\u{7ff}', '\u{800}', '€', '\u{ffff}', '😀', '\u{10ffff}'] {
        assert_eq!(utf8(c), c.to_string().into_bytes());
        assert_eq!(len_utf8(c), c.len_utf8());
    }
}

#[test]
fn printable_characters() {
    assert!(is_printable('a'));
    assert!(is_printable(' '));
    assert!(is_printable('é'));
    assert!(!is_printable('\u{1b}'));
    assert!(!is_printable('\u{ff}'));
    assert!(!is_printable('€'));
}

#[test]
fn the_prompt_offset_leaves_escape_sequences_out() {
    assert_eq!(offset_from_prompt("> "), 2);
    assert_eq!(offset_from_prompt("\x1b[96m/usr\x1b[0m\n\x1b[37m>\x1b[0m "), 6);
    assert_eq!(offset_from_prompt("é>"), 3);
    assert_eq!(offset_from_prompt(""), 0);
}

#[test]
fn width_counts_printed_characters_only() {
    let events = vec![
        VtEvent::Print('a'),
        VtEvent::Execute(b'\n'),
        VtEvent::Csi { params: vec![1], action: 'm' },
        VtEvent::Print('€'),
    ];
    assert_eq!(width_of(&events), 4);
}

#[test]
fn typing_inserts_at_the_cursor() {
    let mut prompt = Prompt::new();
    prompt.begin("> ");
    assert_eq!((prompt.offset, prompt.cursor), (2, 2));
    assert_eq!(typed(&mut prompt, "ab"), "a\x1b[1Db\x1b[1D");
    assert_eq!(text(&prompt.line), "ab");
    assert_eq!(prompt.cursor, 4);
    prompt.cursor = 2;
    assert_eq!(text(&prompt.handle_printable_key('x')), "xab\x1b[3D");
    assert_eq!(text(&prompt.line), "xab");
    assert_eq!(prompt.cursor, 3);
    // a character that is not printable is ignored
    assert_eq!(text(&prompt.handle_printable_key('€')), "");
    assert_eq!(text(&prompt.line), "xab");
}

#[test]
fn backspace_takes_out_the_character_before_the_cursor() {
    let mut prompt = Prompt::new();
    prompt.begin("> ");
    typed(&mut prompt, "abc");
    prompt.cursor = 4;
    assert_eq!(text(&prompt.handle_backspace_key()), "\x08c \x1b[2D");
    assert_eq!(text(&prompt.line), "ac");
    assert_eq!(prompt.cursor, 3);
    assert_eq!(typed(&mut prompt, "\x08"), "\x08c \x1b[2D");
    assert_eq!(text(&prompt.line), "c");
    assert_eq!(prompt.cursor, 2);
    // at the start of the line there is nothing to take out
    assert_eq!(text(&prompt.handle_backspace_key()), "");
    assert_eq!(text(&prompt.line), "c");
}

#[test]
fn delete_takes_out_the_character_under_the_cursor() {
    let mut prompt = Prompt::new();
    prompt.begin("> ");
    typed(&mut prompt, "abc");
    assert_eq!(text(&prompt.handle_delete_key()), "");
    prompt.cursor = 2;
    assert_eq!(text(&prompt.handle_delete_key()), "bc \x1b[3D");
    assert_eq!(text(&prompt.line), "bc");
    assert_eq!(prompt.cursor, 2);
    // the Delete key sends `ESC [ 3 ~`, and U+007F deletes as well
    assert_eq!(typed(&mut prompt, "\x1b[3~"), "c \x1b[2D");
    assert_eq!(typed(&mut prompt, "\x7f"), " \x1b[1D");
    assert!(prompt.line.is_empty());
    assert_eq!(text(&prompt.csi_dispatch(&[3, 3], '~')), "");
    assert_eq!(text(&prompt.csi_dispatch(&[3], 'A')), "");
}

#[test]
fn a_sequence_with_two_threes_deletes_twice() {
    let mut prompt = Prompt::new();
    prompt.begin("");
    typed(&mut prompt, "abc");
    prompt.cursor = 0;
    assert_eq!(text(&prompt.csi_dispatch(&[3, 2, 3], '~')), "bc \x1b[3Dc \x1b[2D");
    assert_eq!(text(&prompt.line), "c");
}

#[test]
fn the_ends_of_an_input() {
    let mut prompt = Prompt::new();
    prompt.begin("> ");
    typed(&mut prompt, "ls");
    assert!(matches!(prompt.input(ETX_KEY), InputStep::Cancelled));
    assert!(matches!(prompt.input(EOT_KEY), InputStep::Ended));
    match prompt.input('\n') {
        InputStep::Entered(line) => assert_eq!(text(&line), "ls"),
        other => panic!("not entered: {:?}", other),
    }
    prompt.begin("$ ");
    assert!(prompt.line.is_empty());
}

#[test]
fn the_prompt_string_shows_the_directory_and_the_last_result() {
    let mut table = ProcessTable::new(0);
    assert_eq!(prompt_string(&table, true), "\x1b[96m/\x1b[0m\n\x1b[37m>\x1b[0m ");
    set_dir(&mut table, "/usr/bin");
    assert_eq!(prompt_string(&table, false), "\x1b[96m/usr/bin\x1b[0m\n\x1b[31m>\x1b[0m ");
}

#[test]
fn the_first_word_names_the_action() {
    let all = [
        ("", ShellAction::Nothing),
        ("disk", ShellAction::Disk),
        ("elf", ShellAction::Elf),
        ("hello", ShellAction::Hello),
        ("hex", ShellAction::Hex),
        ("install", ShellAction::Install),
        ("list", ShellAction::List),
        ("read", ShellAction::Read),
        ("quit", ShellAction::Quit),
        ("panic", ShellAction::Panic),
        ("/bin/clear", ShellAction::Path),
        ("Hello", ShellAction::Path),
    ];
    for (word, expected) in all {
        assert_eq!(action(word), expected);
    }
}

#[test]
fn the_shell_goes_on_until_it_is_told_to_quit() {
    assert_eq!(outcome(Ok(())), (ExitCode::Success, true));
    assert_eq!(outcome(Err(ExitCode::ExecError)), (ExitCode::ExecError, true));
    assert_eq!(outcome(Err(ExitCode::ShellExit)), (ExitCode::ShellExit, false));
}

#[test]
fn a_command_is_cut_into_its_words() {
    for cmd in [
        "",
        " ",
        "list",
        "  list /bin  ",
        "a  b",
        "read\t/tmp/x y\n",
        "\u{3000}hex é ü\u{a0}",
        " \t ",
        "x ",
        "panic at the disco",
    ] {
        let expected: Vec<String> = cmd.trim().split(' ').map(|word| word.to_string()).collect();
        assert_eq!(words(cmd), expected);
    }
    assert_eq!(words("  list /bin  "), vec!["list", "/bin"]);
    assert_eq!(words("a  b"), vec!["a", "", "b"]);
    assert_eq!(words(" "), vec![""]);
}

#[test]
fn white_space_is_what_the_standard_library_calls_so() {
    for code in 0..0x4000u32 {
        if let Some(c) = char::from_u32(code) {
            assert_eq!(is_space(c), c.is_whitespace());
        }
    }
}

#[test]
fn a_command_is_read() {
    let execution = exec("  install --force ");
    assert_eq!(execution.action, ShellAction::Install);
    assert_eq!(execution.args, vec!["install", "--force"]);
    assert_eq!(exec("").action, ShellAction::Nothing);
    assert_eq!(exec("quit now").action, ShellAction::Quit);
    assert_eq!(exec("/bin/clear").action, ShellAction::Path);
    assert_eq!(exec("hello").action, ShellAction::Hello);
}

#[test]
fn a_path_is_entered_or_run() {
    assert_eq!(path_action(Some(FileType::Dir)), PathAction::ChangeDir);
    assert_eq!(path_action(Some(FileType::File)), PathAction::Spawn);
    assert_eq!(path_action(Some(FileType::Device)), PathAction::SpawnFromBin);
    assert_eq!(path_action(None), PathAction::SpawnFromBin);
    assert_eq!(bin_path("clear"), "/bin/clear");
}
