//! What the shell shows before a command and what it makes of one.

use vstd::prelude::*;
use vstd::string::{StrSliceExecFns, StringExecFns};
use crate::process::{dir, ExitCode, ProcessTable};
use crate::syscall::FileType;

verus! {

/// The prompt: the working directory in light cyan on a line of its own,
/// and under it a `>` that is light gray after a success and red after a
/// failure, followed by a blank.
pub open spec fn spec_prompt_string(success: bool, dir: Seq<char>) -> Seq<char> {
    "\x1b[96m"@ + dir + "\x1b[0m"@ + "\n"@ + (if success {
        "\x1b[37m"@
    } else {
        "\x1b[31m"@
    }) + ">"@ + "\x1b[0m"@ + " "@
}

/// The prompt for the running process.
pub fn prompt_string(table: &ProcessTable, success: bool) -> (prompt: String)
    requires
        table.wf(),
    ensures
        prompt@ == spec_prompt_string(success, table.current().data.dir@),
{
    let current_dir = dir(table);
    let mut prompt = String::from_str("\x1b[96m");
    prompt.append(current_dir.as_str());
    prompt.append("\x1b[0m");
    prompt.append("\n");
    if success {
        prompt.append("\x1b[37m");
    } else {
        prompt.append("\x1b[31m");
    }
    prompt.append(">");
    prompt.append("\x1b[0m");
    prompt.append(" ");
    prompt
}

/// What the shell does with a command, told by its first word.
#[derive(Clone, Copy, Debug, PartialEq, Eq, Structural)]
pub enum ShellAction {
    /// Nothing was typed.
    Nothing,
    /// One of the built-in programs.
    Disk,
    Elf,
    Hex,
    Install,
    List,
    Read,
    /// Greet.
    Hello,
    /// Leave the shell.
    Quit,
    /// Stop the kernel with the rest of the command as message.
    Panic,
    /// The word is a path: change into it where it is a directory, run it
    /// where it is a file, and look for it among the programs otherwise.
    Path,
}

pub open spec fn spec_action(word: Seq<char>) -> ShellAction {
    if word == ""@ {
        ShellAction::Nothing
    } else if word == "disk"@ {
        ShellAction::Disk
    } else if word == "elf"@ {
        ShellAction::Elf
    } else if word == "hello"@ {
        ShellAction::Hello
    } else if word == "hex"@ {
        ShellAction::Hex
    } else if word == "install"@ {
        ShellAction::Install
    } else if word == "list"@ {
        ShellAction::List
    } else if word == "read"@ {
        ShellAction::Read
    } else if word == "quit"@ {
        ShellAction::Quit
    } else if word == "panic"@ {
        ShellAction::Panic
    } else {
        ShellAction::Path
    }
}

fn same(word: &str, name: &str) -> (same: bool)
    ensures
        same == (word@ == name@),
{
    let a = String::from_str(word);
    let b = String::from_str(name);
    a == b
}

/// Tells by the first word of a command what the shell does with it.
pub fn action(word: &str) -> (action: ShellAction)
    ensures
        action == spec_action(word@),
{
    if same(word, "") {
        ShellAction::Nothing
    } else if same(word, "disk") {
        ShellAction::Disk
    } else if same(word, "elf") {
        ShellAction::Elf
    } else if same(word, "hello") {
        ShellAction::Hello
    } else if same(word, "hex") {
        ShellAction::Hex
    } else if same(word, "install") {
        ShellAction::Install
    } else if same(word, "list") {
        ShellAction::List
    } else if same(word, "read") {
        ShellAction::Read
    } else if same(word, "quit") {
        ShellAction::Quit
    } else if same(word, "panic") {
        ShellAction::Panic
    } else {
        ShellAction::Path
    }
}

/// What the shell remembers of a command's outcome: the exit code where it
/// failed, success where it did not; and whether the shell goes on.
pub open spec fn spec_outcome(result: Result<(), ExitCode>) -> (ExitCode, bool) {
    match result {
        Err(ExitCode::ShellExit) => (ExitCode::ShellExit, false),
        Err(code) => (code, true),
        Ok(()) => (ExitCode::Success, true),
    }
}

/// Turns the result of a command into what the shell remembers of it.
pub fn outcome(result: Result<(), ExitCode>) -> (kept: (ExitCode, bool))
    ensures
        kept == spec_outcome(result),
{
    match result {
        Err(ExitCode::ShellExit) => (ExitCode::ShellExit, false),
        Err(code) => (code, true),
        Ok(()) => (ExitCode::Success, true),
    }
}


/// The characters that count as white space.
pub open spec fn spec_is_space(c: char) -> bool {
    ||| c == ' '
    ||| '\u{9}' <= c <= '\u{d}'
    ||| c == '\u{85}'
    ||| c == '\u{a0}'
    ||| c == '\u{1680}'
    ||| '\u{2000}' <= c <= '\u{200a}'
    ||| c == '\u{2028}'
    ||| c == '\u{2029}'
    ||| c == '\u{202f}'
    ||| c == '\u{205f}'
    ||| c == '\u{3000}'
}

pub fn is_space(c: char) -> (space: bool)
    ensures
        space == spec_is_space(c),
{
    c == ' ' || ('\u{9}' <= c && c <= '\u{d}') || c == '\u{85}' || c == '\u{a0}' || c
        == '\u{1680}' || ('\u{2000}' <= c && c <= '\u{200a}') || c == '\u{2028}' || c
        == '\u{2029}' || c == '\u{202f}' || c == '\u{205f}' || c == '\u{3000}'
}

/// How many characters of white space a text starts with.
pub open spec fn leading(s: Seq<char>) -> int
    decreases s.len(),
{
    if s.len() > 0 && spec_is_space(s[0]) {
        1 + leading(s.skip(1))
    } else {
        0
    }
}

/// How many characters of white space a text ends with.
pub open spec fn trailing(s: Seq<char>) -> int
    decreases s.len(),
{
    if s.len() > 0 && spec_is_space(s.last()) {
        1 + trailing(s.drop_last())
    } else {
        0
    }
}

/// A text without the white space at its start and at its end.
pub open spec fn trimmed(s: Seq<char>) -> Seq<char> {
    if leading(s) >= s.len() {
        Seq::empty()
    } else {
        s.subrange(leading(s), s.len() - trailing(s))
    }
}

/// The pieces of a text between its blanks, with the piece that started at
/// `start` still open at `at`.
pub open spec fn split_from(s: Seq<char>, start: int, at: int) -> Seq<Seq<char>>
    decreases s.len() - at,
{
    if at >= s.len() || start > at {
        seq![s.subrange(start, s.len() as int)]
    } else if s[at] == ' ' {
        seq![s.subrange(start, at)] + split_from(s, at + 1, at + 1)
    } else {
        split_from(s, start, at + 1)
    }
}

/// The pieces of a text between its blanks. A text without a blank is one
/// piece, and two blanks in a row have an empty piece between them.
pub open spec fn split(s: Seq<char>) -> Seq<Seq<char>> {
    split_from(s, 0, 0)
}

/// The words of a command: the pieces of the command without the white
/// space around it.
pub open spec fn spec_words(cmd: Seq<char>) -> Seq<Seq<char>> {
    split(trimmed(cmd))
}

/// Texts as contracts see them.
pub open spec fn texts(words: Seq<String>) -> Seq<Seq<char>> {
    Seq::new(words.len(), |i: int| words[i]@)
}

proof fn lemma_leading(s: Seq<char>, upto: int)
    requires
        0 <= upto <= s.len(),
        forall|k: int| 0 <= k < upto ==> spec_is_space(s[k]),
    ensures
        leading(s) == upto + leading(s.skip(upto)),
    decreases upto,
{
    if upto > 0 {
        lemma_leading(s.skip(1), upto - 1);
        assert(s.skip(1).skip(upto - 1) =~= s.skip(upto));
    } else {
        assert(s.skip(0) =~= s);
    }
}

proof fn lemma_trailing(s: Seq<char>, from: int)
    requires
        0 <= from <= s.len(),
        forall|k: int| from <= k < s.len() ==> spec_is_space(s[k]),
    ensures
        trailing(s) == s.len() - from + trailing(s.take(from)),
    decreases s.len() - from,
{
    if from < s.len() {
        lemma_trailing(s.drop_last(), from);
        assert(s.drop_last().take(from) =~= s.take(from));
    } else {
        assert(s.take(from) =~= s);
    }
}

/// Cuts a command into its words.
pub fn words(cmd: &str) -> (words: Vec<String>)
    ensures
        texts(words@) == spec_words(cmd@),
        words@.len() >= 1,
{
    let n: usize = cmd.unicode_len();
    let mut start: usize = 0;
    while start < n && is_space(cmd.get_char(start))
        invariant
            start <= n,
            n == cmd@.len(),
            forall|k: int| 0 <= k < start ==> spec_is_space(cmd@[k]),
        decreases n - start,
    {
        start = start + 1;
    }
    let mut end: usize = n;
    while end > start && is_space(cmd.get_char(end - 1))
        invariant
            start <= end <= n,
            n == cmd@.len(),
            forall|k: int| end <= k < n ==> spec_is_space(cmd@[k]),
        decreases end,
    {
        end = end - 1;
    }
    let ghost t = cmd@.subrange(start as int, end as int);
    proof {
        lemma_leading(cmd@, start as int);
        if start < n {
            assert(cmd@.skip(start as int)[0] == cmd@[start as int]);
            assert(end > start) by {
                if end == start {
                    assert(spec_is_space(cmd@[start as int]));
                }
            }
            lemma_trailing(cmd@, end as int);
            assert(cmd@.take(end as int).last() == cmd@[end - 1]);
        }
        assert(t =~= trimmed(cmd@));
    }
    let mut out: Vec<String> = Vec::new();
    let mut word_start: usize = start;
    let mut i: usize = start;
    while i < end
        invariant
            start <= word_start <= i <= end <= n,
            n == cmd@.len(),
            t == cmd@.subrange(start as int, end as int),
            texts(out@) + split_from(t, word_start - start, i - start) == split(t),
        decreases end - i,
    {
        if cmd.get_char(i) == ' ' {
            let word = cmd.substring_char(word_start, i);
            let ghost before = texts(out@);
            out.push(word.to_owned());
            proof {
                assert(word@ =~= t.subrange(word_start - start, i - start));
                assert(texts(out@) =~= before.push(word@));
                assert(texts(out@) + split_from(t, i + 1 - start, i + 1 - start) =~= before
                    + split_from(t, word_start - start, i - start));
            }
            word_start = i + 1;
        }
        i = i + 1;
    }
    let word = cmd.substring_char(word_start, end);
    let ghost before = texts(out@);
    out.push(word.to_owned());
    proof {
        assert(word@ =~= t.subrange(word_start - start, t.len() as int));
        assert(texts(out@) =~= before.push(word@));
        assert(texts(out@) =~= before + split_from(t, word_start - start, i - start));
    }
    out
}

/// What the shell makes of a command: its words, and what its first word
/// asks for.
#[derive(Debug)]
pub struct Execution {
    pub args: Vec<String>,
    pub action: ShellAction,
}

/// Reads a command: cuts it into words and tells by the first what to do.
pub fn exec(cmd: &str) -> (execution: Execution)
    ensures
        texts(execution.args@) == spec_words(cmd@),
        execution.action == spec_action(spec_words(cmd@)[0]),
{
    let args = words(cmd);
    assert(texts(args@)[0] == args@[0]@);
    let action = action(args[0].as_str());
    Execution { args, action }
}

/// What the shell does with a word that is a path.
#[derive(Clone, Copy, Debug, PartialEq, Eq, Structural)]
pub enum PathAction {
    /// The path is a directory: it becomes the working directory.
    ChangeDir,
    /// The path is a file: it is run.
    Spawn,
    /// The path is neither: the program of that name is run.
    SpawnFromBin,
}

/// Tells what to do with a path by what the file system found there.
pub fn path_action(found: Option<FileType>) -> (action: PathAction)
    ensures
        action == match found {
            Some(FileType::Dir) => PathAction::ChangeDir,
            Some(FileType::File) => PathAction::Spawn,
            _ => PathAction::SpawnFromBin,
        },
{
    match found {
        Some(FileType::Dir) => PathAction::ChangeDir,
        Some(FileType::File) => PathAction::Spawn,
        _ => PathAction::SpawnFromBin,
    }
}

/// Where the program of a name is kept.
pub fn bin_path(name: &str) -> (path: String)
    ensures
        path@ == "/bin/"@ + name@,
{
    let mut path = String::from_str("/bin/");
    path.append(name);
    path
}

} // verus!
