//! The AI command-line tools: probing their versions, the shell text that
//! starts one in a terminal, and the project context handed to them.

use vstd::prelude::*;
use crate::text::{
    chars_of, lines_of, push_char, split_lines, split_words, string_of, strings_view, trim,
    trimmed, words_of,
};

verus! {

/// What was found out about one AI command-line tool.
#[derive(Debug)]
pub struct AiToolInfo {
    pub name: String,
    pub command: String,
    pub version: Option<String>,
    pub available: bool,
}

/// The characters of `s` with each single quote written as `'\''`.
pub open spec fn escape_quotes(s: Seq<char>) -> Seq<char>
    decreases s.len(),
{
    if s.len() == 0 {
        Seq::empty()
    } else {
        escape_quotes(s.drop_last()) + if s.last() == '\'' {
            seq!['\'', '\\', '\'', '\'']
        } else {
            seq![s.last()]
        }
    }
}

/// `s` as one single-quoted shell word.
pub open spec fn shell_quoted(s: Seq<char>) -> Seq<char> {
    seq!['\''] + escape_quotes(s) + seq!['\'']
}

/// Quotes `s` as one shell word, so that the shell passes it on unchanged.
pub fn shell_escape(s: &str) -> (r: String)
    ensures
        r@ == shell_quoted(s@),
{
    let c = chars_of(s);
    let mut r = String::new();
    push_char(&mut r, '\'');
    for i in 0..c.len()
        invariant
            c@ == s@,
            r@ == seq!['\''] + escape_quotes(c@.take(i as int)),
    {
        let ch = c[i];
        assert(c@.take(i + 1).drop_last() =~= c@.take(i as int));
        if ch == '\'' {
            push_char(&mut r, '\'');
            push_char(&mut r, '\\');
            push_char(&mut r, '\'');
            push_char(&mut r, '\'');
        } else {
            push_char(&mut r, ch);
        }
        assert(r@ =~= seq!['\''] + escape_quotes(c@.take(i + 1)));
    }
    assert(c@.take(c@.len() as int) =~= c@);
    push_char(&mut r, '\'');
    assert(r@ =~= shell_quoted(s@));
    r
}

/// The words of a command line, each quoted, separated by single spaces.
pub open spec fn quoted_command(parts: Seq<Seq<char>>) -> Seq<char>
    decreases parts.len(),
{
    if parts.len() == 0 {
        Seq::empty()
    } else if parts.len() == 1 {
        shell_quoted(parts[0])
    } else {
        quoted_command(parts.drop_last()) + seq![' '] + shell_quoted(parts.last())
    }
}

/// The words of a command line as given, separated by single spaces.
pub open spec fn plain_command(parts: Seq<Seq<char>>) -> Seq<char>
    decreases parts.len(),
{
    if parts.len() == 0 {
        Seq::empty()
    } else if parts.len() == 1 {
        parts[0]
    } else {
        plain_command(parts.drop_last()) + seq![' '] + parts.last()
    }
}

/// The tool followed by its arguments.
pub open spec fn command_words(tool: Seq<char>, args: Seq<String>) -> Seq<Seq<char>> {
    seq![tool] + strings_view(args)
}

fn join_command(tool: &str, args: &Vec<String>, quote: bool) -> (r: String)
    ensures
        quote ==> r@ == quoted_command(command_words(tool@, args@)),
        !quote ==> r@ == plain_command(command_words(tool@, args@)),
{
    let mut r = if quote {
        shell_escape(tool)
    } else {
        String::from_str(tool)
    };
    let ghost words = command_words(tool@, args@);
    assert(words.take(1) =~= seq![tool@]);
    for i in 0..args.len()
        invariant
            words == command_words(tool@, args@),
            quote ==> r@ == quoted_command(words.take(i + 1)),
            !quote ==> r@ == plain_command(words.take(i + 1)),
    {
        push_char(&mut r, ' ');
        if quote {
            r.append(shell_escape(args[i].as_str()).as_str());
        } else {
            r.append(args[i].as_str());
        }
        assert(words.take(i + 2).drop_last() =~= words.take(i + 1));
        assert(words.take(i + 2).last() == args@[i as int]@);
    }
    assert(words.take(args@.len() + 1int) =~= words);
    r
}

/// The shell line a Linux terminal runs: enter the workspace, then start the
/// tool with its arguments, every word quoted.
pub fn linux_launch_script(tool: &str, args: &Vec<String>, workspace_path: &str) -> (r: String)
    ensures
        r@ == "bash -c 'cd "@ + shell_quoted(workspace_path@) + " && "@ + quoted_command(
            command_words(tool@, args@),
        ) + "'"@,
{
    let mut r = String::from_str("bash -c 'cd ");
    r.append(shell_escape(workspace_path).as_str());
    r.append(" && ");
    r.append(join_command(tool, args, true).as_str());
    r.append("'");
    r
}

/// The script a macOS terminal is told to run: enter the workspace, then
/// start the tool with its arguments, every word quoted.
pub fn macos_launch_script(tool: &str, args: &Vec<String>, workspace_path: &str) -> (r: String)
    ensures
        r@ == "tell application \"Terminal\" to do script \"cd "@ + shell_quoted(workspace_path@)
            + " && "@ + quoted_command(command_words(tool@, args@)) + "\""@,
{
    let mut r = String::from_str("tell application \"Terminal\" to do script \"cd ");
    r.append(shell_escape(workspace_path).as_str());
    r.append(" && ");
    r.append(join_command(tool, args, true).as_str());
    r.append("\"");
    r
}

/// `s` without its double quotes.
pub open spec fn without_double_quotes(s: Seq<char>) -> Seq<char> {
    s.filter(|c: char| c != '"')
}

/// Removes every double quote from `s`.
pub fn strip_double_quotes(s: &str) -> (r: String)
    ensures
        r@ == without_double_quotes(s@),
{
    let c = chars_of(s);
    let mut r = String::new();
    assert(c@.take(0).filter(|ch: char| ch != '"') =~= Seq::<char>::empty());
    for i in 0..c.len()
        invariant
            c@ == s@,
            r@ == c@.take(i as int).filter(|ch: char| ch != '"'),
    {
        assert(c@.take(i + 1).drop_last() =~= c@.take(i as int));
        reveal(Seq::filter);
        if c[i] != '"' {
            push_char(&mut r, c[i]);
        }
    }
    assert(c@.take(c@.len() as int) =~= c@);
    r
}

/// The command a Windows console runs: enter the workspace (its double quotes
/// removed), then the tool and its arguments as given.
pub fn windows_launch_command(tool: &str, args: &Vec<String>, workspace_path: &str) -> (r: String)
    ensures
        r@ == "cd /d \""@ + without_double_quotes(workspace_path@) + "\" && "@ + plain_command(
            command_words(tool@, args@),
        ),
{
    let mut r = String::from_str("cd /d \"");
    r.append(strip_double_quotes(workspace_path).as_str());
    r.append("\" && ");
    r.append(join_command(tool, args, false).as_str());
    r
}

/// The program and arguments that ask a tool for its version: the first word
/// of its command is the program, a second word comes before `--version`.
pub fn version_probe(command: &str) -> (r: (String, Vec<String>))
    requires
        words_of(command@).len() >= 1,
    ensures
        r.0@ == words_of(command@)[0],
        words_of(command@).len() > 1 ==> strings_view(r.1@) == seq![
            words_of(command@)[1],
            "--version"@,
        ],
        words_of(command@).len() == 1 ==> strings_view(r.1@) == seq!["--version"@],
{
    let parts = split_words(&chars_of(command));
    assert(parts@.len() == words_of(command@).len());
    assert(parts@[0]@ == words_of(command@)[0]);
    let program = string_of(parts[0].as_slice());
    let mut args: Vec<String> = Vec::new();
    if parts.len() > 1 {
        assert(parts@[1]@ == words_of(command@)[1]);
        args.push(string_of(parts[1].as_slice()));
    }
    args.push(String::from_str("--version"));
    assert(parts@.len() > 1 ==> strings_view(args@) =~= seq![words_of(command@)[1], "--version"@]);
    assert(parts@.len() == 1 ==> strings_view(args@) =~= seq!["--version"@]);
    (program, args)
}

/// Availability and version of a tool from its version query: available when
/// the query succeeded, with the first line of its output, trimmed, as
/// version (none when the output has no line).
pub fn version_from_output(success: bool, stdout: &str) -> (r: (bool, Option<String>))
    ensures
        r.0 == success,
        !success ==> r.1 is None,
        success ==> (r.1 is None <==> lines_of(stdout@).len() == 0),
        success && lines_of(stdout@).len() > 0 ==> r.1->0@ == trim(lines_of(stdout@)[0]),
{
    if !success {
        return (false, None);
    }
    let lines = split_lines(&chars_of(stdout));
    assert(lines@.len() == lines_of(stdout@).len());
    if lines.len() == 0 {
        (true, None)
    } else {
        assert(lines@[0]@ == lines_of(stdout@)[0]);
        let v = trimmed(&lines[0]);
        (true, Some(string_of(v.as_slice())))
    }
}

/// The context section for the project's agent notes.
pub open spec fn agents_section(content: Seq<char>) -> Seq<char> {
    "# Project Context (AGENTS.md)\n\n"@ + content + "\n\n"@
}

/// The context section for one task file.
pub open spec fn task_section(name: Seq<char>, content: Seq<char>) -> Seq<char> {
    "# Task: "@ + name + "\n\n"@ + content + "\n\n"@
}

/// The sections of the given (name, content) task files, in order.
pub open spec fn task_sections(tasks: Seq<(String, String)>) -> Seq<char>
    decreases tasks.len(),
{
    if tasks.len() == 0 {
        Seq::empty()
    } else {
        task_sections(tasks.drop_last()) + task_section(tasks.last().0@, tasks.last().1@)
    }
}

/// The context handed to a tool: the agent notes first, when there are any,
/// then one section per task file in the order given.
pub fn build_context(agents: Option<&str>, tasks: &Vec<(String, String)>) -> (r: String)
    ensures
        r@ == match agents {
            Some(a) => agents_section(a@),
            None => Seq::<char>::empty(),
        } + task_sections(tasks@),
{
    let mut r = String::new();
    match agents {
        Some(a) => {
            r.append("# Project Context (AGENTS.md)\n\n");
            r.append(a);
            r.append("\n\n");
        },
        None => {},
    }
    let ghost head = r@;
    assert(tasks@.take(0) =~= Seq::<(String, String)>::empty());
    assert(r@ =~= head + task_sections(tasks@.take(0)));
    for i in 0..tasks.len()
        invariant
            r@ == head + task_sections(tasks@.take(i as int)),
    {
        r.append("# Task: ");
        r.append(tasks[i].0.as_str());
        r.append("\n\n");
        r.append(tasks[i].1.as_str());
        r.append("\n\n");
        assert(tasks@.take(i + 1).drop_last() =~= tasks@.take(i as int));
        assert(r@ =~= head + task_sections(tasks@.take(i + 1)));
    }
    assert(tasks@.take(tasks@.len() as int) =~= tasks@);
    r
}

} // verus!
