//! The command line: what the arguments ask for, and what is printed in the
//! end.

use crate::text::join;
use vstd::prelude::*;

verus! {

/// Exit code of a command that could not be carried out.
pub const EXIT_FAILURE: i32 = 1;

/// Exit code of a command line that makes no sense.
pub const EXIT_USAGE: i32 = 2;

/// How the program ends when something went wrong.
pub struct Failure {
    /// What to tell the user.
    pub message: String,
    pub exit_code: i32,
}

/// What the command line asks for.
pub enum Command {
    /// Take one screenshot.
    Capture,
    /// Serve the Model Context Protocol on standard input and output.
    Serve,
    /// Record a screencast, with or without desktop audio.
    Record { path: Option<String>, audio: bool },
}

/// What is wrong with a command line.
pub enum UsageError {
    /// The first argument names no command.
    Unknown(String),
    /// More arguments than the command takes.
    Unexpected(String),
}

/// What a [`Command`] holds.
pub enum CommandView {
    Capture,
    Serve,
    Record { path: Option<Seq<char>>, audio: bool },
}

/// What a [`UsageError`] holds.
pub enum UsageErrorView {
    Unknown(Seq<char>),
    Unexpected(Seq<char>),
}

impl View for Command {
    type V = CommandView;

    open spec fn view(&self) -> CommandView {
        match self {
            Command::Capture => CommandView::Capture,
            Command::Serve => CommandView::Serve,
            Command::Record { path, audio } => CommandView::Record {
                path: match path {
                    Some(path) => Some(path@),
                    None => None,
                },
                audio: *audio,
            },
        }
    }
}

impl View for UsageError {
    type V = UsageErrorView;

    open spec fn view(&self) -> UsageErrorView {
        match self {
            UsageError::Unknown(arg) => UsageErrorView::Unknown(arg@),
            UsageError::Unexpected(arg) => UsageErrorView::Unexpected(arg@),
        }
    }
}

/// The characters of each argument.
pub open spec fn chars_of(args: Seq<String>) -> Seq<Seq<char>> {
    args.map_values(|arg: String| arg@)
}

/// The arguments that are not the audio flag.
pub open spec fn positionals(args: Seq<Seq<char>>) -> Seq<Seq<char>>
    decreases args.len(),
{
    if args.len() == 0 {
        Seq::empty()
    } else if args.last() == "--audio"@ {
        positionals(args.drop_last())
    } else {
        positionals(args.drop_last()).push(args.last())
    }
}

/// What the arguments of `record` ask for: the audio flag may stand anywhere,
/// and what else there is, is the path; there can be one at most.
pub open spec fn record_command(args: Seq<Seq<char>>) -> Result<CommandView, UsageErrorView> {
    let paths = positionals(args);
    if paths.len() > 1 {
        Err(UsageErrorView::Unexpected(paths[1]))
    } else {
        Ok(
            CommandView::Record {
                path: if paths.len() == 1 {
                    Some(paths[0])
                } else {
                    None
                },
                audio: args.contains("--audio"@),
            },
        )
    }
}

/// What a command line asks for. Nothing at all asks for a screenshot; what
/// stands behind `mcp` is ignored.
pub open spec fn command(args: Seq<Seq<char>>) -> Result<CommandView, UsageErrorView> {
    if args.len() == 0 {
        Ok(CommandView::Capture)
    } else if args[0] == "mcp"@ {
        Ok(CommandView::Serve)
    } else if args[0] == "record"@ {
        record_command(args.drop_first())
    } else {
        Err(UsageErrorView::Unknown(args[0]))
    }
}

/// Whether `result` is what `expected` says.
pub open spec fn parses_to(
    result: Result<Command, UsageError>,
    expected: Result<CommandView, UsageErrorView>,
) -> bool {
    match expected {
        Ok(command) => result matches Ok(parsed) && parsed@ == command,
        Err(err) => result matches Err(parsed) && parsed@ == err,
    }
}

/// Whether an argument reads `word`.
fn is_word(arg: &String, word: &str) -> (same: bool)
    ensures
        same == (arg@ == word@),
{
    *arg == word.to_owned()
}

proof fn lemma_positionals_grow(args: Seq<Seq<char>>, n: int)
    requires
        0 <= n <= args.len(),
    ensures
        positionals(args.take(n)).is_prefix_of(positionals(args)),
    decreases args.len(),
{
    if n == args.len() {
        assert(args.take(n) == args);
    } else {
        lemma_positionals_grow(args.drop_last(), n);
        assert(args.drop_last().take(n) == args.take(n));
    }
}

/// Reads a command line, without the program's name: nothing for a
/// screenshot, `record [--audio] [path]`, or `mcp`.
pub fn parse_args(args: &Vec<String>) -> (result: Result<Command, UsageError>)
    ensures
        parses_to(result, command(chars_of(args@))),
{
    let ghost chars = chars_of(args@);
    if args.len() == 0 {
        return Ok(Command::Capture);
    }
    if is_word(&args[0], "mcp") {
        return Ok(Command::Serve);
    }
    if !is_word(&args[0], "record") {
        return Err(UsageError::Unknown(args[0].clone()));
    }
    let ghost rest = chars.drop_first();
    let mut audio: bool = false;
    let mut path: Option<String> = None;
    assert(rest.take(0) == Seq::<Seq<char>>::empty());
    assert("mcp"@ != "record"@) by {
        reveal_strlit("mcp");
        reveal_strlit("record");
    }
    for i in 1..args.len()
        invariant
            chars == chars_of(args@),
            rest == chars.drop_first(),
            args@.len() > 0,
            command(chars) == record_command(rest),
            audio == rest.take(i - 1).contains("--audio"@),
            path matches Some(path) ==> positionals(rest.take(i - 1)) == seq![path@],
            path is None ==> positionals(rest.take(i - 1)) == Seq::<Seq<char>>::empty(),
    {
        let ghost before = rest.take(i - 1);
        let arg: &String = &args[i];
        proof {
            assert(rest[i - 1] == arg@);
            assert(rest.take(i as int) == before.push(arg@));
            assert(before.push(arg@).drop_last() == before);
            assert(before.push(arg@).last() == arg@);
            assert(forall|x: Seq<char>| before.push(arg@).contains(x) ==> before.contains(x) || x == arg@);
            assert(before.push(arg@)[i - 1] == arg@);
            if before.contains("--audio"@) {
                let k = choose|k: int| 0 <= k < before.len() && before[k] == "--audio"@;
                assert(before.push(arg@)[k] == "--audio"@);
            }
        }
        if is_word(arg, "--audio") {
            audio = true;
        } else if path.is_none() {
            path = Some(arg.clone());
            assert(Seq::<Seq<char>>::empty().push(arg@) == seq![arg@]);
        } else {
            proof {
                lemma_positionals_grow(rest, i as int);
                assert(positionals(rest.take(i as int))[1] == arg@);
            }
            return Err(UsageError::Unexpected(arg.clone()));
        }
    }
    assert(rest.take(args@.len() - 1) == rest);
    Ok(Command::Record { path, audio })
}

/// The path of a recording when none is given.
pub fn output_path(path: Option<String>) -> (output: String)
    ensures
        output@ == match path {
            Some(path) => path@,
            None => "recording.mp4"@,
        },
{
    match path {
        Some(path) => path,
        None => "recording.mp4".to_owned(),
    }
}

impl UsageError {
    /// What comes of this command line.
    pub fn failure(&self) -> (failure: Failure)
        ensures
            failure.exit_code == 2,
            failure.message@ == match self@ {
                UsageErrorView::Unknown(arg) => "unknown argument: "@ + arg
                    + " (expected no arguments, `mcp`, or `record [--audio] [path]`)"@,
                UsageErrorView::Unexpected(arg) => "unexpected argument: "@ + arg,
            },
    {
        let message: String = match self {
            UsageError::Unknown(arg) => {
                let head: String = join("unknown argument: ", arg.as_str());
                join(
                    head.as_str(),
                    " (expected no arguments, `mcp`, or `record [--audio] [path]`)",
                )
            },
            UsageError::Unexpected(arg) => join("unexpected argument: ", arg.as_str()),
        };
        Failure { message, exit_code: EXIT_USAGE }
    }
}

/// A step of a command that can fail.
#[derive(Clone, Copy, Debug, PartialEq, Eq, Structural)]
pub enum Step {
    Capture,
    RecordingSetup,
    Recording,
    Server,
}

impl Step {
    /// How a message about this step begins.
    pub open spec fn prefix(self) -> Seq<char> {
        match self {
            Step::Capture => "capture failed: "@,
            Step::RecordingSetup => "recording setup failed: "@,
            Step::Recording => "recording failed: "@,
            Step::Server => "mcp server error: "@,
        }
    }

    /// What comes of a command when this step of it failed with `err`.
    pub fn failure(self, err: &str) -> (failure: Failure)
        ensures
            failure.exit_code == 1,
            failure.message@ == self.prefix() + err@,
    {
        let message: String = match self {
            Step::Capture => join("capture failed: ", err),
            Step::RecordingSetup => join("recording setup failed: ", err),
            Step::Recording => join("recording failed: ", err),
            Step::Server => join("mcp server error: ", err),
        };
        Failure { message, exit_code: EXIT_FAILURE }
    }
}

proof fn lemma_positionals_concat(a: Seq<Seq<char>>, b: Seq<Seq<char>>)
    ensures
        positionals(a + b) == positionals(a) + positionals(b),
    decreases b.len(),
{
    if b.len() == 0 {
        assert(a + b == a);
        assert(positionals(a) + positionals(b) == positionals(a));
    } else {
        assert((a + b).drop_last() == a + b.drop_last());
        assert((a + b).last() == b.last());
        lemma_positionals_concat(a, b.drop_last());
    }
}

/// Where the audio flag stands does not matter: put anywhere among the other
/// arguments of `record`, it turns audio on and changes nothing else.
pub proof fn law_audio_flag_anywhere(before: Seq<Seq<char>>, after: Seq<Seq<char>>)
    ensures
        record_command(before + seq!["--audio"@] + after) == match record_command(
            before + after,
        ) {
            Ok(CommandView::Record { path, .. }) => Ok(CommandView::Record { path, audio: true }),
            other => other,
        },
{
    let flag = seq!["--audio"@];
    lemma_positionals_concat(before, flag);
    lemma_positionals_concat(before + flag, after);
    lemma_positionals_concat(before, after);
    assert(flag.drop_last() == Seq::<Seq<char>>::empty());
    assert(positionals(flag) == positionals(flag.drop_last()));
    assert(positionals(before) + Seq::<Seq<char>>::empty() == positionals(before));
    assert((before + flag + after)[before.len() as int] == "--audio"@);
}

/// The first word decides: nothing asks for a screenshot, `mcp` for the
/// server whatever follows, `record` for what the rest says, and no other word
/// for anything.
pub proof fn law_the_first_word_decides(word: Seq<char>, rest: Seq<Seq<char>>)
    ensures
        command(Seq::empty()) == Ok::<CommandView, UsageErrorView>(CommandView::Capture),
        word == "mcp"@ ==> command(seq![word] + rest) == Ok::<CommandView, UsageErrorView>(
            CommandView::Serve,
        ),
        word == "record"@ ==> command(seq![word] + rest) == record_command(rest),
        word != "mcp"@ && word != "record"@ ==> command(seq![word] + rest) == Err::<
            CommandView,
            UsageErrorView,
        >(UsageErrorView::Unknown(word)),
{
    assert((seq![word] + rest).drop_first() == rest);
    assert((seq![word] + rest)[0] == word);
    assert("mcp"@ != "record"@) by {
        reveal_strlit("mcp");
        reveal_strlit("record");
        assert("mcp"@.len() == 3);
        assert("record"@.len() == 6);
    }
}

proof fn lemma_positionals_without_flag(args: Seq<Seq<char>>)
    requires
        !args.contains("--audio"@),
    ensures
        positionals(args) == args,
    decreases args.len(),
{
    if args.len() > 0 {
        assert(args[args.len() - 1] == args.last());
        assert forall|x: Seq<char>| args.drop_last().contains(x) implies args.contains(x) by {
            let k = choose|k: int| 0 <= k < args.drop_last().len() && args.drop_last()[k] == x;
            assert(args[k] == x);
        }
        lemma_positionals_without_flag(args.drop_last());
        assert(args.drop_last().push(args.last()) == args);
    }
}

/// Without the audio flag the arguments of `record` are paths: none leaves the
/// default, one is the path, and a second is refused.
pub proof fn law_record_takes_one_path(args: Seq<Seq<char>>)
    requires
        !args.contains("--audio"@),
    ensures
        args.len() == 0 ==> record_command(args) == Ok::<CommandView, UsageErrorView>(
            CommandView::Record { path: None, audio: false },
        ),
        args.len() == 1 ==> record_command(args) == Ok::<CommandView, UsageErrorView>(
            CommandView::Record { path: Some(args[0]), audio: false },
        ),
        args.len() >= 2 ==> record_command(args) == Err::<CommandView, UsageErrorView>(
            UsageErrorView::Unexpected(args[1]),
        ),
{
    lemma_positionals_without_flag(args);
}

/// What was parsed is what was asked for: the same command, with the same path
/// and the same choice of audio, or the same error about the same argument.
pub proof fn law_parsed_is_what_was_asked(
    result: Result<Command, UsageError>,
    expected: Result<CommandView, UsageErrorView>,
)
    requires
        parses_to(result, expected),
    ensures
        result is Ok <==> expected is Ok,
        result matches Ok(parsed) ==> {
            &&& parsed is Capture <==> expected->Ok_0 is Capture
            &&& parsed is Serve <==> expected->Ok_0 is Serve
            &&& parsed matches Command::Record { path, audio } ==> {
                &&& expected->Ok_0 matches CommandView::Record { path: asked, audio: with_audio }
                &&& audio == with_audio
                &&& path is Some <==> asked is Some
                &&& path matches Some(path) ==> asked == Some(path@)
            }
        },
        result matches Err(UsageError::Unknown(arg)) ==> expected->Err_0
            == UsageErrorView::Unknown(arg@),
        result matches Err(UsageError::Unexpected(arg)) ==> expected->Err_0
            == UsageErrorView::Unexpected(arg@),
{
}

/// Each argument is read with all its characters, and none is left out.
pub proof fn law_arguments_are_read_whole(args: Seq<String>, i: int)
    requires
        0 <= i < args.len(),
    ensures
        chars_of(args).len() == args.len(),
        chars_of(args)[i] == args[i]@,
{
}

} // verus!
