//! The command line: which operation is asked for, and with what options.

use crate::text::{piece_at, pieces, same_text, to_chars};
use crate::views::{option_view, result_view, seq_view};
use vstd::prelude::*;
use vstd::slice::slice_subrange;

verus! {

/// What the command line asks for.
#[derive(Debug, Clone, PartialEq, Eq)]
pub enum Command {
    Create(CreateOptions),
    Status,
    Restore(RestoreOptions),
}

/// The options of making a commit.
#[derive(Debug, Clone, PartialEq, Eq)]
pub struct CreateOptions {
    pub verbose: bool,
    pub name: String,
    pub message: String,
}

/// The options of restoring.
#[derive(Debug, Clone, PartialEq, Eq)]
pub struct RestoreOptions {
    pub verbose: bool,
    pub commit: Option<String>,
    pub path: String,
}

/// Why the command line names no operation.
#[derive(Debug, Clone, PartialEq, Eq)]
pub enum CliError {
    /// No command is given.
    NoCommand,
    /// The command, this word, is none of the three.
    UnknownCommand(String),
    /// `-n` is the last argument: no name follows.
    NoName,
    /// `-m` is the last argument: no message follows.
    NoMessage,
    /// This argument of `create` is no option.
    UnknownArgument(String),
    /// `create` has no message, or an empty one.
    EmptyMessage,
}

/// The mathematical value of a `CreateOptions`.
pub struct CreateOptionsView {
    pub verbose: bool,
    pub name: Seq<char>,
    pub message: Seq<char>,
}

/// The mathematical value of a `RestoreOptions`.
pub struct RestoreOptionsView {
    pub verbose: bool,
    pub commit: Option<Seq<char>>,
    pub path: Seq<char>,
}

/// The mathematical value of a `Command`.
pub enum CommandView {
    Create(CreateOptionsView),
    Status,
    Restore(RestoreOptionsView),
}

/// The mathematical value of a `CliError`.
pub enum CliErrorView {
    NoCommand,
    UnknownCommand(Seq<char>),
    NoName,
    NoMessage,
    UnknownArgument(Seq<char>),
    EmptyMessage,
}

impl View for CreateOptions {
    type V = CreateOptionsView;

    open spec fn view(&self) -> CreateOptionsView {
        CreateOptionsView { verbose: self.verbose, name: self.name@, message: self.message@ }
    }
}

impl View for RestoreOptions {
    type V = RestoreOptionsView;

    open spec fn view(&self) -> RestoreOptionsView {
        RestoreOptionsView {
            verbose: self.verbose,
            commit: option_view(self.commit),
            path: self.path@,
        }
    }
}

impl View for Command {
    type V = CommandView;

    open spec fn view(&self) -> CommandView {
        match self {
            Command::Create(options) => CommandView::Create(options@),
            Command::Status => CommandView::Status,
            Command::Restore(options) => CommandView::Restore(options@),
        }
    }
}

impl View for CliError {
    type V = CliErrorView;

    open spec fn view(&self) -> CliErrorView {
        match self {
            CliError::NoCommand => CliErrorView::NoCommand,
            CliError::UnknownCommand(word) => CliErrorView::UnknownCommand(word@),
            CliError::NoName => CliErrorView::NoName,
            CliError::NoMessage => CliErrorView::NoMessage,
            CliError::UnknownArgument(word) => CliErrorView::UnknownArgument(word@),
            CliError::EmptyMessage => CliErrorView::EmptyMessage,
        }
    }
}

/// The options of `create` that the arguments from `i` on give, after
/// the options `so_far` of the arguments before them. `-v` asks for a
/// verbose run; `-n` and `-m` take the argument after them as the name
/// and as the message; of several the last counts. In the end the
/// message must not be empty.
pub open spec fn create_parsed_from(
    args: Seq<Seq<char>>,
    i: int,
    so_far: CreateOptionsView,
) -> Result<CreateOptionsView, CliErrorView>
    decreases args.len() - i,
{
    if i < 0 || i >= args.len() {
        if so_far.message.len() == 0 {
            Err(CliErrorView::EmptyMessage)
        } else {
            Ok(so_far)
        }
    } else if args[i] == "-v"@ {
        create_parsed_from(args, i + 1, CreateOptionsView { verbose: true, ..so_far })
    } else if args[i] == "-n"@ {
        if i + 1 >= args.len() {
            Err(CliErrorView::NoName)
        } else {
            create_parsed_from(args, i + 2, CreateOptionsView { name: args[i + 1], ..so_far })
        }
    } else if args[i] == "-m"@ {
        if i + 1 >= args.len() {
            Err(CliErrorView::NoMessage)
        } else {
            create_parsed_from(args, i + 2, CreateOptionsView { message: args[i + 1], ..so_far })
        }
    } else {
        Err(CliErrorView::UnknownArgument(args[i]))
    }
}

/// The options of `create` that the arguments give, the name being
/// `default_name` unless they name another.
pub open spec fn create_parsed(args: Seq<Seq<char>>, default_name: Seq<char>) -> Result<
    CreateOptionsView,
    CliErrorView,
> {
    create_parsed_from(
        args,
        0,
        CreateOptionsView { verbose: false, name: default_name, message: Seq::empty() },
    )
}

/// The options of `restore` after the argument `arg`: `-v` asks for a
/// verbose run; any other argument is split at `:`. One piece is the
/// path; of more, the first is the commit and the second the path.
pub open spec fn restore_after(so_far: RestoreOptionsView, arg: Seq<char>) -> RestoreOptionsView {
    if arg == "-v"@ {
        RestoreOptionsView { verbose: true, ..so_far }
    } else {
        let parts = pieces(arg, ":"@);
        if parts.len() == 1 {
            RestoreOptionsView { path: parts[0], ..so_far }
        } else {
            RestoreOptionsView { commit: Some(parts[0]), path: parts[1], ..so_far }
        }
    }
}

/// The options of `restore` that the arguments give: each argument in
/// turn changes them, from no commit and the empty path.
pub open spec fn restore_parsed(args: Seq<Seq<char>>) -> RestoreOptionsView
    decreases args.len(),
{
    if args.len() == 0 {
        RestoreOptionsView { verbose: false, commit: None, path: Seq::empty() }
    } else {
        restore_after(restore_parsed(args.drop_last()), args.last())
    }
}

/// What the command line `args` asks for, the program's own name being
/// its first word and the command its second.
pub open spec fn command_parsed(args: Seq<Seq<char>>, default_name: Seq<char>) -> Result<
    CommandView,
    CliErrorView,
> {
    if args.len() < 2 {
        Err(CliErrorView::NoCommand)
    } else if args[1] == "create"@ {
        match create_parsed(args.skip(2), default_name) {
            Ok(options) => Ok(CommandView::Create(options)),
            Err(e) => Err(e),
        }
    } else if args[1] == "status"@ {
        Ok(CommandView::Status)
    } else if args[1] == "restore"@ {
        Ok(CommandView::Restore(restore_parsed(args.skip(2))))
    } else {
        Err(CliErrorView::UnknownCommand(args[1]))
    }
}

/// The form of the name of a commit that is given none: year, month, day,
/// hour, minute and second of its making, in digits.
pub const NAME_FORMAT: &'static str = "%Y-%m-%d_%H-%M-%S";

/// `chrono::Utc::now` and `chrono::DateTime::format`: the system clock's
/// date and time as text, in the form that `pattern` gives. The value
/// depends on the moment of the call, so nothing is stated of it. Only
/// `NAME_FORMAT` is taken, which holds nothing that the formatting
/// refuses. The call panics where the system clock reads a time before
/// 1970.
#[verifier::external_body]
fn clock_name(pattern: &str) -> String
    requires
        pattern@ == NAME_FORMAT@,
{
    chrono::offset::Utc::now().format(pattern).to_string()
}

impl CreateOptions {
    /// The options of `create` that the arguments give. A commit without
    /// a name is named after the moment of the call.
    pub fn parse_options(args: &[String]) -> (r: Result<CreateOptions, CliError>)
        ensures
            exists|default_name: Seq<char>|
                result_view(r) == create_parsed(seq_view(args@), default_name),
    {
        let name = clock_name(NAME_FORMAT);
        CreateOptions::parse_with_name(args, name)
    }

    /// The options of `create` that the arguments give, the name being
    /// `default_name` unless they name another.
    pub fn parse_with_name(args: &[String], default_name: String) -> (r: Result<
        CreateOptions,
        CliError,
    >)
        ensures
            result_view(r) == create_parsed(seq_view(args@), default_name@),
    {
        let mut index: usize = 0;
        let mut verbose = false;
        let mut name = default_name;
        let mut message = String::new();
        let ghost all = seq_view(args@);
        while index < args.len()
            invariant
                index <= args.len(),
                all == seq_view(args@),
                create_parsed(all, default_name@) == create_parsed_from(
                    all,
                    index as int,
                    CreateOptionsView { verbose, name: name@, message: message@ },
                ),
            decreases args.len() - index,
        {
            let arg = args[index].as_str();
            if same_text(arg, "-v") {
                verbose = true;
                index += 1;
            } else if same_text(arg, "-n") {
                if index + 1 >= args.len() {
                    return Err(CliError::NoName);
                }
                name = args[index + 1].clone();
                index += 2;
            } else if same_text(arg, "-m") {
                if index + 1 >= args.len() {
                    return Err(CliError::NoMessage);
                }
                message = args[index + 1].clone();
                index += 2;
            } else {
                return Err(CliError::UnknownArgument(arg.to_owned()));
            }
        }
        if message.as_str().unicode_len() == 0 {
            return Err(CliError::EmptyMessage);
        }
        Ok(CreateOptions { verbose, name, message })
    }
}

impl RestoreOptions {
    /// The options of `restore` that the arguments give.
    pub fn parse_options(args: &[String]) -> (r: RestoreOptions)
        ensures
            r@ == restore_parsed(seq_view(args@)),
    {
        let mut index: usize = 0;
        let mut verbose = false;
        let mut path = String::new();
        let mut commit: Option<String> = None;
        let ghost all = seq_view(args@);
        let separator = to_chars(":");
        proof {
            reveal_strlit(":");
            assert(all.take(0) =~= Seq::<Seq<char>>::empty());
        }
        while index < args.len()
            invariant
                index <= args.len(),
                all == seq_view(args@),
                separator@ == ":"@,
                separator@.len() > 0,
                (RestoreOptions { verbose, commit, path })@ == restore_parsed(
                    all.take(index as int),
                ),
            decreases args.len() - index,
        {
            let arg = args[index].as_str();
            proof {
                assert(all.take(index + 1).drop_last() =~= all.take(index as int));
                assert(all.take(index + 1).last() == arg@);
            }
            if same_text(arg, "-v") {
                verbose = true;
            } else {
                let chars = to_chars(arg);
                let first = piece_at(&chars, &separator, 0);
                let second = piece_at(&chars, &separator, 1);
                proof {
                    assert(pieces(arg@, separator@).len() >= 1);
                }
                match (first, second) {
                    (Some((a, b)), None) => {
                        path = arg.substring_char(a, b).to_owned();
                    },
                    (Some((a, b)), Some((c, d))) => {
                        commit = Some(arg.substring_char(a, b).to_owned());
                        path = arg.substring_char(c, d).to_owned();
                    },
                    (None, _) => {},
                }
            }
            index += 1;
        }
        proof {
            assert(all.take(index as int) =~= all);
        }
        RestoreOptions { verbose, commit, path }
    }
}

impl Command {
    /// What the command line `args` asks for. A commit without a name is
    /// named after the moment of the call.
    pub fn parse_options(args: &[String]) -> (r: Result<Command, CliError>)
        ensures
            exists|default_name: Seq<char>|
                result_view(r) == command_parsed(seq_view(args@), default_name),
    {
        let name = clock_name(NAME_FORMAT);
        Command::parse_with_name(args, name)
    }

    /// What the command line `args` asks for, a commit without a name
    /// being named `default_name`.
    pub fn parse_with_name(args: &[String], default_name: String) -> (r: Result<
        Command,
        CliError,
    >)
        ensures
            result_view(r) == command_parsed(seq_view(args@), default_name@),
    {
        if args.len() < 2 {
            return Err(CliError::NoCommand);
        }
        let word = args[1].as_str();
        let rest = slice_subrange(args, 2, args.len());
        proof {
            assert(seq_view(rest@) =~= seq_view(args@).skip(2));
        }
        if same_text(word, "create") {
            match CreateOptions::parse_with_name(rest, default_name) {
                Ok(options) => Ok(Command::Create(options)),
                Err(e) => Err(e),
            }
        } else if same_text(word, "status") {
            Ok(Command::Status)
        } else if same_text(word, "restore") {
            Ok(Command::Restore(RestoreOptions::parse_options(rest)))
        } else {
            Err(CliError::UnknownCommand(word.to_owned()))
        }
    }
}

} // verus!
