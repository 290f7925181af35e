//! The command line: log level flags, commands, and the choice of images.
use vstd::prelude::*;
use crate::text::{
    first_field, first_field_exec, starts_with, str_eq, str_starts_with, trim_start_char,
    trim_start_char_exec,
};
use crate::webrtc_control::strings_view;

verus! {

/// How much the program logs.
#[derive(Debug, Clone, Copy, PartialEq, Eq, Structural)]
pub enum LogLevel {
    Error,
    Info,
    Debug,
}

/// The log level that the arguments ask for, and how many arguments are left
/// once its flag is removed: a last argument `--verbose` asks for `Info`,
/// `--verbose-max` for `Debug`; otherwise errors only, and nothing is removed.
pub open spec fn log_level_of(args: Seq<Seq<char>>) -> (LogLevel, int) {
    if args.last() == "--verbose"@ {
        (LogLevel::Info, args.len() - 1)
    } else if args.last() == "--verbose-max"@ {
        (LogLevel::Debug, args.len() - 1)
    } else {
        (LogLevel::Error, args.len() as int)
    }
}

/// The flag is read from the last argument, however many arguments there are:
/// a last `--verbose` gives `Info` and drops exactly that argument, a last
/// `--verbose-max` gives `Debug` and drops exactly that argument, and any other
/// last argument gives `Error` and keeps every argument.
pub proof fn lemma_log_level_from_last_argument(args: Seq<Seq<char>>)
    requires
        args.len() >= 1,
    ensures
        args.last() == "--verbose"@ ==> log_level_of(args) == (LogLevel::Info, args.len() - 1),
        args.last() == "--verbose-max"@ ==> log_level_of(args) == (
            LogLevel::Debug,
            args.len() - 1,
        ),
        args.last() != "--verbose"@ && args.last() != "--verbose-max"@ ==> log_level_of(args)
            == (LogLevel::Error, args.len() as int),
        (log_level_of(args).0 == LogLevel::Error) == (log_level_of(args).1 == args.len()),
        log_level_of(args).1 == args.len() || log_level_of(args).1 == args.len() - 1,
{
    reveal_strlit("--verbose");
    reveal_strlit("--verbose-max");
    if args.last() == "--verbose"@ {
        assert(args.last() != "--verbose-max"@) by {
            assert("--verbose"@.len() != "--verbose-max"@.len());
        }
    }
}

/// Reads the log level flag at the end of `args` and removes it.
pub fn take_log_level(args: &mut Vec<String>) -> (l: LogLevel)
    requires
        old(args).len() >= 1,
    ensures
        l == log_level_of(strings_view(old(args)@)).0,
        final(args)@ == old(args)@.take(log_level_of(strings_view(old(args)@)).1),
{
    let ghost views = strings_view(args@);
    let n = args.len();
    assert(views.last() == args@[n - 1]@);
    if str_eq(args[n - 1].as_str(), "--verbose") {
        args.pop();
        LogLevel::Info
    } else if str_eq(args[n - 1].as_str(), "--verbose-max") {
        args.pop();
        LogLevel::Debug
    } else {
        assert(args@.take(n as int) =~= args@);
        LogLevel::Error
    }
}

/// The filter given to the logger for a level.
pub open spec fn log_filter_of(l: LogLevel) -> Seq<char> {
    match l {
        LogLevel::Error => "error"@,
        LogLevel::Info => "info"@,
        LogLevel::Debug => "debug"@,
    }
}

/// The filter given to the logger for a level.
pub fn log_filter(l: LogLevel) -> (s: String)
    ensures
        s@ == log_filter_of(l),
{
    match l {
        LogLevel::Error => "error".to_owned(),
        LogLevel::Info => "info".to_owned(),
        LogLevel::Debug => "debug".to_owned(),
    }
}

/// What the command line asks for.
#[derive(Debug)]
pub enum Command {
    /// Send an image: the one named, or one to choose interactively.
    Send { image: Option<String> },
    /// Receive an image from a peer; `NULL` when the peer id is to be asked for.
    Get { peer: String },
    /// An unknown command.
    Unknown(String),
}

/// The content of a command.
pub enum CommandView {
    Send(Option<Seq<char>>),
    Get(Seq<char>),
    Unknown(Seq<char>),
}

impl View for Command {
    type V = CommandView;

    open spec fn view(&self) -> CommandView {
        match self {
            Command::Send { image } => CommandView::Send(
                match image {
                    Some(i) => Some(i@),
                    None => None,
                },
            ),
            Command::Get { peer } => CommandView::Get(peer@),
            Command::Unknown(c) => CommandView::Unknown(c@),
        }
    }
}

/// The command that the arguments (program name first) ask for: `send` or
/// `push` sends the image named by a third and last argument, or one chosen
/// interactively otherwise; `get`, `recieve` or `pull` receives from the peer
/// named by a third argument that starts with `@` (every leading `@` removed),
/// or from a peer to be asked for (`NULL`); anything else is unknown.
pub open spec fn command_of(args: Seq<Seq<char>>) -> CommandView {
    let c = args[1];
    if c == "send"@ || c == "push"@ {
        CommandView::Send(
            if args.len() == 3 {
                Some(args[2])
            } else {
                None
            },
        )
    } else if c == "get"@ || c == "recieve"@ || c == "pull"@ {
        CommandView::Get(
            if args.len() >= 3 && starts_with(args[2], "@"@) {
                trim_start_char(args[2], '@')
            } else {
                "NULL"@
            },
        )
    } else {
        CommandView::Unknown(c)
    }
}

/// `push` is the same command as `send`, and `pull` and `recieve` the same as
/// `get`: each gives what the arguments give with that word replaced. With
/// exactly three arguments, `send` or `push` names the image to send, the third
/// argument; with any other count it names none.
pub proof fn lemma_command_synonyms(args: Seq<Seq<char>>)
    requires
        args.len() >= 2,
    ensures
        args[1] == "push"@ ==> command_of(args) == command_of(args.update(1, "send"@)),
        args[1] == "pull"@ ==> command_of(args) == command_of(args.update(1, "get"@)),
        args[1] == "recieve"@ ==> command_of(args) == command_of(args.update(1, "get"@)),
        (args[1] == "send"@ || args[1] == "push"@) ==> command_of(args) == CommandView::Send(
            if args.len() == 3 {
                Some(args[2])
            } else {
                None
            },
        ),
        (args[1] == "send"@ || args[1] == "push"@) && args.len() == 3 ==> command_of(args)
            == CommandView::Send(Some(args[2])),
{
    reveal_strlit("send");
    reveal_strlit("push");
    reveal_strlit("get");
    reveal_strlit("pull");
    reveal_strlit("recieve");
    let u = args.update(1, "send"@);
    let g = args.update(1, "get"@);
    assert(u[1] == "send"@);
    assert(g[1] == "get"@);
    assert(u.len() == args.len() && g.len() == args.len());
    if args.len() >= 3 {
        assert(u[2] == args[2]);
        assert(g[2] == args[2]);
    }
    assert("pull"@ != "send"@) by { assert("pull"@[0] != "send"@[0]); }
    assert("pull"@ != "push"@) by { assert("pull"@[2] != "push"@[2]); }
    assert("recieve"@ != "send"@) by { assert("recieve"@.len() != "send"@.len()); }
    assert("recieve"@ != "push"@) by { assert("recieve"@.len() != "push"@.len()); }
    assert("get"@ != "send"@) by { assert("get"@.len() != "send"@.len()); }
    assert("get"@ != "push"@) by { assert("get"@.len() != "push"@.len()); }
}

/// Reads the command from the arguments, program name first.
pub fn parse_command(args: &Vec<String>) -> (c: Command)
    requires
        args.len() >= 2,
    ensures
        c@ == command_of(strings_view(args@)),
{
    let ghost views = strings_view(args@);
    let cmd = args[1].as_str();
    assert(views[1] == cmd@);
    if str_eq(cmd, "send") || str_eq(cmd, "push") {
        if args.len() == 3 {
            assert(views[2] == args@[2]@);
            Command::Send { image: Some(args[2].clone()) }
        } else {
            Command::Send { image: None }
        }
    } else if str_eq(cmd, "get") || str_eq(cmd, "recieve") || str_eq(cmd, "pull") {
        if args.len() >= 3 && str_starts_with(args[2].as_str(), "@") {
            assert(views[2] == args@[2]@);
            Command::Get { peer: trim_start_char_exec(args[2].as_str(), '@') }
        } else {
            Command::Get { peer: "NULL".to_owned() }
        }
    } else {
        Command::Unknown(args[1].clone())
    }
}

/// The entry shown for an image with repository tags `tags`: the part before
/// the first `:` of every tag, put together.
pub open spec fn image_choice(tags: Seq<Seq<char>>) -> Seq<char>
    decreases tags.len(),
{
    if tags.len() == 0 {
        Seq::empty()
    } else {
        image_choice(tags.drop_last()) + first_field(tags.last(), ':')
    }
}

/// The entries shown for images with repository tags `images`, in order.
pub open spec fn image_choices_of(images: Seq<Seq<Seq<char>>>) -> Seq<Seq<char>> {
    images.map_values(|tags: Seq<Seq<char>>| image_choice(tags))
}

/// The repository tags of each image.
pub open spec fn tags_view(images: Seq<Vec<String>>) -> Seq<Seq<Seq<char>>> {
    images.map_values(|tags: Vec<String>| strings_view(tags@))
}

/// The entries offered when the image to send is chosen interactively.
pub fn image_choices(images: &Vec<Vec<String>>) -> (r: Vec<String>)
    ensures
        strings_view(r@) == image_choices_of(tags_view(images@)),
{
    let mut r: Vec<String> = Vec::new();
    let mut i: usize = 0;
    while i < images.len()
        invariant
            i <= images.len(),
            strings_view(r@) == image_choices_of(tags_view(images@)).take(i as int),
        decreases images.len() - i,
    {
        let tags = &images[i];
        let mut entry = String::new();
        let mut j: usize = 0;
        while j < tags.len()
            invariant
                j <= tags.len(),
                entry@ == image_choice(strings_view(tags@).take(j as int)),
            decreases tags.len() - j,
        {
            let field = first_field_exec(tags[j].as_str(), ':');
            entry.append(field.as_str());
            proof {
                let tv = strings_view(tags@);
                assert(tv.take(j + 1).drop_last() =~= tv.take(j as int));
                assert(tv.take(j + 1).last() == tags@[j as int]@);
            }
            j = j + 1;
        }
        proof {
            assert(strings_view(tags@).take(j as int) =~= strings_view(tags@));
            assert(strings_view(tags@) == tags_view(images@)[i as int]);
        }
        let ghost before = r@;
        r.push(entry);
        assert(strings_view(r@) =~= strings_view(before).push(entry@));
        assert(image_choices_of(tags_view(images@)).take(i + 1) =~= image_choices_of(
            tags_view(images@),
        ).take(i as int).push(entry@));
        i = i + 1;
    }
    assert(image_choices_of(tags_view(images@)).take(i as int) =~= image_choices_of(
        tags_view(images@),
    ));
    r
}

} // verus!
