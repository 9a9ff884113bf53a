//! The commands the bot answers, their grammar and who may use them.

use vstd::prelude::*;

use crate::text::{
    eq_ignoring_ascii_case, equal_ignoring_ascii_case, find_char, first_index, same_text,
};

verus! {

/// A command as typed in a chat.
#[derive(Debug, Clone)]
pub enum Command {
    Help,
    Bureau,
    Poll,
    /// `/authenticate <token> <name>`.
    Authenticate(String, String),
    AdminList,
    /// `/adminremove <name>`.
    AdminRemove(String),
    /// `/authorize <command>`.
    Authorize(String),
    /// `/unauthorize <command>`.
    Unauthorize(String),
    Authorizations,
    Stats,
}

pub enum CommandModel {
    Help,
    Bureau,
    Poll,
    Authenticate(Seq<char>, Seq<char>),
    AdminList,
    AdminRemove(Seq<char>),
    Authorize(Seq<char>),
    Unauthorize(Seq<char>),
    Authorizations,
    Stats,
}

impl View for Command {
    type V = CommandModel;

    open spec fn view(&self) -> CommandModel {
        match self {
            Command::Help => CommandModel::Help,
            Command::Bureau => CommandModel::Bureau,
            Command::Poll => CommandModel::Poll,
            Command::Authenticate(t, n) => CommandModel::Authenticate(t@, n@),
            Command::AdminList => CommandModel::AdminList,
            Command::AdminRemove(n) => CommandModel::AdminRemove(n@),
            Command::Authorize(c) => CommandModel::Authorize(c@),
            Command::Unauthorize(c) => CommandModel::Unauthorize(c@),
            Command::Authorizations => CommandModel::Authorizations,
            Command::Stats => CommandModel::Stats,
        }
    }
}

/// Who may use a command.
#[derive(PartialEq, Eq, Structural, Debug, Clone, Copy)]
pub enum AccessTier {
    /// Anyone.
    Public,
    /// A chat that was granted the command.
    AuthorizedChat,
    /// An admin.
    AdminOnly,
}

/// The stable short name of a command: the key under which grants are stored.
pub open spec fn short_name(c: CommandModel) -> Seq<char> {
    match c {
        CommandModel::Help => "help"@,
        CommandModel::Bureau => "bureau"@,
        CommandModel::Poll => "poll"@,
        CommandModel::Authenticate(..) => "auth"@,
        CommandModel::AdminList => "adminlist"@,
        CommandModel::AdminRemove(..) => "adminremove"@,
        CommandModel::Authorize(..) => "authorize"@,
        CommandModel::Unauthorize(..) => "unauthorize"@,
        CommandModel::Authorizations => "authorizations"@,
        CommandModel::Stats => "stats"@,
    }
}

pub open spec fn tier_of(c: CommandModel) -> AccessTier {
    match c {
        CommandModel::Help | CommandModel::Authenticate(..) => AccessTier::Public,
        CommandModel::Bureau | CommandModel::Poll | CommandModel::Stats => AccessTier::AuthorizedChat,
        _ => AccessTier::AdminOnly,
    }
}

/// `name` is the short name of a command that a chat must be granted.
pub open spec fn restricted(name: Seq<char>) -> bool {
    exists|c: CommandModel| tier_of(c) == AccessTier::AuthorizedChat && #[trigger] short_name(c) == name
}

impl Command {
    /// The short name of the command, used as the key of grants.
    pub fn shortand(&self) -> (r: &'static str)
        ensures
            r@ == short_name(self@),
    {
        match self {
            Command::Help => "help",
            Command::Bureau => "bureau",
            Command::Poll => "poll",
            Command::Authenticate(..) => "auth",
            Command::AdminList => "adminlist",
            Command::AdminRemove(..) => "adminremove",
            Command::Authorize(..) => "authorize",
            Command::Unauthorize(..) => "unauthorize",
            Command::Authorizations => "authorizations",
            Command::Stats => "stats",
        }
    }

    pub fn access_tier(&self) -> (r: AccessTier)
        ensures
            r == tier_of(self@),
    {
        match self {
            Command::Help | Command::Authenticate(..) => AccessTier::Public,
            Command::Bureau | Command::Poll | Command::Stats => AccessTier::AuthorizedChat,
            _ => AccessTier::AdminOnly,
        }
    }
}

/// Whether `name` is the short name of a command that a chat must be granted.
pub fn is_restricted_command(name: &str) -> (r: bool)
    ensures
        r == restricted(name@),
{
    let r = same_text(name, "bureau") || same_text(name, "poll") || same_text(name, "stats");
    proof {
        if name@ == "bureau"@ {
            assert(short_name(CommandModel::Bureau) == name@);
        } else if name@ == "poll"@ {
            assert(short_name(CommandModel::Poll) == name@);
        } else if name@ == "stats"@ {
            assert(short_name(CommandModel::Stats) == name@);
        }
    }
    r
}

/// Why a text is not a command of this bot.
#[derive(PartialEq, Eq, Structural, Debug, Clone, Copy)]
pub enum ParseError {
    /// The text does not start with a known command.
    UnknownCommand,
    /// The command is addressed to another bot.
    WrongBotName,
    /// A command that takes two arguments got fewer.
    TooFewArguments,
    /// A command that takes two arguments got more.
    TooManyArguments,
}

/// The first word of a text: what comes before the first space.
pub open spec fn head_of(s: Seq<char>) -> Seq<char> {
    s.take(first_index(s, ' '))
}

/// What follows the first space, or nothing.
pub open spec fn args_of(s: Seq<char>) -> Seq<char> {
    if first_index(s, ' ') < s.len() {
        s.skip(first_index(s, ' ') + 1)
    } else {
        Seq::empty()
    }
}

/// The command of a first word: what comes before any `@`.
pub open spec fn command_part(h: Seq<char>) -> Seq<char> {
    h.take(first_index(h, '@'))
}

/// The bot a first word is addressed to: what lies between its first and second `@`.
pub open spec fn bot_part(h: Seq<char>) -> Option<Seq<char>> {
    if first_index(h, '@') < h.len() {
        let r = h.skip(first_index(h, '@') + 1);
        Some(r.take(first_index(r, '@')))
    } else {
        None
    }
}

/// The two arguments of `/authenticate`, separated by one space.
pub open spec fn pair_args(args: Seq<char>) -> Result<CommandModel, ParseError> {
    let i = first_index(args, ' ');
    if i == args.len() {
        Err(ParseError::TooFewArguments)
    } else {
        let rest = args.skip(i + 1);
        if first_index(rest, ' ') < rest.len() {
            Err(ParseError::TooManyArguments)
        } else {
            Ok(CommandModel::Authenticate(args.take(i), rest))
        }
    }
}

/// The command named `name` (with its `/`), given what followed it.
pub open spec fn command_named(name: Seq<char>, args: Seq<char>) -> Result<CommandModel, ParseError> {
    if name == "/help"@ {
        Ok(CommandModel::Help)
    } else if name == "/bureau"@ {
        Ok(CommandModel::Bureau)
    } else if name == "/poll"@ {
        Ok(CommandModel::Poll)
    } else if name == "/authenticate"@ {
        pair_args(args)
    } else if name == "/adminlist"@ {
        Ok(CommandModel::AdminList)
    } else if name == "/adminremove"@ {
        Ok(CommandModel::AdminRemove(args))
    } else if name == "/authorize"@ {
        Ok(CommandModel::Authorize(args))
    } else if name == "/unauthorize"@ {
        Ok(CommandModel::Unauthorize(args))
    } else if name == "/authorizations"@ {
        Ok(CommandModel::Authorizations)
    } else if name == "/stats"@ {
        Ok(CommandModel::Stats)
    } else {
        Err(ParseError::UnknownCommand)
    }
}

/// The command that `text` gives for the bot named `bot`.
pub open spec fn parse_spec(text: Seq<char>, bot: Seq<char>) -> Result<CommandModel, ParseError> {
    let h = head_of(text);
    match bot_part(h) {
        Some(b) if !eq_ignoring_ascii_case(b, bot) => Err(ParseError::WrongBotName),
        _ => command_named(command_part(h), args_of(text)),
    }
}

pub open spec fn parsed_view(r: Result<Command, ParseError>) -> Result<CommandModel, ParseError> {
    match r {
        Ok(c) => Ok(c@),
        Err(e) => Err(e),
    }
}

fn pair_arguments(args: &str) -> (r: Result<Command, ParseError>)
    ensures
        parsed_view(r) == pair_args(args@),
{
    let n = args.unicode_len();
    let i = find_char(args, ' ');
    if i == n {
        return Err(ParseError::TooFewArguments);
    }
    let rest = args.substring_char(i + 1, n);
    let j = find_char(rest, ' ');
    if j < rest.unicode_len() {
        return Err(ParseError::TooManyArguments);
    }
    let token = String::from_str(args.substring_char(0, i));
    let name = String::from_str(rest);
    assert(token@ =~= args@.take(i as int));
    assert(name@ =~= args@.skip(i + 1));
    Ok(Command::Authenticate(token, name))
}

/// Reads a command from a message text: `/name[@bot] arguments`. The first space ends the
/// name; a bot name after `@` must match `bot_name` up to ASCII case.
pub fn parse_command(text: &str, bot_name: &str) -> (r: Result<Command, ParseError>)
    ensures
        parsed_view(r) == parse_spec(text@, bot_name@),
{
    let n = text.unicode_len();
    let space = find_char(text, ' ');
    let head = text.substring_char(0, space);
    let args_str = if space < n {
        text.substring_char(space + 1, n)
    } else {
        text.substring_char(n, n)
    };
    assert(head@ =~= head_of(text@));
    assert(args_str@ =~= args_of(text@));
    let hn = head.unicode_len();
    let at = find_char(head, '@');
    let name = head.substring_char(0, at);
    assert(name@ =~= command_part(head@));
    if at < hn {
        let after = head.substring_char(at + 1, hn);
        let second = find_char(after, '@');
        let bot = after.substring_char(0, second);
        assert(after@ =~= head@.skip(at + 1));
        assert(bot@ =~= after@.take(second as int));
        if !equal_ignoring_ascii_case(bot, bot_name) {
            return Err(ParseError::WrongBotName);
        }
    }
    let args = String::from_str(args_str);
    if same_text(name, "/help") {
        Ok(Command::Help)
    } else if same_text(name, "/bureau") {
        Ok(Command::Bureau)
    } else if same_text(name, "/poll") {
        Ok(Command::Poll)
    } else if same_text(name, "/authenticate") {
        pair_arguments(args_str)
    } else if same_text(name, "/adminlist") {
        Ok(Command::AdminList)
    } else if same_text(name, "/adminremove") {
        Ok(Command::AdminRemove(args))
    } else if same_text(name, "/authorize") {
        Ok(Command::Authorize(args))
    } else if same_text(name, "/unauthorize") {
        Ok(Command::Unauthorize(args))
    } else if same_text(name, "/authorizations") {
        Ok(Command::Authorizations)
    } else if same_text(name, "/stats") {
        Ok(Command::Stats)
    } else {
        Err(ParseError::UnknownCommand)
    }
}

} // verus!
