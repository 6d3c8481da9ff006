//! The command line: where the database file is and which token the bot
//! presents.
//!
//! The arguments are read by `clap`: `-d` or `--database` names the database
//! file, `-t` or `--token` the token. What the command line leaves out is
//! taken from the environment; the database file has a default, the token
//! has none.

use clap::{Arg, Command};
use vstd::prelude::*;

verus! {

/// The settings the program runs with.
#[derive(Clone, Debug, PartialEq, Eq)]
pub struct Cli {
    /// Path to the SQLite database file.
    pub database: String,
    /// The bot's token.
    pub token: String,
}

/// The settings as plain texts.
pub struct CliView {
    pub database: Seq<char>,
    pub token: Seq<char>,
}

impl View for Cli {
    type V = CliView;

    open spec fn view(&self) -> CliView {
        CliView { database: self.database@, token: self.token@ }
    }
}

/// What the command line names: the database file and the token, each if
/// its option was given.
#[derive(Clone, Debug, PartialEq, Eq)]
pub struct Given {
    pub database: Option<String>,
    pub token: Option<String>,
}

/// What `clap` says when it does not hand back values: the text to print,
/// and the code to leave the process with. The code is 0 where help or the
/// version was asked for, and 2 where the command line is wrong.
#[derive(Clone, Debug, PartialEq, Eq)]
pub struct Refusal {
    pub message: String,
    pub exit_code: i32,
}

/// Why no settings could be read.
#[derive(Clone, Debug, PartialEq, Eq)]
pub enum CliError {
    /// `clap` handed back no values.
    Refused(Refusal),
    /// Neither the command line nor the environment names a token.
    MissingToken,
}

/// An error with its text as a sequence of characters.
pub enum CliErrorView {
    Refused { message: Seq<char>, exit_code: i32 },
    MissingToken,
}

impl View for CliError {
    type V = CliErrorView;

    open spec fn view(&self) -> CliErrorView {
        match self {
            CliError::Refused(refusal) => CliErrorView::Refused {
                message: refusal.message@,
                exit_code: refusal.exit_code,
            },
            CliError::MissingToken => CliErrorView::MissingToken,
        }
    }
}

/// What `clap` reads from the arguments that follow the program's name: the
/// values of the database option and of the token option, each if it was
/// given, or `None` where `clap` hands back no values.
pub uninterp spec fn clap_scan(args: Seq<Seq<char>>) -> Option<(Option<Seq<char>>, Option<Seq<char>>)>;

/// The arguments as texts.
pub open spec fn arg_texts(args: Seq<String>) -> Seq<Seq<char>> {
    Seq::new(args.len(), |i: int| args[i]@)
}

/// The text of an optional string.
pub open spec fn text_of(s: Option<String>) -> Option<Seq<char>> {
    match s {
        Some(x) => Some(x@),
        None => None,
    }
}

/// The first of the two that is there.
pub open spec fn first_of(a: Option<Seq<char>>, b: Option<Seq<char>>) -> Option<Seq<char>> {
    if a is Some {
        a
    } else {
        b
    }
}

/// The settings that a command line and an environment give: the command
/// line wins over the environment, the environment over the default.
pub open spec fn settings_of(
    database: Option<Seq<char>>,
    token: Option<Seq<char>>,
    env_database: Option<Seq<char>>,
    env_token: Option<Seq<char>>,
    default_database: Seq<char>,
) -> Result<CliView, CliErrorView> {
    match first_of(token, env_token) {
        None => Err(CliErrorView::MissingToken),
        Some(t) => Ok(
            CliView {
                database: match first_of(database, env_database) {
                    Some(d) => d,
                    None => default_database,
                },
                token: t,
            },
        ),
    }
}

/// The view of a result of [`parse_args`].
pub open spec fn settings_view(r: Result<Cli, CliError>) -> Result<CliView, CliErrorView> {
    match r {
        Ok(cli) => Ok(cli@),
        Err(e) => Err(e@),
    }
}

/// Calls `clap` on the arguments, with the two options and no other source
/// of values: `Command::try_get_matches_from`, then `ArgMatches::get_one`
/// for each option, or the text and exit code of the `Error`. Claimed:
/// whether values come back, and which, is a function of the arguments.
/// Nothing is claimed of the text of a refusal.
#[verifier::external_body]
pub(crate) fn clap_matches(args: &Vec<String>) -> (r: Result<Given, Refusal>)
    ensures
        match r {
            Ok(given) => clap_scan(arg_texts(args@)) == Some((text_of(given.database), text_of(given.token))),
            Err(_) => clap_scan(arg_texts(args@)) is None,
        },
{
    let about = "Path to the SQLite database file (tries to create if not exists)";
    let database = Arg::new("database").short('d').long("database").value_name("FILE").help(about);
    let token = Arg::new("token").short('t').long("token").value_name("BOT TOKEN");
    let command = Command::new("splittea").version("0.1.0").no_binary_name(true).arg(database).arg(token);
    match command.try_get_matches_from(args) {
        Ok(m) => Ok(
            Given { database: m.get_one::<String>("database").cloned(), token: m.get_one::<String>("token").cloned() },
        ),
        Err(e) => Err(Refusal { message: e.to_string(), exit_code: e.exit_code() }),
    }
}

/// The settings for what the command line names: each value is taken from
/// the command line, else from the environment; the database file falls
/// back on the default, and without a token there are no settings.
pub fn settings_from(
    given: Given,
    env_database: Option<String>,
    env_token: Option<String>,
    default_database: String,
) -> (r: Result<Cli, CliError>)
    ensures
        settings_view(r) == settings_of(
            text_of(given.database),
            text_of(given.token),
            text_of(env_database),
            text_of(env_token),
            default_database@,
        ),
{
    let token = match given.token {
        Some(t) => t,
        None => match env_token {
            Some(t) => t,
            None => {
                return Err(CliError::MissingToken);
            },
        },
    };
    let database = match given.database {
        Some(d) => d,
        None => match env_database {
            Some(d) => d,
            None => default_database,
        },
    };
    Ok(Cli { database, token })
}

/// Reads the settings from the arguments that follow the program's name, the
/// values of the two environment variables, and the default database file.
/// Where `clap` hands back no values its refusal is passed on.
pub fn parse_args(
    args: &Vec<String>,
    env_database: Option<String>,
    env_token: Option<String>,
    default_database: String,
) -> (r: Result<Cli, CliError>)
    ensures
        match clap_scan(arg_texts(args@)) {
            Some((database, token)) => settings_view(r) == settings_of(
                database,
                token,
                text_of(env_database),
                text_of(env_token),
                default_database@,
            ),
            None => r matches Err(CliError::Refused(_)),
        },
{
    match clap_matches(args) {
        Ok(given) => settings_from(given, env_database, env_token, default_database),
        Err(refusal) => Err(CliError::Refused(refusal)),
    }
}

} // verus!
