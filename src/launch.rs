use vstd::prelude::*;
use vstd::string::*;
use crate::text::{texts, copy_texts};
use crate::uri::{LaunchIntent, LaunchMode};

verus! {

/// Path of the authentication handler below the endpoint.
pub const AUTH_PATH: &'static str = "/Login/Negotiate.ashx";

pub const FLAG_PLAY: &'static str = "--play";

pub const FLAG_AUTH_URL: &'static str = "-a";

pub const FLAG_TICKET: &'static str = "-t";

pub const FLAG_JOIN_URL: &'static str = "-j";

/// A process to spawn: the executable, run directly or through a
/// compatibility layer that takes the executable as its first argument.
#[derive(Debug)]
pub struct Invocation {
    pub shim: Option<String>,
    pub executable: Vec<String>,
    pub args: Vec<String>,
}

#[derive(PartialEq, Eq, Debug, Clone, Copy)]
pub enum LaunchError {
    /// The client executable is missing: the settings marker is to be
    /// deleted so that the next run repairs the installation.
    MissingExecutable,
    /// The intent asks for a mode other than play.
    UnknownMode,
}

/// Arguments of an authenticated play session.
pub open spec fn play_args(auth_url: Seq<char>, intent_ticket: Seq<char>, join_url: Seq<char>) -> Seq<
    Seq<char>,
> {
    seq![FLAG_PLAY@, FLAG_AUTH_URL@, auth_url, FLAG_TICKET@, intent_ticket, FLAG_JOIN_URL@, join_url]
}

/// Builds the process that starts the client at `exe` for `intent`.
/// A missing executable comes first, then a mode other than play; otherwise
/// the invocation carries the authentication address `{base}/Login/Negotiate.ashx`,
/// the ticket and the join URL, through `shim` where one is configured.
pub fn plan_launch(
    exe: &Vec<String>,
    exe_present: bool,
    intent: &LaunchIntent,
    base_url: &str,
    shim: Option<&str>,
) -> (r: Result<Invocation, LaunchError>)
    ensures
        !exe_present ==> r == Err::<Invocation, LaunchError>(LaunchError::MissingExecutable),
        exe_present && intent.mode != LaunchMode::Play ==> r == Err::<Invocation, LaunchError>(
            LaunchError::UnknownMode,
        ),
        exe_present && intent.mode == LaunchMode::Play ==> (r matches Ok(inv) && texts(
            inv.executable@,
        ) == texts(exe@) && texts(inv.args@) == play_args(
            base_url@ + AUTH_PATH@,
            intent.auth_ticket@,
            intent.join_url@,
        ) && match shim {
            Some(s) => inv.shim matches Some(t) && t@ == s@,
            None => inv.shim is None,
        }),
{
    if !exe_present {
        return Err(LaunchError::MissingExecutable);
    }
    match intent.mode {
        LaunchMode::Play => {},
        LaunchMode::Unknown => return Err(LaunchError::UnknownMode),
    }
    let auth = String::from_str(base_url).concat(AUTH_PATH);
    let mut args: Vec<String> = Vec::new();
    args.push(String::from_str(FLAG_PLAY));
    args.push(String::from_str(FLAG_AUTH_URL));
    args.push(auth);
    args.push(String::from_str(FLAG_TICKET));
    args.push(intent.auth_ticket.clone());
    args.push(String::from_str(FLAG_JOIN_URL));
    args.push(intent.join_url.clone());
    assert(texts(args@) =~= play_args(base_url@ + AUTH_PATH@, intent.auth_ticket@, intent.join_url@));
    let shim = match shim {
        Some(s) => Some(String::from_str(s)),
        None => None,
    };
    Ok(Invocation { shim, executable: copy_texts(exe), args })
}

} // verus!
