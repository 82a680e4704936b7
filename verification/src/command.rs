//! The commands of the protocol.

use vstd::prelude::*;
use crate::text::str_eq;

verus! {

/// What the first word of a request asks for.
#[derive(Clone, Copy, Debug, PartialEq, Eq, Structural)]
pub enum Command {
    /// `AUTH password`: authenticate the session.
    Auth,
    /// `PING`: probe for liveness.
    Ping,
    /// `GET key`: read a value.
    Get,
    /// `TTL key`: read the remaining time-to-live.
    Ttl,
    /// `SET key [ttl] value`: write a value.
    Put,
    /// `DEL key...`: remove entries.
    Del,
    /// `QUIT`: end the session.
    Quit,
    /// Any other word.
    Unknown,
}

/// The command that a name in upper case stands for.
pub open spec fn command_of(name: Seq<char>) -> Command {
    if name == "AUTH"@ {
        Command::Auth
    } else if name == "PING"@ {
        Command::Ping
    } else if name == "GET"@ {
        Command::Get
    } else if name == "TTL"@ {
        Command::Ttl
    } else if name == "SET"@ {
        Command::Put
    } else if name == "DEL"@ {
        Command::Del
    } else if name == "QUIT"@ {
        Command::Quit
    } else {
        Command::Unknown
    }
}

/// Each of the seven names stands for its own command.
pub proof fn lemma_command_names()
    ensures
        command_of("AUTH"@) is Auth,
        command_of("PING"@) is Ping,
        command_of("GET"@) is Get,
        command_of("TTL"@) is Ttl,
        command_of("SET"@) is Put,
        command_of("DEL"@) is Del,
        command_of("QUIT"@) is Quit,
{
    reveal_strlit("AUTH");
    reveal_strlit("PING");
    reveal_strlit("GET");
    reveal_strlit("TTL");
    reveal_strlit("SET");
    reveal_strlit("DEL");
    reveal_strlit("QUIT");
    assert("AUTH"@[0] == 'A');
    assert("PING"@[0] == 'P');
    assert("GET"@[0] == 'G');
    assert("TTL"@[0] == 'T');
    assert("SET"@[0] == 'S');
    assert("DEL"@[0] == 'D');
    assert("QUIT"@[0] == 'Q');
}

impl Command {
    /// Whether the command is open to a session that has not authenticated.
    pub open spec fn is_open(self) -> bool {
        self is Auth || self is Ping || self is Quit || self is Unknown
    }

    /// The number of arguments that the command cannot do without. A
    /// request may carry more; they are ignored.
    pub open spec fn min_args(self) -> nat {
        match self {
            Command::Auth | Command::Get | Command::Ttl | Command::Del => 1,
            Command::Put => 2,
            Command::Ping | Command::Quit | Command::Unknown => 0,
        }
    }

    /// Whether carrying out the command changes the store.
    pub open spec fn writes(self) -> bool {
        self is Put || self is Del
    }
}

/// Tells which command a name in upper case stands for.
pub fn classify(name: &str) -> (command: Command)
    ensures
        command == command_of(name@),
{
    if str_eq(name, "AUTH") {
        Command::Auth
    } else if str_eq(name, "PING") {
        Command::Ping
    } else if str_eq(name, "GET") {
        Command::Get
    } else if str_eq(name, "TTL") {
        Command::Ttl
    } else if str_eq(name, "SET") {
        Command::Put
    } else if str_eq(name, "DEL") {
        Command::Del
    } else if str_eq(name, "QUIT") {
        Command::Quit
    } else {
        Command::Unknown
    }
}

} // verus!
