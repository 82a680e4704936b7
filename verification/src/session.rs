//! One client's session: whether it has authenticated, and what each of
//! its requests leads to.
//!
//! A session starts unauthenticated. A request for one of the commands that
//! touch the store is refused until a request to authenticate has carried
//! the configured password; a later request to authenticate with another
//! password takes the authentication away again.

use vstd::prelude::*;
use crate::command::{Command, classify, command_of};
use crate::entry::{EntryView, entry_from_request};
use crate::reply::{Reply, ReplyView, view_of};
use crate::request::{
    arguments,
    check_authenticated,
    check_params,
    check_password,
    get_reply,
    handle_del,
    handle_get,
    handle_set,
    handle_ttl,
};
use crate::store::{CacheStore, present_among, ttl_of};
use crate::text::uppercase;
use crate::words::{split_whitespace, words};

verus! {

/// What a request leads to, before the store is touched.
#[derive(Debug, PartialEq, Eq)]
pub enum Step {
    /// Send the answer and go on.
    Reply(Reply),
    /// Send the answer and close the connection.
    ReplyThenClose(Reply),
    /// Read a value, for which shared access to the store is enough.
    Get,
    /// Read a remaining time-to-live, for which shared access to the store
    /// is enough.
    Ttl,
    /// Write an entry, which takes exclusive access to the store.
    Put,
    /// Remove entries, which takes exclusive access to the store.
    Del,
}

/// The model of a step.
pub enum StepView {
    Reply(ReplyView),
    ReplyThenClose(ReplyView),
    Get,
    Ttl,
    Put,
    Del,
}

impl View for Step {
    type V = StepView;

    open spec fn view(&self) -> StepView {
        match self {
            Step::Reply(reply) => StepView::Reply(reply@),
            Step::ReplyThenClose(reply) => StepView::ReplyThenClose(reply@),
            Step::Get => StepView::Get,
            Step::Ttl => StepView::Ttl,
            Step::Put => StepView::Put,
            Step::Del => StepView::Del,
        }
    }
}

/// What serving one line has led to.
#[derive(Debug, PartialEq, Eq)]
pub struct Outcome {
    /// The answer to send, if there is one.
    pub reply: Option<Reply>,
    /// Whether to close the connection after sending the answer.
    pub close: bool,
}

/// The model of session, store and outcome after one line.
pub struct Served {
    pub authenticated: bool,
    pub store: Map<Seq<char>, EntryView>,
    pub reply: Option<ReplyView>,
    pub close: bool,
}

/// Whether the session is authenticated after a request. Only a request to
/// authenticate that carries a password changes it: to authenticated where
/// the password is the configured one, to unauthenticated where it is not.
pub open spec fn next_authenticated(
    authenticated: bool,
    name: Seq<char>,
    parts: Seq<Seq<char>>,
    password: Seq<char>,
) -> bool {
    if command_of(name) is Auth && parts.len() >= 2 {
        parts[1] == password
    } else {
        authenticated
    }
}

/// What a request leads to. `name` is the command's name in upper case,
/// `parts` the words of the request, the name as it came first.
///
/// Authentication is asked for first: a command that touches the store is
/// refused to an unauthenticated session whatever its arguments. Then comes
/// the count of arguments. Arguments beyond those that a command reads are
/// ignored.
pub open spec fn step_of(
    authenticated: bool,
    name: Seq<char>,
    parts: Seq<Seq<char>>,
    password: Seq<char>,
) -> StepView {
    let command = command_of(name);
    if !command.is_open() && !authenticated {
        StepView::Reply(ReplyView::NoAuth)
    } else if arguments(parts).len() < command.min_args() {
        StepView::Reply(ReplyView::WrongArity(name))
    } else {
        match command {
            Command::Auth => StepView::Reply(
                if parts[1] == password {
                    ReplyView::Okay
                } else {
                    ReplyView::InvalidPassword
                },
            ),
            Command::Ping => StepView::Reply(ReplyView::Pong),
            Command::Quit => StepView::ReplyThenClose(ReplyView::Okay),
            Command::Unknown => StepView::Reply(ReplyView::UnknownCommand(name)),
            Command::Get => StepView::Get,
            Command::Ttl => StepView::Ttl,
            Command::Put => StepView::Put,
            Command::Del => StepView::Del,
        }
    }
}

/// Session, store and outcome after a request served at `now`.
pub open spec fn serve_request(
    authenticated: bool,
    store: Map<Seq<char>, EntryView>,
    password: Seq<char>,
    now: u64,
    name: Seq<char>,
    parts: Seq<Seq<char>>,
) -> Served {
    let step = step_of(authenticated, name, parts, password);
    let authenticated = next_authenticated(authenticated, name, parts, password);
    match step {
        StepView::Reply(reply) => Served { authenticated, store, reply: Some(reply), close: false },
        StepView::ReplyThenClose(reply) => Served {
            authenticated,
            store,
            reply: Some(reply),
            close: true,
        },
        StepView::Get => Served {
            authenticated,
            store,
            reply: Some(get_reply(store, parts[1], now)),
            close: false,
        },
        StepView::Ttl => Served {
            authenticated,
            store,
            reply: Some(ReplyView::Ttl(ttl_of(store, parts[1], now))),
            close: false,
        },
        StepView::Put => Served {
            authenticated,
            store: store.insert(parts[1], entry_from_request(parts, now)),
            reply: Some(ReplyView::Okay),
            close: false,
        },
        StepView::Del => Served {
            authenticated,
            store: store.remove_keys(arguments(parts).to_set()),
            reply: Some(ReplyView::Count(present_among(store, arguments(parts)).len())),
            close: false,
        },
    }
}

/// Session, store and outcome after a line served at `now`. A line
/// without words closes the connection and is not answered; any other line
/// is a request whose first word, in upper case, names the command.
pub open spec fn serve_line(
    authenticated: bool,
    store: Map<Seq<char>, EntryView>,
    password: Seq<char>,
    now: u64,
    line: Seq<char>,
) -> Served {
    let parts = words(line);
    if parts.len() == 0 {
        Served { authenticated, store, reply: None, close: true }
    } else {
        serve_request(authenticated, store, password, now, uppercase(parts[0]), parts)
    }
}

/// The state of one client's session.
#[derive(Debug)]
pub struct Session {
    authenticated: bool,
}

impl Session {
    /// Whether the session has authenticated.
    pub closed spec fn authenticated(&self) -> bool {
        self.authenticated
    }

    /// The model of session, store and outcome together.
    pub open spec fn served(&self, store: &CacheStore, outcome: &Outcome) -> Served {
        Served {
            authenticated: self.authenticated(),
            store: store@,
            reply: view_of(outcome.reply),
            close: outcome.close,
        }
    }

    /// A session as it is when the connection has just been accepted.
    pub fn new() -> (session: Session)
        ensures
            !session.authenticated(),
    {
        Session { authenticated: false }
    }

    /// Tells whether the session has authenticated.
    pub fn is_authenticated(&self) -> (authenticated: bool)
        ensures
            authenticated == self.authenticated(),
    {
        self.authenticated
    }

    /// Decides what a request leads to, and carries out what it asks of the
    /// session itself. `name` is the command's name in upper case, `parts`
    /// the words of the request.
    pub fn dispatch(&mut self, name: &str, parts: &Vec<String>, password: &str) -> (step: Step)
        ensures
            step@ == step_of(old(self).authenticated(), name@, parts.deep_view(), password@),
            final(self).authenticated() == next_authenticated(
                old(self).authenticated(),
                name@,
                parts.deep_view(),
                password@,
            ),
    {
        match classify(name) {
            Command::Auth => match check_params(parts, name, 2) {
                Some(refusal) => Step::Reply(refusal),
                None => {
                    let reply = check_password(parts, password);
                    self.authenticated = match reply {
                        Reply::Okay => true,
                        _ => false,
                    };
                    Step::Reply(reply)
                },
            },
            Command::Ping => Step::Reply(Reply::Pong),
            Command::Quit => Step::ReplyThenClose(Reply::Okay),
            Command::Unknown => Step::Reply(Reply::UnknownCommand(name.to_owned())),
            Command::Get => self.admit_to_store(name, parts, 2, Step::Get),
            Command::Ttl => self.admit_to_store(name, parts, 2, Step::Ttl),
            Command::Put => self.admit_to_store(name, parts, 3, Step::Put),
            Command::Del => self.admit_to_store(name, parts, 2, Step::Del),
        }
    }

    /// Lets a request through to the store if the session has authenticated
    /// and the request holds words enough, and refuses it otherwise.
    fn admit_to_store(
        &self,
        name: &str,
        parts: &Vec<String>,
        min_words: usize,
        step: Step,
    ) -> (admitted: Step)
        ensures
            admitted@ == if !self.authenticated() {
                StepView::Reply(ReplyView::NoAuth)
            } else if parts.len() < min_words {
                StepView::Reply(ReplyView::WrongArity(name@))
            } else {
                step@
            },
    {
        match check_authenticated(self.authenticated) {
            Some(refusal) => Step::Reply(refusal),
            None => match check_params(parts, name, min_words) {
                Some(refusal) => Step::Reply(refusal),
                None => step,
            },
        }
    }

    /// Decides what a request leads to, reading the command's name from its
    /// first word.
    pub fn route(&mut self, parts: &Vec<String>, password: &str) -> (step: Step)
        requires
            parts.len() >= 1,
        ensures
            step@ == step_of(
                old(self).authenticated(),
                uppercase(parts.deep_view()[0]),
                parts.deep_view(),
                password@,
            ),
            final(self).authenticated() == next_authenticated(
                old(self).authenticated(),
                uppercase(parts.deep_view()[0]),
                parts.deep_view(),
                password@,
            ),
    {
        let name = parts[0].as_str().to_uppercase();
        self.dispatch(name.as_str(), parts, password)
    }

    /// Serves one request at `now`. `name` is the command's name in upper
    /// case, `parts` the words of the request.
    pub fn handle_request(
        &mut self,
        store: &mut CacheStore,
        password: &str,
        now: u64,
        name: &str,
        parts: &Vec<String>,
    ) -> (outcome: Outcome)
        requires
            old(store).wf(),
        ensures
            final(store).wf(),
            final(self).served(final(store), &outcome) == serve_request(
                old(self).authenticated(),
                old(store)@,
                password@,
                now,
                name@,
                parts.deep_view(),
            ),
    {
        match self.dispatch(name, parts, password) {
            Step::Reply(reply) => Outcome { reply: Some(reply), close: false },
            Step::ReplyThenClose(reply) => Outcome { reply: Some(reply), close: true },
            Step::Get => Outcome { reply: Some(handle_get(parts, store, now)), close: false },
            Step::Ttl => Outcome { reply: Some(handle_ttl(parts, store, now)), close: false },
            Step::Put => Outcome { reply: Some(handle_set(parts, store, now)), close: false },
            Step::Del => Outcome { reply: Some(handle_del(parts, store)), close: false },
        }
    }

    /// Serves one line at `now`.
    pub fn handle_line(
        &mut self,
        store: &mut CacheStore,
        password: &str,
        now: u64,
        line: &str,
    ) -> (outcome: Outcome)
        requires
            old(store).wf(),
        ensures
            final(store).wf(),
            final(self).served(final(store), &outcome) == serve_line(
                old(self).authenticated(),
                old(store)@,
                password@,
                now,
                line@,
            ),
    {
        let parts = split_whitespace(line);
        if parts.len() == 0 {
            return Outcome { reply: None, close: true };
        }
        let name = parts[0].as_str().to_uppercase();
        self.handle_request(store, password, now, name.as_str(), &parts)
    }
}

} // verus!
