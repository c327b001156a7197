//! What a running Herdr says of an agent: its endpoint, its panes, and who runs in them.
use std::collections::HashMap;
use std::time::{Duration, SystemTime};
use vstd::prelude::*;

use crate::json;
use crate::json::{json_object, json_text, parse_json, write_json, Json};
use crate::number;
use crate::process;
use crate::process::{is_ancestor, launch_process, Process, ProcessError};
use crate::state;
use crate::state::{same_identity, Identity};
use crate::text;
use crate::text::{chars_of, same_text, split_at_each, text_of, trimmed};

verus! {

/// The agent whose progress is reported.
pub const AGENT: &'static str = "devin";

/// Why Herdr, or what it says of an agent, is of no use.
#[derive(Debug)]
pub enum RuntimeError {
    /// No socket is named.
    NoSocket,
    /// The socket cannot be looked at, for the reason given.
    SocketUnavailable(String),
    /// What is there is no socket.
    NotSocket,
    /// The socket is another one than before.
    Replaced,
    /// The answer is no JSON, for the reason given.
    NotJson(String),
    /// The answer is an error.
    Api(String),
    /// The caller does not run in a pane.
    NoPane,
    /// The pane runs another agent.
    WrongAgent(String),
    /// The session of the agent is not known.
    NoSession,
    /// Something is missing from an answer.
    Missing(String),
    /// The processes of the pane are not known.
    NoForeground,
    /// The process of the agent is not known.
    Process(ProcessError),
    /// The caller was not started by the agent.
    NotDescendant,
    /// A command failed, and said the given.
    CommandFailed(String),
    /// A command took too long.
    TimedOut,
    /// What was read cannot be understood, for the reason given.
    Unreadable(String),
}

/// A [`RuntimeError`] as a value.
pub ghost enum RuntimeFault {
    NoSocket,
    SocketUnavailable(Seq<char>),
    NotSocket,
    Replaced,
    NotJson(Seq<char>),
    Api(Seq<char>),
    NoPane,
    WrongAgent(Seq<char>),
    NoSession,
    Missing(Seq<char>),
    NoForeground,
    Process(ProcessError),
    NotDescendant,
    CommandFailed(Seq<char>),
    TimedOut,
    Unreadable(Seq<char>),
}

impl View for RuntimeError {
    type V = RuntimeFault;

    open spec fn view(&self) -> RuntimeFault {
        match self {
            RuntimeError::NoSocket => RuntimeFault::NoSocket,
            RuntimeError::SocketUnavailable(m) => RuntimeFault::SocketUnavailable(m@),
            RuntimeError::NotSocket => RuntimeFault::NotSocket,
            RuntimeError::Replaced => RuntimeFault::Replaced,
            RuntimeError::NotJson(m) => RuntimeFault::NotJson(m@),
            RuntimeError::Api(m) => RuntimeFault::Api(m@),
            RuntimeError::NoPane => RuntimeFault::NoPane,
            RuntimeError::WrongAgent(a) => RuntimeFault::WrongAgent(a@),
            RuntimeError::NoSession => RuntimeFault::NoSession,
            RuntimeError::Missing(k) => RuntimeFault::Missing(k@),
            RuntimeError::NoForeground => RuntimeFault::NoForeground,
            RuntimeError::Process(e) => RuntimeFault::Process(*e),
            RuntimeError::NotDescendant => RuntimeFault::NotDescendant,
            RuntimeError::CommandFailed(m) => RuntimeFault::CommandFailed(m@),
            RuntimeError::TimedOut => RuntimeFault::TimedOut,
            RuntimeError::Unreadable(m) => RuntimeFault::Unreadable(m@),
        }
    }
}

impl RuntimeFault {
    /// What is wrong, in words.
    pub open spec fn message(self) -> Seq<char> {
        match self {
            RuntimeFault::NoSocket => "HERDR_SOCKET_PATH is missing"@,
            RuntimeFault::SocketUnavailable(m) => "Herdr socket unavailable: "@ + m,
            RuntimeFault::NotSocket => "Endpoint is not a Unix socket"@,
            RuntimeFault::Replaced => "Herdr endpoint was replaced"@,
            RuntimeFault::NotJson(m) => "Herdr did not return JSON: "@ + m,
            RuntimeFault::Api(m) => "Herdr API error: "@ + m,
            RuntimeFault::NoPane => "Reporting requires the caller's own Herdr pane environment"@,
            RuntimeFault::WrongAgent(a) => "Runtime binding is unavailable for "@ + a
                + "; expected Devin CLI"@,
            RuntimeFault::NoSession => "Official native Devin session identity is unavailable"@,
            RuntimeFault::Missing(k) => "Missing "@ + k,
            RuntimeFault::NoForeground => "Foreground process information unavailable"@,
            RuntimeFault::Process(e) => e.message_text(),
            RuntimeFault::NotDescendant => {
                "Caller is not a descendant of the active agent launch"@
            },
            RuntimeFault::CommandFailed(m) => "Command failed: "@ + m,
            RuntimeFault::TimedOut => "Command timed out after four seconds"@,
            RuntimeFault::Unreadable(m) => m,
        }
    }
}

/// `a` and `b` one after the other.
fn concat(a: &str, b: &str) -> (r: String)
    ensures
        r@ == a@ + b@,
{
    let mut r = a.to_owned();
    r.append(b);
    r
}

impl RuntimeError {
    /// What is wrong, in words.
    pub fn message(&self) -> (r: String)
        ensures
            r@ == self@.message(),
    {
        match self {
            RuntimeError::NoSocket => "HERDR_SOCKET_PATH is missing".to_owned(),
            RuntimeError::SocketUnavailable(m) => concat("Herdr socket unavailable: ", m.as_str()),
            RuntimeError::NotSocket => "Endpoint is not a Unix socket".to_owned(),
            RuntimeError::Replaced => "Herdr endpoint was replaced".to_owned(),
            RuntimeError::NotJson(m) => concat("Herdr did not return JSON: ", m.as_str()),
            RuntimeError::Api(m) => concat("Herdr API error: ", m.as_str()),
            RuntimeError::NoPane => {
                "Reporting requires the caller's own Herdr pane environment".to_owned()
            },
            RuntimeError::WrongAgent(a) => concat(
                concat("Runtime binding is unavailable for ", a.as_str()).as_str(),
                "; expected Devin CLI",
            ),
            RuntimeError::NoSession => {
                "Official native Devin session identity is unavailable".to_owned()
            },
            RuntimeError::Missing(k) => concat("Missing ", k.as_str()),
            RuntimeError::NoForeground => "Foreground process information unavailable".to_owned(),
            RuntimeError::Process(e) => e.message(),
            RuntimeError::NotDescendant => {
                "Caller is not a descendant of the active agent launch".to_owned()
            },
            RuntimeError::CommandFailed(m) => concat("Command failed: ", m.as_str()),
            RuntimeError::TimedOut => "Command timed out after four seconds".to_owned(),
            RuntimeError::Unreadable(m) => m.clone(),
        }
    }
}

// ---------------------------------------------------------------------------
// The time
// ---------------------------------------------------------------------------

/// `std::time::SystemTime`, a point in time.
#[verifier::external_type_specification]
#[verifier::external_body]
pub struct ExSystemTime(std::time::SystemTime);

/// `SystemTime::now`. Nothing is said of which time it is.
#[verifier::external_body]
fn clock() -> SystemTime {
    SystemTime::now()
}

/// How long after the start of 1970 a point in time is, where it is not before that.
pub uninterp spec fn epoch_duration(time: SystemTime) -> Option<Duration>;

/// The whole seconds of a length of time.
pub uninterp spec fn duration_seconds(duration: Duration) -> u64;

/// `SystemTime::duration_since` the start of 1970, where the time is not before that: it depends on the
/// point in time alone.
#[verifier::external_body]
fn since_epoch(time: SystemTime) -> (r: Option<Duration>)
    ensures
        r == epoch_duration(time),
{
    time.duration_since(SystemTime::UNIX_EPOCH).ok()
}

/// `Duration::as_secs`: the whole seconds, which depend on the length of time alone.
#[verifier::external_body]
fn whole_seconds(duration: Duration) -> (r: u64)
    ensures
        r == duration_seconds(duration),
{
    duration.as_secs()
}

/// Seconds as they are kept: as a number with a sign, which a time in the distant future turns
/// negative. A time that is not known is the start of 1970.
pub open spec fn kept_seconds(seconds: Option<u64>) -> int {
    match seconds {
        None => 0,
        Some(s) => if s <= i64::MAX {
            s as int
        } else {
            s - 0x1_0000_0000_0000_0000
        },
    }
}

/// Seconds as they are kept.
pub fn timestamp(seconds: Option<u64>) -> (r: i64)
    ensures
        r == kept_seconds(seconds),
{
    match seconds {
        None => 0,
        Some(s) => if s <= i64::MAX as u64 {
            s as i64
        } else {
            (s as i128 - 0x1_0000_0000_0000_0000i128) as i64
        },
    }
}

/// The whole seconds from the start of 1970 to a point in time that is not before that.
pub open spec fn epoch_seconds(time: SystemTime) -> Option<u64> {
    match epoch_duration(time) {
        Some(duration) => Some(duration_seconds(duration)),
        None => None,
    }
}

/// A point in time, in seconds since the start of 1970. One before that is the start of 1970.
pub fn timestamp_at(time: SystemTime) -> (r: i64)
    ensures
        r == kept_seconds(epoch_seconds(time)),
{
    let seconds: Option<u64> = match since_epoch(time) {
        Some(duration) => Some(whole_seconds(duration)),
        None => None,
    };
    timestamp(seconds)
}

/// The time, in seconds since the start of 1970: that of the point in time that the clock shows.
/// Nothing is said of which one that is.
pub fn now() -> (r: i64)
    ensures
        exists|time: SystemTime| r == kept_seconds(#[trigger] epoch_seconds(time)),
{
    let time: SystemTime = clock();
    let r: i64 = timestamp_at(time);
    assert(r == kept_seconds(epoch_seconds(time)));
    r
}

// ---------------------------------------------------------------------------
// Commands
// ---------------------------------------------------------------------------

/// What to do about a command that was started.
#[derive(Clone, Copy, Debug, PartialEq, Eq, Structural)]
pub enum Wait {
    /// It has ended: take what it said.
    Collect,
    /// It takes too long: stop it.
    Kill,
    /// Look again after a moment.
    Sleep,
}

/// How many milliseconds a command may take.
pub const COMMAND_MILLIS: u64 = 4000;

/// What is to be done about a command.
pub open spec fn wait_after(ended: bool, waited: u64) -> Wait {
    if ended {
        Wait::Collect
    } else if waited >= COMMAND_MILLIS {
        Wait::Kill
    } else {
        Wait::Sleep
    }
}

/// What to do about a command, where `ended` tells whether it has ended and `waited` how many
/// milliseconds it has been waited for. One that has ended is never too late.
pub fn wait_step(ended: bool, waited: u64) -> (r: Wait)
    ensures
        r == wait_after(ended, waited),
{
    if ended {
        Wait::Collect
    } else if waited >= COMMAND_MILLIS {
        Wait::Kill
    } else {
        Wait::Sleep
    }
}

/// What comes of a command that has ended.
pub open spec fn output_of(
    success: bool,
    stdout: Result<Seq<char>, Seq<char>>,
    stderr: Seq<char>,
) -> Result<Seq<char>, RuntimeFault> {
    if !success {
        Err(RuntimeFault::CommandFailed(text::trim(stderr)))
    } else {
        match stdout {
            Ok(said) => Ok(said),
            Err(m) => Err(RuntimeFault::Unreadable(m)),
        }
    }
}

/// What a command wrote, or the reason why that is no text.
pub open spec fn stdout_view(stdout: Result<String, String>) -> Result<Seq<char>, Seq<char>> {
    match stdout {
        Ok(said) => Ok(said@),
        Err(m) => Err(m@),
    }
}

/// What comes of a command that has ended: what it said, which `stdout` holds or the reason why it is
/// no text, or where it did not succeed what `stderr` says.
pub fn output(success: bool, stdout: Result<String, String>, stderr: &str) -> (r: Result<
    String,
    RuntimeError,
>)
    ensures
        match output_of(success, stdout_view(stdout), stderr@) {
            Ok(said) => r is Ok && r->Ok_0@ == said,
            Err(e) => r is Err && r->Err_0@ == e,
        },
{
    if !success {
        return Err(RuntimeError::CommandFailed(text_of(&trimmed(&chars_of(stderr)))));
    }
    match stdout {
        Ok(s) => Ok(s),
        Err(m) => Err(RuntimeError::Unreadable(m)),
    }
}

// ---------------------------------------------------------------------------
// The endpoint
// ---------------------------------------------------------------------------

/// What the system says of a socket: whether it is one, where it is, and what tells it from another
/// one at the same place.
pub struct SocketInfo {
    pub is_socket: bool,
    pub path: String,
    pub device: u64,
    pub inode: u64,
    pub changed: i64,
    pub changed_nanos: i64,
}

/// The text that tells one socket from another.
pub open spec fn endpoint_text(
    path: Seq<char>,
    device: u64,
    inode: u64,
    changed: i64,
    changed_nanos: i64,
) -> Seq<char> {
    path + seq![':'] + number::decimal(device as int) + seq![':'] + number::decimal(inode as int)
        + seq![':'] + number::decimal(changed as int) + seq![':'] + number::decimal(
        changed_nanos as int,
    )
}

impl SocketInfo {
    /// The text that tells this socket from another.
    pub open spec fn identity(self) -> Seq<char> {
        endpoint_text(self.path@, self.device, self.inode, self.changed, self.changed_nanos)
    }
}

/// The text that tells one socket from another, where `found` is what the system says of it or why it
/// says nothing.
pub fn endpoint_identity(found: &Result<SocketInfo, String>) -> (r: Result<String, RuntimeError>)
    ensures
        match found {
            Err(m) => r is Err && r->Err_0@ == RuntimeFault::SocketUnavailable(m@),
            Ok(s) => if s.is_socket {
                r is Ok && r->Ok_0@ == s.identity()
            } else {
                r is Err && r->Err_0@ == RuntimeFault::NotSocket
            },
        },
{
    match found {
        Err(m) => Err(RuntimeError::SocketUnavailable(m.clone())),
        Ok(s) => {
            if !s.is_socket {
                return Err(RuntimeError::NotSocket);
            }
            let mut r = s.path.clone();
            r.push(':');
            r.append(number::write_unsigned(s.device).as_str());
            r.push(':');
            r.append(number::write_unsigned(s.inode).as_str());
            r.push(':');
            r.append(number::write_signed(s.changed).as_str());
            r.push(':');
            r.append(number::write_signed(s.changed_nanos).as_str());
            assert(r@ =~= s.identity());
            Ok(r)
        },
    }
}

/// A running Herdr: the identity of its endpoint, its socket, and the program that speaks to it.
#[derive(Clone, Debug)]
pub struct Runtime {
    pub endpoint: String,
    pub socket: String,
    pub bin: String,
}

/// The socket to use: the one that was asked for, or else the one that is inherited.
pub fn choose_socket(socket: Option<String>, inherited: Option<String>) -> (r: Result<
    String,
    RuntimeError,
>)
    ensures
        match text::named_or(text::option_view(socket), text::option_view(inherited)) {
            Some(s) => r is Ok && r->Ok_0@ == s,
            None => r is Err && r->Err_0@ == RuntimeFault::NoSocket,
        },
{
    match (socket, inherited) {
        (Some(s), _) => Ok(s),
        (None, Some(s)) => Ok(s),
        (None, None) => Err(RuntimeError::NoSocket),
    }
}

/// Whether `args` asks for metadata to be written, which is answered by nothing but success.
pub open spec fn is_report(args: Seq<Seq<char>>) -> bool {
    args.len() >= 2 && args[0] == "pane"@ && args[1] == "report-metadata"@
}

/// The answer to metadata that was written.
pub open spec fn acknowledged() -> json::JsonTree {
    json::JsonTree::Object(seq![("type"@, json::JsonTree::Text("ok"@))])
}

/// What an answer of Herdr holds.
pub open spec fn answer(args: Seq<Seq<char>>, said: Seq<char>) -> Result<
    json::JsonTree,
    RuntimeFault,
> {
    if is_report(args) && text::trim(said).len() == 0 {
        Ok(acknowledged())
    } else {
        match json::json_parsed(said) {
            Err(m) => Err(RuntimeFault::NotJson(m)),
            Ok(v) => answer_in(v),
        }
    }
}

/// What an answer of Herdr that is JSON holds.
pub open spec fn answer_in(v: json::JsonTree) -> Result<json::JsonTree, RuntimeFault> {
    if v.has("error"@) {
        Err(RuntimeFault::Api(json::json_written(json::normal(v.member("error"@)))))
    } else {
        Ok(v.member("result"@))
    }
}

/// What the answer `v` holds.
pub fn result_of(v: &Json) -> (r: Result<Json, RuntimeError>)
    ensures
        match answer_in(v@) {
            Ok(t) => r is Ok && r->Ok_0@ == t,
            Err(e) => r is Err && r->Err_0@ == e,
        },
{
    match v.get("error") {
        Some(error) => Err(RuntimeError::Api(write_json(error))),
        None => match v.get("result") {
            Some(result) => Ok(result.copy()),
            None => Ok(Json::Null),
        },
    }
}

/// Whether an endpoint is still the one that it was.
pub open spec fn same_endpoint(before: Seq<char>, now: Seq<char>) -> bool {
    before == now
}

/// Whether a caller runs in a pane, where `herdr_env` is what its environment says of Herdr and `pane`
/// whether it names a pane.
pub open spec fn in_pane(herdr_env: Option<Seq<char>>, pane: bool) -> bool {
    herdr_env == Some("1"@) && pane
}

impl Runtime {
    /// The Herdr behind `socket`, whose endpoint is `endpoint`, and to which `bin` speaks, or else the
    /// usual program.
    pub fn new(socket: String, endpoint: String, bin: Option<String>) -> (r: Runtime)
        ensures
            r.socket@ == socket@,
            r.endpoint@ == endpoint@,
            r.bin@ == (match bin {
                Some(b) => b@,
                None => "herdr"@,
            }),
    {
        let bin = match bin {
            Some(b) => b,
            None => "herdr".to_owned(),
        };
        Runtime { endpoint, socket, bin }
    }

    /// Whether the endpoint is still the one that it was, where `endpoint` is what it is now.
    pub fn check_endpoint(&self, endpoint: &str) -> (r: Result<(), RuntimeError>)
        ensures
            if same_endpoint(self.endpoint@, endpoint@) {
                r is Ok
            } else {
                r is Err && r->Err_0@ == RuntimeFault::Replaced
            },
    {
        if same_text(self.endpoint.as_str(), endpoint) {
            Ok(())
        } else {
            Err(RuntimeError::Replaced)
        }
    }

    /// What Herdr answers, where `args` is what it was asked and `said` what the program that speaks
    /// to it said.
    pub fn call(args: &Vec<String>, said: &str) -> (r: Result<Json, RuntimeError>)
        ensures
            match answer(text::views(args@), said@) {
                Ok(t) => r is Ok && r->Ok_0@ == t,
                Err(e) => r is Err && r->Err_0@ == e,
            },
    {
        let report = args.len() >= 2 && same_text(args[0].as_str(), "pane") && same_text(
            args[1].as_str(),
            "report-metadata",
        );
        if report && trimmed(&chars_of(said)).len() == 0 {
            let mut members: Vec<(String, Json)> = Vec::new();
            members.push(("type".to_owned(), json_text("ok")));
            assert(json::member_trees(members@) =~= acknowledged()->Object_0);
            return Ok(json_object(members));
        }
        match parse_json(said) {
            Err(m) => Err(RuntimeError::NotJson(m)),
            Ok(v) => result_of(&v),
        }
    }

    /// Whether the caller runs in a pane, where `herdr_env` is what its environment says of Herdr and
    /// `pane` whether it names a pane.
    pub fn check_caller(herdr_env: &Option<String>, pane: bool) -> (r: Result<(), RuntimeError>)
        ensures
            if in_pane(text::option_view(*herdr_env), pane) {
                r is Ok
            } else {
                r is Err && r->Err_0@ == RuntimeFault::NoPane
            },
    {
        let inside = match herdr_env {
            Some(v) => same_text(v.as_str(), "1"),
            None => false,
        };
        if inside && pane {
            Ok(())
        } else {
            Err(RuntimeError::NoPane)
        }
    }

    /// The pane of the caller in what Herdr answers when asked for it.
    pub fn current(result: &Json) -> (r: Json)
        ensures
            r@ == result@.member("pane"@),
    {
        match result.get("pane") {
            Some(pane) => pane.copy(),
            None => Json::Null,
        }
    }
}

// ---------------------------------------------------------------------------
// The identity of an agent
// ---------------------------------------------------------------------------

/// The text of a member, if there is one and it is not empty.
pub open spec fn some_text(v: json::JsonTree, key: Seq<char>) -> Option<Seq<char>> {
    match v.member(key).text() {
        Some(t) if t.len() > 0 => Some(t),
        _ => None,
    }
}

/// The text of the member called `key`.
pub fn string(v: &Json, key: &str) -> (r: Result<String, RuntimeError>)
    ensures
        match some_text(v@, key@) {
            Some(t) => r is Ok && r->Ok_0@ == t,
            None => r is Err && r->Err_0@ == RuntimeFault::Missing(key@),
        },
{
    match v.text_of(key) {
        Some(t) => if chars_of(t.as_str()).len() > 0 {
            Ok(t.clone())
        } else {
            Err(RuntimeError::Missing(key.to_owned()))
        },
        None => Err(RuntimeError::Missing(key.to_owned())),
    }
}

/// Whether the member called `key` is the text `wanted`.
fn has_text(v: &Json, key: &str, wanted: &str) -> (r: bool)
    ensures
        r == (v@.member(key@) == json::JsonTree::Text(wanted@)),
{
    match v.text_of(key) {
        Some(t) => same_text(t.as_str(), wanted),
        None => false,
    }
}

/// Whether a session is one of the agent's own, which it reports itself.
pub open spec fn official(session: json::JsonTree) -> bool {
    session.member("agent"@) == json::JsonTree::Text("devin"@) && session.member("kind"@)
        == json::JsonTree::Text("id"@) && session.member("source"@) == json::JsonTree::Text(
        "herdr:devin"@,
    )
}

/// The name of a pane that runs the agent, or why it cannot be used.
pub open spec fn pane_name(pane: json::JsonTree) -> Result<Seq<char>, RuntimeFault> {
    match some_text(pane, "agent"@) {
        None => Err(RuntimeFault::Missing("agent"@)),
        Some(agent) => if agent != "devin"@ {
            Err(RuntimeFault::WrongAgent(agent))
        } else if !official(pane.member("agent_session"@)) {
            Err(RuntimeFault::NoSession)
        } else {
            match some_text(pane, "pane_id"@) {
                None => Err(RuntimeFault::Missing("pane_id"@)),
                Some(id) => Ok(id),
            }
        },
    }
}

/// The name of a pane that runs the agent, whose processes are then to be asked for.
pub fn pane_of_agent(pane: &Json) -> (r: Result<String, RuntimeError>)
    ensures
        match pane_name(pane@) {
            Ok(id) => r is Ok && r->Ok_0@ == id,
            Err(e) => r is Err && r->Err_0@ == e,
        },
{
    let agent: String = match string(pane, "agent") {
        Ok(agent) => agent,
        Err(e) => return Err(e),
    };
    if !same_text(agent.as_str(), AGENT) {
        return Err(RuntimeError::WrongAgent(agent));
    }
    let session_ok = match pane.get("agent_session") {
        Some(s) => has_text(s, "agent", AGENT) && has_text(s, "kind", "id") && has_text(
            s,
            "source",
            "herdr:devin",
        ),
        None => false,
    };
    if !session_ok {
        return Err(RuntimeError::NoSession);
    }
    string(pane, "pane_id")
}

/// The last of the parts of a path that names something: not empty, and not the place itself.
pub open spec fn last_name(parts: Seq<Seq<char>>) -> Option<Seq<char>>
    decreases parts.len(),
{
    if parts.len() == 0 {
        None
    } else if parts.last().len() == 0 || parts.last() == seq!['.'] {
        last_name(parts.drop_last())
    } else {
        Some(parts.last())
    }
}

/// Whether the file that `path` names is called as the agent is.
pub open spec fn names_agent(path: Seq<char>) -> bool {
    last_name(text::split(path, '/')) == Some("devin"@)
}

/// Whether the file that `path` names is called as the agent is.
fn is_agent_path(path: &str) -> (r: bool)
    ensures
        r == names_agent(path@),
{
    let parts: Vec<Vec<char>> = split_at_each(&chars_of(path), '/');
    let ghost all = text::split(path@, '/');
    let mut n: usize = parts.len();
    assert(all.take(n as int) =~= all);
    while n > 0
        invariant
            n <= parts@.len() == all.len(),
            all == text::char_views(parts@),
            all == text::split(path@, '/'),
            last_name(all) == last_name(all.take(n as int)),
        decreases n,
    {
        let part: &Vec<char> = &parts[n - 1];
        proof {
            assert(all.take(n as int).last() == part@);
            assert(all.take(n as int).drop_last() =~= all.take(n - 1));
        }
        if part.len() == 0 || (part.len() == 1 && part[0] == '.') {
            proof {
                if part@.len() == 1 {
                    assert(part@ =~= seq!['.']);
                }
            }
            n = n - 1;
        } else {
            proof {
                assert(part@ != seq!['.']);
            }
            return same_text(text_of(part).as_str(), AGENT);
        }
    }
    false
}

/// A text that a member may be, or nothing.
pub open spec fn text_or_empty(v: json::JsonTree, key: Seq<char>) -> Seq<char> {
    match v.member(key).text() {
        Some(t) => t,
        None => Seq::empty(),
    }
}

/// Whether a process is called as the agent is, by its name or by how it was called.
pub open spec fn is_candidate(p: json::JsonTree) -> bool {
    names_agent(text_or_empty(p, "name"@)) || names_agent(text_or_empty(p, "argv0"@))
}

/// The number of a process that is called as the agent is.
pub open spec fn candidate(p: json::JsonTree) -> Option<u32> {
    if is_candidate(p) && p.member("pid"@).unsigned() is Some {
        Some((p.member("pid"@).unsigned()->0 % 0x1_0000_0000) as u32)
    } else {
        None
    }
}

/// Numbers in order, with one more of them, unless it is there.
pub open spec fn with_number(s: Seq<u32>, n: u32) -> Seq<u32>
    decreases s.len(),
{
    if s.len() == 0 {
        seq![n]
    } else if s.last() == n {
        s
    } else if s.last() < n {
        s.push(n)
    } else {
        with_number(s.drop_last(), n).push(s.last())
    }
}

/// The numbers of the processes that are called as the agent is, in order, each once.
pub open spec fn candidates(processes: Seq<json::JsonTree>) -> Seq<u32>
    decreases processes.len(),
{
    if processes.len() == 0 {
        Seq::empty()
    } else {
        let before = candidates(processes.drop_last());
        match candidate(processes.last()) {
            Some(n) => with_number(before, n),
            None => before,
        }
    }
}

/// Puts `n` among numbers that are in order, unless it is there.
fn add_number(s: &mut Vec<u32>, n: u32)
    ensures
        final(s)@ == with_number(old(s)@, n),
    decreases old(s)@.len(),
{
    let len: usize = s.len();
    if len == 0 {
        s.push(n);
        assert(s@ =~= seq![n]);
        return;
    }
    let last: u32 = s[len - 1];
    if last == n {
        return;
    }
    if last < n {
        s.push(n);
        return;
    }
    let ghost before = s@;
    let popped: Option<u32> = s.pop();
    assert(s@ =~= before.drop_last());
    add_number(s, n);
    s.push(last);
}

/// Whether a process is called as the agent is, by its name or by how it was called.
fn is_agent_process(p: &Json) -> (r: bool)
    ensures
        r == is_candidate(p@),
{
    let by_name = match p.text_of("name") {
        Some(t) => is_agent_path(t.as_str()),
        None => is_agent_path(""),
    };
    let by_call = match p.text_of("argv0") {
        Some(t) => is_agent_path(t.as_str()),
        None => is_agent_path(""),
    };
    proof {
        reveal_strlit("");
        assert(""@ =~= Seq::<char>::empty());
    }
    by_name || by_call
}

/// The numbers of the processes that are called as the agent is, in order, each once.
fn candidate_numbers(processes: &Vec<Json>) -> (r: Vec<u32>)
    ensures
        r@ == candidates(json::trees(processes@)),
{
    let mut found: Vec<u32> = Vec::new();
    let n: usize = processes.len();
    let ghost all = json::trees(processes@);
    assert(all.take(0) =~= Seq::empty());
    for i in 0..n
        invariant
            n == processes@.len(),
            all == json::trees(processes@),
            found@ == candidates(all.take(i as int)),
    {
        proof {
            assert(all.take(i + 1).drop_last() =~= all.take(i as int));
            assert(all.take(i + 1).last() == processes@[i as int]@);
        }
        let p = &processes[i];
        if is_agent_process(p) {
            let number: Option<u64> = match p.get("pid") {
                Some(v) => v.unsigned(),
                None => None,
            };
            if let Some(pid) = number {
                add_number(&mut found, (pid % 0x1_0000_0000) as u32);
            }
        }
    }
    assert(all.take(n as int) =~= all);
    found
}

/// The processes in the foreground of a pane, if Herdr tells them.
pub open spec fn foreground(info: json::JsonTree) -> Option<Seq<json::JsonTree>> {
    info.member("process_info"@).member("foreground_processes"@).list()
}

/// Who runs in a pane of the endpoint `endpoint`, where `info` is what Herdr says of the processes of
/// the pane and `table` what the system says of all. Where a caller is given, it must have been
/// started by the agent.
pub open spec fn identity_of(
    endpoint: Seq<char>,
    pane: json::JsonTree,
    info: json::JsonTree,
    table: Map<u32, Process>,
    caller: Option<u32>,
) -> Result<state::IdentityView, RuntimeFault> {
    match pane_name(pane) {
        Err(e) => Err(e),
        Ok(_) => match foreground(info) {
            None => Err(RuntimeFault::NoForeground),
            Some(processes) => {
                let roots = process::roots(table, candidates(processes));
                if roots.len() == 0 {
                    Err(RuntimeFault::Process(ProcessError::NotRunning))
                } else if roots.len() > 1 {
                    Err(RuntimeFault::Process(ProcessError::Ambiguous))
                } else if caller is Some && !process::ancestor(table, roots[0], caller->0) {
                    Err(RuntimeFault::NotDescendant)
                } else {
                    match (
                        some_text(pane, "terminal_id"@),
                        some_text(pane.member("agent_session"@), "value"@),
                    ) {
                        (None, _) => Err(RuntimeFault::Missing("terminal_id"@)),
                        (Some(_), None) => Err(RuntimeFault::Missing("value"@)),
                        (Some(terminal), Some(session)) => Ok(
                            state::IdentityView {
                                endpoint,
                                terminal,
                                session,
                                agent: "devin"@,
                                pid: roots[0],
                                started: table[roots[0]].started@,
                            },
                        ),
                    }
                }
            },
        },
    }
}

/// Whether the agent `id` still runs, where `fresh` is who runs in its pane now, if that is known.
pub open spec fn still_runs(
    id: state::IdentityView,
    fresh: Option<state::IdentityView>,
) -> bool {
    fresh == Some(id)
}

/// Who runs in a pane, if that is known.
pub open spec fn identity_view(id: Option<Identity>) -> Option<state::IdentityView> {
    match id {
        Some(id) => Some(id@),
        None => None,
    }
}

impl Runtime {
    /// Who runs in a pane, where `info` is what Herdr says of the processes of the pane and `table`
    /// what the system says of all. Where a caller is given, it must have been started by the agent.
    pub fn identity(
        &self,
        pane: &Json,
        info: &Json,
        table: &HashMap<u32, Process>,
        caller: Option<u32>,
    ) -> (r: Result<Identity, RuntimeError>)
        ensures
            match identity_of(self.endpoint@, pane@, info@, table@, caller) {
                Ok(id) => r is Ok && r->Ok_0@ == id,
                Err(e) => r is Err && r->Err_0@ == e,
            },
    {
        broadcast use vstd::std_specs::hash::group_hash_axioms;

        match pane_of_agent(pane) {
            Ok(_) => {},
            Err(e) => return Err(e),
        }
        let null = Json::Null;
        let about: &Json = match info.get("process_info") {
            Some(about) => about,
            None => &null,
        };
        let listed: &Json = match about.get("foreground_processes") {
            Some(listed) => listed,
            None => &null,
        };
        let ids: Vec<u32> = match listed.list() {
            Some(processes) => candidate_numbers(processes),
            None => return Err(RuntimeError::NoForeground),
        };
        let pid: u32 = match launch_process(table, ids.as_slice()) {
            Ok(pid) => pid,
            Err(e) => return Err(RuntimeError::Process(e)),
        };
        if let Some(caller) = caller {
            if !is_ancestor(table, pid, caller) {
                return Err(RuntimeError::NotDescendant);
            }
        }
        let terminal: String = match string(pane, "terminal_id") {
            Ok(terminal) => terminal,
            Err(e) => return Err(e),
        };
        let session: &Json = match pane.get("agent_session") {
            Some(session) => session,
            None => &null,
        };
        let session: String = match string(session, "value") {
            Ok(session) => session,
            Err(e) => return Err(e),
        };
        let started: String = match table.get(&pid) {
            Some(p) => p.started.clone(),
            None => "".to_owned(),
        };
        Ok(
            Identity {
                endpoint: self.endpoint.clone(),
                terminal,
                session,
                agent: AGENT.to_owned(),
                pid,
                started,
            },
        )
    }

    /// Whether the agent `id` still runs, where `fresh` is who runs in its pane now, if that is known.
    pub fn live(id: &Identity, fresh: &Option<Identity>) -> (r: bool)
        ensures
            r == still_runs(id@, identity_view(*fresh)),
    {
        match fresh {
            Some(fresh) => same_identity(fresh, id),
            None => false,
        }
    }
}

} // verus!
