//! What a run asks of the outside world, and what it hears back.

use vstd::prelude::*;
use vstd::utf8::{decode_utf8, valid_utf8};
use crate::command::{database_view, Command, CommandView};
use crate::fault::{Fault, FaultView};
use crate::store::{
    statements, DatabaseConfig, DatabaseConfigView, DeploymentContext, DeploymentContextView,
    Statement, StatementView,
};
use crate::text::texts;

verus! {

/// A file that comes with the worker.
#[derive(Debug, Clone, Copy, PartialEq, Eq, Structural)]
pub enum Template {
    LaravelDockerfile,
    LaravelEntrypoint,
}

/// An HTTP method.
#[derive(Debug, Clone, Copy, PartialEq, Eq, Structural)]
pub enum Method {
    Get,
    Patch,
    Put,
}

/// One piece of outside work.
#[derive(Debug)]
pub enum Effect {
    /// Find the project of a deployment.
    FindContext(i32),
    /// Find the database of a project.
    FindDatabase(i32),
    /// Run a statement by itself.
    Execute(Statement),
    /// Run statements in one transaction.
    Commit(Vec<Statement>),
    /// Look whether a path exists.
    PathExists(String),
    /// Remove a directory and all that is in it.
    RemoveTree(String),
    /// Create a directory, and those above it.
    CreateDir(String),
    /// Write a template to a path.
    WriteTemplate(String, Template),
    /// Run a command, copying each line that it prints to the log of this deployment.
    RunLogged(i32, Command),
    /// Run a command and keep what it prints.
    RunCaptured(Command),
    /// Run a command and look only at how it ended.
    RunWatched(Command),
    /// Look whether a local port is free.
    ProbePort(u16),
    /// Wait for some seconds.
    Sleep(u64),
    /// Send an HTTP request, with a JSON body if there is one.
    Request { method: Method, url: String, body: Option<String> },
    /// Read the body of the last HTTP response.
    ReadBody,
}

pub enum EffectView {
    FindContext(i32),
    FindDatabase(i32),
    Execute(StatementView),
    Commit(Seq<StatementView>),
    PathExists(Seq<char>),
    RemoveTree(Seq<char>),
    CreateDir(Seq<char>),
    WriteTemplate(Seq<char>, Template),
    RunLogged(i32, CommandView),
    RunCaptured(CommandView),
    RunWatched(CommandView),
    ProbePort(u16),
    Sleep(u64),
    Request { method: Method, url: Seq<char>, body: Option<Seq<char>> },
    ReadBody,
}

impl View for Effect {
    type V = EffectView;

    open spec fn view(&self) -> EffectView {
        match self {
            Effect::FindContext(id) => EffectView::FindContext(*id),
            Effect::FindDatabase(id) => EffectView::FindDatabase(*id),
            Effect::Execute(statement) => EffectView::Execute(statement@),
            Effect::Commit(record) => EffectView::Commit(statements(record@)),
            Effect::PathExists(path) => EffectView::PathExists(path@),
            Effect::RemoveTree(path) => EffectView::RemoveTree(path@),
            Effect::CreateDir(path) => EffectView::CreateDir(path@),
            Effect::WriteTemplate(path, template) => EffectView::WriteTemplate(path@, *template),
            Effect::RunLogged(id, command) => EffectView::RunLogged(*id, command@),
            Effect::RunCaptured(command) => EffectView::RunCaptured(command@),
            Effect::RunWatched(command) => EffectView::RunWatched(command@),
            Effect::ProbePort(port) => EffectView::ProbePort(*port),
            Effect::Sleep(seconds) => EffectView::Sleep(*seconds),
            Effect::Request { method, url, body } => EffectView::Request {
                method: *method,
                url: url@,
                body: match body {
                    Some(text) => Some(text@),
                    None => None,
                },
            },
            Effect::ReadBody => EffectView::ReadBody,
        }
    }
}

/// What a list of effects asks for.
pub open spec fn effects(list: Seq<Effect>) -> Seq<EffectView> {
    list.map_values(|e: Effect| e@)
}

/// How a piece of outside work went.
#[derive(Debug)]
pub enum Reply {
    /// It is done, and there is nothing to report.
    Ready,
    Context(DeploymentContext),
    Database(Option<DatabaseConfig>),
    Exists(bool),
    /// A logged command ended; these lines it printed to its standard output.
    Streamed { success: bool, status: String, lines: Vec<String> },
    /// A logged command could not be started.
    NotStarted(Fault),
    /// A captured command ended; this it printed.
    Captured { success: bool, stdout: String, stderr: String },
    /// A watched command ended.
    Watched(bool),
    /// Whether the probed port is free.
    Port(bool),
    /// An HTTP response with this status.
    Response(u16),
    /// The body of the last HTTP response.
    Body(String),
    /// It could not be done.
    Failed(Fault),
}

pub enum ReplyView {
    Ready,
    Context(DeploymentContextView),
    Database(Option<DatabaseConfigView>),
    Exists(bool),
    Streamed { success: bool, status: Seq<char>, lines: Seq<Seq<char>> },
    NotStarted(FaultView),
    Captured { success: bool, stdout: Seq<char>, stderr: Seq<char> },
    Watched(bool),
    Port(bool),
    Response(u16),
    Body(Seq<char>),
    Failed(FaultView),
}

impl View for Reply {
    type V = ReplyView;

    open spec fn view(&self) -> ReplyView {
        match self {
            Reply::Ready => ReplyView::Ready,
            Reply::Context(context) => ReplyView::Context(context@),
            Reply::Database(database) => ReplyView::Database(database_view(*database)),
            Reply::Exists(exists) => ReplyView::Exists(*exists),
            Reply::Streamed { success, status, lines } => ReplyView::Streamed {
                success: *success,
                status: status@,
                lines: texts(lines@),
            },
            Reply::NotStarted(fault) => ReplyView::NotStarted(fault@),
            Reply::Captured { success, stdout, stderr } => ReplyView::Captured {
                success: *success,
                stdout: stdout@,
                stderr: stderr@,
            },
            Reply::Watched(success) => ReplyView::Watched(*success),
            Reply::Port(free) => ReplyView::Port(*free),
            Reply::Response(status) => ReplyView::Response(*status),
            Reply::Body(text) => ReplyView::Body(text@),
            Reply::Failed(fault) => ReplyView::Failed(fault@),
        }
    }
}

/// What `String::from_utf8_lossy` makes of a sequence of bytes.
pub uninterp spec fn utf8_lossy(bytes: Seq<u8>) -> Seq<char>;

/// `String::from_utf8_lossy` decodes bytes that are valid UTF-8; in others it puts a
/// replacement character for what it cannot decode. How many it puts is left unsaid.
#[verifier::external_body]
fn text_of(bytes: &Vec<u8>) -> (text: String)
    ensures
        text@ == utf8_lossy(bytes@),
        valid_utf8(bytes@) ==> text@ == decode_utf8(bytes@),
{
    String::from_utf8_lossy(bytes).into_owned()
}

impl Reply {
    /// The reply of a captured command, from the bytes that it printed.
    pub fn captured(success: bool, stdout: &Vec<u8>, stderr: &Vec<u8>) -> (reply: Reply)
        ensures
            reply@ == (ReplyView::Captured {
                success,
                stdout: utf8_lossy(stdout@),
                stderr: utf8_lossy(stderr@),
            }),
            valid_utf8(stdout@) ==> reply@->stdout == decode_utf8(stdout@),
            valid_utf8(stderr@) ==> reply@->stderr == decode_utf8(stderr@),
    {
        Reply::Captured { success, stdout: text_of(stdout), stderr: text_of(stderr) }
    }
}

} // verus!
