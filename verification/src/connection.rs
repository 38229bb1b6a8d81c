//! The state of one connection and the rules by which it answers.
//!
//! A connection never reads, writes or calls the engine itself. It is told
//! what happened, says what to send, and asks for the next piece of outside
//! work: the next message, the parsed text, or an answer of the engine.

pub mod model;
pub mod reply;

use vstd::prelude::*;
use vstd::string::StringExecFns;
use crate::connection::model::{follows, fresh, handshake, ready, Event, Phase, ProtocolState, Reply, Waiting};
use crate::connection::reply::{
    command_tag, is_error, is_fatal, kinds, make_command_tag, CommandKind, Request, Response, Step,
};
use crate::names::NameTable;
use crate::protocol::backend::{
    BackendMessage, CommandComplete, ErrorResponse, FieldDescription, ParameterStatus,
    RowDescription, Severity, SqlState,
};
use crate::protocol::client::{Bind, BindFormat, ClientMessage, Describe, Execute, Parse};
use crate::protocol::codec::{ProtocolError, ProtocolFault};
use crate::protocol::types::FormatCode;
use crate::protocol_ext::{ColumnValue, DataRowBatch};

verus! {

/// A parsed statement, opaque to the connection, and the kind of command
/// that it is.
pub struct Statement<S> {
    pub ast: S,
    pub kind: CommandKind,
}

/// What is kept under the name of a prepared statement: the statement, or
/// none where the query text was empty, and the columns of its result.
pub struct PreparedStatement<S> {
    pub statement: Option<Statement<S>>,
    pub fields: Vec<FieldDescription>,
}

/// What is kept under the name of a portal: the engine's handle that gives
/// the rows, or none for the empty statement, the kind of the command, and
/// the description of the rows in the format chosen at bind time.
pub struct BoundPortal<P> {
    pub portal: Option<P>,
    pub kind: CommandKind,
    pub row_desc: RowDescription,
}

/// The outside work that a connection waits for, with what it needs to go on
/// afterwards.
#[allow(inconsistent_fields)]
pub enum Pending<S> {
    Nothing,
    QueryParsed,
    QueryPrepared { statement: Statement<S> },
    QueryPortal { statement: Statement<S>, row_desc: RowDescription },
    QueryRows { kind: CommandKind },
    ParseParsed { name: String },
    ParsePrepared { name: String, statement: Statement<S> },
    BindPortal { portal: String, statement: String, format: FormatCode },
    ExecuteRows { portal: String, kind: CommandKind, row_desc: RowDescription },
}

impl<S> Pending<S> {
    pub open spec fn waiting(self) -> Waiting {
        match self {
            Pending::Nothing => Waiting::Message,
            Pending::QueryParsed => Waiting::QueryParsed,
            Pending::QueryPrepared { .. } => Waiting::QueryPrepared,
            Pending::QueryPortal { .. } => Waiting::QueryPortal,
            Pending::QueryRows { .. } => Waiting::QueryRows,
            Pending::ParseParsed { .. } => Waiting::ParseParsed,
            Pending::ParsePrepared { .. } => Waiting::ParsePrepared,
            Pending::BindPortal { .. } => Waiting::BindPortal,
            Pending::ExecuteRows { .. } => Waiting::ExecuteRows,
        }
    }
}

/// Whether the columns can be described on the wire: there are at most 32767
/// and each has a type of known size.
pub open spec fn describable(fields: Seq<FieldDescription>) -> bool {
    &&& fields.len() <= 32767
    &&& forall|k: int| 0 <= k < fields.len() ==> (#[trigger] fields[k]).data_type.is_known()
}

/// The kind of event that a message of the client is.
pub open spec fn message_event(message: ClientMessage) -> Event {
    match message {
        ClientMessage::Startup(_) => Event::Startup,
        ClientMessage::Parse(_) => Event::Parse,
        ClientMessage::Describe(_) => Event::Describe,
        ClientMessage::Bind(_) => Event::Bind,
        ClientMessage::Sync => Event::Sync,
        ClientMessage::Execute(_) => Event::Execute,
        ClientMessage::Query(_) => Event::Query,
        ClientMessage::Terminate => Event::Terminate,
    }
}

/// The kind of event that an outcome of the parser is.
pub open spec fn parsed_event<S>(outcome: Result<Vec<Statement<S>>, String>) -> Event {
    match outcome {
        Err(_) => Event::ParseFailed,
        Ok(statements) => if statements@.len() == 0 {
            Event::ParsedNone
        } else if statements@.len() == 1 {
            Event::ParsedOne
        } else {
            Event::ParsedMany
        },
    }
}

/// Whether the driver is asked for what the connection waits for.
pub open spec fn awaits<P>(next: Request<P>, state: ProtocolState) -> bool {
    match next {
        Request::Receive => state.waiting is Message && !(state.phase is Closed),
        Request::ParseSql(_) => state.waiting is QueryParsed || state.waiting is ParseParsed,
        Request::Prepare => state.waiting is QueryPrepared || state.waiting is ParsePrepared,
        Request::CreatePortal => state.waiting is QueryPortal || state.waiting is BindPortal,
        Request::Fetch(_, _) => state.waiting is QueryRows || state.waiting is ExecuteRows,
        Request::Close => state.phase is Closed && state.waiting is Message,
    }
}

/// Whether the reply reports the status of the named parameter.
pub open spec fn is_status(reply: Response, name: Seq<char>, value: Seq<char>) -> bool {
    reply matches Response::ParameterStatus(status) && status.name_view() == name
        && status.value_view() == value
}

/// Copies the descriptions of columns.
pub fn clone_fields(fields: &Vec<FieldDescription>) -> (copy: Vec<FieldDescription>)
    ensures
        copy@ == fields@,
{
    let mut copy: Vec<FieldDescription> = Vec::new();
    let mut i: usize = 0;
    while i < fields.len()
        invariant
            i <= fields@.len(),
            copy@ == fields@.take(i as int),
        decreases fields@.len() - i,
    {
        let field = &fields[i];
        copy.push(FieldDescription { name: field.name.clone(), data_type: field.data_type });
        assert(copy@ =~= fields@.take(i + 1));
        i += 1;
    }
    assert(fields@.take(i as int) =~= fields@);
    copy
}

/// The status of a run-time parameter.
fn status(name: &str, value: &str) -> (status: ParameterStatus)
    ensures
        status.name_view() == name@,
        status.value_view() == value@,
{
    ParameterStatus::new(String::from_str(name), String::from_str(value))
}

/// An error that leaves the connection open.
fn error_of(state: SqlState, message: String) -> (reply: Response)
    ensures
        is_error(reply, state.0@, message@),
        reply.fits(),
{
    Response::ErrorResponse(ErrorResponse { sql_state: state, severity: Severity::error(), message })
}

/// The error that reports that no entry has the given name.
fn unknown_name(state: SqlState, what: &str, name: &str) -> (reply: Response)
    ensures
        is_error(reply, state.0@, what@ + name@),
        reply.fits(),
{
    let mut message = String::from_str(what);
    message.append(name);
    error_of(state, message)
}

/// The whole state of one connection: how far it has come, whether it passes
/// messages over, what it waits for, and the prepared statements and the
/// portals that it keeps under their names.
pub struct Connection<S, P> {
    phase: Phase,
    skipping: bool,
    pending: Pending<S>,
    statements: NameTable<PreparedStatement<S>>,
    portals: NameTable<BoundPortal<P>>,
}

impl<S, P> Connection<S, P> {
    /// How far the connection has come.
    pub closed spec fn phase_of(&self) -> Phase {
        self.phase
    }

    /// Whether messages are passed over until the next `Sync`.
    pub closed spec fn passing_over(&self) -> bool {
        self.skipping
    }

    /// The state as far as the rules go.
    pub open spec fn state(&self) -> ProtocolState {
        ProtocolState {
            phase: self.phase_of(),
            skipping: self.passing_over(),
            waiting: self.pending().waiting(),
        }
    }

    /// What the connection waits for, with what it keeps for afterwards.
    pub closed spec fn pending(&self) -> Pending<S> {
        self.pending
    }

    /// The prepared statements, by name.
    pub closed spec fn statements(&self) -> Map<Seq<char>, PreparedStatement<S>> {
        self.statements@
    }

    /// The portals, by name.
    pub closed spec fn portals(&self) -> Map<Seq<char>, BoundPortal<P>> {
        self.portals@
    }

    /// What holds of every connection: the result columns of every statement
    /// and of every portal can be described on the wire; outside work is
    /// awaited only after the handshake and while no message is passed
    /// over; and a bind that waits for its portal names a statement that is
    /// there.
    pub closed spec fn wf(&self) -> bool {
        &&& self.statements.wf()
        &&& self.portals.wf()
        &&& forall|name: Seq<char>| #[trigger]
            self.statements@.contains_key(name) ==> describable(self.statements@[name].fields@)
        &&& forall|name: Seq<char>| #[trigger]
            self.portals@.contains_key(name) ==> self.portals@[name].row_desc.fits()
        &&& !(self.pending is Nothing) ==> self.phase is Ready && !self.skipping
        &&& !(self.phase is Ready) ==> !self.skipping
        &&& self.pending matches Pending::QueryPortal { row_desc, .. } ==> row_desc.fits()
        &&& self.pending matches Pending::ExecuteRows { row_desc, .. } ==> row_desc.fits()
        &&& self.pending matches Pending::BindPortal { statement, .. }
            ==> self.statements@.contains_key(statement@) && describable(
            self.statements@[statement@].fields@,
        )
    }

    /// What every step of a connection ensures: the connection stays well
    /// formed, the step follows the rules, the driver is asked for what the
    /// connection now waits for, and every reply can be written.
    pub open spec fn common(pre: Self, event: Event, post: Self, step: Step<P>) -> bool {
        &&& post.wf()
        &&& follows(pre.state(), event, post.state(), kinds(step.replies@))
        &&& awaits(step.next, post.state())
        &&& forall|i: int| 0 <= i < step.replies@.len() ==> (#[trigger] step.replies@[i]).fits()
    }

    /// Whether statements and portals are the same in both.
    pub open spec fn same_tables(pre: Self, post: Self) -> bool {
        post.statements() == pre.statements() && post.portals() == pre.portals()
    }

    /// A connection before the handshake, with no statement and no portal.
    pub fn new() -> (connection: Self)
        ensures
            connection.wf(),
            connection.state() == fresh(),
            connection.pending() is Nothing,
            connection.statements() == Map::<Seq<char>, PreparedStatement<S>>::empty(),
            connection.portals() == Map::<Seq<char>, BoundPortal<P>>::empty(),
    {
        Connection {
            phase: Phase::Startup,
            skipping: false,
            pending: Pending::Nothing,
            statements: NameTable::new(),
            portals: NameTable::new(),
        }
    }

    /// How far the connection has come.
    pub fn phase(&self) -> (phase: Phase)
        ensures
            phase == self.state().phase,
    {
        self.phase
    }

    /// Whether the connection passes messages over until the next `Sync`.
    pub fn is_skipping(&self) -> (skipping: bool)
        ensures
            skipping == self.state().skipping,
    {
        self.skipping
    }

    /// What the connection waits for.
    pub fn waiting(&self) -> (waiting: Waiting)
        ensures
            waiting == self.state().waiting,
    {
        match &self.pending {
            Pending::Nothing => Waiting::Message,
            Pending::QueryParsed => Waiting::QueryParsed,
            Pending::QueryPrepared { .. } => Waiting::QueryPrepared,
            Pending::QueryPortal { .. } => Waiting::QueryPortal,
            Pending::QueryRows { .. } => Waiting::QueryRows,
            Pending::ParseParsed { .. } => Waiting::ParseParsed,
            Pending::ParsePrepared { .. } => Waiting::ParsePrepared,
            Pending::BindPortal { .. } => Waiting::BindPortal,
            Pending::ExecuteRows { .. } => Waiting::ExecuteRows,
        }
    }

    /// The statement that the engine is asked about: the one that waits to be
    /// prepared or to get its portal.
    pub open spec fn current_statement(&self) -> Option<S> {
        match self.pending() {
            Pending::QueryPrepared { statement } => Some(statement.ast),
            Pending::QueryPortal { statement, .. } => Some(statement.ast),
            Pending::ParsePrepared { statement, .. } => Some(statement.ast),
            Pending::BindPortal { statement, .. } => {
                if self.statements().contains_key(statement@) {
                    match self.statements()[statement@].statement {
                        Some(found) => Some(found.ast),
                        None => None,
                    }
                } else {
                    None
                }
            },
            _ => None,
        }
    }

    /// The statement that the engine is asked about, if the connection waits
    /// for the engine.
    pub fn statement(&self) -> (statement: Option<&S>)
        requires
            self.wf(),
        ensures
            match statement {
                Some(ast) => self.current_statement() == Some(*ast),
                None => self.current_statement() is None,
            },
    {
        match &self.pending {
            Pending::QueryPrepared { statement } => Some(&statement.ast),
            Pending::QueryPortal { statement, .. } => Some(&statement.ast),
            Pending::ParsePrepared { statement, .. } => Some(&statement.ast),
            Pending::BindPortal { statement, .. } => {
                match self.statements.get(statement.as_str()) {
                    Some(prepared) => match &prepared.statement {
                        Some(found) => Some(&found.ast),
                        None => None,
                    },
                    None => None,
                }
            },
            _ => None,
        }
    }
}

/// What the handshake answers after accepting the client: the server's
/// version, its encodings, the date style and the time zone.
pub open spec fn handshake_replies(replies: Seq<Response>) -> bool {
    &&& replies.len() == 7
    &&& is_status(replies[1], "server_version"@, "13"@)
    &&& is_status(replies[2], "server_encoding"@, "UTF8"@)
    &&& is_status(replies[3], "client_encoding"@, "UTF8"@)
    &&& is_status(replies[4], "DateStyle"@, "ISO"@)
    &&& is_status(replies[5], "TimeZone"@, "UTC"@)
}

/// The SQLSTATE under which a protocol error is reported: a connection
/// exception for a failure of the transport, a protocol violation for bytes
/// that are no message.
pub open spec fn fault_state(fault: ProtocolFault) -> Seq<char> {
    match fault {
        ProtocolFault::Io => "08000"@,
        _ => "08P01"@,
    }
}

/// The text with which a protocol error is reported.
pub open spec fn fault_text(fault: ProtocolFault) -> Seq<char> {
    match fault {
        ProtocolFault::Io => "io error"@,
        ProtocolFault::Utf8 => "utf8 error"@,
        ProtocolFault::ParserError => "parsing error"@,
        ProtocolFault::InvalidMessageType(_) => "invalid message type"@,
        ProtocolFault::InvalidFormatCode(_) => "invalid format code"@,
    }
}

/// An empty batch for the rows that the description describes.
pub open spec fn batch_for(batch: DataRowBatch, description: RowDescription) -> bool {
    &&& batch.wf()
    &&& batch.rows() == Seq::<Seq<ColumnValue>>::empty()
    &&& batch.open_row() == Seq::<ColumnValue>::empty()
    &&& batch.format() == description.format_code
    &&& batch.types() == description.fields@.map_values(|field: FieldDescription| field.data_type)
}

impl<S, P> Connection<S, P> {
    /// What a `Describe` message is answered with: for a statement, that it
    /// has no parameters, and its columns in text format; for a portal, its
    /// columns in the format chosen at bind time; for a name that is not
    /// there, an error.
    pub open spec fn described(pre: Self, describe: Describe, post: Self, step: Step<P>) -> bool {
        match describe {
            Describe::PreparedStatement(name) => {
                if pre.statements().contains_key(name@) {
                    &&& post.state() == ready(false)
                    &&& step.replies@.len() == 2
                    &&& step.replies@[1] matches Response::RowDescription(description)
                    &&& description.fields@ == pre.statements()[name@].fields@
                    &&& description.format_code == FormatCode::Text
                } else {
                    &&& post.state() == ready(true)
                    &&& step.replies@.len() == 1
                    &&& is_error(
                        step.replies@[0],
                        "26000"@,
                        "unknown prepared statement "@ + name@,
                    )
                }
            },
            Describe::Portal(name) => {
                if pre.portals().contains_key(name@) {
                    &&& post.state() == ready(false)
                    &&& step.replies@.len() == 1
                    &&& step.replies@[0] matches Response::RowDescription(description)
                    &&& description.fields@ == pre.portals()[name@].row_desc.fields@
                    &&& description.format_code == pre.portals()[name@].row_desc.format_code
                } else {
                    &&& post.state() == ready(true)
                    &&& step.replies@.len() == 1
                    &&& is_error(step.replies@[0], "34000"@, "unknown portal "@ + name@)
                }
            },
        }
    }

    /// What a `Bind` message does: a format for each column is refused; a
    /// statement that is not there is an error; the empty statement is bound
    /// at once, to a portal without rows; for any other the engine is asked
    /// for a portal.
    pub open spec fn bound(pre: Self, bind: Bind, post: Self, step: Step<P>) -> bool {
        &&& post.statements() == pre.statements()
        &&& match bind.result_format {
            BindFormat::PerColumn(_) => {
                &&& post.portals() == pre.portals()
                &&& post.state() == ready(true)
                &&& step.replies@.len() == 1
                &&& is_error(
                    step.replies@[0],
                    "0A000"@,
                    "per-column format codes are not supported"@,
                )
            },
            BindFormat::All(format) => {
                if !pre.statements().contains_key(bind.prepared_statement_name@) {
                    &&& post.portals() == pre.portals()
                    &&& post.state() == ready(true)
                    &&& step.replies@.len() == 1
                    &&& is_error(
                        step.replies@[0],
                        "26000"@,
                        "unknown prepared statement "@ + bind.prepared_statement_name@,
                    )
                } else if pre.statements()[bind.prepared_statement_name@].statement is None {
                    &&& post.portals() == pre.portals().insert(
                        bind.portal@,
                        post.portals()[bind.portal@],
                    )
                    &&& post.portals()[bind.portal@].portal is None
                    &&& post.portals()[bind.portal@].row_desc.fields@
                        == pre.statements()[bind.prepared_statement_name@].fields@
                    &&& post.portals()[bind.portal@].row_desc.format_code == format
                    &&& post.state() == ready(false)
                } else {
                    &&& post.portals() == pre.portals()
                    &&& post.pending() matches Pending::BindPortal {
                        portal,
                        statement,
                        format: chosen,
                    }
                    &&& portal@ == bind.portal@
                    &&& statement@ == bind.prepared_statement_name@
                    &&& chosen == format
                }
            },
        }
    }

    /// What an `Execute` message does: a portal that is not there is an
    /// error; the portal of the empty statement is answered at once; any
    /// other portal is handed out with an empty batch for its rows. The
    /// limit on rows that the message carries is not applied: a portal
    /// gives all the rows it has left.
    pub open spec fn executed(pre: Self, execute: Execute, post: Self, step: Step<P>) -> bool {
        &&& post.statements() == pre.statements()
        &&& if !pre.portals().contains_key(execute.portal@) {
            &&& post.portals() == pre.portals()
            &&& post.state() == ready(true)
            &&& step.replies@.len() == 1
            &&& is_error(step.replies@[0], "34000"@, "unknown portal "@ + execute.portal@)
        } else {
            match pre.portals()[execute.portal@].portal {
                None => post.portals() == pre.portals() && post.state() == ready(false),
                Some(handle) => {
                    &&& post.portals() == pre.portals().remove(execute.portal@)
                    &&& step.next matches Request::Fetch(portal, batch)
                    &&& portal == handle
                    &&& batch_for(batch, pre.portals()[execute.portal@].row_desc)
                    &&& post.pending() matches Pending::ExecuteRows { portal: name, kind, row_desc }
                    &&& name@ == execute.portal@
                    &&& kind == pre.portals()[execute.portal@].kind
                    &&& row_desc == pre.portals()[execute.portal@].row_desc
                }
            }
        }
    }

    /// What a message of the client does to a connection, beyond the rules
    /// on the kinds of replies.
    pub open spec fn received(pre: Self, message: ClientMessage, post: Self, step: Step<P>) -> bool {
        match pre.state().phase {
            Phase::Closed => Self::same_tables(pre, post),
            Phase::Startup => {
                &&& Self::same_tables(pre, post)
                &&& match message {
                    ClientMessage::Startup(_) => handshake_replies(step.replies@),
                    _ => is_fatal(step.replies@[0], "08P01"@, "expected startup message"@),
                }
            },
            Phase::Ready => {
                if pre.state().skipping {
                    Self::same_tables(pre, post)
                } else {
                    match message {
                        ClientMessage::Startup(_) => {
                            &&& Self::same_tables(pre, post)
                            &&& is_error(
                                step.replies@[0],
                                "08P01"@,
                                "unexpected startup message"@,
                            )
                        },
                        ClientMessage::Query(query) => {
                            &&& Self::same_tables(pre, post)
                            &&& step.next matches Request::ParseSql(text)
                            &&& text@ == query@
                        },
                        ClientMessage::Parse(parse) => {
                            &&& Self::same_tables(pre, post)
                            &&& step.next matches Request::ParseSql(text)
                            &&& text@ == parse.query@
                            &&& post.pending() matches Pending::ParseParsed { name }
                            &&& name@ == parse.prepared_statement_name@
                        },
                        ClientMessage::Describe(describe) => {
                            &&& Self::same_tables(pre, post)
                            &&& Self::described(pre, describe, post, step)
                        },
                        ClientMessage::Bind(bind) => Self::bound(pre, bind, post, step),
                        ClientMessage::Execute(execute) => Self::executed(pre, execute, post, step),
                        ClientMessage::Sync => Self::same_tables(pre, post),
                        ClientMessage::Terminate => Self::same_tables(pre, post),
                    }
                }
            },
        }
    }

    /// Answers the startup message.
    fn shake_hands(&mut self) -> (step: Step<P>)
        requires
            old(self).wf(),
            old(self).state() == fresh(),
        ensures
            Self::common(*old(self), Event::Startup, *final(self), step),
            Self::same_tables(*old(self), *final(self)),
            handshake_replies(step.replies@),
    {
        let mut replies: Vec<Response> = Vec::new();
        replies.push(Response::AuthenticationOk);
        replies.push(Response::ParameterStatus(status("server_version", "13")));
        replies.push(Response::ParameterStatus(status("server_encoding", "UTF8")));
        replies.push(Response::ParameterStatus(status("client_encoding", "UTF8")));
        replies.push(Response::ParameterStatus(status("DateStyle", "ISO")));
        replies.push(Response::ParameterStatus(status("TimeZone", "UTC")));
        replies.push(Response::ReadyForQuery);
        self.phase = Phase::Ready;
        proof {
            reveal(follows);
            assert(kinds(replies@) =~= handshake());
        }
        Step { replies, next: Request::Receive }
    }

    /// Ends the connection after reporting `reply`.
    fn close_with(&mut self, reply: Response, Ghost(event): Ghost<Event>) -> (step: Step<P>)
        requires
            old(self).wf(),
            old(self).state().waiting is Message,
            !(old(self).state().phase is Closed),
            reply is ErrorResponse,
            event is Broken || (event.is_message() && (old(self).state().phase is Startup ==> !(
            event is Startup)) && (old(self).state().phase is Ready ==> event is Startup && !old(
                self,
            ).state().skipping)),
        ensures
            Self::common(*old(self), event, *final(self), step),
            Self::same_tables(*old(self), *final(self)),
            step.replies@ == seq![reply],
    {
        let mut replies: Vec<Response> = Vec::new();
        replies.push(reply);
        self.phase = Phase::Closed;
        self.skipping = false;
        proof {
            reveal(follows);
            assert(kinds(replies@) =~= seq![Reply::ErrorResponse]);
            assert(replies@ =~= seq![reply]);
        }
        Step { replies, next: Request::Close }
    }

    /// Reports an error in the extended flow and starts passing messages
    /// over.
    fn suspend(&mut self, reply: Response) -> (step: Step<P>)
        requires
            reply is ErrorResponse,
        ensures
            final(self).phase == old(self).phase,
            final(self).skipping,
            final(self).pending is Nothing,
            final(self).statements == old(self).statements,
            final(self).portals == old(self).portals,
            step.replies@ == seq![reply],
            kinds(step.replies@) == seq![Reply::ErrorResponse],
            step.next is Receive,
    {
        let mut replies: Vec<Response> = Vec::new();
        replies.push(reply);
        self.skipping = true;
        self.pending = Pending::Nothing;
        proof {
            assert(kinds(replies@) =~= seq![Reply::ErrorResponse]);
            assert(replies@ =~= seq![reply]);
        }
        Step { replies, next: Request::Receive }
    }

    /// Reports an error of a simple query and is ready again.
    fn fail_query(&mut self, reply: Response) -> (step: Step<P>)
        requires
            reply is ErrorResponse,
        ensures
            final(self).phase == old(self).phase,
            final(self).skipping == old(self).skipping,
            final(self).pending is Nothing,
            final(self).statements == old(self).statements,
            final(self).portals == old(self).portals,
            step.replies@ == seq![reply, Response::ReadyForQuery],
            kinds(step.replies@) == seq![Reply::ErrorResponse, Reply::ReadyForQuery],
            step.next is Receive,
    {
        let mut replies: Vec<Response> = Vec::new();
        replies.push(reply);
        replies.push(Response::ReadyForQuery);
        self.pending = Pending::Nothing;
        proof {
            assert(kinds(replies@) =~= seq![Reply::ErrorResponse, Reply::ReadyForQuery]);
            assert(replies@ =~= seq![reply, Response::ReadyForQuery]);
        }
        Step { replies, next: Request::Receive }
    }

    /// Answers with the given replies and waits for the next message.
    fn answer(&mut self, replies: Vec<Response>) -> (step: Step<P>)
        ensures
            final(self).phase == old(self).phase,
            final(self).skipping == old(self).skipping,
            final(self).pending is Nothing,
            final(self).statements == old(self).statements,
            final(self).portals == old(self).portals,
            step.replies == replies,
            step.next is Receive,
    {
        self.pending = Pending::Nothing;
        Step { replies, next: Request::Receive }
    }

    /// Answers a `Describe` message from the tables.
    fn describe(&mut self, describe: Describe) -> (step: Step<P>)
        requires
            old(self).wf(),
            old(self).state() == ready(false),
        ensures
            Self::common(*old(self), Event::Describe, *final(self), step),
            Self::same_tables(*old(self), *final(self)),
            Self::described(*old(self), describe, *final(self), step),
    {
        proof {
            reveal(follows);
        }
        match describe {
            Describe::PreparedStatement(name) => {
                let fields = match self.statements.get(name.as_str()) {
                    Some(prepared) => Some(clone_fields(&prepared.fields)),
                    None => None,
                };
                match fields {
                    Some(fields) => {
                        let mut replies: Vec<Response> = Vec::new();
                        replies.push(Response::ParameterDescription);
                        replies.push(
                            Response::RowDescription(
                                RowDescription { fields, format_code: FormatCode::Text },
                            ),
                        );
                        assert(kinds(replies@) =~= seq![
                            Reply::ParameterDescription,
                            Reply::RowDescription,
                        ]);
                        self.answer(replies)
                    },
                    None => {
                        let reply = unknown_name(
                            SqlState::invalid_sql_statement_name(),
                            "unknown prepared statement ",
                            name.as_str(),
                        );
                        self.suspend(reply)
                    },
                }
            },
            Describe::Portal(name) => {
                let description = match self.portals.get(name.as_str()) {
                    Some(bound) => Some(
                        RowDescription {
                            fields: clone_fields(&bound.row_desc.fields),
                            format_code: bound.row_desc.format_code,
                        },
                    ),
                    None => None,
                };
                match description {
                    Some(description) => {
                        let mut replies: Vec<Response> = Vec::new();
                        replies.push(Response::RowDescription(description));
                        assert(kinds(replies@) =~= seq![Reply::RowDescription]);
                        self.answer(replies)
                    },
                    None => {
                        let reply = unknown_name(
                            SqlState::invalid_cursor_name(),
                            "unknown portal ",
                            name.as_str(),
                        );
                        self.suspend(reply)
                    },
                }
            },
        }
    }

    /// Binds a statement to a portal, or asks the engine for the portal.
    fn bind(&mut self, bind: Bind) -> (step: Step<P>)
        requires
            old(self).wf(),
            old(self).state() == ready(false),
        ensures
            Self::common(*old(self), Event::Bind, *final(self), step),
            Self::bound(*old(self), bind, *final(self), step),
    {
        proof {
            reveal(follows);
        }
        let Bind { portal, prepared_statement_name, result_format } = bind;
        let format = match result_format {
            BindFormat::All(format) => format,
            BindFormat::PerColumn(_) => {
                let reply = error_of(
                    SqlState::feature_not_supported(),
                    String::from_str("per-column format codes are not supported"),
                );
                return self.suspend(reply);
            },
        };
        let found = match self.statements.get(prepared_statement_name.as_str()) {
            Some(prepared) => Some((prepared.statement.is_some(), clone_fields(&prepared.fields))),
            None => None,
        };
        match found {
            None => {
                let reply = unknown_name(
                    SqlState::invalid_sql_statement_name(),
                    "unknown prepared statement ",
                    prepared_statement_name.as_str(),
                );
                self.suspend(reply)
            },
            Some((true, _)) => {
                self.pending = Pending::BindPortal {
                    portal,
                    statement: prepared_statement_name,
                    format,
                };
                let replies: Vec<Response> = Vec::new();
                assert(kinds(replies@) =~= Seq::<Reply>::empty());
                Step { replies, next: Request::CreatePortal }
            },
            Some((false, fields)) => {
                let bound_portal = BoundPortal {
                    portal: None,
                    kind: CommandKind::Select,
                    row_desc: RowDescription { fields, format_code: format },
                };
                let ghost name = portal@;
                self.portals.insert(portal, bound_portal);
                let mut replies: Vec<Response> = Vec::new();
                replies.push(Response::BindComplete);
                proof {
                    assert(kinds(replies@) =~= seq![Reply::BindComplete]);
                    assert(self.portals@[name] == bound_portal);
                }
                self.answer(replies)
            },
        }
    }

    /// Hands a portal out to give its rows.
    fn execute(&mut self, execute: Execute) -> (step: Step<P>)
        requires
            old(self).wf(),
            old(self).state() == ready(false),
        ensures
            Self::common(*old(self), Event::Execute, *final(self), step),
            Self::executed(*old(self), execute, *final(self), step),
    {
        proof {
            reveal(follows);
        }
        let Execute { portal, max_rows: _ } = execute;
        let found = match self.portals.get(portal.as_str()) {
            Some(bound) => Some(bound.portal.is_some()),
            None => None,
        };
        match found {
            None => {
                let reply = unknown_name(
                    SqlState::invalid_cursor_name(),
                    "unknown portal ",
                    portal.as_str(),
                );
                self.suspend(reply)
            },
            Some(false) => {
                let mut replies: Vec<Response> = Vec::new();
                replies.push(Response::EmptyQueryResponse);
                assert(kinds(replies@) =~= seq![Reply::EmptyQueryResponse]);
                self.answer(replies)
            },
            Some(true) => {
                let taken = self.portals.remove(portal.as_str());
                let BoundPortal { portal: handle, kind, row_desc } = taken.unwrap();
                let batch = DataRowBatch::from_row_desc(&row_desc);
                self.pending = Pending::ExecuteRows { portal, kind, row_desc };
                let replies: Vec<Response> = Vec::new();
                assert(kinds(replies@) =~= Seq::<Reply>::empty());
                Step { replies, next: Request::Fetch(handle.unwrap(), batch) }
            },
        }
    }

    /// Takes in the next message of the client.
    ///
    /// Before the handshake only a startup message is accepted. Afterwards
    /// `Sync` is answered with the server being ready, `Terminate` ends the
    /// connection, and while messages are passed over every other message
    /// is dropped. Otherwise `Query` and `Parse` have their text parsed,
    /// `Describe` is answered from the tables, and `Bind` and `Execute` go
    /// to the engine unless they can be answered at once.
    pub fn receive(&mut self, message: ClientMessage) -> (step: Step<P>)
        requires
            old(self).wf(),
            old(self).state().waiting is Message,
        ensures
            Self::common(*old(self), message_event(message), *final(self), step),
            Self::received(*old(self), message, *final(self), step),
    {
        proof {
            reveal(follows);
        }
        match self.phase {
            Phase::Closed => {
                let replies: Vec<Response> = Vec::new();
                assert(kinds(replies@) =~= Seq::<Reply>::empty());
                Step { replies, next: Request::Close }
            },
            Phase::Startup => match message {
                ClientMessage::Startup(_) => self.shake_hands(),
                _ => {
                    let reply = Response::ErrorResponse(
                        ErrorResponse {
                            sql_state: SqlState::protocol_violation(),
                            severity: Severity::fatal(),
                            message: String::from_str("expected startup message"),
                        },
                    );
                    self.close_with(reply, Ghost(message_event(message)))
                },
            },
            Phase::Ready => match message {
                ClientMessage::Terminate => {
                    self.phase = Phase::Closed;
                    self.skipping = false;
                    let replies: Vec<Response> = Vec::new();
                    assert(kinds(replies@) =~= Seq::<Reply>::empty());
                    Step { replies, next: Request::Close }
                },
                ClientMessage::Sync => {
                    self.skipping = false;
                    let mut replies: Vec<Response> = Vec::new();
                    replies.push(Response::ReadyForQuery);
                    assert(kinds(replies@) =~= seq![Reply::ReadyForQuery]);
                    Step { replies, next: Request::Receive }
                },
                message => {
                    if self.skipping {
                        let replies: Vec<Response> = Vec::new();
                        assert(kinds(replies@) =~= Seq::<Reply>::empty());
                        Step { replies, next: Request::Receive }
                    } else {
                        match message {
                            ClientMessage::Startup(_) => {
                                let reply = error_of(
                                    SqlState::protocol_violation(),
                                    String::from_str("unexpected startup message"),
                                );
                                self.close_with(reply, Ghost(Event::Startup))
                            },
                            ClientMessage::Query(query) => {
                                self.pending = Pending::QueryParsed;
                                let replies: Vec<Response> = Vec::new();
                                assert(kinds(replies@) =~= Seq::<Reply>::empty());
                                Step { replies, next: Request::ParseSql(query) }
                            },
                            ClientMessage::Parse(parse) => {
                                let Parse { prepared_statement_name, query, parameter_types: _ } =
                                    parse;
                                self.pending = Pending::ParseParsed {
                                    name: prepared_statement_name,
                                };
                                let replies: Vec<Response> = Vec::new();
                                assert(kinds(replies@) =~= Seq::<Reply>::empty());
                                Step { replies, next: Request::ParseSql(query) }
                            },
                            ClientMessage::Describe(describe) => self.describe(describe),
                            ClientMessage::Bind(bind) => self.bind(bind),
                            ClientMessage::Execute(execute) => self.execute(execute),
                            ClientMessage::Sync => {
                                let replies: Vec<Response> = Vec::new();
                                Step { replies, next: Request::Receive }
                            },
                            ClientMessage::Terminate => {
                                let replies: Vec<Response> = Vec::new();
                                Step { replies, next: Request::Receive }
                            },
                        }
                    }
                },
            },
        }
    }
}

impl<S, P> Connection<S, P> {
    /// What the parsed text of a query does. Text that the parser refuses is
    /// a syntax error, and more than one statement is not supported. No
    /// statement at all is the empty query: a simple query is answered at
    /// once, a `Parse` message keeps the empty statement under its name. One
    /// statement goes to the engine to be prepared.
    pub open spec fn parsed_details(
        pre: Self,
        outcome: Result<Vec<Statement<S>>, String>,
        post: Self,
        step: Step<P>,
    ) -> bool {
        &&& post.portals() == pre.portals()
        &&& match outcome {
            Err(message) => {
                &&& post.statements() == pre.statements()
                &&& post.state() == ready(pre.pending() is ParseParsed)
                &&& is_error(step.replies@[0], "42601"@, message@)
            },
            Ok(statements) => {
                if statements@.len() == 1 {
                    &&& post.statements() == pre.statements()
                    &&& match pre.pending() {
                        Pending::ParseParsed { name } => {
                            &&& post.pending() matches Pending::ParsePrepared {
                                name: kept,
                                statement,
                            }
                            &&& kept@ == name@
                            &&& statement == statements@[0]
                        },
                        _ => {
                            &&& post.pending() matches Pending::QueryPrepared { statement }
                            &&& statement == statements@[0]
                        },
                    }
                } else if statements@.len() > 1 {
                    &&& post.statements() == pre.statements()
                    &&& post.state() == ready(pre.pending() is ParseParsed)
                    &&& is_error(
                        step.replies@[0],
                        "0A000"@,
                        "multiple statements are not supported"@,
                    )
                } else {
                    &&& post.state() == ready(false)
                    &&& match pre.pending() {
                        Pending::ParseParsed { name } => {
                            &&& post.statements() == pre.statements().insert(
                                name@,
                                post.statements()[name@],
                            )
                            &&& post.statements()[name@].statement is None
                            &&& post.statements()[name@].fields@.len() == 0
                        },
                        _ => post.statements() == pre.statements(),
                    }
                }
            },
        }
    }

    /// Takes in what the parser made of the text asked for.
    pub fn parsed(&mut self, outcome: Result<Vec<Statement<S>>, String>) -> (step: Step<P>)
        requires
            old(self).wf(),
            old(self).state().waiting is QueryParsed || old(self).state().waiting is ParseParsed,
        ensures
            Self::common(*old(self), parsed_event(outcome), *final(self), step),
            Self::parsed_details(*old(self), outcome, *final(self), step),
    {
        proof {
            reveal(follows);
        }
        let mut pending = Pending::Nothing;
        std::mem::swap(&mut self.pending, &mut pending);
        let name = match pending {
            Pending::ParseParsed { name } => Some(name),
            _ => None,
        };
        let mut statements = match outcome {
            Ok(statements) => statements,
            Err(message) => {
                let reply = error_of(SqlState::syntax_error(), message);
                return match name {
                    Some(_) => self.suspend(reply),
                    None => self.fail_query(reply),
                };
            },
        };
        if statements.len() > 1 {
            let reply = error_of(
                SqlState::feature_not_supported(),
                String::from_str("multiple statements are not supported"),
            );
            return match name {
                Some(_) => self.suspend(reply),
                None => self.fail_query(reply),
            };
        }
        match statements.pop() {
            Some(statement) => {
                self.pending = match name {
                    Some(name) => Pending::ParsePrepared { name, statement },
                    None => Pending::QueryPrepared { statement },
                };
                let replies: Vec<Response> = Vec::new();
                assert(kinds(replies@) =~= Seq::<Reply>::empty());
                Step { replies, next: Request::Prepare }
            },
            None => {
                let mut replies: Vec<Response> = Vec::new();
                match name {
                    Some(name) => {
                        let prepared = PreparedStatement { statement: None, fields: Vec::new() };
                        let ghost key = name@;
                        self.statements.insert(name, prepared);
                        replies.push(Response::ParseComplete);
                        proof {
                            assert(self.statements@[key] == prepared);
                            assert(kinds(replies@) =~= seq![Reply::ParseComplete]);
                        }
                    },
                    None => {
                        replies.push(Response::EmptyQueryResponse);
                        replies.push(Response::ReadyForQuery);
                        assert(kinds(replies@) =~= seq![
                            Reply::EmptyQueryResponse,
                            Reply::ReadyForQuery,
                        ]);
                    },
                }
                self.answer(replies)
            },
        }
    }

    /// What the engine's description of a statement does. An error of the
    /// engine is passed on as it is. Columns that cannot be described on the
    /// wire are not supported. Otherwise a simple query sends the row
    /// description, in text format, and asks for a portal; a `Parse`
    /// message keeps the statement and its columns under its name.
    pub open spec fn prepared_details(
        pre: Self,
        outcome: Result<Vec<FieldDescription>, ErrorResponse>,
        post: Self,
        step: Step<P>,
    ) -> bool {
        &&& post.portals() == pre.portals()
        &&& match outcome {
            Err(error) => {
                &&& post.statements() == pre.statements()
                &&& post.state() == ready(pre.pending() is ParsePrepared)
                &&& step.replies@[0] == Response::ErrorResponse(error)
            },
            Ok(fields) => {
                if !describable(fields@) {
                    &&& post.statements() == pre.statements()
                    &&& post.state() == ready(pre.pending() is ParsePrepared)
                    &&& is_error(step.replies@[0], "0A000"@, "unsupported column type"@)
                } else {
                    match pre.pending() {
                        Pending::ParsePrepared { name, statement } => {
                            &&& post.statements() == pre.statements().insert(
                                name@,
                                post.statements()[name@],
                            )
                            &&& post.statements()[name@].statement == Some(statement)
                            &&& post.statements()[name@].fields == fields
                            &&& post.state() == ready(false)
                        },
                        Pending::QueryPrepared { statement } => {
                            &&& post.statements() == pre.statements()
                            &&& step.replies@[0] matches Response::RowDescription(description)
                            &&& description.fields@ == fields@
                            &&& description.format_code == FormatCode::Text
                            &&& post.pending() matches Pending::QueryPortal {
                                statement: kept,
                                row_desc,
                            }
                            &&& kept == statement
                            &&& row_desc.fields == fields
                            &&& row_desc.format_code == FormatCode::Text
                        },
                        _ => true,
                    }
                }
            },
        }
    }

    /// Takes in the engine's description of the current statement.
    pub fn prepared(&mut self, outcome: Result<Vec<FieldDescription>, ErrorResponse>) -> (step:
        Step<P>)
        requires
            old(self).wf(),
            old(self).state().waiting is QueryPrepared || old(self).state().waiting
                is ParsePrepared,
        ensures
            Self::common(
                *old(self),
                if outcome is Ok {
                    Event::Prepared
                } else {
                    Event::PrepareFailed
                },
                *final(self),
                step,
            ),
            Self::prepared_details(*old(self), outcome, *final(self), step),
    {
        proof {
            reveal(follows);
        }
        let mut pending = Pending::Nothing;
        std::mem::swap(&mut self.pending, &mut pending);
        let (name, statement) = match pending {
            Pending::ParsePrepared { name, statement } => (Some(name), Some(statement)),
            Pending::QueryPrepared { statement } => (None, Some(statement)),
            _ => (None, None),
        };
        let description = match outcome {
            Ok(fields) => RowDescription { fields, format_code: FormatCode::Text },
            Err(error) => {
                let reply = Response::ErrorResponse(error);
                return match name {
                    Some(_) => self.suspend(reply),
                    None => self.fail_query(reply),
                };
            },
        };
        if !description.is_encodable() {
            let reply = error_of(
                SqlState::feature_not_supported(),
                String::from_str("unsupported column type"),
            );
            return match name {
                Some(_) => self.suspend(reply),
                None => self.fail_query(reply),
            };
        }
        match name {
            Some(name) => {
                let prepared = PreparedStatement { statement, fields: description.fields };
                let ghost key = name@;
                self.statements.insert(name, prepared);
                let mut replies: Vec<Response> = Vec::new();
                replies.push(Response::ParseComplete);
                proof {
                    assert(self.statements@[key] == prepared);
                    assert(kinds(replies@) =~= seq![Reply::ParseComplete]);
                }
                self.answer(replies)
            },
            None => {
                let reply = Response::RowDescription(
                    RowDescription {
                        fields: clone_fields(&description.fields),
                        format_code: FormatCode::Text,
                    },
                );
                let mut replies: Vec<Response> = Vec::new();
                replies.push(reply);
                assert(kinds(replies@) =~= seq![Reply::RowDescription]);
                self.pending = Pending::QueryPortal {
                    statement: statement.unwrap(),
                    row_desc: description,
                };
                Step { replies, next: Request::CreatePortal }
            },
        }
    }

    /// What the engine's portal does. An error of the engine is passed on as
    /// it is. The portal of a simple query is handed out at once with an
    /// empty batch for its rows; that of a `Bind` message is kept under its
    /// name, with the statement's columns in the format chosen.
    pub open spec fn portal_details(
        pre: Self,
        outcome: Result<P, ErrorResponse>,
        post: Self,
        step: Step<P>,
    ) -> bool {
        &&& post.statements() == pre.statements()
        &&& match outcome {
            Err(error) => {
                &&& post.portals() == pre.portals()
                &&& post.state() == ready(pre.pending() is BindPortal)
                &&& step.replies@[0] == Response::ErrorResponse(error)
            },
            Ok(handle) => match pre.pending() {
                Pending::QueryPortal { statement, row_desc } => {
                    &&& post.portals() == pre.portals()
                    &&& step.next matches Request::Fetch(portal, batch)
                    &&& portal == handle
                    &&& batch_for(batch, row_desc)
                    &&& post.pending() matches Pending::QueryRows { kind }
                    &&& kind == statement.kind
                },
                Pending::BindPortal { portal, statement, format } => {
                    &&& post.portals() == pre.portals().insert(portal@, post.portals()[portal@])
                    &&& post.portals()[portal@].portal == Some(handle)
                    &&& pre.statements()[statement@].statement matches Some(source)
                        ==> post.portals()[portal@].kind == source.kind
                    &&& post.portals()[portal@].row_desc.fields@
                        == pre.statements()[statement@].fields@
                    &&& post.portals()[portal@].row_desc.format_code == format
                    &&& post.state() == ready(false)
                },
                _ => true,
            },
        }
    }

    /// Takes in the engine's portal for the current statement.
    pub fn portal_created(&mut self, outcome: Result<P, ErrorResponse>) -> (step: Step<P>)
        requires
            old(self).wf(),
            old(self).state().waiting is QueryPortal || old(self).state().waiting is BindPortal,
        ensures
            Self::common(
                *old(self),
                if outcome is Ok {
                    Event::PortalCreated
                } else {
                    Event::PortalFailed
                },
                *final(self),
                step,
            ),
            Self::portal_details(*old(self), outcome, *final(self), step),
    {
        proof {
            reveal(follows);
        }
        let mut pending = Pending::Nothing;
        std::mem::swap(&mut self.pending, &mut pending);
        match pending {
            Pending::BindPortal { portal, statement, format } => {
                let handle = match outcome {
                    Ok(handle) => handle,
                    Err(error) => {
                        return self.suspend(Response::ErrorResponse(error));
                    },
                };
                let (kind, fields) = match self.statements.get(statement.as_str()) {
                    Some(prepared) => (
                        match &prepared.statement {
                            Some(source) => source.kind,
                            None => CommandKind::Select,
                        },
                        clone_fields(&prepared.fields),
                    ),
                    None => (CommandKind::Select, Vec::new()),
                };
                let bound_portal = BoundPortal {
                    portal: Some(handle),
                    kind,
                    row_desc: RowDescription { fields, format_code: format },
                };
                let ghost key = portal@;
                self.portals.insert(portal, bound_portal);
                let mut replies: Vec<Response> = Vec::new();
                replies.push(Response::BindComplete);
                proof {
                    assert(self.portals@[key] == bound_portal);
                    assert(kinds(replies@) =~= seq![Reply::BindComplete]);
                }
                self.answer(replies)
            },
            Pending::QueryPortal { statement, row_desc } => {
                let handle = match outcome {
                    Ok(handle) => handle,
                    Err(error) => {
                        return self.fail_query(Response::ErrorResponse(error));
                    },
                };
                let batch = DataRowBatch::from_row_desc(&row_desc);
                self.pending = Pending::QueryRows { kind: statement.kind };
                let replies: Vec<Response> = Vec::new();
                assert(kinds(replies@) =~= Seq::<Reply>::empty());
                Step { replies, next: Request::Fetch(handle, batch) }
            },
            _ => {
                let replies: Vec<Response> = Vec::new();
                Step { replies, next: Request::Receive }
            },
        }
    }

    /// What the rows of a portal do. An error of the engine is passed on as
    /// it is, and the rows written before it are dropped. Otherwise the rows
    /// are sent, and after them the tag of the command with their number.
    /// The portal of an `Execute` message goes back under its name.
    pub open spec fn fetched_details(
        pre: Self,
        portal: P,
        batch: DataRowBatch,
        outcome: Result<(), ErrorResponse>,
        post: Self,
        step: Step<P>,
    ) -> bool {
        &&& post.statements() == pre.statements()
        &&& match pre.pending() {
            Pending::ExecuteRows { portal: name, kind, row_desc } => post.portals()
                == pre.portals().insert(name@, BoundPortal { portal: Some(portal), kind, row_desc }),
            _ => post.portals() == pre.portals(),
        }
        &&& match outcome {
            Err(error) => {
                &&& post.state() == ready(pre.pending() is ExecuteRows)
                &&& step.replies@[0] == Response::ErrorResponse(error)
            },
            Ok(_) => {
                &&& post.state() == ready(false)
                &&& step.replies@[0] == Response::DataRows(batch)
                &&& step.replies@[1] matches Response::CommandComplete(complete)
                &&& match pre.pending() {
                    Pending::ExecuteRows { kind, .. } => complete.command_tag@ == command_tag(
                        kind,
                        batch.rows().len(),
                    ),
                    Pending::QueryRows { kind } => complete.command_tag@ == command_tag(
                        kind,
                        batch.rows().len(),
                    ),
                    _ => true,
                }
            },
        }
    }

    /// Takes back the portal and the batch that it wrote its rows into.
    pub fn fetched(&mut self, portal: P, batch: DataRowBatch, outcome: Result<(), ErrorResponse>) -> (step:
        Step<P>)
        requires
            old(self).wf(),
            old(self).state().waiting is QueryRows || old(self).state().waiting is ExecuteRows,
            batch.wf(),
        ensures
            Self::common(
                *old(self),
                if outcome is Ok {
                    Event::Fetched
                } else {
                    Event::FetchFailed
                },
                *final(self),
                step,
            ),
            Self::fetched_details(*old(self), portal, batch, outcome, *final(self), step),
    {
        proof {
            reveal(follows);
        }
        let mut pending = Pending::Nothing;
        std::mem::swap(&mut self.pending, &mut pending);
        let (kind, simple) = match pending {
            Pending::ExecuteRows { portal: name, kind, row_desc } => {
                self.portals.insert(name, BoundPortal { portal: Some(portal), kind, row_desc });
                (kind, false)
            },
            Pending::QueryRows { kind } => (kind, true),
            _ => (CommandKind::Select, true),
        };
        match outcome {
            Err(error) => {
                let reply = Response::ErrorResponse(error);
                if simple {
                    self.fail_query(reply)
                } else {
                    self.suspend(reply)
                }
            },
            Ok(_) => {
                let tag = make_command_tag(kind, batch.num_rows());
                let mut replies: Vec<Response> = Vec::new();
                replies.push(Response::DataRows(batch));
                replies.push(Response::CommandComplete(CommandComplete { command_tag: tag }));
                if simple {
                    replies.push(Response::ReadyForQuery);
                    assert(kinds(replies@) =~= seq![
                        Reply::DataRows,
                        Reply::CommandComplete,
                        Reply::ReadyForQuery,
                    ]);
                } else {
                    assert(kinds(replies@) =~= seq![Reply::DataRows, Reply::CommandComplete]);
                }
                self.answer(replies)
            },
        }
    }

    /// Takes in bytes that are no message, or a failure of the transport: the
    /// error is reported, as fatal before the handshake, and the connection
    /// ends.
    pub fn decode_failed(&mut self, error: &ProtocolError) -> (step: Step<P>)
        requires
            old(self).wf(),
            old(self).state().waiting is Message,
        ensures
            Self::common(*old(self), Event::Broken, *final(self), step),
            Self::same_tables(*old(self), *final(self)),
            old(self).state().phase is Startup ==> is_fatal(
                step.replies@[0],
                fault_state(error@),
                fault_text(error@),
            ),
            old(self).state().phase is Ready ==> is_error(
                step.replies@[0],
                fault_state(error@),
                fault_text(error@),
            ),
            step.next is Close,
    {
        proof {
            reveal(follows);
        }
        if let Phase::Closed = self.phase {
            let replies: Vec<Response> = Vec::new();
            assert(kinds(replies@) =~= Seq::<Reply>::empty());
            return Step { replies, next: Request::Close };
        }
        let sql_state = match error {
            ProtocolError::Io(_) => SqlState::connection_exception(),
            _ => SqlState::protocol_violation(),
        };
        let message = match error {
            ProtocolError::Io(_) => String::from_str("io error"),
            ProtocolError::Utf8(_) => String::from_str("utf8 error"),
            ProtocolError::ParserError => String::from_str("parsing error"),
            ProtocolError::InvalidMessageType(_) => String::from_str("invalid message type"),
            ProtocolError::InvalidFormatCode(_) => String::from_str("invalid format code"),
        };
        let severity = match self.phase {
            Phase::Startup => Severity::fatal(),
            _ => Severity::error(),
        };
        let reply = Response::ErrorResponse(ErrorResponse { sql_state, severity, message });
        self.close_with(reply, Ghost(Event::Broken))
    }
}

/// The error with which a failure of the engine is reported: a data
/// exception with the engine's own words.
pub fn df_err_to_sql(message: String) -> (response: ErrorResponse)
    ensures
        response.sql_state.0@ == "22000"@,
        response.severity.0@ == "ERROR"@,
        response.message == message,
{
    ErrorResponse { sql_state: SqlState::data_exception(), severity: Severity::error(), message }
}

} // verus!
