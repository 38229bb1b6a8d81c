//! The rules of a connection, stripped of what the messages carry: which
//! kinds of replies may follow which kind of event, and what the connection
//! waits for afterwards.

use vstd::prelude::*;

verus! {

/// How far a connection has come.
#[derive(Debug, Clone, Copy, PartialEq, Eq, Structural)]
pub enum Phase {
    /// No startup message was handled yet.
    Startup,
    /// The handshake is over; queries are served.
    Ready,
    /// Nothing more is read or written.
    Closed,
}

/// What a connection waits for.
#[derive(Debug, Clone, Copy, PartialEq, Eq, Structural)]
pub enum Waiting {
    /// The next message of the client.
    Message,
    /// The parsed text of a simple query.
    QueryParsed,
    /// The result columns of the statement of a simple query.
    QueryPrepared,
    /// The portal of a simple query.
    QueryPortal,
    /// The rows of a simple query.
    QueryRows,
    /// The parsed text of a `Parse` message.
    ParseParsed,
    /// The result columns of the statement of a `Parse` message.
    ParsePrepared,
    /// The portal of a `Bind` message.
    BindPortal,
    /// The rows of an `Execute` message.
    ExecuteRows,
}

impl Waiting {
    /// Whether the connection is in the middle of a simple query.
    pub open spec fn simple(self) -> bool {
        self is QueryParsed || self is QueryPrepared || self is QueryPortal || self is QueryRows
    }
}

/// The state of a connection, as far as the rules go.
pub struct ProtocolState {
    pub phase: Phase,
    /// An error occurred in the extended flow, and messages are passed over
    /// until the next `Sync`.
    pub skipping: bool,
    pub waiting: Waiting,
}

/// What can happen to a connection.
pub enum Event {
    /// The client sent a message of this kind.
    Startup,
    Query,
    Parse,
    Bind,
    Describe,
    Execute,
    Sync,
    Terminate,
    /// The client sent bytes that are no message, or the transport failed.
    Broken,
    /// The parser refused the text, found no statement in it, one, or more.
    ParseFailed,
    ParsedNone,
    ParsedOne,
    ParsedMany,
    /// The engine refused to prepare the statement, or described its result.
    PrepareFailed,
    Prepared,
    /// The engine refused to make a portal, or made one.
    PortalFailed,
    PortalCreated,
    /// The portal failed to give its rows, or gave them.
    FetchFailed,
    Fetched,
}

impl Event {
    /// Whether the event is a message of the client.
    pub open spec fn is_message(self) -> bool {
        self is Startup || self is Query || self is Parse || self is Bind || self is Describe
            || self is Execute || self is Sync || self is Terminate
    }
}

/// The kind of a reply. `DataRows` stands for the rows of one result, which
/// may be none.
#[derive(Debug, Clone, Copy, PartialEq, Eq, Structural)]
pub enum Reply {
    AuthenticationOk,
    ParameterStatus,
    ReadyForQuery,
    ParseComplete,
    BindComplete,
    ParameterDescription,
    RowDescription,
    DataRows,
    CommandComplete,
    EmptyQueryResponse,
    ErrorResponse,
}

/// A connection that waits for a message after the handshake.
pub open spec fn ready(skipping: bool) -> ProtocolState {
    ProtocolState { phase: Phase::Ready, skipping, waiting: Waiting::Message }
}

/// A connection at its end.
pub open spec fn closed() -> ProtocolState {
    ProtocolState { phase: Phase::Closed, skipping: false, waiting: Waiting::Message }
}

/// A connection before the handshake.
pub open spec fn fresh() -> ProtocolState {
    ProtocolState { phase: Phase::Startup, skipping: false, waiting: Waiting::Message }
}

/// The replies to a startup message: the authentication is accepted, five
/// parameters are reported, and the server is ready.
pub open spec fn handshake() -> Seq<Reply> {
    seq![
        Reply::AuthenticationOk,
        Reply::ParameterStatus,
        Reply::ParameterStatus,
        Reply::ParameterStatus,
        Reply::ParameterStatus,
        Reply::ParameterStatus,
        Reply::ReadyForQuery,
    ]
}

/// A simple query fails: the error is reported, and the server is ready
/// again.
pub open spec fn simple_failure(post: ProtocolState, replies: Seq<Reply>) -> bool {
    post == ready(false) && replies == seq![Reply::ErrorResponse, Reply::ReadyForQuery]
}

/// A step of the extended flow fails: the error is reported, and messages
/// are passed over from now on.
pub open spec fn extended_failure(post: ProtocolState, replies: Seq<Reply>) -> bool {
    post == ready(true) && replies == seq![Reply::ErrorResponse]
}

/// Outside work is asked for, and nothing is said meanwhile.
pub open spec fn moves_on(post: ProtocolState, waiting: Waiting, replies: Seq<Reply>) -> bool {
    post == (ProtocolState { phase: Phase::Ready, skipping: false, waiting }) && replies
        == Seq::<Reply>::empty()
}

/// The connection answers and waits for the next message.
pub open spec fn answers(post: ProtocolState, replies: Seq<Reply>, expected: Seq<Reply>) -> bool {
    post == ready(false) && replies == expected
}

/// Whether, after `event` in state `pre`, the connection may send `replies`
/// and go on in state `post`.
#[verifier::opaque]
pub open spec fn follows(
    pre: ProtocolState,
    event: Event,
    post: ProtocolState,
    replies: Seq<Reply>,
) -> bool {
    match pre.waiting {
        Waiting::Message => match pre.phase {
            Phase::Closed => post == pre && replies == Seq::<Reply>::empty(),
            Phase::Startup => {
                if event is Startup {
                    post == ready(false) && replies == handshake()
                } else if event.is_message() || event is Broken {
                    post == closed() && replies == seq![Reply::ErrorResponse]
                } else {
                    false
                }
            },
            Phase::Ready => {
                if event is Broken {
                    post == closed() && replies == seq![Reply::ErrorResponse]
                } else if event is Terminate {
                    post == closed() && replies == Seq::<Reply>::empty()
                } else if event is Sync {
                    post == ready(false) && replies == seq![Reply::ReadyForQuery]
                } else if !event.is_message() {
                    false
                } else if pre.skipping {
                    post == pre && replies == Seq::<Reply>::empty()
                } else {
                    match event {
                        Event::Startup => post == closed() && replies == seq![Reply::ErrorResponse],
                        Event::Query => moves_on(post, Waiting::QueryParsed, replies),
                        Event::Parse => moves_on(post, Waiting::ParseParsed, replies),
                        Event::Bind => {
                            ||| moves_on(post, Waiting::BindPortal, replies)
                            ||| answers(post, replies, seq![Reply::BindComplete])
                            ||| extended_failure(post, replies)
                        },
                        Event::Describe => {
                            ||| answers(
                                post,
                                replies,
                                seq![Reply::ParameterDescription, Reply::RowDescription],
                            )
                            ||| answers(post, replies, seq![Reply::RowDescription])
                            ||| extended_failure(post, replies)
                        },
                        Event::Execute => {
                            ||| moves_on(post, Waiting::ExecuteRows, replies)
                            ||| answers(post, replies, seq![Reply::EmptyQueryResponse])
                            ||| extended_failure(post, replies)
                        },
                        _ => false,
                    }
                }
            },
        },
        Waiting::QueryParsed => match event {
            Event::ParseFailed => simple_failure(post, replies),
            Event::ParsedMany => simple_failure(post, replies),
            Event::ParsedNone => answers(
                post,
                replies,
                seq![Reply::EmptyQueryResponse, Reply::ReadyForQuery],
            ),
            Event::ParsedOne => moves_on(post, Waiting::QueryPrepared, replies),
            _ => false,
        },
        Waiting::QueryPrepared => match event {
            Event::PrepareFailed => simple_failure(post, replies),
            Event::Prepared => {
                ||| simple_failure(post, replies)
                ||| post == (ProtocolState {
                    phase: Phase::Ready,
                    skipping: false,
                    waiting: Waiting::QueryPortal,
                }) && replies == seq![Reply::RowDescription]
            },
            _ => false,
        },
        Waiting::QueryPortal => match event {
            Event::PortalFailed => simple_failure(post, replies),
            Event::PortalCreated => moves_on(post, Waiting::QueryRows, replies),
            _ => false,
        },
        Waiting::QueryRows => match event {
            Event::FetchFailed => simple_failure(post, replies),
            Event::Fetched => answers(
                post,
                replies,
                seq![Reply::DataRows, Reply::CommandComplete, Reply::ReadyForQuery],
            ),
            _ => false,
        },
        Waiting::ParseParsed => match event {
            Event::ParseFailed => extended_failure(post, replies),
            Event::ParsedMany => extended_failure(post, replies),
            Event::ParsedNone => answers(post, replies, seq![Reply::ParseComplete]),
            Event::ParsedOne => moves_on(post, Waiting::ParsePrepared, replies),
            _ => false,
        },
        Waiting::ParsePrepared => match event {
            Event::PrepareFailed => extended_failure(post, replies),
            Event::Prepared => {
                ||| extended_failure(post, replies)
                ||| answers(post, replies, seq![Reply::ParseComplete])
            },
            _ => false,
        },
        Waiting::BindPortal => match event {
            Event::PortalFailed => extended_failure(post, replies),
            Event::PortalCreated => answers(post, replies, seq![Reply::BindComplete]),
            _ => false,
        },
        Waiting::ExecuteRows => match event {
            Event::FetchFailed => extended_failure(post, replies),
            Event::Fetched => answers(post, replies, seq![Reply::DataRows, Reply::CommandComplete]),
            _ => false,
        },
    }
}

/// How often the server says that it is ready.
pub open spec fn ready_count(replies: Seq<Reply>) -> nat
    decreases replies.len(),
{
    if replies.len() == 0 {
        0
    } else {
        ready_count(replies.drop_last()) + if replies.last() is ReadyForQuery {
            1nat
        } else {
            0nat
        }
    }
}

/// One step of a connection.
pub struct Transition {
    pub pre: ProtocolState,
    pub event: Event,
    pub post: ProtocolState,
    pub replies: Seq<Reply>,
}

/// Whether the steps follow the rules and each begins where the one before
/// it ended.
pub open spec fn chained(trace: Seq<Transition>) -> bool {
    &&& forall|i: int|
        0 <= i < trace.len() ==> follows(
            (#[trigger] trace[i]).pre,
            trace[i].event,
            trace[i].post,
            trace[i].replies,
        )
    &&& forall|i: int, j: int|
        0 <= i && j == i + 1 && j < trace.len() ==> (#[trigger] trace[i]).post == (
        #[trigger] trace[j]).pre
}

/// All the replies of the steps, in order.
pub open spec fn all_replies(trace: Seq<Transition>) -> Seq<Reply>
    decreases trace.len(),
{
    if trace.len() == 0 {
        Seq::<Reply>::empty()
    } else {
        all_replies(trace.drop_last()) + trace.last().replies
    }
}

/// The count over two runs of replies is the sum of their counts.
pub proof fn lemma_ready_count_add(a: Seq<Reply>, b: Seq<Reply>)
    ensures
        ready_count(a + b) == ready_count(a) + ready_count(b),
    decreases b.len(),
{
    if b.len() == 0 {
        assert(a + b =~= a);
    } else {
        assert((a + b).drop_last() =~= a + b.drop_last());
        lemma_ready_count_add(a, b.drop_last());
    }
}

/// One step in the middle of a simple query either ends the query, and then
/// says once, and last of all, that the server is ready; or it goes on with
/// the query and does not say so.
pub proof fn lemma_simple_step(pre: ProtocolState, event: Event, post: ProtocolState, replies: Seq<Reply>)
    requires
        follows(pre, event, post, replies),
        pre.waiting.simple(),
    ensures
        post.waiting is Message ==> replies.len() > 0 && replies.last() is ReadyForQuery
            && ready_count(replies) == 1,
        !(post.waiting is Message) ==> post.waiting.simple() && ready_count(replies) == 0,
{
    reveal(follows);
    reveal_with_fuel(ready_count, 4);
    if replies.len() == 3 {
        assert(replies.drop_last().drop_last().drop_last().len() == 0);
    }
    if replies.len() == 2 {
        assert(replies.drop_last().drop_last().len() == 0);
    }
    if replies.len() == 1 {
        assert(replies.drop_last().len() == 0);
    }
}

/// While a simple query is under way and has not returned to waiting for a
/// message, the server has not said that it is ready.
proof fn lemma_simple_query_under_way(trace: Seq<Transition>)
    requires
        trace.len() >= 1,
        chained(trace),
        trace[0].pre == ready(false),
        trace[0].event is Query,
        forall|i: int| 0 <= i < trace.len() ==> !((#[trigger] trace[i]).post.waiting is Message),
    ensures
        ready_count(all_replies(trace)) == 0,
        trace.last().post.waiting.simple(),
    decreases trace.len(),
{
    let last = trace.last();
    assert(follows(last.pre, last.event, last.post, last.replies));
    if trace.len() == 1 {
        lemma_query_received(last.pre, last.event, last.post, last.replies);
        assert(all_replies(trace.drop_last()) =~= Seq::<Reply>::empty());
        assert(all_replies(trace) =~= last.replies);
    } else {
        let before = trace.drop_last();
        assert(chained(before)) by {
            assert forall|i: int| 0 <= i < before.len() implies follows(
                (#[trigger] before[i]).pre,
                before[i].event,
                before[i].post,
                before[i].replies,
            ) by {
                assert(before[i] == trace[i]);
            }
            assert forall|i: int, j: int| 0 <= i && j == i + 1 && j < before.len() implies (
            #[trigger] before[i]).post == (#[trigger] before[j]).pre by {
                assert(before[i] == trace[i]);
                assert(before[j] == trace[j]);
            }
        }
        assert forall|i: int| 0 <= i < before.len() implies !((#[trigger] before[i]).post.waiting
            is Message) by {
            assert(before[i] == trace[i]);
        }
        lemma_simple_query_under_way(before);
        assert(trace[trace.len() - 2].post == trace[trace.len() - 1].pre);
        assert(before.last() == trace[trace.len() - 2]);
        lemma_simple_step(last.pre, last.event, last.post, last.replies);
        lemma_ready_count_add(all_replies(before), last.replies);
    }
}

/// On every path of a simple query, from the `Query` message to the moment
/// at which the connection waits for a message again, the server says
/// exactly once that it is ready, and says it last.
pub proof fn lemma_simple_query_ready_once(trace: Seq<Transition>)
    requires
        trace.len() >= 1,
        chained(trace),
        trace[0].pre == ready(false),
        trace[0].event is Query,
        forall|i: int|
            0 <= i < trace.len() - 1 ==> !((#[trigger] trace[i]).post.waiting is Message),
        trace.last().post.waiting is Message,
    ensures
        ready_count(all_replies(trace)) == 1,
        all_replies(trace).len() > 0,
        all_replies(trace).last() is ReadyForQuery,
{
    let last = trace.last();
    assert(follows(last.pre, last.event, last.post, last.replies));
    if trace.len() == 1 {
        lemma_query_received(last.pre, last.event, last.post, last.replies);
    } else {
        let before = trace.drop_last();
        assert(chained(before)) by {
            assert forall|i: int| 0 <= i < before.len() implies follows(
                (#[trigger] before[i]).pre,
                before[i].event,
                before[i].post,
                before[i].replies,
            ) by {
                assert(before[i] == trace[i]);
            }
            assert forall|i: int, j: int| 0 <= i && j == i + 1 && j < before.len() implies (
            #[trigger] before[i]).post == (#[trigger] before[j]).pre by {
                assert(before[i] == trace[i]);
                assert(before[j] == trace[j]);
            }
        }
        assert forall|i: int| 0 <= i < before.len() implies !((#[trigger] before[i]).post.waiting
            is Message) by {
            assert(before[i] == trace[i]);
        }
        lemma_simple_query_under_way(before);
        assert(trace[trace.len() - 2].post == trace[trace.len() - 1].pre);
        assert(before.last() == trace[trace.len() - 2]);
        lemma_simple_step(last.pre, last.event, last.post, last.replies);
        lemma_ready_count_add(all_replies(before), last.replies);
    }
}

/// To `Sync` the server answers that it is ready, once and with nothing
/// else, and stops passing messages over. No other step outside a simple
/// query says that the server is ready, but the handshake.
pub proof fn lemma_sync_ready_once(
    pre: ProtocolState,
    event: Event,
    post: ProtocolState,
    replies: Seq<Reply>,
)
    requires
        follows(pre, event, post, replies),
        pre.phase is Ready,
        !pre.waiting.simple(),
    ensures
        event is Sync && pre.waiting is Message ==> replies == seq![Reply::ReadyForQuery] && post
            == ready(false),
        !(event is Sync) ==> ready_count(replies) == 0,
{
    reveal(follows);
    reveal_with_fuel(ready_count, 4);
    if replies.len() == 2 {
        assert(replies.drop_last().drop_last().len() == 0);
    }
    if replies.len() == 1 {
        assert(replies.drop_last().len() == 0);
    }
}

/// An error in the extended flow that leaves the connection open makes it
/// pass messages over.
pub proof fn lemma_error_suspends(
    pre: ProtocolState,
    event: Event,
    post: ProtocolState,
    replies: Seq<Reply>,
)
    requires
        follows(pre, event, post, replies),
        pre.phase is Ready,
        !pre.waiting.simple(),
        replies.contains(Reply::ErrorResponse),
        post.phase is Ready,
    ensures
        post == ready(true),
        replies == seq![Reply::ErrorResponse],
{
    reveal(follows);
    let i = choose|i: int| 0 <= i < replies.len() && replies[i] == Reply::ErrorResponse;
    assert(replies[i] == Reply::ErrorResponse);
}

/// While messages are passed over, nothing is sent and nothing changes until
/// `Sync` comes, unless the connection ends.
pub proof fn lemma_passed_over(pre: ProtocolState, event: Event, post: ProtocolState, replies: Seq<Reply>)
    requires
        follows(pre, event, post, replies),
        pre == ready(true),
        !(event is Sync),
    ensures
        post.phase is Ready ==> post == pre && replies == Seq::<Reply>::empty(),
        post.phase is Closed ==> replies == Seq::<Reply>::empty() || replies
            == seq![Reply::ErrorResponse],
{
    reveal(follows);
}

/// A `Query` message that is not passed over starts a simple query, and
/// nothing is sent yet.
pub proof fn lemma_query_received(
    pre: ProtocolState,
    event: Event,
    post: ProtocolState,
    replies: Seq<Reply>,
)
    requires
        follows(pre, event, post, replies),
        pre == ready(false),
        event is Query,
    ensures
        post.waiting is QueryParsed,
        replies == Seq::<Reply>::empty(),
{
    reveal(follows);
}

/// After an error in the extended flow, up to and including the answer to
/// the next `Sync`, the server sends one thing: that it is ready.
pub proof fn lemma_error_skip(trace: Seq<Transition>)
    requires
        trace.len() >= 1,
        chained(trace),
        trace[0].pre == ready(true),
        forall|i: int| 0 <= i < trace.len() - 1 ==> !((#[trigger] trace[i]).event is Sync),
        forall|i: int| 0 <= i < trace.len() - 1 ==> (#[trigger] trace[i]).post.phase is Ready,
        trace.last().event is Sync,
    ensures
        all_replies(trace) == seq![Reply::ReadyForQuery],
        trace.last().post == ready(false),
    decreases trace.len(),
{
    lemma_silent_prefix(trace.drop_last());
    let last = trace.last();
    assert(follows(last.pre, last.event, last.post, last.replies));
    if trace.len() > 1 {
        assert(trace[trace.len() - 2].post == trace[trace.len() - 1].pre);
        assert(trace.drop_last().last() == trace[trace.len() - 2]);
    }
    lemma_sync_ready_once(last.pre, last.event, last.post, last.replies);
    assert(all_replies(trace) =~= seq![Reply::ReadyForQuery]);
}

/// Steps that begin while messages are passed over, hold no `Sync` and keep
/// the connection open send nothing and change nothing.
proof fn lemma_silent_prefix(trace: Seq<Transition>)
    requires
        chained(trace) || trace.len() == 0,
        trace.len() > 0 ==> trace[0].pre == ready(true),
        forall|i: int| 0 <= i < trace.len() ==> !((#[trigger] trace[i]).event is Sync),
        forall|i: int| 0 <= i < trace.len() ==> (#[trigger] trace[i]).post.phase is Ready,
    ensures
        all_replies(trace) == Seq::<Reply>::empty(),
        trace.len() > 0 ==> trace.last().post == ready(true),
    decreases trace.len(),
{
    if trace.len() > 0 {
        let last = trace.last();
        let before = trace.drop_last();
        assert(follows(last.pre, last.event, last.post, last.replies));
        if before.len() > 0 {
            assert(chained(before)) by {
                assert forall|i: int| 0 <= i < before.len() implies follows(
                    (#[trigger] before[i]).pre,
                    before[i].event,
                    before[i].post,
                    before[i].replies,
                ) by {
                    assert(before[i] == trace[i]);
                }
                assert forall|i: int, j: int|
                    0 <= i && j == i + 1 && j < before.len() implies (#[trigger] before[i]).post
                    == (#[trigger] before[j]).pre by {
                    assert(before[i] == trace[i]);
                    assert(before[j] == trace[j]);
                }
            }
            assert(before[0] == trace[0]);
        }
        assert forall|i: int| 0 <= i < before.len() implies !((#[trigger] before[i]).event
            is Sync) by {
            assert(before[i] == trace[i]);
        }
        assert forall|i: int| 0 <= i < before.len() implies (#[trigger] before[i]).post.phase
            is Ready by {
            assert(before[i] == trace[i]);
        }
        lemma_silent_prefix(before);
        if before.len() > 0 {
            assert(trace[trace.len() - 2].post == trace[trace.len() - 1].pre);
            assert(before.last() == trace[trace.len() - 2]);
        }
        lemma_passed_over(last.pre, last.event, last.post, last.replies);
        assert(all_replies(trace) =~= Seq::<Reply>::empty());
    }
}

} // verus!
