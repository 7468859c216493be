//! The node itself: its identity, the identifiers it issues, the table of
//! requests that await a reply, and what it does with each line of input.
//!
//! The node is a state machine. A caller feeds it lines and requests, and
//! performs the actions it answers with: writing a line, handing a reply to
//! the caller that waits for it, or running the handler.

use crate::error::{Error, ErrorKind, ErrorView};
use crate::json::{json_to_string, map_new};
use crate::proto::{
    frame, single_line, strings_view, BodyView, InitMessage, InitView, IntoBody, Message, MessageBody,
    MessageView,
};
use std::collections::HashSet;
use vstd::prelude::*;
use vstd::string::*;

verus! {

broadcast use vstd::std_specs::hash::group_hash_axioms;

/// Who a node is: its own identifier and those of all nodes of the cluster.
#[derive(Debug)]
pub struct NodeMetadata {
    pub node_id: String,
    pub node_ids: Vec<String>,
}

impl View for NodeMetadata {
    type V = InitView;

    open spec fn view(&self) -> InitView {
        InitView {
            node_id: self.node_id@,
            node_ids: strings_view(self.node_ids@),
        }
    }
}

impl Clone for NodeMetadata {
    fn clone(&self) -> (r: Self)
        ensures
            r@ == self@,
    {
        let mut node_ids: Vec<String> = Vec::new();
        let mut i: usize = 0;
        while i < self.node_ids.len()
            invariant
                i <= self.node_ids.len(),
                node_ids.len() == i,
                forall|j: int| 0 <= j < i ==> (#[trigger] node_ids[j])@ == self.node_ids[j]@,
            decreases self.node_ids.len() - i,
        {
            node_ids.push(self.node_ids[i].clone());
            i += 1;
        }
        proof {
            assert(strings_view(node_ids@) =~= strings_view(
                self.node_ids@,
            ));
        }
        NodeMetadata { node_id: self.node_id.clone(), node_ids }
    }
}

/// What a node asks of whoever runs it, in answer to a line of input.
#[derive(Debug)]
pub enum Action {
    /// Write this envelope to the output.
    Write(Message),
    /// Hand this outcome to the caller that awaits the reply to the request
    /// with this identifier.
    Deliver(u32, Result<Message, Error>),
    /// Run the handler on this request.
    Invoke(Message),
    /// Do nothing.
    Nothing,
}

/// The mathematical content of an [`Action`].
pub enum ActionView {
    Write(MessageView),
    Deliver(u32, Result<MessageView, ErrorView>),
    Invoke(MessageView),
    Nothing,
}

impl View for Action {
    type V = ActionView;

    open spec fn view(&self) -> ActionView {
        match self {
            Action::Write(m) => ActionView::Write(m@),
            Action::Deliver(id, Ok(m)) => ActionView::Deliver(*id, Ok(m@)),
            Action::Deliver(id, Err(e)) => ActionView::Deliver(*id, Err(e@)),
            Action::Invoke(m) => ActionView::Invoke(m@),
            Action::Nothing => ActionView::Nothing,
        }
    }
}

/// The content of the outcome of a call: a reply or a failure.
pub open spec fn outcome_view(r: Result<Message, Error>) -> Result<MessageView, ErrorView> {
    match r {
        Ok(m) => Ok(m@),
        Err(e) => Err(e@),
    }
}

/// What the caller of a request gets for a reply: the failure that a reply
/// of type `error` carries, and else the reply itself. A reply of type
/// `error` that carries no readable error counts as a malformed request.
pub open spec fn rpc_outcome_spec(reply: MessageView) -> Result<MessageView, ErrorView> {
    if reply.body.ty == "error"@ {
        match ErrorView::from_body(reply.body) {
            Some(e) => Err(e),
            None => Err(Error::of_kind(ErrorKind::MalformedRequest)),
        }
    } else {
        Ok(reply)
    }
}

/// The state of a node, apart from the application's own state.
pub struct NodeView {
    /// Who the node is, once an `init` message has told it.
    pub identity: Option<InitView>,
    /// The identifiers of the requests that await a reply.
    pub pending: Set<u32>,
    /// The identifier issued last; 0 before the first.
    pub issued: u32,
}

impl NodeView {
    /// A node that has seen nothing yet.
    pub open spec fn fresh() -> NodeView {
        NodeView { identity: None, pending: Set::empty(), issued: 0 }
    }

    /// Every request that awaits a reply bears an identifier that was
    /// issued: one from 1 to the one issued last.
    pub open spec fn wf(self) -> bool {
        forall|id: u32| self.pending.contains(id) ==> 0 < id <= self.issued
    }

    /// The node's own identifier; empty before the node has been told.
    pub open spec fn own_id(self) -> Seq<char> {
        match self.identity {
            Some(who) => who.node_id,
            None => Seq::empty(),
        }
    }

    /// The message that reports a line which could not be read.
    pub open spec fn malformed(self) -> MessageView {
        MessageView {
            src: self.own_id(),
            dst: "error"@,
            body: Error::of_kind(ErrorKind::MalformedRequest).to_body(),
        }
    }

    /// The handshake. An `init` message that names the node and the cluster
    /// sets the identity, in place of an earlier one, and is answered with
    /// `init_ok`; one that does not is answered with an error.
    pub open spec fn init(self, req: MessageView) -> (NodeView, ActionView) {
        match InitView::from_payload(req.body.extra) {
            Some(who) => (
                NodeView { identity: Some(who), ..self },
                ActionView::Write(
                    MessageView {
                        src: who.node_id,
                        dst: req.src,
                        body: BodyView {
                            in_reply_to: req.body.msg_id,
                            ..BodyView::of_type("init_ok"@)
                        },
                    },
                ),
            ),
            None => (
                self,
                ActionView::Write(
                    MessageView {
                        src: self.own_id(),
                        dst: req.src,
                        body: BodyView {
                            in_reply_to: req.body.msg_id,
                            ..Error::of_kind(ErrorKind::MalformedRequest).to_body()
                        },
                    },
                ),
            ),
        }
    }

    /// A reply. Where a request awaits it, the request leaves the table and
    /// its caller gets the outcome; where none does, nothing happens.
    pub open spec fn resolve(self, reply: MessageView) -> (NodeView, ActionView) {
        let id = reply.body.in_reply_to;
        if self.pending.contains(id) {
            (
                NodeView { pending: self.pending.remove(id), ..self },
                ActionView::Deliver(id, rpc_outcome_spec(reply)),
            )
        } else {
            (self, ActionView::Nothing)
        }
    }

    /// A request that has waited long enough. Where it is still in the
    /// table it leaves, and its caller gets a timeout; where it is not,
    /// nothing happens.
    pub open spec fn expire(self, id: u32) -> (NodeView, ActionView) {
        if self.pending.contains(id) {
            (
                NodeView { pending: self.pending.remove(id), ..self },
                ActionView::Deliver(id, Err(Error::of_kind(ErrorKind::Timeout))),
            )
        } else {
            (self, ActionView::Nothing)
        }
    }

    /// What a node does with a message: the handshake for `init`, the
    /// correlation for a reply, and the handler for any other message once
    /// the node knows who it is; before that such a message is dropped.
    pub open spec fn dispatch(self, req: MessageView) -> (NodeView, ActionView) {
        if req.body.ty == "init"@ {
            self.init(req)
        } else if req.body.in_reply_to != 0 {
            self.resolve(req)
        } else if self.identity is Some {
            (self, ActionView::Invoke(req))
        } else {
            (self, ActionView::Nothing)
        }
    }

    /// What a node does with a line of input: a line that denotes no
    /// envelope is reported, any other is dispatched.
    pub open spec fn serve(self, line: Seq<char>) -> (NodeView, ActionView) {
        match MessageView::parse(line) {
            Some(req) => self.dispatch(req),
            None => (self, ActionView::Write(self.malformed())),
        }
    }

    /// The envelope of an outgoing request: from this node, with the next
    /// identifier stamped into the body.
    pub open spec fn outgoing(self, dst: Seq<char>, body: BodyView) -> MessageView {
        MessageView {
            src: self.own_id(),
            dst,
            body: BodyView { msg_id: (self.issued + 1) as u32, ..body },
        }
    }

    /// Why a node cannot issue a request, if it cannot: it does not know
    /// yet who it is, or it has used up the identifiers.
    pub open spec fn refusal(self) -> Option<ErrorView> {
        if self.identity is None {
            Some(Error::of_kind(ErrorKind::TemporarilyUnavailable))
        } else if self.issued == u32::MAX {
            Some(Error::of_kind(ErrorKind::Abort))
        } else {
            None
        }
    }

    /// Sending without awaiting a reply: the next identifier is used, and
    /// no request is added to the table.
    pub open spec fn send(self, dst: Seq<char>, body: BodyView) -> (
        NodeView,
        Result<MessageView, ErrorView>,
    ) {
        match self.refusal() {
            Some(e) => (self, Err(e)),
            None => (
                NodeView { issued: (self.issued + 1) as u32, ..self },
                Ok(self.outgoing(dst, body)),
            ),
        }
    }

    /// Sending a request that awaits a reply: the next identifier is used
    /// and added to the table.
    pub open spec fn rpc(self, dst: Seq<char>, body: BodyView) -> (
        NodeView,
        Result<MessageView, ErrorView>,
    ) {
        match self.refusal() {
            Some(e) => (self, Err(e)),
            None => (
                NodeView {
                    issued: (self.issued + 1) as u32,
                    pending: self.pending.insert((self.issued + 1) as u32),
                    ..self
                },
                Ok(self.outgoing(dst, body)),
            ),
        }
    }

    /// The reply to a request, from the handler's answer: the body that the
    /// answer stands for, marked as the reply to the request and addressed
    /// to its sender; nothing where the answer stands for no body.
    pub open spec fn respond(self, req: MessageView, answer: Option<BodyView>) -> Option<
        MessageView,
    > {
        match answer {
            Some(body) => Some(
                MessageView {
                    src: self.own_id(),
                    dst: req.src,
                    body: BodyView { in_reply_to: req.body.msg_id, ..body },
                },
            ),
            None => None,
        }
    }
}

/// Whether a string reads as the given text.
pub(crate) fn is_text(s: &String, text: &str) -> (r: bool)
    ensures
        r == (s@ == text@),
{
    let t = String::from_str(text);
    *s == t
}

/// What the caller of a request gets for a reply: the failure that a reply
/// of type `error` carries, and else the reply itself.
pub fn rpc_outcome(reply: Message) -> (r: Result<Message, Error>)
    ensures
        outcome_view(r) == rpc_outcome_spec(reply@),
{
    if is_text(&reply.body.ty, "error") {
        match Error::from_body(&reply.body) {
            Some(e) => Err(e),
            None => Err(Error::malformed_request()),
        }
    } else {
        Ok(reply)
    }
}

/// The parts of a node.
pub struct NodeInner<S> {
    state: S,
    node_data: Option<NodeMetadata>,
    channel_map: HashSet<u32>,
    msg_ctr: u32,
}

/// A node of the cluster, with the application's state of type `S`.
pub struct Node<S> {
    inner: NodeInner<S>,
}

impl<S> View for Node<S> {
    type V = NodeView;

    closed spec fn view(&self) -> NodeView {
        NodeView {
            identity: match self.inner.node_data {
                Some(who) => Some(who@),
                None => None,
            },
            pending: self.inner.channel_map@,
            issued: self.inner.msg_ctr,
        }
    }
}

impl Node<()> {
    /// A node without application state, which has seen nothing yet.
    pub fn new() -> (r: Self)
        ensures
            r@ == NodeView::fresh(),
            r.wf(),
    {
        Node::with_state(())
    }
}

impl<S> Node<S> {
    /// The application's state.
    pub closed spec fn app_state(&self) -> S {
        self.inner.state
    }

    /// The node's invariant: see [`NodeView::wf`].
    pub open spec fn wf(&self) -> bool {
        self@.wf()
    }

    /// A node with the given application state, which has seen nothing yet.
    pub fn with_state(state: S) -> (r: Self)
        ensures
            r@ == NodeView::fresh(),
            r.app_state() == state,
            r.wf(),
    {
        Node {
            inner: NodeInner { state, node_data: None, channel_map: HashSet::new(), msg_ctr: 0 },
        }
    }

    /// Whether an `init` message has told the node who it is.
    pub fn is_initialized(&self) -> (r: bool)
        ensures
            r == (self@.identity is Some),
    {
        self.inner.node_data.is_some()
    }

    /// The node's own identifier.
    pub fn id(&self) -> (r: &String)
        requires
            self@.identity is Some,
        ensures
            r@ == self@.identity.unwrap().node_id,
    {
        &self.inner.node_data.as_ref().unwrap().node_id
    }

    /// The identifiers of all nodes of the cluster, this one included.
    pub fn node_ids(&self) -> (r: &Vec<String>)
        requires
            self@.identity is Some,
        ensures
            strings_view(r@) == self@.identity.unwrap().node_ids,
    {
        &self.inner.node_data.as_ref().unwrap().node_ids
    }

    /// Who the node is.
    pub fn node_metadata(&self) -> (r: &NodeMetadata)
        requires
            self@.identity is Some,
        ensures
            r@ == self@.identity.unwrap(),
    {
        self.inner.node_data.as_ref().unwrap()
    }

    /// The application's state.
    pub fn state(&self) -> (r: &S)
        ensures
            *r == self.app_state(),
    {
        &self.inner.state
    }

    /// Whether a request with this identifier awaits a reply.
    pub fn is_pending(&self, id: u32) -> (r: bool)
        ensures
            r == self@.pending.contains(id),
    {
        self.inner.channel_map.contains(&id)
    }

    /// The node's own identifier, or the empty string before the node has
    /// been told.
    fn own_id(&self) -> (r: String)
        ensures
            r@ == self@.own_id(),
    {
        match &self.inner.node_data {
            Some(who) => who.node_id.clone(),
            None => String::new(),
        }
    }

    /// Stamps the next identifier into a body and addresses it, where the
    /// node can issue one.
    fn issue(&mut self, dst: String, body: MessageBody) -> (r: Result<Message, Error>)
        requires
            old(self).wf(),
        ensures
            final(self).wf(),
            (final(self)@, outcome_view(r)) == old(self)@.send(dst@, body@),
            final(self).app_state() == old(self).app_state(),
    {
        if self.inner.node_data.is_none() {
            return Err(Error::temporarily_unavailable());
        }
        if self.inner.msg_ctr == u32::MAX {
            return Err(Error::abort());
        }
        let msg_id: u32 = self.inner.msg_ctr + 1;
        let src = self.own_id();
        self.inner.msg_ctr = msg_id;
        proof {
            assert forall|id: u32| self@.pending.contains(id) implies 0 < id <= self@.issued by {
                assert(old(self)@.pending.contains(id));
            }
        }
        Ok(
            Message {
                src,
                dst,
                body: MessageBody {
                    ty: body.ty,
                    msg_id,
                    in_reply_to: body.in_reply_to,
                    extra: body.extra,
                },
            },
        )
    }

    /// Builds the envelope of a message to a destination node for which no
    /// reply is awaited, with the next identifier stamped into the body.
    /// Fails before the node knows who it is, and when the identifiers are
    /// used up; the node is then unchanged.
    pub fn send(&mut self, dst: String, body: MessageBody) -> (r: Result<Message, Error>)
        requires
            old(self).wf(),
        ensures
            final(self).wf(),
            (final(self)@, outcome_view(r)) == old(self)@.send(dst@, body@),
            final(self)@.pending == old(self)@.pending,
            final(self).app_state() == old(self).app_state(),
    {
        self.issue(dst, body)
    }

    /// Builds the envelope of a request to a destination node and enters
    /// the request in the table of those that await a reply, under the next
    /// identifier, which no waiting request bears. Fails as `send` does.
    pub fn rpc(&mut self, dst: String, body: MessageBody) -> (r: Result<Message, Error>)
        requires
            old(self).wf(),
        ensures
            final(self).wf(),
            (final(self)@, outcome_view(r)) == old(self)@.rpc(dst@, body@),
            r is Ok ==> !old(self)@.pending.contains(r.unwrap()@.body.msg_id),
            final(self).app_state() == old(self).app_state(),
    {
        match self.issue(dst, body) {
            Ok(msg) => {
                let _ = self.inner.channel_map.insert(msg.body.msg_id);
                proof {
                    let id = msg.body.msg_id;
                    assert(self@.pending =~= old(self)@.pending.insert(id));
                    assert forall|other: u32| self@.pending.contains(other) implies 0 < other
                        <= self@.issued by {
                        if other != id {
                            assert(old(self)@.pending.contains(other));
                        }
                    }
                    if old(self)@.pending.contains(id) {
                        assert(id <= old(self)@.issued);
                    }
                }
                Ok(msg)
            },
            Err(e) => Err(e),
        }
    }

    /// Gives up a request that awaits a reply: it leaves the table, and a
    /// reply that comes later is dropped. Says whether it was in the table.
    pub fn cancel(&mut self, id: u32) -> (r: bool)
        requires
            old(self).wf(),
        ensures
            final(self).wf(),
            r == old(self)@.pending.contains(id),
            final(self)@ == (NodeView { pending: old(self)@.pending.remove(id), ..old(self)@ }),
            final(self).app_state() == old(self).app_state(),
    {
        let was = self.inner.channel_map.remove(&id);
        proof {
            assert(self@.pending =~= old(self)@.pending.remove(id));
            assert forall|i: u32| self@.pending.contains(i) implies 0 < i <= self@.issued by {
                assert(old(self)@.pending.contains(i));
            }
        }
        was
    }

    /// Ends the wait of a request whose reply has not come in time: the
    /// request leaves the table and its caller gets a timeout. For a request
    /// that is not in the table nothing is done.
    pub fn timeout(&mut self, id: u32) -> (action: Action)
        requires
            old(self).wf(),
        ensures
            final(self).wf(),
            (final(self)@, action@) == old(self)@.expire(id),
            final(self).app_state() == old(self).app_state(),
    {
        if self.cancel(id) {
            Action::Deliver(id, Err(Error::timeout()))
        } else {
            proof {
                assert(self@.pending =~= old(self)@.pending);
            }
            Action::Nothing
        }
    }

    /// Decides what to do with a message that was read from the input.
    pub fn dispatch(&mut self, req: Message) -> (action: Action)
        requires
            old(self).wf(),
        ensures
            final(self).wf(),
            (final(self)@, action@) == old(self)@.dispatch(req@),
            final(self).app_state() == old(self).app_state(),
    {
        if is_text(&req.body.ty, "init") {
            match InitMessage::from_body(&req.body) {
                Some(init) => {
                    let reply = Message {
                        src: init.node_id.clone(),
                        dst: req.src,
                        body: MessageBody {
                            ty: String::from_str("init_ok"),
                            msg_id: 0,
                            in_reply_to: req.body.msg_id,
                            extra: map_new(),
                        },
                    };
                    self.inner.node_data = Some(
                        NodeMetadata { node_id: init.node_id, node_ids: init.node_ids },
                    );
                    Action::Write(reply)
                },
                None => {
                    let e = Error::malformed_request().into_body();
                    Action::Write(
                        Message {
                            src: self.own_id(),
                            dst: req.src,
                            body: MessageBody {
                                ty: e.ty,
                                msg_id: e.msg_id,
                                in_reply_to: req.body.msg_id,
                                extra: e.extra,
                            },
                        },
                    )
                },
            }
        } else if req.body.in_reply_to != 0 {
            let id: u32 = req.body.in_reply_to;
            if self.cancel(id) {
                Action::Deliver(id, rpc_outcome(req))
            } else {
                proof {
                    assert(self@.pending =~= old(self)@.pending);
                }
                Action::Nothing
            }
        } else if self.inner.node_data.is_some() {
            Action::Invoke(req)
        } else {
            Action::Nothing
        }
    }

    /// Decides what to do with a line of input.
    pub fn serve(&mut self, line: &str) -> (action: Action)
        requires
            old(self).wf(),
        ensures
            final(self).wf(),
            (final(self)@, action@) == old(self)@.serve(line@),
            final(self).app_state() == old(self).app_state(),
    {
        match Message::decode(line) {
            Ok(req) => self.dispatch(req),
            Err(e) => Action::Write(
                Message { src: self.own_id(), dst: String::from_str("error"), body: e.into_body() },
            ),
        }
    }

    /// Builds the reply to a request from the handler's answer, or nothing
    /// where the answer stands for no body.
    pub fn respond(&self, req: &Message, answer: IntoBody) -> (r: Option<Message>)
        ensures
            (match self@.respond(req@, answer.body()) {
                Some(m) => r is Some && r.unwrap()@ == m,
                None => r is None,
            }),
    {
        match answer.into_body() {
            Some(body) => Some(
                Message {
                    src: self.own_id(),
                    dst: req.src.clone(),
                    body: MessageBody {
                        ty: body.ty,
                        msg_id: body.msg_id,
                        in_reply_to: req.body.msg_id,
                        extra: body.extra,
                    },
                },
            ),
            None => None,
        }
    }
}

impl<S: Default> Default for Node<S> {
    fn default() -> (r: Self)
        ensures
            r@ == NodeView::fresh(),
            call_ensures(S::default, (), r.app_state()),
            r.wf(),
    {
        Node::with_state(S::default())
    }
}

/// The line of output that carries an envelope: its compact JSON text and
/// a line feed, which is the only one in it. Every envelope has its line.
pub fn write_message(msg: &Message) -> (r: Result<String, Error>)
    ensures
        r is Ok,
        r.unwrap()@ == msg@.to_line(),
        single_line(r.unwrap()@),
{
    let v = msg.to_value();
    frame(json_to_string(&v))
}

impl NodeView {
    /// The state of a node after it has dispatched each message of a
    /// sequence in turn.
    pub open spec fn run(self, msgs: Seq<MessageView>) -> NodeView
        decreases msgs.len(),
    {
        if msgs.len() == 0 {
            self
        } else {
            self.run(msgs.drop_last()).dispatch(msgs.last()).0
        }
    }
}

/// Whether every message of a sequence is a reply: none is an `init`, and
/// each names the request that it answers.
pub open spec fn all_replies(msgs: Seq<MessageView>) -> bool {
    forall|i: int|
        0 <= i < msgs.len() ==> (#[trigger] msgs[i]).body.ty != "init"@ && msgs[i].body.in_reply_to
            != 0
}

/// Whether some message of a sequence answers the request with this
/// identifier.
pub open spec fn answers(msgs: Seq<MessageView>, id: u32) -> bool {
    exists|i: int| 0 <= i < msgs.len() && (#[trigger] msgs[i]).body.in_reply_to == id
}

/// The handshake: an `init` message that names the node and the cluster
/// makes that the node's identity, whatever the node held before, and is
/// answered with one `init_ok` that bears the message's identifier as the
/// request it replies to. The table and the identifiers stay as they are.
pub proof fn lemma_init_handshake(pre: NodeView, req: MessageView, who: InitView)
    requires
        req.body.ty == "init"@,
        InitView::from_payload(req.body.extra) == Some(who),
    ensures
        pre.dispatch(req).0 == (NodeView { identity: Some(who), ..pre }),
        pre.dispatch(req).1 == ActionView::Write(
            MessageView {
                src: who.node_id,
                dst: req.src,
                body: BodyView { in_reply_to: req.body.msg_id, ..BodyView::of_type("init_ok"@) },
            },
        ),
{
}

/// An `init` message is never handed to the handler: it is answered with
/// one message, whatever it holds.
pub proof fn lemma_init_never_invokes(pre: NodeView, req: MessageView)
    requires
        req.body.ty == "init"@,
    ensures
        pre.dispatch(req).1 is Write,
{
}

/// A message that names no request is no reply: it resolves nothing and
/// leaves the table as it is. And no request in the table bears the
/// identifier 0.
pub proof fn lemma_zero_matches_nothing(pre: NodeView, req: MessageView)
    requires
        pre.wf(),
        req.body.in_reply_to == 0,
    ensures
        !(pre.dispatch(req).1 is Deliver),
        pre.dispatch(req).0.pending == pre.pending,
        !pre.pending.contains(0),
{
}

/// A reply to a request that awaits one resolves that request with the
/// reply's outcome, and every other request goes on waiting.
pub proof fn lemma_reply_resolves(pre: NodeView, reply: MessageView)
    requires
        reply.body.ty != "init"@,
        reply.body.in_reply_to != 0,
        pre.pending.contains(reply.body.in_reply_to),
    ensures
        pre.dispatch(reply).1 == ActionView::Deliver(
            reply.body.in_reply_to,
            rpc_outcome_spec(reply),
        ),
        !pre.dispatch(reply).0.pending.contains(reply.body.in_reply_to),
        forall|id: u32|
            id != reply.body.in_reply_to ==> (pre.dispatch(reply).0.pending.contains(id)
                <==> pre.pending.contains(id)),
{
}

/// A reply to a request that is not in the table is dropped, and the node
/// stays as it is.
pub proof fn lemma_stray_reply_dropped(pre: NodeView, reply: MessageView)
    requires
        reply.body.ty != "init"@,
        reply.body.in_reply_to != 0,
        !pre.pending.contains(reply.body.in_reply_to),
    ensures
        pre.dispatch(reply) == (pre, ActionView::Nothing),
{
}

/// After a sequence of replies, the requests that still wait are those that
/// waited before and that no reply of the sequence answers. The identity and
/// the identifiers are untouched.
pub proof fn lemma_run_replies(pre: NodeView, msgs: Seq<MessageView>)
    requires
        all_replies(msgs),
    ensures
        pre.run(msgs).identity == pre.identity,
        pre.run(msgs).issued == pre.issued,
        forall|id: u32| #[trigger]
            pre.run(msgs).pending.contains(id) <==> pre.pending.contains(id) && !answers(msgs, id),
    decreases msgs.len(),
{
    if msgs.len() > 0 {
        let before = msgs.drop_last();
        let last = msgs.last();
        assert(all_replies(before)) by {
            assert forall|i: int| 0 <= i < before.len() implies (#[trigger] before[i]).body.ty
                != "init"@ && before[i].body.in_reply_to != 0 by {
                assert(before[i] == msgs[i]);
            }
        }
        lemma_run_replies(pre, before);
        assert(msgs[msgs.len() - 1] == last);
        assert(last.body.ty != "init"@ && last.body.in_reply_to != 0);
        assert(pre.run(msgs) == pre.run(before).resolve(last).0);
        assert forall|id: u32| #[trigger]
            pre.run(msgs).pending.contains(id) <==> pre.pending.contains(id) && !answers(
                msgs,
                id,
            ) by {
            assert(pre.run(before).pending.contains(id) <==> pre.pending.contains(id) && !answers(
                before,
                id,
            ));
            if answers(before, id) {
                let i = choose|i: int|
                    0 <= i < before.len() && (#[trigger] before[i]).body.in_reply_to == id;
                assert(msgs[i] == before[i]);
                assert(answers(msgs, id));
            }
            if last.body.in_reply_to == id {
                assert(msgs[msgs.len() - 1] == last);
                assert(answers(msgs, id));
            }
            if answers(msgs, id) {
                let i = choose|i: int|
                    0 <= i < msgs.len() && (#[trigger] msgs[i]).body.in_reply_to == id;
                if i < before.len() {
                    assert(before[i] == msgs[i]);
                    assert(answers(before, id));
                } else {
                    assert(msgs[i] == last);
                }
            }
        }
    } else {
        assert forall|id: u32| !answers(msgs, id) by {
            if answers(msgs, id) {
                let i = choose|i: int|
                    0 <= i < msgs.len() && (#[trigger] msgs[i]).body.in_reply_to == id;
                assert(false);
            }
        }
    }
}

/// Replies resolve their requests in whatever order they arrive. In any
/// sequence of replies, the first one that answers a request which awaited
/// a reply at the start hands that request its outcome; a reply to a
/// request that did not wait, or that an earlier reply of the sequence has
/// answered, is dropped and changes nothing.
pub proof fn lemma_replies_in_any_order(pre: NodeView, msgs: Seq<MessageView>, i: int)
    requires
        all_replies(msgs),
        0 <= i < msgs.len(),
    ensures
        pre.pending.contains(msgs[i].body.in_reply_to) && !answers(
            msgs.take(i),
            msgs[i].body.in_reply_to,
        ) ==> pre.run(msgs.take(i)).dispatch(msgs[i]).1 == ActionView::Deliver(
            msgs[i].body.in_reply_to,
            rpc_outcome_spec(msgs[i]),
        ),
        !pre.pending.contains(msgs[i].body.in_reply_to) || answers(
            msgs.take(i),
            msgs[i].body.in_reply_to,
        ) ==> pre.run(msgs.take(i)).dispatch(msgs[i]) == (
            pre.run(msgs.take(i)),
            ActionView::Nothing,
        ),
{
    let before = msgs.take(i);
    assert(all_replies(before)) by {
        assert forall|j: int| 0 <= j < before.len() implies (#[trigger] before[j]).body.ty
            != "init"@ && before[j].body.in_reply_to != 0 by {
            assert(before[j] == msgs[j]);
        }
    }
    lemma_run_replies(pre, before);
    let id = msgs[i].body.in_reply_to;
    let now = pre.run(before);
    assert(now.pending.contains(id) <==> pre.pending.contains(id) && !answers(before, id));
    assert(now.dispatch(msgs[i]) == now.resolve(msgs[i]));
}

/// A request that has timed out is resolved once: its entry is gone, so a
/// reply that comes later is dropped, and a second timeout does nothing.
pub proof fn lemma_timeout_evicts(pre: NodeView, id: u32, late: MessageView)
    requires
        pre.pending.contains(id),
        late.body.ty != "init"@,
        late.body.in_reply_to == id,
        id != 0,
    ensures
        pre.expire(id).1 == ActionView::Deliver(id, Err(Error::of_kind(ErrorKind::Timeout))),
        !pre.expire(id).0.pending.contains(id),
        pre.expire(id).0.dispatch(late) == (pre.expire(id).0, ActionView::Nothing),
        pre.expire(id).0.expire(id) == (pre.expire(id).0, ActionView::Nothing),
        forall|other: u32|
            other != id ==> (pre.expire(id).0.pending.contains(other) <==> pre.pending.contains(
                other,
            )),
{
}

/// Sending without awaiting a reply leaves the table of waiting requests
/// as it is.
pub proof fn lemma_send_leaves_table(pre: NodeView, dst: Seq<char>, body: BodyView)
    ensures
        pre.send(dst, body).0.pending == pre.pending,
        pre.send(dst, body).0.identity == pre.identity,
{
}

/// The identifiers that a node issues increase strictly: a message that is
/// sent, with or without a reply awaited, bears an identifier above every
/// one issued before, which is not 0 and which no waiting request bears.
pub proof fn lemma_identifiers_increase(pre: NodeView, dst: Seq<char>, body: BodyView)
    requires
        pre.wf(),
    ensures
        pre.send(dst, body).0.wf(),
        pre.rpc(dst, body).0.wf(),
        pre.send(dst, body).1 is Ok ==> {
            &&& pre.send(dst, body).1->Ok_0.body.msg_id == pre.issued + 1
            &&& pre.send(dst, body).0.issued == pre.issued + 1
        },
        pre.rpc(dst, body).1 is Ok ==> {
            &&& pre.rpc(dst, body).1->Ok_0.body.msg_id == pre.issued + 1
            &&& pre.rpc(dst, body).0.issued == pre.issued + 1
            &&& !pre.pending.contains(pre.rpc(dst, body).1->Ok_0.body.msg_id)
            &&& pre.rpc(dst, body).0.pending == pre.pending.insert((pre.issued + 1) as u32)
        },
{
    if pre.rpc(dst, body).1 is Ok {
        let id = (pre.issued + 1) as u32;
        if pre.pending.contains(id) {
            assert(id <= pre.issued);
        }
        assert forall|other: u32| pre.rpc(dst, body).0.pending.contains(other) implies 0 < other
            <= pre.rpc(dst, body).0.issued by {
            if other != id {
                assert(pre.pending.contains(other));
            }
        }
        assert forall|other: u32| pre.send(dst, body).0.pending.contains(other) implies 0 < other
            <= pre.send(dst, body).0.issued by {
            assert(pre.pending.contains(other));
        }
    }
}

/// Dispatching a message keeps the node's invariant.
pub proof fn lemma_dispatch_keeps_wf(pre: NodeView, req: MessageView)
    requires
        pre.wf(),
    ensures
        pre.dispatch(req).0.wf(),
        pre.dispatch(req).0.issued == pre.issued,
{
    assert forall|id: u32| pre.dispatch(req).0.pending.contains(id) implies 0 < id
        <= pre.dispatch(req).0.issued by {
        assert(pre.pending.contains(id));
    }
}

/// Something that happens to a node: a message comes in, a message goes
/// out with or without a reply awaited, or the wait of a request ends
/// without a reply.
pub enum Event {
    /// A message was read from the input.
    Received(MessageView),
    /// A message is sent for which no reply is awaited.
    Sent(Seq<char>, BodyView),
    /// A request is sent that awaits a reply.
    Requested(Seq<char>, BodyView),
    /// The request with this identifier has waited long enough.
    TimedOut(u32),
    /// The request with this identifier is given up.
    Cancelled(u32),
}

impl NodeView {
    /// The state of a node after an event.
    pub open spec fn step(self, event: Event) -> NodeView {
        match event {
            Event::Received(m) => self.dispatch(m).0,
            Event::Sent(dst, body) => self.send(dst, body).0,
            Event::Requested(dst, body) => self.rpc(dst, body).0,
            Event::TimedOut(id) => self.expire(id).0,
            Event::Cancelled(id) => NodeView { pending: self.pending.remove(id), ..self },
        }
    }

    /// The identifier that an event has the node issue, if it has it issue
    /// one.
    pub open spec fn issues(self, event: Event) -> Option<u32> {
        match event {
            Event::Sent(dst, body) => match self.send(dst, body).1 {
                Ok(m) => Some(m.body.msg_id),
                Err(_) => None,
            },
            Event::Requested(dst, body) => match self.rpc(dst, body).1 {
                Ok(m) => Some(m.body.msg_id),
                Err(_) => None,
            },
            _ => None,
        }
    }

    /// The state of a node after each event of a sequence in turn.
    pub open spec fn after(self, events: Seq<Event>) -> NodeView
        decreases events.len(),
    {
        if events.len() == 0 {
            self
        } else {
            self.after(events.drop_last()).step(events.last())
        }
    }
}

/// An event keeps the node's invariant and never takes back an identifier:
/// the one issued last stays or grows, and an identifier that the event has
/// the node issue lies above the one issued last before.
pub proof fn lemma_step_keeps_wf(pre: NodeView, event: Event)
    requires
        pre.wf(),
    ensures
        pre.step(event).wf(),
        pre.step(event).issued >= pre.issued,
        pre.issues(event) is Some ==> pre.issued < pre.issues(event).unwrap() == pre.step(
            event,
        ).issued,
{
    match event {
        Event::Received(m) => {
            lemma_dispatch_keeps_wf(pre, m);
        },
        Event::Sent(dst, body) => {
            lemma_identifiers_increase(pre, dst, body);
        },
        Event::Requested(dst, body) => {
            lemma_identifiers_increase(pre, dst, body);
        },
        Event::TimedOut(id) => {
            assert forall|i: u32| pre.step(event).pending.contains(i) implies 0 < i <= pre.step(
                event,
            ).issued by {
                assert(pre.pending.contains(i));
            }
        },
        Event::Cancelled(id) => {
            assert forall|i: u32| pre.step(event).pending.contains(i) implies 0 < i <= pre.step(
                event,
            ).issued by {
                assert(pre.pending.contains(i));
            }
        },
    }
}

/// Whatever happens to a node, in whatever order, its invariant holds, and
/// the identifier issued last never falls: after more events it is at least
/// what it was after fewer.
pub proof fn lemma_every_state_wf(pre: NodeView, events: Seq<Event>, k: int)
    requires
        pre.wf(),
        0 <= k <= events.len(),
    ensures
        pre.after(events).wf(),
        pre.after(events.take(k)).wf(),
        pre.after(events.take(k)).issued <= pre.after(events).issued,
    decreases events.len(),
{
    if events.len() == 0 {
        assert(events.take(k) =~= events);
    } else if k == events.len() {
        assert(events.take(k) =~= events);
        lemma_every_state_wf(pre, events.drop_last(), k - 1);
        lemma_step_keeps_wf(pre.after(events.drop_last()), events.last());
    } else {
        assert(events.drop_last().take(k) =~= events.take(k));
        lemma_every_state_wf(pre, events.drop_last(), k);
        lemma_step_keeps_wf(pre.after(events.drop_last()), events.last());
    }
}

/// No identifier is issued twice in the life of a node: of two events that
/// each have the node issue one, the later event's identifier is the
/// greater.
pub proof fn lemma_identifiers_unique(pre: NodeView, events: Seq<Event>, i: int, j: int)
    requires
        pre.wf(),
        0 <= i < j < events.len(),
        pre.after(events.take(i)).issues(events[i]) is Some,
        pre.after(events.take(j)).issues(events[j]) is Some,
    ensures
        pre.after(events.take(i)).issues(events[i]).unwrap() < pre.after(events.take(j)).issues(
            events[j],
        ).unwrap(),
{
    let upto = events.take(j);
    lemma_every_state_wf(pre, upto, i + 1);
    lemma_every_state_wf(pre, upto, i);
    assert(upto.take(i) =~= events.take(i));
    assert(upto.take(i + 1).drop_last() =~= events.take(i));
    assert(upto.take(i + 1).last() == events[i]);
    lemma_step_keeps_wf(pre.after(events.take(i)), events[i]);
    lemma_step_keeps_wf(pre.after(events.take(j)), events[j]);
}

} // verus!
