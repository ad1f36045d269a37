//! The router: the bus's single consumer. For each event it decides which
//! downstream sink is called and with what; the decision is pure, the
//! calls themselves are made by the process around the library.

use vstd::prelude::*;
use crate::channel::EventChannel;
use crate::events::{DomainEvent, DomainEventView};

verus! {

/// The sink call an event is dispatched to: announce text in the chat
/// (optionally without notification), run a console command with no reply,
/// or run a console command and reply with its response in the chat.
#[derive(PartialEq, Eq, Debug)]
pub enum Action {
    SendChat { text: String, silent: bool },
    ExecCommand { cmd: String },
    ExecThenReply { reply_to: i32, cmd: String },
}

/// Mathematical model of an `Action`.
pub enum ActionView {
    SendChat { text: Seq<char>, silent: bool },
    ExecCommand { cmd: Seq<char> },
    ExecThenReply { reply_to: i32, cmd: Seq<char> },
}

impl View for Action {
    type V = ActionView;

    open spec fn view(&self) -> ActionView {
        match self {
            Action::SendChat { text, silent } => ActionView::SendChat {
                text: text@,
                silent: *silent,
            },
            Action::ExecCommand { cmd } => ActionView::ExecCommand { cmd: cmd@ },
            Action::ExecThenReply { reply_to, cmd } => ActionView::ExecThenReply {
                reply_to: *reply_to,
                cmd: cmd@,
            },
        }
    }
}

/// The dispatch rule. Game messages go to the chat sink with their silent
/// flag; plain chat messages are forwarded verbatim as console commands
/// (deliberately: free chat text reaches the game console); chat commands
/// run on the console and carry the reply target along.
pub open spec fn spec_dispatch(e: DomainEventView) -> ActionView {
    match e {
        DomainEventView::GameMessage { text, silent } => ActionView::SendChat { text, silent },
        DomainEventView::ChatMessage { text } => ActionView::ExecCommand { cmd: text },
        DomainEventView::ChatCommand { reply_target, command_text } => ActionView::ExecThenReply {
            reply_to: reply_target,
            cmd: command_text,
        },
    }
}

/// Decide the sink call for one event.
pub fn dispatch(e: DomainEvent) -> (a: Action)
    ensures
        a@ == spec_dispatch(e@),
{
    match e {
        DomainEvent::GameMessage { text, silent } => Action::SendChat { text, silent },
        DomainEvent::ChatMessage { text } => Action::ExecCommand { cmd: text },
        DomainEvent::ChatCommand { reply_target, command_text } => Action::ExecThenReply {
            reply_to: reply_target,
            cmd: command_text,
        },
    }
}

/// Failure of a downstream sink. Sink failures are never fatal: the router
/// reports them and moves to the next event; the failed event is consumed
/// and not retried.
#[derive(PartialEq, Eq, Debug, Clone, Copy)]
pub enum SinkError {
    Connect,
    Auth,
    Exec,
    Send,
}

/// The threaded reply sent after a chat command succeeds.
#[derive(PartialEq, Eq, Debug)]
pub struct Reply {
    pub reply_to: i32,
    pub text: String,
}

/// Decide the follow-up of a chat command's console run: on success the
/// response is replied to the originating message; on failure there is no
/// reply (the failure is only reported in the process log).
pub fn command_followup(reply_to: i32, outcome: Result<String, SinkError>) -> (r: Option<Reply>)
    ensures
        r is Some <==> outcome is Ok,
        outcome matches Ok(resp) ==> (r matches Some(rep) && rep.reply_to == reply_to
            && rep.text@ == resp@),
{
    match outcome {
        Ok(resp) => Some(Reply { reply_to, text: resp }),
        Err(_) => None,
    }
}

/// Dispatch a batch of events in order.
///
/// Law of the bus (FIFO dispatch): the i-th action is the dispatch of the
/// i-th event, for every i — the router starts no event's dispatch before
/// the previous event's decision is complete, and drops none.
pub fn route_all(events: Vec<DomainEvent>) -> (acts: Vec<Action>)
    ensures
        acts@.len() == events@.len(),
        forall|i: int| 0 <= i < events@.len() ==> acts@[i]@ == spec_dispatch(events@[i]@),
{
    let ghost orig = events@;
    let mut evs = events;
    let mut acts: Vec<Action> = Vec::new();
    while evs.len() > 0
        invariant
            acts@.len() + evs@.len() == orig.len(),
            evs@ == orig.subrange(acts@.len() as int, orig.len() as int),
            forall|i: int| 0 <= i < acts@.len() ==> acts@[i]@ == spec_dispatch(orig[i]@),
        decreases evs@.len(),
    {
        let ghost done = acts@.len() as int;
        let e = evs.remove(0);
        proof {
            assert(e@ == orig[done]@);
            assert(evs@ =~= orig.subrange(done + 1, orig.len() as int));
        }
        let a = dispatch(e);
        acts.push(a);
    }
    acts
}

/// The bus loop: drain the channel, deciding each event's sink call in
/// turn until the channel is empty.
///
/// Law of the bus (FIFO dispatch): the i-th decided action is the dispatch
/// of the i-th event the channel held, so an event that arrived earlier is
/// dispatched to completion strictly before a later one is started, and
/// every event is consumed exactly once.
pub fn drain_all(ch: &mut EventChannel) -> (acts: Vec<Action>)
    requires
        old(ch).wf(),
    ensures
        final(ch).wf(),
        final(ch).capacity_spec() == old(ch).capacity_spec(),
        final(ch).contents().len() == 0,
        acts@.len() == old(ch).contents().len(),
        forall|i: int| 0 <= i < acts@.len() ==> acts@[i]@ == spec_dispatch(
            old(ch).contents()[i],
        ),
{
    let ghost orig = ch.contents();
    let mut acts: Vec<Action> = Vec::new();
    while ch.len() > 0
        invariant
            ch.wf(),
            ch.capacity_spec() == old(ch).capacity_spec(),
            acts@.len() + ch.contents().len() == orig.len(),
            ch.contents() == orig.skip(acts@.len() as int),
            forall|i: int| 0 <= i < acts@.len() ==> acts@[i]@ == spec_dispatch(orig[i]),
        decreases ch.contents().len(),
    {
        let ghost done = acts@.len() as int;
        if let Some(e) = ch.recv() {
            proof {
                assert(e@ == orig.skip(done)[0]);
                assert(e@ == orig[done]);
                assert(ch.contents() =~= orig.skip(done + 1));
            }
            let a = dispatch(e);
            acts.push(a);
        }
    }
    acts
}

} // verus!
