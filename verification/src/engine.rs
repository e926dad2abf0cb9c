//! The transport loop's decision core.
//!
//! The asynchronous loop around it multiplexes four sources — outgoing
//! commands, the shutdown signal, inbound transport messages, and transport
//! faults — and hands each occurrence to `Engine::on_input`, which computes
//! the state change and the actions to perform: what to send, whether to
//! close the transport, which event to publish and how, and whether the
//! loop stops.  Every event but the terminal `Disconnected` is published
//! with a non-blocking attempt and may be dropped under backpressure;
//! `Disconnected` alone is marked `must_deliver` and is sent blocking, so it
//! is never dropped and is the last event a consumer can receive.

use crate::error::SignalFishError;
use crate::event::{event_of, lemma_event_of_never_synthetic, SignalFishEvent};
use crate::json::{parse_doc, ser};
use crate::protocol::{cm_jv, sm_decodable, sm_matches, ClientMessage, ServerMessage};
use crate::state::{updated, ConnectionState};
use vstd::prelude::*;

verus! {

/// One occurrence on one of the loop's sources.
#[derive(Debug)]
pub enum EngineInput {
    /// An outgoing command arrived from a handle.
    Command(ClientMessage),
    /// Every handle is gone: the command queue closed.
    CommandsClosed,
    /// A cooperative shutdown was requested.
    Shutdown,
    /// The transport failed to send the previous frame.
    SendFailed(String),
    /// The transport yielded a complete inbound text frame.
    Message(String),
    /// The transport failed while receiving.
    ReceiveError(String),
    /// The transport was closed cleanly by the peer.
    Closed,
}

/// The actions one step asks the loop to perform, in order: send the frame,
/// close the transport, publish the event, stop if terminal.
#[derive(Debug)]
pub struct EngineStep {
    /// A text frame to hand to the transport's send operation.
    pub send_text: Option<String>,
    /// Whether to attempt a graceful transport close.
    pub close_transport: bool,
    /// The event to publish, if any.
    pub event: Option<SignalFishEvent>,
    /// Whether the event must be delivered blocking (never dropped); true
    /// exactly for the terminal event.
    pub must_deliver: bool,
    /// Whether the loop stops after this step.
    pub terminate: bool,
}

/// The engine: the shared connection state plus the running flag.
#[derive(Debug)]
pub struct Engine {
    /// The shared connection state; the engine is its only mutator.
    pub state: ConnectionState,
    /// Running until a terminal outcome; never running again afterwards.
    pub running: bool,
}

/// The lifecycle discipline of a step: an event is `Disconnected` exactly
/// when the step terminates, termination is one-way, a stopped engine does
/// nothing further, and only the terminal event is delivered blocking.
pub open spec fn lifecycle_ok(pre: Engine, post: Engine, step: EngineStep) -> bool {
    &&& (step.terminate <==> (step.event matches Some(ev) && ev is Disconnected))
    &&& (step.event matches Some(ev) ==> !(ev is Connected))
    &&& post.running == (pre.running && !step.terminate)
    &&& (!pre.running ==> step.event is None && step.send_text is None && !step.terminate
        && !step.close_transport)
    &&& step.must_deliver == step.terminate
    &&& (step.terminate ==> !post.state.connected && !post.state.authenticated)
    &&& post.state.connected == (pre.state.connected && !step.terminate)
}

impl Engine {
    /// A freshly started engine: running, connected, nothing joined.
    pub fn start() -> (e: Engine)
        ensures
            e.running,
            e.state.connected,
            !e.state.authenticated,
            e.state.player_id is None,
            e.state.room_id is None,
            e.state.room_code is None,
            e.state.inv(),
    {
        Engine { state: ConnectionState::new(), running: true }
    }

    /// The synthetic event published once, before any step: always first.
    pub fn connected_event() -> (e: SignalFishEvent)
        ensures
            e == SignalFishEvent::Connected,
    {
        SignalFishEvent::Connected
    }

    /// One step of the loop: what §4.4 of the design prescribes for each
    /// source, made into a pure state-and-actions function.
    pub fn on_input(&mut self, input: EngineInput) -> (step: EngineStep)
        ensures
            lifecycle_ok(*old(self), *final (self), step),
            old(self).state.inv() ==> final (self).state.inv(),
            old(self).running ==> match input {
                EngineInput::Command(m) => {
                    &&& step.send_text matches Some(s) && s@ == ser(cm_jv(m))
                    &&& step.event is None
                    &&& !step.terminate
                    &&& !step.close_transport
                    &&& final (self).state == old(self).state
                },
                EngineInput::CommandsClosed => {
                    &&& step.close_transport
                    &&& step.terminate
                    &&& step.event matches Some(ev) && ev matches
                        SignalFishEvent::Disconnected { reason: Some(r) } && r@
                        == "client shut down"@
                },
                EngineInput::Shutdown => {
                    &&& step.close_transport
                    &&& step.terminate
                    &&& step.event matches Some(ev) && ev matches
                        SignalFishEvent::Disconnected { reason: Some(r) } && r@
                        == "client shut down"@
                },
                EngineInput::SendFailed(e) => {
                    &&& !step.close_transport
                    &&& step.terminate
                    &&& step.event matches Some(ev) && ev matches
                        SignalFishEvent::Disconnected { reason: Some(r) } && r@
                        == "transport send error: "@ + e@
                },
                EngineInput::Message(text) => {
                    &&& !step.terminate
                    &&& !step.close_transport
                    &&& step.send_text is None
                    &&& match parse_doc(text@) {
                        Some(j) => if sm_decodable(j) {
                            exists|m: ServerMessage|
                                {
                                    &&& #[trigger] sm_matches(j, m)
                                    &&& step.event == Some(event_of(m))
                                    &&& updated(old(self).state, m, final (self).state)
                                }
                        } else {
                            step.event is None && final (self).state == old(self).state
                        },
                        None => step.event is None && final (self).state == old(self).state,
                    }
                },
                EngineInput::ReceiveError(e) => {
                    &&& !step.close_transport
                    &&& step.terminate
                    &&& step.event matches Some(ev) && ev matches
                        SignalFishEvent::Disconnected { reason: Some(r) } && r@
                        == "transport receive error: "@ + e@
                },
                EngineInput::Closed => {
                    &&& !step.close_transport
                    &&& step.terminate
                    &&& step.event == Some(
                        SignalFishEvent::Disconnected { reason: None },
                    )
                },
            },
    {
        if !self.running {
            return EngineStep {
                send_text: None,
                close_transport: false,
                event: None,
                must_deliver: false,
                terminate: false,
            };
        }
        match input {
            EngineInput::Command(m) => {
                let text = m.to_text();
                EngineStep {
                    send_text: Some(text),
                    close_transport: false,
                    event: None,
                    must_deliver: false,
                    terminate: false,
                }
            }
            EngineInput::CommandsClosed => self.stop(true, Some(String::from_str(
                "client shut down",
            ))),
            EngineInput::Shutdown => self.stop(true, Some(String::from_str("client shut down"))),
            EngineInput::SendFailed(e) => {
                let mut reason = String::from_str("transport send error: ");
                reason.append(e.as_str());
                self.stop(false, Some(reason))
            }
            EngineInput::Message(text) => {
                match ServerMessage::from_text(text.as_str()) {
                    Ok(m) => {
                        self.state.update(&m);
                        let ghost mm = m;
                        let ev = SignalFishEvent::from_message(m);
                        proof {
                            assert(sm_matches(parse_doc(text@)->Some_0, mm));
                            lemma_event_of_never_synthetic(mm);
                        }
                        EngineStep {
                            send_text: None,
                            close_transport: false,
                            event: Some(ev),
                            must_deliver: false,
                            terminate: false,
                        }
                    }
                    Err(_) => EngineStep {
                        send_text: None,
                        close_transport: false,
                        event: None,
                        must_deliver: false,
                        terminate: false,
                    },
                }
            }
            EngineInput::ReceiveError(e) => {
                let mut reason = String::from_str("transport receive error: ");
                reason.append(e.as_str());
                self.stop(false, Some(reason))
            }
            EngineInput::Closed => self.stop(false, None),
        }
    }

    /// The terminal outcome: mark disconnected and build the last step.
    fn stop(&mut self, close_transport: bool, reason: Option<String>) -> (step: EngineStep)
        requires
            old(self).running,
        ensures
            !final (self).running,
            !final (self).state.connected,
            !final (self).state.authenticated,
            final (self).state.player_id == old(self).state.player_id,
            final (self).state.room_id == old(self).state.room_id,
            final (self).state.room_code == old(self).state.room_code,
            old(self).state.inv() ==> final (self).state.inv(),
            step.terminate,
            step.must_deliver,
            step.close_transport == close_transport,
            step.send_text is None,
            step.event == Some(SignalFishEvent::Disconnected { reason }),
    {
        self.running = false;
        self.state.connected = false;
        self.state.authenticated = false;
        EngineStep {
            send_text: None,
            close_transport,
            event: Some(SignalFishEvent::Disconnected { reason }),
            must_deliver: true,
            terminate: true,
        }
    }
}

/// Termination is permanent: once an engine has stopped, every later engine
/// state in a lifecycle-respecting run is stopped too.
pub proof fn lemma_stopped_stays_stopped(
    engines: Seq<Engine>,
    steps: Seq<EngineStep>,
    i: int,
    k: int,
)
    requires
        engines.len() == steps.len() + 1,
        forall|x: int|
            0 <= x < steps.len() ==> lifecycle_ok(
                #[trigger] engines[x],
                engines[x + 1],
                steps[x],
            ),
        0 <= i <= k < engines.len(),
        !engines[i].running,
    ensures
        !engines[k].running,
    decreases k - i,
{
    if i < k {
        assert(lifecycle_ok(engines[i], engines[i + 1], steps[i]));
        lemma_stopped_stays_stopped(engines, steps, i + 1, k);
    }
}

/// The terminal event is unique and last: in any lifecycle-respecting run,
/// a step that publishes `Disconnected` is followed by steps that publish
/// nothing at all.
pub proof fn lemma_disconnected_is_last(engines: Seq<Engine>, steps: Seq<EngineStep>, i: int)
    requires
        engines.len() == steps.len() + 1,
        forall|x: int|
            0 <= x < steps.len() ==> lifecycle_ok(
                #[trigger] engines[x],
                engines[x + 1],
                steps[x],
            ),
        0 <= i < steps.len(),
        steps[i].event matches Some(ev) && ev is Disconnected,
    ensures
        forall|k: int| i < k < steps.len() ==> (#[trigger] steps[k]).event is None,
{
    assert(lifecycle_ok(engines[i], engines[i + 1], steps[i]));
    assert(steps[i].terminate);
    assert(!engines[i + 1].running);
    assert forall|k: int| i < k < steps.len() implies (#[trigger] steps[k]).event is None by {
        lemma_stopped_stays_stopped(engines, steps, i + 1, k);
        assert(lifecycle_ok(engines[k], engines[k + 1], steps[k]));
    }
}

/// The synthetic `Connected` event is first: no step of a
/// lifecycle-respecting run publishes `Connected`, so the one published
/// when the engine starts, before any step, precedes every other event of
/// the engine instance.
pub proof fn lemma_connected_is_first(engines: Seq<Engine>, steps: Seq<EngineStep>)
    requires
        engines.len() == steps.len() + 1,
        forall|x: int|
            0 <= x < steps.len() ==> lifecycle_ok(
                #[trigger] engines[x],
                engines[x + 1],
                steps[x],
            ),
    ensures
        forall|x: int|
            0 <= x < steps.len() ==> !((#[trigger] steps[x]).event matches Some(ev)
                && ev is Connected),
{
    assert forall|x: int|
        0 <= x < steps.len() implies !((#[trigger] steps[x]).event matches Some(ev)
        && ev is Connected) by {
        assert(lifecycle_ok(engines[x], engines[x + 1], steps[x]));
    }
}

} // verus!
