//! The turn state machine. One turn cycles between awaiting the model and a
//! tool phase until the model answers without tool calls; the surrounding
//! runtime performs the network call and runs the tools, and hands every
//! outcome back to these steps, which own the history and decide what it
//! becomes.

use vstd::prelude::*;
use vstd::string::StringExecFns;

use crate::error::Error;
use crate::interaction::{Content, History, IdGen, InteractionV, Source, Target};
use crate::openrouter::{
    clone_calls, incoming_contents, with_system_prompt, wire_render, IncomingMessage, Openrouter,
    ToolCall, WireMessage, WireMessageV,
};
use crate::tools::{response_wire_text, ToolPayload};
use crate::ui_events::{ui_of, EventPayload, UIEvents};

verus! {

/// The single-active-turn admission lock: at most one turn may be in
/// flight, and a second start is refused as a conflict without mutating
/// anything.
#[derive(Debug)]
pub struct Admission {
    pub active: bool,
}

impl Admission {
    /// An admission lock with no turn in flight.
    pub fn new() -> (r: Admission)
        ensures
            !r.active,
    {
        Admission { active: false }
    }

    /// Admits a new turn exactly when none is in flight; a concurrent start
    /// is refused as a conflict and changes nothing.
    pub fn try_begin(&mut self) -> (r: Result<(), Error>)
        ensures
            !old(self).active ==> r is Ok && final(self).active,
            old(self).active ==> (r matches Err(e) && e is Conflict) && *final(self)
                == *old(self),
    {
        if self.active {
            Err(Error::Conflict(String::from_str("more than 1 request")))
        } else {
            self.active = true;
            Ok(())
        }
    }

    /// Releases the admission lock when a turn ends, however it ended.
    pub fn finish(&mut self)
        ensures
            !final(self).active,
    {
        self.active = false;
    }
}

/// The turn-execution state machine: owns the conversation history and the
/// identifier source, and carries a turn through awaiting the model, tool
/// phases, and completion.
#[derive(Debug)]
pub struct ChatProcessor {
    pub history: History,
    pub gen: IdGen,
}

impl ChatProcessor {
    /// A processor over the given history and identifier source.
    pub fn new(history: History, gen: IdGen) -> (r: ChatProcessor)
        ensures
            r.history == history,
            r.gen == gen,
    {
        ChatProcessor { history, gen }
    }

    /// The wire messages for the next completion call: the rendered history
    /// behind the system prompt, when one is configured.
    pub fn render_request(&self, system_prompt: &str) -> (r: Vec<WireMessage>)
        ensures
            system_prompt@.len() == 0 ==> r.deep_view() == wire_render(self.history@),
            system_prompt@.len() > 0 ==> r.deep_view() =~= seq![
                WireMessageV {
                    role: "system"@,
                    text: Some(system_prompt@),
                    parts: None,
                    tool_calls: None,
                    tool_call_id: None,
                },
            ] + wire_render(self.history@),
    {
        let rendered = Openrouter::render(&self.history);
        with_system_prompt(rendered, system_prompt)
    }

    /// Takes in the user's message that starts a turn, when it is non-empty,
    /// and emits its display events.
    pub fn begin_turn(&mut self, content: Vec<Content>) -> (r: Vec<EventPayload>)
        requires
            old(self).gen.next < usize::MAX,
        ensures
            content@.len() == 0 ==> *final(self) == *old(self) && r@.len() == 0,
            content@.len() > 0 ==> {
                &&& final(self).history@ =~= old(self).history@.push(
                    InteractionV::UserMessage {
                        interaction_id: old(self).gen.next,
                        content: content.deep_view(),
                    },
                )
                &&& final(self).gen.next == old(self).gen.next + 1
                &&& r.deep_view() == ui_of(final(self).history@.last())
            },
    {
        if content.len() == 0 {
            Vec::new()
        } else {
            let interaction = UIEvents::sends(&mut self.gen, content);
            let events = UIEvents::convert(&interaction);
            self.history.push(interaction);
            events
        }
    }

    /// Takes in the model's message: lifts it into a model-response
    /// interaction, appends it to the history, and hands back the tool calls
    /// to run — `None` when the model answered outright and the turn is
    /// done. The display events for the new interaction come with it.
    pub fn on_model_message(&mut self, msg: IncomingMessage) -> (r: (
        Option<Vec<ToolCall>>,
        Vec<EventPayload>,
    ))
        requires
            old(self).gen.next < usize::MAX,
        ensures
            final(self).history@ =~= old(self).history@.push(
                InteractionV::LlmResponse {
                    interaction_id: old(self).gen.next,
                    content: incoming_contents(msg.content@),
                    tool_calls: msg.tool_calls.deep_view(),
                },
            ),
            final(self).gen.next == old(self).gen.next + 1,
            match r.0 {
                Some(calls) => msg.tool_calls.deep_view() == Some(calls.deep_view()),
                None => msg.tool_calls is None,
            },
            r.1.deep_view() == ui_of(final(self).history@.last()),
    {
        let calls: Option<Vec<ToolCall>> = match &msg.tool_calls {
            Some(cs) => Some(clone_calls(cs)),
            None => None,
        };
        let interaction = Openrouter::sends(&mut self.gen, msg);
        let events = UIEvents::convert(&interaction);
        self.history.push(interaction);
        (calls, events)
    }

    /// Takes in the payloads of one tool phase, in tool-call declaration
    /// order, so that each call is answered by exactly one result in a
    /// position a linear scan resolves: for every call one tool-result
    /// interaction is appended, carrying the call's id and the payload's
    /// response — an error payload becomes its serialized error text, and
    /// never aborts the other results.
    pub fn commit_tool_results(&mut self, results: Vec<(String, ToolPayload)>)
        requires
            old(self).gen.next + results@.len() < usize::MAX,
        ensures
            final(self).gen.next == old(self).gen.next + results@.len(),
            final(self).history@.len() == old(self).history@.len() + results@.len(),
            forall|j: int|
                0 <= j < old(self).history@.len() ==> final(self).history@[j] == old(
                    self,
                ).history@[j],
            forall|n: int|
                0 <= n < results@.len() ==> final(self).history@[old(self).history@.len() + n]
                    == (InteractionV::ToolResult {
                    interaction_id: (old(self).gen.next + n) as usize,
                    tool_call_id: results@[n].0@,
                    response: response_wire_text(results@[n].1.response),
                    for_llm: results@[n].1.for_llm.deep_view(),
                    for_user: results@[n].1.for_user.deep_view(),
                }),
    {
        let ghost h0 = self.history@;
        let ghost g0 = self.gen.next;
        let ghost rs = results@;
        let mut results = results;
        let mut n: usize = 0;
        let ghost total = rs.len();
        while results.len() > 0
            invariant
                0 <= n,
                n + results@.len() == total,
                total == rs.len(),
                results@ =~= rs.skip(n as int),
                self.gen.next == g0 + n,
                g0 + total < usize::MAX,
                self.history@.len() == h0.len() + n,
                forall|j: int| 0 <= j < h0.len() ==> self.history@[j] == h0[j],
                forall|m: int|
                    0 <= m < n ==> self.history@[h0.len() + m] == (InteractionV::ToolResult {
                        interaction_id: (g0 + m) as usize,
                        tool_call_id: rs[m].0@,
                        response: response_wire_text(rs[m].1.response),
                        for_llm: rs[m].1.for_llm.deep_view(),
                        for_user: rs[m].1.for_user.deep_view(),
                    }),
            decreases results@.len(),
        {
            let ghost before = results@;
            let (tool_call_id, payload) = results.remove(0);
            proof {
                assert(before[0] == rs[n as int]);
                assert(results@ =~= before.skip(1));
                assert(before.skip(1) =~= rs.skip(n as int + 1));
            }
            let interaction = payload.finalize(&mut self.gen, tool_call_id);
            self.history.push(interaction);
            n = n + 1;
        }
        proof {
            assert(results@.len() == 0);
        }
    }

    /// The cancellation path: repairs the history so that no tool call of
    /// the most recent model response is left without a result, pruning the
    /// response itself when the stripping leaves it empty.
    pub fn cancel_repair(&mut self)
        ensures
            final(self).history@ == crate::interaction::spec_clean_unfinished(
                old(self).history@,
            ),
            final(self).gen == old(self).gen,
    {
        self.history.clean_unfinished_tool_calls();
    }
}

} // verus!
