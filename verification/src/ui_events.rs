//! The UI render adapter: turns interactions into the ordered stream of
//! display events a presentation layer consumes.

use vstd::prelude::*;
use vstd::string::StringExecFns;

use crate::interaction::{
    clone_contents, iv_id, Content, ContentV, History, IdGen, Interaction, InteractionV, Source,
    Target,
};

verus! {

/// The spec-level value of an [`EventPayload`].
pub ghost enum EventPayloadV {
    Start,
    End,
    Message { id: usize, role: Seq<char>, content: Seq<ContentV> },
    ToolCall { id: usize, tool_name: Seq<char>, tool_call_id: Seq<char>, tool_args: Seq<char> },
    ToolDone { id: usize, tool_call_id: Seq<char>, tool_result: Seq<char> },
}

/// One event of the UI stream: turn delimiters, a displayable message, or
/// the start and end of a tool invocation.
#[derive(Debug)]
pub enum EventPayload {
    Start,
    End,
    Message { id: usize, role: String, content: Vec<Content> },
    ToolCall { id: usize, tool_name: String, tool_call_id: String, tool_args: String },
    ToolDone { id: usize, tool_call_id: String, tool_result: String },
}

impl View for EventPayload {
    type V = EventPayloadV;

    open spec fn view(&self) -> EventPayloadV {
        match self {
            EventPayload::Start => EventPayloadV::Start,
            EventPayload::End => EventPayloadV::End,
            EventPayload::Message { id, role, content } => EventPayloadV::Message {
                id: *id,
                role: role@,
                content: content.deep_view(),
            },
            EventPayload::ToolCall { id, tool_name, tool_call_id, tool_args } => {
                EventPayloadV::ToolCall {
                    id: *id,
                    tool_name: tool_name@,
                    tool_call_id: tool_call_id@,
                    tool_args: tool_args@,
                }
            },
            EventPayload::ToolDone { id, tool_call_id, tool_result } => EventPayloadV::ToolDone {
                id: *id,
                tool_call_id: tool_call_id@,
                tool_result: tool_result@,
            },
        }
    }
}

impl DeepView for EventPayload {
    type V = EventPayloadV;

    open spec fn deep_view(&self) -> EventPayloadV {
        self.view()
    }
}

/// The display events one interaction renders to. A model response with
/// tool calls yields one tool-call-started event per call; one without
/// yields a single assistant message. A tool result yields its completion
/// event and, when side-channel content for the user is present, a trailing
/// assistant message.
pub open spec fn ui_of(i: InteractionV) -> Seq<EventPayloadV> {
    match i {
        InteractionV::LlmResponse { interaction_id, content, tool_calls } => match tool_calls {
            Some(cs) => Seq::new(
                cs.len(),
                |ci: int|
                    EventPayloadV::ToolCall {
                        id: interaction_id,
                        tool_name: cs[ci].function.name,
                        tool_call_id: cs[ci].id,
                        tool_args: cs[ci].function.arguments,
                    },
            ),
            None => seq![
                EventPayloadV::Message { id: interaction_id, role: "assistant"@, content },
            ],
        },
        InteractionV::ToolResult { interaction_id, tool_call_id, response, for_user, .. } => {
            let done = EventPayloadV::ToolDone {
                id: interaction_id,
                tool_call_id,
                tool_result: response,
            };
            if for_user.len() > 0 {
                seq![
                    done,
                    EventPayloadV::Message {
                        id: interaction_id,
                        role: "assistant"@,
                        content: for_user,
                    },
                ]
            } else {
                seq![done]
            }
        },
        InteractionV::UserMessage { interaction_id, content } => seq![
            EventPayloadV::Message { id: interaction_id, role: "user"@, content },
        ],
    }
}

/// The whole history as display events, in history order.
pub open spec fn ui_render(h: Seq<InteractionV>) -> Seq<EventPayloadV>
    decreases h.len(),
{
    if h.len() == 0 {
        Seq::empty()
    } else {
        ui_render(h.drop_last()) + ui_of(h.last())
    }
}

/// The render adapter for the UI event stream. Delivering the events is the
/// surrounding runtime's concern; this adapter only decides what they are.
pub struct UIEvents;

impl Target for UIEvents {
    type RenderType = EventPayload;

    fn convert(interaction: &Interaction) -> (out: Vec<EventPayload>)
        ensures
            out.deep_view() == ui_of(interaction@),
    {
        let out = match interaction {
            Interaction::LlmResponse { interaction_id, content, tool_calls } => match tool_calls {
                Some(cs) => {
                    let ghost target = ui_of(interaction@);
                    let mut out: Vec<EventPayload> = Vec::new();
                    let mut ci: usize = 0;
                    proof {
                        assert(out.deep_view() =~= target.take(0));
                    }
                    while ci < cs.len()
                        invariant
                            0 <= ci <= cs.len(),
                            target == ui_of(interaction@),
                            target.len() == cs.len(),
                            cs.deep_view().len() == cs.len(),
                            forall|n: int|
                                0 <= n < cs.len() ==> #[trigger] target[n]
                                    == (EventPayloadV::ToolCall {
                                    id: iv_id(interaction@),
                                    tool_name: cs.deep_view()[n].function.name,
                                    tool_call_id: cs.deep_view()[n].id,
                                    tool_args: cs.deep_view()[n].function.arguments,
                                }),
                            iv_id(interaction@) == *interaction_id,
                            out.deep_view() == target.take(ci as int),
                        decreases cs.len() - ci,
                    {
                        let ghost out_before = out.deep_view();
                        proof {
                            assert(cs.deep_view()[ci as int] == cs@[ci as int]@);
                        }
                        out.push(EventPayload::ToolCall {
                            id: *interaction_id,
                            tool_name: cs[ci].function.name.clone(),
                            tool_call_id: cs[ci].id.clone(),
                            tool_args: cs[ci].function.arguments.clone(),
                        });
                        proof {
                            assert(out.deep_view() =~= out_before.push(target[ci as int]));
                            assert(target.take(ci as int + 1) =~= target.take(ci as int).push(
                                target[ci as int],
                            ));
                        }
                        ci = ci + 1;
                    }
                    proof {
                        assert(target.take(cs.len() as int) =~= target);
                    }
                    out
                },
                None => vec![
                    EventPayload::Message {
                        id: *interaction_id,
                        role: String::from_str("assistant"),
                        content: clone_contents(content),
                    },
                ],
            },
            Interaction::ToolResult { interaction_id, tool_call_id, response, for_user, .. } => {
                let mut out = vec![
                    EventPayload::ToolDone {
                        id: *interaction_id,
                        tool_call_id: tool_call_id.clone(),
                        tool_result: response.clone(),
                    },
                ];
                if for_user.len() > 0 {
                    out.push(EventPayload::Message {
                        id: *interaction_id,
                        role: String::from_str("assistant"),
                        content: clone_contents(for_user),
                    });
                }
                out
            },
            Interaction::UserMessage { interaction_id, content } => vec![
                EventPayload::Message {
                    id: *interaction_id,
                    role: String::from_str("user"),
                    content: clone_contents(content),
                },
            ],
        };
        proof {
            assert(out.deep_view() =~= ui_of(interaction@));
        }
        out
    }

    fn render(history: &History) -> (out: Vec<EventPayload>)
        ensures
            out.deep_view() == ui_render(history@),
    {
        let mut out: Vec<EventPayload> = Vec::new();
        let mut i: usize = 0;
        proof {
            assert(history@.take(0) =~= Seq::<InteractionV>::empty());
            assert(out.deep_view() =~= ui_render(history@.take(0)));
        }
        while i < history.inner.len()
            invariant
                0 <= i <= history@.len(),
                history@.len() == history.inner.len(),
                out.deep_view() == ui_render(history@.take(i as int)),
            decreases history.inner.len() - i,
        {
            proof {
                assert(history@[i as int] == history.inner@[i as int]@);
            }
            let ghost out_before = out.deep_view();
            let mut conv = Self::convert(&history.inner[i]);
            let ghost conv_v = conv.deep_view();
            out.append(&mut conv);
            proof {
                assert(out.deep_view() =~= out_before + conv_v);
                let t1 = history@.take(i as int + 1);
                assert(t1.drop_last() =~= history@.take(i as int));
                assert(t1.last() == history@[i as int]);
                assert(out.deep_view() =~= ui_render(t1));
            }
            i = i + 1;
        }
        proof {
            assert(history@.take(history@.len() as int) =~= history@);
        }
        out
    }
}

impl Source for UIEvents {
    type SendType = Vec<Content>;

    /// Lifts user-submitted content into a user-message interaction.
    fn sends(gen: &mut IdGen, data: Vec<Content>) -> (r: Interaction)
        ensures
            r@ == (InteractionV::UserMessage {
                interaction_id: old(gen).next,
                content: data.deep_view(),
            }),
            final(gen).next == old(gen).next + 1,
    {
        Interaction::user_message(gen, data)
    }
}

} // verus!
