//! The completion-endpoint data shapes: tool calls as the model produces
//! them, inbound model messages, and the wire messages the endpoint accepts.

use vstd::prelude::*;
use vstd::string::{StrSliceExecFns, StringExecFns};

use crate::interaction::{
    clone_contents, history_inv, iv_calls, iv_has_call, iv_is_result, iv_result_id, Content,
    ContentV, History, IdGen, Interaction, InteractionV, Source, Target,
};

verus! {

/// The spec-level value of a [`FunctionCall`].
pub ghost struct FunctionCallV {
    pub name: Seq<char>,
    pub arguments: Seq<char>,
}

/// The function a tool call names, with its JSON-encoded argument object.
#[derive(Debug)]
pub struct FunctionCall {
    pub name: String,
    pub arguments: String,
}

impl View for FunctionCall {
    type V = FunctionCallV;

    open spec fn view(&self) -> FunctionCallV {
        FunctionCallV { name: self.name@, arguments: self.arguments@ }
    }
}

impl DeepView for FunctionCall {
    type V = FunctionCallV;

    open spec fn deep_view(&self) -> FunctionCallV {
        self.view()
    }
}

/// The spec-level value of a [`ToolCall`].
pub ghost struct ToolCallV {
    pub id: Seq<char>,
    pub kind: Seq<char>,
    pub function: FunctionCallV,
}

/// One tool invocation requested by the model. `id` is opaque, supplied by
/// the model, treated as an untrusted string and echoed back verbatim.
#[derive(Debug)]
pub struct ToolCall {
    pub id: String,
    /// Always `"function"` on the wire.
    pub kind: String,
    pub function: FunctionCall,
}

impl View for ToolCall {
    type V = ToolCallV;

    open spec fn view(&self) -> ToolCallV {
        ToolCallV { id: self.id@, kind: self.kind@, function: self.function@ }
    }
}

impl DeepView for ToolCall {
    type V = ToolCallV;

    open spec fn deep_view(&self) -> ToolCallV {
        self.view()
    }
}

impl Clone for FunctionCall {
    fn clone(&self) -> (res: Self)
        ensures
            res@ == self@,
    {
        FunctionCall { name: self.name.clone(), arguments: self.arguments.clone() }
    }
}

impl Clone for ToolCall {
    fn clone(&self) -> (res: Self)
        ensures
            res@ == self@,
    {
        ToolCall { id: self.id.clone(), kind: self.kind.clone(), function: self.function.clone() }
    }
}

/// A field-for-field copy of a list of tool calls.
pub fn clone_calls(v: &Vec<ToolCall>) -> (res: Vec<ToolCall>)
    ensures
        res.deep_view() == v.deep_view(),
{
    let res = v.clone();
    proof {
        assert forall|i: int| 0 <= i < v@.len() implies res.deep_view()[i]
            == v.deep_view()[i] by {
            assert(cloned::<ToolCall>(v@[i], res@[i]));
        }
        assert(res.deep_view() =~= v.deep_view());
    }
    res
}

/// The spec-level value of a [`WireMessage`].
#[verifier::ext_equal]
pub ghost struct WireMessageV {
    pub role: Seq<char>,
    pub text: Option<Seq<char>>,
    pub parts: Option<Seq<ContentV>>,
    pub tool_calls: Option<Seq<ToolCallV>>,
    pub tool_call_id: Option<Seq<char>>,
}

/// One message in the shape the completion endpoint expects: a role, either
/// plain-text or structured content, and — for the tool protocol — the tool
/// calls of an assistant turn or the id a tool turn answers.
#[derive(Debug)]
pub struct WireMessage {
    pub role: String,
    pub text: Option<String>,
    pub parts: Option<Vec<Content>>,
    pub tool_calls: Option<Vec<ToolCall>>,
    pub tool_call_id: Option<String>,
}

impl View for WireMessage {
    type V = WireMessageV;

    open spec fn view(&self) -> WireMessageV {
        WireMessageV {
            role: self.role@,
            text: match self.text {
                Some(ref t) => Some(t@),
                None => None,
            },
            parts: match self.parts {
                Some(ref p) => Some(p.deep_view()),
                None => None,
            },
            tool_calls: match self.tool_calls {
                Some(ref cs) => Some(cs.deep_view()),
                None => None,
            },
            tool_call_id: match self.tool_call_id {
                Some(ref t) => Some(t@),
                None => None,
            },
        }
    }
}

impl DeepView for WireMessage {
    type V = WireMessageV;

    open spec fn deep_view(&self) -> WireMessageV {
        self.view()
    }
}

/// The wire messages one interaction renders to. A model response with tool
/// calls renders as an assistant turn carrying only the calls, never
/// content; a tool result renders as a tool-role turn carrying its textual
/// response and, when side-channel content for the model is present, one
/// additional user-role turn right after it.
pub open spec fn wire_of(i: InteractionV) -> Seq<WireMessageV> {
    match i {
        InteractionV::LlmResponse { content, tool_calls, .. } => match tool_calls {
            Some(cs) => seq![
                WireMessageV {
                    role: "assistant"@,
                    text: None,
                    parts: None,
                    tool_calls: Some(cs),
                    tool_call_id: None,
                },
            ],
            None => seq![
                WireMessageV {
                    role: "assistant"@,
                    text: None,
                    parts: Some(content),
                    tool_calls: None,
                    tool_call_id: None,
                },
            ],
        },
        InteractionV::ToolResult { tool_call_id, response, for_llm, .. } => {
            let tool_msg = WireMessageV {
                role: "tool"@,
                text: Some(response),
                parts: None,
                tool_calls: None,
                tool_call_id: Some(tool_call_id),
            };
            if for_llm.len() > 0 {
                seq![
                    tool_msg,
                    WireMessageV {
                        role: "user"@,
                        text: None,
                        parts: Some(for_llm),
                        tool_calls: None,
                        tool_call_id: None,
                    },
                ]
            } else {
                seq![tool_msg]
            }
        },
        InteractionV::UserMessage { content, .. } => seq![
            WireMessageV {
                role: "user"@,
                text: None,
                parts: Some(content),
                tool_calls: None,
                tool_call_id: None,
            },
        ],
    }
}

/// The whole history on the wire: each interaction's messages, concatenated
/// in history order.
pub open spec fn wire_render(h: Seq<InteractionV>) -> Seq<WireMessageV>
    decreases h.len(),
{
    if h.len() == 0 {
        Seq::empty()
    } else {
        wire_render(h.drop_last()) + wire_of(h.last())
    }
}

/// The render adapter for the completion endpoint.
pub struct Openrouter;

impl Target for Openrouter {
    type RenderType = WireMessage;

    fn convert(interaction: &Interaction) -> (out: Vec<WireMessage>)
        ensures
            out.deep_view() == wire_of(interaction@),
    {
        let out = match interaction {
            Interaction::LlmResponse { content, tool_calls, .. } => match tool_calls {
                Some(cs) => vec![
                    WireMessage {
                        role: String::from_str("assistant"),
                        text: None,
                        parts: None,
                        tool_calls: Some(clone_calls(cs)),
                        tool_call_id: None,
                    },
                ],
                None => vec![
                    WireMessage {
                        role: String::from_str("assistant"),
                        text: None,
                        parts: Some(clone_contents(content)),
                        tool_calls: None,
                        tool_call_id: None,
                    },
                ],
            },
            Interaction::ToolResult { tool_call_id, response, for_llm, .. } => {
                let mut out = vec![
                    WireMessage {
                        role: String::from_str("tool"),
                        text: Some(response.clone()),
                        parts: None,
                        tool_calls: None,
                        tool_call_id: Some(tool_call_id.clone()),
                    },
                ];
                if for_llm.len() > 0 {
                    out.push(WireMessage {
                        role: String::from_str("user"),
                        text: None,
                        parts: Some(clone_contents(for_llm)),
                        tool_calls: None,
                        tool_call_id: None,
                    });
                }
                out
            },
            Interaction::UserMessage { content, .. } => vec![
                WireMessage {
                    role: String::from_str("user"),
                    text: None,
                    parts: Some(clone_contents(content)),
                    tool_calls: None,
                    tool_call_id: None,
                },
            ],
        };
        proof {
            assert(out.deep_view() =~= wire_of(interaction@));
        }
        out
    }

    fn render(history: &History) -> (out: Vec<WireMessage>)
        ensures
            out.deep_view() == wire_render(history@),
    {
        let mut out: Vec<WireMessage> = Vec::new();
        let mut i: usize = 0;
        proof {
            assert(history@.take(0) =~= Seq::<InteractionV>::empty());
            assert(out.deep_view() =~= wire_render(history@.take(0)));
        }
        while i < history.inner.len()
            invariant
                0 <= i <= history@.len(),
                history@.len() == history.inner.len(),
                out.deep_view() == wire_render(history@.take(i as int)),
            decreases history.inner.len() - i,
        {
            proof {
                assert(history@[i as int] == history.inner@[i as int]@);
            }
            let ghost out_before = out.deep_view();
            let mut conv = Self::convert(&history.inner[i]);
            let ghost conv_v = conv.deep_view();
            out.append(&mut conv);
            proof {
                assert(out.deep_view() =~= out_before + conv_v);
                let t1 = history@.take(i as int + 1);
                assert(t1.drop_last() =~= history@.take(i as int));
                assert(t1.last() == history@[i as int]);
                assert(out.deep_view() =~= wire_render(t1));
            }
            i = i + 1;
        }
        proof {
            assert(history@.take(history@.len() as int) =~= history@);
        }
        out
    }
}

/// The spec-level value of an [`IncomingContent`].
pub ghost enum IncomingContentV {
    Text(Seq<char>),
    Parts(Seq<ContentV>),
    Absent,
}

/// The polymorphic content field of an inbound model message: a plain
/// string, structured parts, or absent.
#[derive(Debug)]
pub enum IncomingContent {
    Text(String),
    Parts(Vec<Content>),
    Absent,
}

impl View for IncomingContent {
    type V = IncomingContentV;

    open spec fn view(&self) -> IncomingContentV {
        match self {
            IncomingContent::Text(t) => IncomingContentV::Text(t@),
            IncomingContent::Parts(p) => IncomingContentV::Parts(p.deep_view()),
            IncomingContent::Absent => IncomingContentV::Absent,
        }
    }
}

/// The canonical content list an inbound content field lifts to.
pub open spec fn incoming_contents(c: IncomingContentV) -> Seq<ContentV> {
    match c {
        IncomingContentV::Text(t) => seq![ContentV::Text { text: t }],
        IncomingContentV::Parts(p) => p,
        IncomingContentV::Absent => Seq::empty(),
    }
}

/// The spec-level value of an [`IncomingMessage`].
pub ghost struct IncomingMessageV {
    pub role: Seq<char>,
    pub content: IncomingContentV,
    pub tool_calls: Option<Seq<ToolCallV>>,
}

/// One message as the completion endpoint returns it.
#[derive(Debug)]
pub struct IncomingMessage {
    pub role: String,
    pub content: IncomingContent,
    pub tool_calls: Option<Vec<ToolCall>>,
}

impl View for IncomingMessage {
    type V = IncomingMessageV;

    open spec fn view(&self) -> IncomingMessageV {
        IncomingMessageV {
            role: self.role@,
            content: self.content@,
            tool_calls: self.tool_calls.deep_view(),
        }
    }
}

impl DeepView for IncomingMessage {
    type V = IncomingMessageV;

    open spec fn deep_view(&self) -> IncomingMessageV {
        self.view()
    }
}

/// One choice of a chat completion; only the first is ever consulted.
#[derive(Debug)]
pub struct Choice {
    pub message: IncomingMessage,
}

impl View for Choice {
    type V = IncomingMessageV;

    open spec fn view(&self) -> IncomingMessageV {
        self.message@
    }
}

impl DeepView for Choice {
    type V = IncomingMessageV;

    open spec fn deep_view(&self) -> IncomingMessageV {
        self.view()
    }
}

/// A chat completion as the endpoint returns it.
#[derive(Debug)]
pub struct ChatResponse {
    pub choices: Vec<Choice>,
}

impl View for ChatResponse {
    type V = Seq<IncomingMessageV>;

    open spec fn view(&self) -> Seq<IncomingMessageV> {
        self.choices.deep_view()
    }
}

/// The per-turn options a caller supplies.
#[derive(Debug)]
pub struct ChatOptions {
    pub model_name: String,
}

impl Source for Openrouter {
    type SendType = IncomingMessage;

    /// Lifts an inbound model message into a model-response interaction,
    /// normalising its polymorphic content field into the canonical list.
    fn sends(gen: &mut IdGen, data: IncomingMessage) -> (r: Interaction)
        ensures
            r@ == (InteractionV::LlmResponse {
                interaction_id: old(gen).next,
                content: incoming_contents(data.content@),
                tool_calls: data.tool_calls.deep_view(),
            }),
            final(gen).next == old(gen).next + 1,
    {
        let tool_calls = data.tool_calls;
        let content: Vec<Content> = match data.content {
            IncomingContent::Text(t) => {
                let v = vec![Content::Text { text: t }];
                proof {
                    assert(v.deep_view() =~= incoming_contents(IncomingContentV::Text(t@)));
                }
                v
            },
            IncomingContent::Parts(contents) => contents,
            IncomingContent::Absent => {
                let v: Vec<Content> = Vec::new();
                proof {
                    assert(v.deep_view() =~= incoming_contents(IncomingContentV::Absent));
                }
                v
            },
        };
        Interaction::llm_response(gen, content, tool_calls)
    }
}

/// How an endpoint body is interpreted: a parsed completion is taken as it
/// stands; a body that did not parse degrades to a single assistant message
/// whose text is the raw body, so the turn still shows the user something.
pub fn recover_response(parsed: Option<ChatResponse>, raw_body: String) -> (r: ChatResponse)
    ensures
        match parsed {
            Some(p) => r@ == p@,
            None => r@ =~= seq![
                IncomingMessageV {
                    role: "assistant"@,
                    content: IncomingContentV::Text(raw_body@),
                    tool_calls: None,
                },
            ],
        },
{
    match parsed {
        Some(p) => p,
        None => ChatResponse {
            choices: vec![
                Choice {
                    message: IncomingMessage {
                        role: String::from_str("assistant"),
                        content: IncomingContent::Text(raw_body),
                        tool_calls: None,
                    },
                },
            ],
        },
    }
}

/// Whether a wire message is a tool-role turn.
pub open spec fn wmsg_is_tool(m: WireMessageV) -> bool {
    m.role == "tool"@
}

/// Whether a wire message is an assistant turn carrying a tool call named
/// `tcid`.
pub open spec fn wmsg_carries_call(m: WireMessageV, tcid: Seq<char>) -> bool {
    &&& m.role == "assistant"@
    &&& m.tool_calls matches Some(cs) && exists|ci: int| 0 <= ci < cs.len() && cs[ci].id == tcid
}

/// A wire message carrying a plain text body under the given role.
pub fn text_wire_message(role: String, text: String) -> (r: WireMessage)
    ensures
        r@ == (WireMessageV {
            role: role@,
            text: Some(text@),
            parts: None,
            tool_calls: None,
            tool_call_id: None,
        }),
{
    WireMessage { role, text: Some(text), parts: None, tool_calls: None, tool_call_id: None }
}

/// A wire message carrying structured content parts under the given role.
pub fn parts_wire_message(role: String, parts: Vec<Content>) -> (r: WireMessage)
    ensures
        r@ == (WireMessageV {
            role: role@,
            text: None,
            parts: Some(parts.deep_view()),
            tool_calls: None,
            tool_call_id: None,
        }),
{
    WireMessage { role, text: None, parts: Some(parts), tool_calls: None, tool_call_id: None }
}

/// The messages actually sent for a call: when the system prompt is
/// non-empty, a system message carrying it is placed before the rendered
/// history.
pub fn with_system_prompt(messages: Vec<WireMessage>, system_prompt: &str) -> (r: Vec<WireMessage>)
    ensures
        system_prompt@.len() == 0 ==> r.deep_view() == messages.deep_view(),
        system_prompt@.len() > 0 ==> r.deep_view() =~= seq![
            WireMessageV {
                role: "system"@,
                text: Some(system_prompt@),
                parts: None,
                tool_calls: None,
                tool_call_id: None,
            },
        ] + messages.deep_view(),
{
    if system_prompt.is_empty() {
        messages
    } else {
        let mut out = vec![
            text_wire_message(String::from_str("system"), system_prompt.to_string()),
        ];
        let ghost head = out.deep_view();
        let mut rest = messages;
        let ghost rest_v = rest.deep_view();
        out.append(&mut rest);
        proof {
            assert(out.deep_view() =~= head + rest_v);
        }
        out
    }
}

/// The id a tool-role wire message answers.
pub open spec fn wmsg_tool_id(m: WireMessageV) -> Seq<char> {
    match m.tool_call_id {
        Some(t) => t,
        None => Seq::empty(),
    }
}

/// Rendering any interaction yields at least one wire message.
pub proof fn lemma_wire_of_nonempty(i: InteractionV)
    ensures
        wire_of(i).len() >= 1,
{
}

/// The rendered history contains, for every interaction, the first wire
/// message that interaction renders to, at some position.
pub proof fn lemma_wire_render_holds_first(h: Seq<InteractionV>, w: int)
    requires
        0 <= w < h.len(),
    ensures
        exists|k: int|
            0 <= k < wire_render(h).len() && wire_render(h)[k] == wire_of(h[w])[0],
    decreases h.len(),
{
    let h0 = h.drop_last();
    let x = h.last();
    let s = wire_render(h);
    lemma_wire_of_nonempty(x);
    if w == h.len() - 1 {
        let k = wire_render(h0).len() as int;
        assert(s[k] == wire_of(x)[0]);
    } else {
        lemma_wire_render_holds_first(h0, w);
        let k = choose|k: int|
            0 <= k < wire_render(h0).len() && wire_render(h0)[k] == wire_of(h0[w])[0];
        assert(s[k] == wire_render(h0)[k]);
        assert(h0[w] == h[w]);
    }
}

/// On a history satisfying the structural invariant, the wire rendering
/// never emits a tool-role message without an earlier assistant message
/// carrying the matching tool call.
pub proof fn lemma_wire_render_tool_preceded(h: Seq<InteractionV>)
    requires
        history_inv(h),
    ensures
        forall|j: int|
            0 <= j < wire_render(h).len() && wmsg_is_tool(#[trigger] wire_render(h)[j])
                ==> exists|k: int|
                0 <= k < j && wmsg_carries_call(
                    #[trigger] wire_render(h)[k],
                    wmsg_tool_id(wire_render(h)[j]),
                ),
    decreases h.len(),
{
    reveal_strlit("tool");
    reveal_strlit("assistant");
    reveal_strlit("user");
    assert("assistant"@ != "tool"@) by {
        assert("assistant"@.len() == 9);
        assert("tool"@.len() == 4);
    }
    assert("user"@ != "tool"@) by {
        assert("user"@[0] == 'u');
        assert("tool"@[0] == 't');
    }
    if h.len() == 0 {
    } else {
        let h0 = h.drop_last();
        let x = h.last();
        let s0 = wire_render(h0);
        let s = wire_render(h);
        assert(history_inv(h0)) by {
            assert forall|j: int|
                0 <= j < h0.len() && iv_is_result(#[trigger] h0[j]) implies exists|w: int|
                0 <= w < j && iv_has_call(#[trigger] h0[w], iv_result_id(h0[j])) by {
                assert(h0[j] == h[j]);
                let w = choose|w: int|
                    0 <= w < j && iv_has_call(#[trigger] h[w], iv_result_id(h[j]));
                assert(h0[w] == h[w]);
            }
            assert forall|j1: int, j2: int|
                0 <= j1 < j2 < h0.len() && iv_is_result(#[trigger] h0[j1]) && iv_is_result(
                    #[trigger] h0[j2],
                ) implies iv_result_id(h0[j1]) != iv_result_id(h0[j2]) by {
                assert(h0[j1] == h[j1] && h0[j2] == h[j2]);
            }
        }
        lemma_wire_render_tool_preceded(h0);
        assert forall|j: int|
            0 <= j < s.len() && wmsg_is_tool(#[trigger] s[j]) implies exists|k: int|
            0 <= k < j && wmsg_carries_call(#[trigger] s[k], wmsg_tool_id(s[j])) by {
            if j < s0.len() {
                assert(s[j] == s0[j]);
                let k = choose|k: int|
                    0 <= k < j && wmsg_carries_call(#[trigger] s0[k], wmsg_tool_id(s0[j]));
                assert(s[k] == s0[k]);
            } else {
                let off = j - s0.len();
                assert(s[j] == wire_of(x)[off]);
                match x {
                    InteractionV::LlmResponse { tool_calls, .. } => {
                        assert(wire_of(x).len() == 1);
                        assert(off == 0);
                        assert(wire_of(x)[0].role == "assistant"@);
                        assert(!wmsg_is_tool(s[j]));
                    },
                    InteractionV::UserMessage { .. } => {
                        assert(wire_of(x).len() == 1);
                        assert(off == 0);
                        assert(wire_of(x)[0].role == "user"@);
                        assert(!wmsg_is_tool(s[j]));
                    },
                    InteractionV::ToolResult { tool_call_id, for_llm, .. } => {
                        if off == 0 {
                            let rid = tool_call_id;
                            assert(iv_is_result(h[h.len() - 1]));
                            assert(iv_result_id(h[h.len() - 1]) == rid);
                            let w = choose|w: int|
                                0 <= w < h.len() - 1 && iv_has_call(#[trigger] h[w], rid);
                            assert(h0[w] == h[w]);
                            let ci = choose|ci: int|
                                0 <= ci < iv_calls(h0[w]).len() && iv_calls(h0[w])[ci].id == rid;
                            // A holder of a call is a model response with calls.
                            match h0[w] {
                                InteractionV::LlmResponse { tool_calls: Some(cs), .. } => {
                                    assert(wire_of(h0[w])[0].tool_calls == Some(cs));
                                    assert(wmsg_carries_call(wire_of(h0[w])[0], rid));
                                },
                                _ => {
                                    assert(iv_calls(h0[w]).len() == 0);
                                    assert(false);
                                },
                            }
                            lemma_wire_render_holds_first(h0, w);
                            let k = choose|k: int|
                                0 <= k < s0.len() && s0[k] == wire_of(h0[w])[0];
                            assert(s[k] == s0[k]);
                            assert(wmsg_tool_id(s[j]) == rid);
                            assert(wmsg_carries_call(s[k], wmsg_tool_id(s[j])));
                        } else {
                            assert(off == 1 && for_llm.len() > 0);
                            assert(wire_of(x)[1].role == "user"@);
                            assert(!wmsg_is_tool(s[j]));
                        }
                    },
                }
            }
        }
    }
}

} // verus!