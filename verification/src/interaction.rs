//! The conversation data model: content fragments, interactions, and the
//! ordered history with its integrity-repair operations. The laws these
//! operations obey are proved in [`crate::integrity`].
//!
//! The history invariants, stated over the spec-level model
//! [`Seq<InteractionV>`]:
//! 1. every remaining tool result resolves to a tool call of an earlier
//!    model response ([`results_resolve`]);
//! 2. no two tool results answer the same tool call ([`results_unique`]);
//! 3. no model response is empty after a repair operation completes;
//! 4. interaction identifiers are unique ([`ids_unique`]).

use vstd::prelude::*;

use crate::openrouter::{ToolCall, ToolCallV};

verus! {

/// The spec-level value of a [`Content`].
pub ghost enum ContentV {
    Text { text: Seq<char> },
    ImageUrl { url: Seq<char> },
    File { filename: Seq<char>, file_data: Seq<char> },
}

/// An immutable payload fragment: text, an image reference, or a file
/// attachment carried as a data URL.
#[derive(Debug)]
pub enum Content {
    Text { text: String },
    ImageUrl { image_url: ImageUrl },
    File { file: FileData },
}

/// A file attachment: its name and its contents as a data URL.
#[derive(Debug)]
pub struct FileData {
    pub filename: String,
    pub file_data: String,
}

/// An image reference: a data URL or a remote URL.
#[derive(Debug)]
pub struct ImageUrl {
    pub url: String,
}

impl View for Content {
    type V = ContentV;

    open spec fn view(&self) -> ContentV {
        match self {
            Content::Text { text } => ContentV::Text { text: text@ },
            Content::ImageUrl { image_url } => ContentV::ImageUrl { url: image_url.url@ },
            Content::File { file } => ContentV::File {
                filename: file.filename@,
                file_data: file.file_data@,
            },
        }
    }
}

impl DeepView for Content {
    type V = ContentV;

    open spec fn deep_view(&self) -> ContentV {
        self.view()
    }
}

impl Clone for FileData {
    fn clone(&self) -> (res: Self)
        ensures
            res == *self,
    {
        FileData { filename: self.filename.clone(), file_data: self.file_data.clone() }
    }
}

impl Clone for ImageUrl {
    fn clone(&self) -> (res: Self)
        ensures
            res == *self,
    {
        ImageUrl { url: self.url.clone() }
    }
}

impl Clone for Content {
    fn clone(&self) -> (res: Self)
        ensures
            res@ == self@,
    {
        match self {
            Content::Text { text } => Content::Text { text: text.clone() },
            Content::ImageUrl { image_url } => Content::ImageUrl { image_url: image_url.clone() },
            Content::File { file } => Content::File { file: file.clone() },
        }
    }
}

/// A field-for-field copy of a list of content fragments.
pub fn clone_contents(v: &Vec<Content>) -> (res: Vec<Content>)
    ensures
        res.deep_view() == v.deep_view(),
{
    let res = v.clone();
    proof {
        assert forall|i: int| 0 <= i < v@.len() implies res.deep_view()[i]
            == v.deep_view()[i] by {
            assert(cloned::<Content>(v@[i], res@[i]));
        }
        assert(res.deep_view() =~= v.deep_view());
    }
    res
}

/// Whether this fragment is empty at the spec level: only a text fragment
/// with no characters counts as empty.
pub open spec fn content_is_empty(c: ContentV) -> bool {
    match c {
        ContentV::Text { text } => text.len() == 0,
        ContentV::ImageUrl { .. } => false,
        ContentV::File { .. } => false,
    }
}

impl Content {
    /// Whether this fragment carries nothing: true exactly for empty text.
    pub fn is_empty(&self) -> (r: bool)
        ensures
            r == content_is_empty(self@),
    {
        match self {
            Content::Text { text } => text.as_str().is_empty(),
            Content::ImageUrl { .. } => false,
            Content::File { .. } => false,
        }
    }
}

/// The spec-level value of an [`Interaction`].
pub ghost enum InteractionV {
    LlmResponse {
        interaction_id: usize,
        content: Seq<ContentV>,
        tool_calls: Option<Seq<ToolCallV>>,
    },
    ToolResult {
        interaction_id: usize,
        tool_call_id: Seq<char>,
        response: Seq<char>,
        for_llm: Seq<ContentV>,
        for_user: Seq<ContentV>,
    },
    UserMessage {
        interaction_id: usize,
        content: Seq<ContentV>,
    },
}

/// The unit of conversation history: a model turn, the outcome of one tool
/// call, or a user-authored turn. Each carries a process-unique
/// `interaction_id`, assigned at construction and never reused.
#[derive(Debug, Clone)]
pub enum Interaction {
    LlmResponse {
        interaction_id: usize,
        content: Vec<Content>,
        tool_calls: Option<Vec<ToolCall>>,
    },
    ToolResult {
        interaction_id: usize,
        tool_call_id: String,
        response: String,
        for_llm: Vec<Content>,
        for_user: Vec<Content>,
    },
    UserMessage {
        interaction_id: usize,
        content: Vec<Content>,
    },
}

impl View for Interaction {
    type V = InteractionV;

    open spec fn view(&self) -> InteractionV {
        match self {
            Interaction::LlmResponse { interaction_id, content, tool_calls } => {
                InteractionV::LlmResponse {
                    interaction_id: *interaction_id,
                    content: content.deep_view(),
                    tool_calls: tool_calls.deep_view(),
                }
            },
            Interaction::ToolResult {
                interaction_id,
                tool_call_id,
                response,
                for_llm,
                for_user,
            } => InteractionV::ToolResult {
                interaction_id: *interaction_id,
                tool_call_id: tool_call_id@,
                response: response@,
                for_llm: for_llm.deep_view(),
                for_user: for_user.deep_view(),
            },
            Interaction::UserMessage { interaction_id, content } => InteractionV::UserMessage {
                interaction_id: *interaction_id,
                content: content.deep_view(),
            },
        }
    }
}

impl DeepView for Interaction {
    type V = InteractionV;

    open spec fn deep_view(&self) -> InteractionV {
        self.view()
    }
}

/// The identifier an interaction carries.
pub open spec fn iv_id(i: InteractionV) -> usize {
    match i {
        InteractionV::LlmResponse { interaction_id, .. } => interaction_id,
        InteractionV::ToolResult { interaction_id, .. } => interaction_id,
        InteractionV::UserMessage { interaction_id, .. } => interaction_id,
    }
}

/// The tool calls a model response carries; empty for every other shape.
pub open spec fn iv_calls(i: InteractionV) -> Seq<ToolCallV> {
    match i {
        InteractionV::LlmResponse { tool_calls: Some(cs), .. } => cs,
        _ => Seq::empty(),
    }
}

/// Whether this interaction is a tool result.
pub open spec fn iv_is_result(i: InteractionV) -> bool {
    i is ToolResult
}

/// Whether this interaction is a model response.
pub open spec fn iv_is_llm(i: InteractionV) -> bool {
    i is LlmResponse
}

/// The tool call a tool result answers; the empty string for other shapes.
pub open spec fn iv_result_id(i: InteractionV) -> Seq<char> {
    match i {
        InteractionV::ToolResult { tool_call_id, .. } => tool_call_id,
        _ => Seq::empty(),
    }
}

/// Whether `i` is a model response holding a tool call with id `tcid`.
pub open spec fn iv_has_call(i: InteractionV, tcid: Seq<char>) -> bool {
    exists|ci: int| 0 <= ci < iv_calls(i).len() && iv_calls(i)[ci].id == tcid
}

/// Whether an interaction is empty: a model response with neither meaningful
/// content nor tool calls, or a user message with no meaningful content.
/// Tool results are never empty.
pub open spec fn iv_is_empty(i: InteractionV) -> bool {
    match i {
        InteractionV::LlmResponse { content, tool_calls, .. } => {
            (forall|ci: int| 0 <= ci < content.len() ==> content_is_empty(#[trigger] content[ci]))
                && (tool_calls matches Some(cs) ==> cs.len() == 0)
        },
        InteractionV::ToolResult { .. } => false,
        InteractionV::UserMessage { content, .. } => forall|ci: int|
            0 <= ci < content.len() ==> content_is_empty(#[trigger] content[ci]),
    }
}

/// Invariant 1: every tool result answers a tool call of an earlier model
/// response.
pub open spec fn results_resolve(h: Seq<InteractionV>) -> bool {
    forall|j: int|
        0 <= j < h.len() && iv_is_result(#[trigger] h[j]) ==> exists|k: int|
            0 <= k < j && iv_has_call(#[trigger] h[k], iv_result_id(h[j]))
}

/// Invariant 2 (the "at most one" half): no two tool results answer the same
/// tool call.
pub open spec fn results_unique(h: Seq<InteractionV>) -> bool {
    forall|j1: int, j2: int|
        0 <= j1 < j2 < h.len() && iv_is_result(#[trigger] h[j1]) && iv_is_result(#[trigger] h[j2])
            ==> iv_result_id(h[j1]) != iv_result_id(h[j2])
}

/// Tool-call ids are unique across the whole history: no two tool calls,
/// wherever they stand, share an id.
pub open spec fn calls_unique(h: Seq<InteractionV>) -> bool {
    forall|k1: int, c1: int, k2: int, c2: int|
        0 <= k1 < h.len() && 0 <= c1 < iv_calls(h[k1]).len() && 0 <= k2 < h.len() && 0 <= c2
            < iv_calls(h[k2]).len() && (k1 != k2 || c1 != c2) ==> (#[trigger] iv_calls(h[k1])[c1]).id
            != (#[trigger] iv_calls(h[k2])[c2]).id
}

/// Invariant 4: interaction identifiers are unique within the history.
pub open spec fn ids_unique(h: Seq<InteractionV>) -> bool {
    forall|j1: int, j2: int|
        0 <= j1 < j2 < h.len() ==> iv_id(#[trigger] h[j1]) != iv_id(#[trigger] h[j2])
}

/// The structural history invariant: every tool result resolves backwards to
/// a tool call, and each tool call has at most one result.
pub open spec fn history_inv(h: Seq<InteractionV>) -> bool {
    results_resolve(h) && results_unique(h)
}

/// Whether some tool result in `h` answers the call `tcid`.
pub open spec fn has_result(h: Seq<InteractionV>, tcid: Seq<char>) -> bool {
    exists|j: int| 0 <= j < h.len() && iv_is_result(#[trigger] h[j]) && iv_result_id(h[j]) == tcid
}

/// The predicate that keeps a tool call unless it carries the named id.
pub open spec fn keep_other_calls(tcid: Seq<char>) -> spec_fn(ToolCallV) -> bool {
    |c: ToolCallV| c.id != tcid
}

/// The predicate that keeps a tool call only when some result in `h` answers it.
pub open spec fn keep_finished_calls(h: Seq<InteractionV>) -> spec_fn(ToolCallV) -> bool {
    |c: ToolCallV| has_result(h, c.id)
}

/// The predicate that keeps an interaction unless it is empty.
pub open spec fn keep_non_empty() -> spec_fn(InteractionV) -> bool {
    |i: InteractionV| !iv_is_empty(i)
}

/// The predicate that keeps an interaction unless it carries the named id.
pub open spec fn keep_other_ids(id: usize) -> spec_fn(InteractionV) -> bool {
    |i: InteractionV| iv_id(i) != id
}

/// `h` with every empty interaction pruned.
pub open spec fn prune(h: Seq<InteractionV>) -> Seq<InteractionV> {
    h.filter(keep_non_empty())
}

/// `i` with the tool call named `tcid` stripped, when `i` is a model
/// response; anything else is left as it stands.
pub open spec fn strip_calls(i: InteractionV, tcid: Seq<char>) -> InteractionV {
    match i {
        InteractionV::LlmResponse { interaction_id, content, tool_calls: Some(cs) } => {
            InteractionV::LlmResponse {
                interaction_id,
                content,
                tool_calls: Some(cs.filter(keep_other_calls(tcid))),
            }
        },
        _ => i,
    }
}

/// `i` with every tool call not answered in `h` stripped, when `i` is a
/// model response; anything else is left as it stands.
pub open spec fn strip_unfinished(i: InteractionV, h: Seq<InteractionV>) -> InteractionV {
    match i {
        InteractionV::LlmResponse { interaction_id, content, tool_calls: Some(cs) } => {
            InteractionV::LlmResponse {
                interaction_id,
                content,
                tool_calls: Some(cs.filter(keep_finished_calls(h))),
            }
        },
        _ => i,
    }
}

/// Whether `k` is the position of the first interaction carrying `id`.
pub open spec fn is_first_id(h: Seq<InteractionV>, id: usize, k: int) -> bool {
    &&& 0 <= k < h.len()
    &&& iv_id(h[k]) == id
    &&& forall|j: int| 0 <= j < k ==> iv_id(#[trigger] h[j]) != id
}

/// The position of the first interaction carrying `id`, or -1 when none does.
pub open spec fn first_id_idx(h: Seq<InteractionV>, id: usize) -> int {
    if exists|k: int| is_first_id(h, id, k) {
        choose|k: int| is_first_id(h, id, k)
    } else {
        -1
    }
}

pub proof fn lemma_first_id_idx(h: Seq<InteractionV>, id: usize, k: int)
    requires
        is_first_id(h, id, k),
    ensures
        first_id_idx(h, id) == k,
{
    let k2 = choose|k2: int| is_first_id(h, id, k2);
    assert(is_first_id(h, id, k2));
    if k2 < k {
        assert(iv_id(h[k2]) != id);
    } else if k < k2 {
        assert(iv_id(h[k]) != id);
    }
}

pub proof fn lemma_no_first_id_idx(h: Seq<InteractionV>, id: usize)
    requires
        forall|j: int| 0 <= j < h.len() ==> iv_id(#[trigger] h[j]) != id,
    ensures
        first_id_idx(h, id) == -1,
{
    if exists|k: int| is_first_id(h, id, k) {
        let k = choose|k: int| is_first_id(h, id, k);
        assert(iv_id(h[k]) != id);
    }
}

/// Whether `j` is the position of the first tool result at or after `from`
/// that answers the call `tcid`.
pub open spec fn is_first_result_from(
    h: Seq<InteractionV>,
    from: int,
    tcid: Seq<char>,
    j: int,
) -> bool {
    &&& from <= j < h.len()
    &&& iv_is_result(h[j]) && iv_result_id(h[j]) == tcid
    &&& forall|j2: int|
        from <= j2 < j ==> !(iv_is_result(#[trigger] h[j2]) && iv_result_id(h[j2]) == tcid)
}

/// The position of the first tool result at or after `from` answering
/// `tcid`, or -1 when none does.
pub open spec fn first_result_idx_from(h: Seq<InteractionV>, from: int, tcid: Seq<char>) -> int {
    if exists|j: int| is_first_result_from(h, from, tcid, j) {
        choose|j: int| is_first_result_from(h, from, tcid, j)
    } else {
        -1
    }
}

pub proof fn lemma_first_result_idx_from(h: Seq<InteractionV>, from: int, tcid: Seq<char>, j: int)
    requires
        is_first_result_from(h, from, tcid, j),
    ensures
        first_result_idx_from(h, from, tcid) == j,
{
    let j2 = choose|j2: int| is_first_result_from(h, from, tcid, j2);
    assert(is_first_result_from(h, from, tcid, j2));
    if j2 < j {
        assert(!(iv_is_result(h[j2]) && iv_result_id(h[j2]) == tcid));
    } else if j < j2 {
        assert(!(iv_is_result(h[j]) && iv_result_id(h[j]) == tcid));
    }
}

pub proof fn lemma_no_first_result_idx_from(h: Seq<InteractionV>, from: int, tcid: Seq<char>)
    requires
        forall|j: int|
            from <= j < h.len() ==> !(iv_is_result(#[trigger] h[j]) && iv_result_id(h[j]) == tcid),
    ensures
        first_result_idx_from(h, from, tcid) == -1,
{
    if exists|j: int| is_first_result_from(h, from, tcid, j) {
        let j = choose|j: int| is_first_result_from(h, from, tcid, j);
        assert(!(iv_is_result(h[j]) && iv_result_id(h[j]) == tcid));
    }
}

/// Whether `k` is the position of the last model response in `h`.
pub open spec fn is_last_llm(h: Seq<InteractionV>, k: int) -> bool {
    &&& 0 <= k < h.len()
    &&& iv_is_llm(h[k])
    &&& forall|j: int| k < j < h.len() ==> !iv_is_llm(#[trigger] h[j])
}

/// The position of the last model response, or -1 when there is none.
pub open spec fn last_llm_idx(h: Seq<InteractionV>) -> int {
    if exists|k: int| is_last_llm(h, k) {
        choose|k: int| is_last_llm(h, k)
    } else {
        -1
    }
}

pub proof fn lemma_last_llm_idx(h: Seq<InteractionV>, k: int)
    requires
        is_last_llm(h, k),
    ensures
        last_llm_idx(h) == k,
{
    let k2 = choose|k2: int| is_last_llm(h, k2);
    assert(is_last_llm(h, k2));
    if k2 < k {
        assert(!iv_is_llm(h[k]));
    } else if k < k2 {
        assert(!iv_is_llm(h[k2]));
    }
}

pub proof fn lemma_no_last_llm_idx(h: Seq<InteractionV>)
    requires
        forall|j: int| 0 <= j < h.len() ==> !iv_is_llm(#[trigger] h[j]),
    ensures
        last_llm_idx(h) == -1,
{
    if exists|k: int| is_last_llm(h, k) {
        let k = choose|k: int| is_last_llm(h, k);
        assert(!iv_is_llm(h[k]));
    }
}

/// What `delete_by_tool_id` does, at the spec level: strip the named call
/// from the first interaction carrying `llm_id`, remove the first matching
/// tool result at or after that position, then prune empty interactions.
pub open spec fn spec_delete_by_tool_id(
    h: Seq<InteractionV>,
    llm_id: usize,
    tcid: Seq<char>,
) -> Seq<InteractionV> {
    let k = first_id_idx(h, llm_id);
    if k < 0 {
        prune(h)
    } else {
        let h1 = h.update(k, strip_calls(h[k], tcid));
        let j = first_result_idx_from(h1, k, tcid);
        let h2 = if j < 0 { h1 } else { h1.remove(j) };
        prune(h2)
    }
}

/// What `clean_unfinished_tool_calls` does, at the spec level: in the last
/// model response, keep only the tool calls that already have a result, then
/// prune every interaction the stripping left empty — a repaired history
/// holds no empty model response.
pub open spec fn spec_clean_unfinished(h: Seq<InteractionV>) -> Seq<InteractionV> {
    let k = last_llm_idx(h);
    if k < 0 {
        h
    } else {
        prune(h.update(k, strip_unfinished(h[k], h)))
    }
}

/// Whether `k` is the position of the first model response holding a tool
/// call named `tcid`.
pub open spec fn is_first_holder(h: Seq<InteractionV>, tcid: Seq<char>, k: int) -> bool {
    &&& 0 <= k < h.len()
    &&& iv_has_call(h[k], tcid)
    &&& forall|j: int| 0 <= j < k ==> !iv_has_call(#[trigger] h[j], tcid)
}

/// The position of the first model response holding a tool call named
/// `tcid`, or -1 when none does.
pub open spec fn first_holder_idx(h: Seq<InteractionV>, tcid: Seq<char>) -> int {
    if exists|k: int| is_first_holder(h, tcid, k) {
        choose|k: int| is_first_holder(h, tcid, k)
    } else {
        -1
    }
}

pub proof fn lemma_first_holder_idx(h: Seq<InteractionV>, tcid: Seq<char>, k: int)
    requires
        is_first_holder(h, tcid, k),
    ensures
        first_holder_idx(h, tcid) == k,
{
    let k2 = choose|k2: int| is_first_holder(h, tcid, k2);
    assert(is_first_holder(h, tcid, k2));
    if k2 < k {
        assert(!iv_has_call(h[k2], tcid));
    } else if k < k2 {
        assert(!iv_has_call(h[k], tcid));
    }
}

pub proof fn lemma_no_first_holder_idx(h: Seq<InteractionV>, tcid: Seq<char>)
    requires
        forall|j: int| 0 <= j < h.len() ==> !iv_has_call(#[trigger] h[j], tcid),
    ensures
        first_holder_idx(h, tcid) == -1,
{
    if exists|k: int| is_first_holder(h, tcid, k) {
        let k = choose|k: int| is_first_holder(h, tcid, k);
        assert(!iv_has_call(h[k], tcid));
    }
}

/// The id a tool call carries.
pub open spec fn call_id_of() -> spec_fn(ToolCallV) -> Seq<char> {
    |c: ToolCallV| c.id
}

/// Deleting the pairs of each listed tool call in turn, always targeting the
/// interaction carrying `lid`.
pub open spec fn delete_calls_loop(
    h: Seq<InteractionV>,
    lid: usize,
    ids: Seq<Seq<char>>,
) -> Seq<InteractionV>
    decreases ids.len(),
{
    if ids.len() == 0 {
        h
    } else {
        delete_calls_loop(spec_delete_by_tool_id(h, lid, ids[0]), lid, ids.drop_first())
    }
}

/// What `delete_by_id` does, at the spec level. Deleting a model response
/// cascades into deleting each of its tool-call/result pairs; deleting a
/// tool result removes its pairing from whichever response holds the call;
/// in every case the named interaction is removed and empties are pruned.
pub open spec fn spec_delete_by_id(h: Seq<InteractionV>, id: usize) -> Seq<InteractionV> {
    let k = first_id_idx(h, id);
    let h1 = if k < 0 {
        h
    } else {
        match h[k] {
            InteractionV::LlmResponse { tool_calls: Some(cs), .. } => delete_calls_loop(
                h,
                id,
                cs.map_values(call_id_of()),
            ),
            InteractionV::ToolResult { tool_call_id, .. } => {
                let m = first_holder_idx(h, tool_call_id);
                if m < 0 {
                    h
                } else {
                    spec_delete_by_tool_id(h, iv_id(h[m]), tool_call_id)
                }
            },
            _ => h,
        }
    };
    h1.filter(keep_other_ids(id))
}

/// One round of filtering on sequences: filtering after a push appends the
/// new element exactly when the predicate keeps it.
pub proof fn lemma_filter_push<A>(s: Seq<A>, x: A, p: spec_fn(A) -> bool)
    ensures
        s.push(x).filter(p) == if p(x) {
            s.filter(p).push(x)
        } else {
            s.filter(p)
        },
{
    reveal(Seq::filter);
    assert(s.push(x).drop_last() =~= s);
    assert(s.push(x).last() == x);
}

/// The source of process-unique interaction identifiers. The next identifier
/// to hand out is `next`; every identifier already handed out is below it.
#[derive(Debug, Clone)]
pub struct IdGen {
    pub next: usize,
}

impl IdGen {
    /// A fresh generator; the first identifier handed out is 1.
    pub fn new() -> (r: IdGen)
        ensures
            r.next == 1,
    {
        IdGen { next: 1 }
    }
}

impl Interaction {
    /// Hands out the next process-unique identifier and advances the
    /// generator, so the same identifier is never handed out twice.
    pub fn create_id(gen: &mut IdGen) -> (r: usize)
        requires
            old(gen).next < usize::MAX,
        ensures
            r == old(gen).next,
            final(gen).next == r + 1,
    {
        let id = gen.next;
        gen.next = gen.next + 1;
        id
    }

    /// A model turn carrying `content` and, when the model requested tools,
    /// the verbatim list of tool calls.
    pub fn llm_response(gen: &mut IdGen, content: Vec<Content>, tool_calls: Option<Vec<ToolCall>>)
        -> (r: Interaction)
        requires
            old(gen).next < usize::MAX,
        ensures
            r@ == (InteractionV::LlmResponse {
                interaction_id: old(gen).next,
                content: content.deep_view(),
                tool_calls: tool_calls.deep_view(),
            }),
            final(gen).next == old(gen).next + 1,
    {
        let interaction_id = Self::create_id(gen);
        Interaction::LlmResponse { interaction_id, content, tool_calls }
    }

    /// The outcome of executing one tool call, echoing the call's id.
    pub fn tool_result(
        gen: &mut IdGen,
        tool_call_id: String,
        response: String,
        for_llm: Vec<Content>,
        for_user: Vec<Content>,
    ) -> (r: Interaction)
        requires
            old(gen).next < usize::MAX,
        ensures
            r@ == (InteractionV::ToolResult {
                interaction_id: old(gen).next,
                tool_call_id: tool_call_id@,
                response: response@,
                for_llm: for_llm.deep_view(),
                for_user: for_user.deep_view(),
            }),
            final(gen).next == old(gen).next + 1,
    {
        let interaction_id = Self::create_id(gen);
        Interaction::ToolResult { interaction_id, tool_call_id, response, for_llm, for_user }
    }

    /// A user-authored turn.
    pub fn user_message(gen: &mut IdGen, content: Vec<Content>) -> (r: Interaction)
        requires
            old(gen).next < usize::MAX,
        ensures
            r@ == (InteractionV::UserMessage {
                interaction_id: old(gen).next,
                content: content.deep_view(),
            }),
            final(gen).next == old(gen).next + 1,
    {
        let interaction_id = Self::create_id(gen);
        Interaction::UserMessage { interaction_id, content }
    }

    /// The identifier this interaction carries.
    pub fn id(&self) -> (r: usize)
        ensures
            r == iv_id(self@),
    {
        match self {
            Interaction::LlmResponse { interaction_id, .. } => *interaction_id,
            Interaction::ToolResult { interaction_id, .. } => *interaction_id,
            Interaction::UserMessage { interaction_id, .. } => *interaction_id,
        }
    }

    /// Whether this interaction is empty and hence subject to pruning.
    pub fn is_empty(&self) -> (r: bool)
        ensures
            r == iv_is_empty(self@),
    {
        match self {
            Interaction::LlmResponse { content, tool_calls, .. } => {
                let mut all_empty = true;
                let mut ci: usize = 0;
                while ci < content.len()
                    invariant
                        0 <= ci <= content.len(),
                        all_empty == (forall|k: int|
                            0 <= k < ci ==> content_is_empty(#[trigger] content.deep_view()[k])),
                    decreases content.len() - ci,
                {
                    proof {
                        assert(content.deep_view()[ci as int] == content@[ci as int]@);
                    }
                    if !content[ci].is_empty() {
                        all_empty = false;
                    }
                    ci = ci + 1;
                }
                let calls_empty = match tool_calls {
                    Some(cs) => cs.len() == 0,
                    None => true,
                };
                proof {
                    assert(match self@ {
                        InteractionV::LlmResponse { content: c, tool_calls: tc, .. } => {
                            c == content.deep_view() && tc == tool_calls.deep_view()
                        },
                        _ => false,
                    });
                    assert(calls_empty == (tool_calls.deep_view() matches Some(cs)
                        ==> cs.len() == 0));
                }
                all_empty && calls_empty
            },
            Interaction::ToolResult { .. } => false,
            Interaction::UserMessage { content, .. } => {
                let mut all_empty = true;
                let mut ci: usize = 0;
                while ci < content.len()
                    invariant
                        0 <= ci <= content.len(),
                        all_empty == (forall|k: int|
                            0 <= k < ci ==> content_is_empty(#[trigger] content.deep_view()[k])),
                    decreases content.len() - ci,
                {
                    proof {
                        assert(content.deep_view()[ci as int] == content@[ci as int]@);
                    }
                    if !content[ci].is_empty() {
                        all_empty = false;
                    }
                    ci = ci + 1;
                }
                proof {
                    assert(match self@ {
                        InteractionV::UserMessage { content: c, .. } => c == content.deep_view(),
                        _ => false,
                    });
                }
                all_empty
            },
        }
    }
}

/// The conversation: an ordered, owned sequence of interactions. Order is
/// chronological and is also presentation order.
#[derive(Debug, Clone)]
pub struct History {
    pub inner: Vec<Interaction>,
}

impl View for History {
    type V = Seq<InteractionV>;

    open spec fn view(&self) -> Seq<InteractionV> {
        self.inner.deep_view()
    }
}

impl History {
    /// An empty conversation.
    pub fn new() -> (r: History)
        ensures
            r@ =~= Seq::<InteractionV>::empty(),
    {
        History { inner: Vec::new() }
    }

    /// Appends an interaction at the end of the conversation.
    pub fn push(&mut self, new: Interaction)
        ensures
            final(self)@ =~= old(self)@.push(new@),
    {
        self.inner.push(new);
    }

    /// Removes every interaction.
    pub fn clear(&mut self)
        ensures
            final(self)@ =~= Seq::<InteractionV>::empty(),
    {
        self.inner.clear();
    }

    /// How many interactions the conversation holds.
    pub fn len(&self) -> (r: usize)
        ensures
            r == self@.len(),
    {
        self.inner.len()
    }
}


/// A render capability: flattens interactions into a sequence of values for
/// one consumer (the completion endpoint's wire format, or UI events).
pub trait Target {
    type RenderType;

    /// The values one interaction renders to.
    fn convert(interaction: &Interaction) -> Vec<Self::RenderType>;

    /// The whole history, flattened in order: the concatenation of each
    /// interaction's conversion.
    fn render(history: &History) -> Vec<Self::RenderType>;
}

/// A lift capability: turns an inbound payload into the correctly tagged
/// interaction, stamping it with a fresh identifier.
pub trait Source {
    type SendType;

    fn sends(gen: &mut IdGen, data: Self::SendType) -> Interaction
        requires
            old(gen).next < usize::MAX,
    ;
}

} // verus!

verus! {

impl History {
    /// The position of the first interaction carrying `id`, if any.
    fn position_of_id(&self, id: usize) -> (r: Option<usize>)
        ensures
            match r {
                Some(k) => is_first_id(self@, id, k as int),
                None => forall|j: int| 0 <= j < self@.len() ==> iv_id(#[trigger] self@[j]) != id,
            },
    {
        let mut i: usize = 0;
        while i < self.inner.len()
            invariant
                0 <= i <= self@.len(),
                self@.len() == self.inner.len(),
                forall|j: int| 0 <= j < i ==> iv_id(#[trigger] self@[j]) != id,
            decreases self.inner.len() - i,
        {
            proof {
                assert(self@[i as int] == self.inner@[i as int]@);
            }
            if self.inner[i].id() == id {
                return Some(i);
            }
            i = i + 1;
        }
        None
    }

    /// The position of the first tool result at or after `from` answering
    /// `tcid`, if any.
    fn position_of_result_from(&self, from: usize, tcid: &String) -> (r: Option<usize>)
        requires
            from <= self@.len(),
        ensures
            match r {
                Some(j) => is_first_result_from(self@, from as int, tcid@, j as int),
                None => forall|j: int|
                    from <= j < self@.len() ==> !(iv_is_result(#[trigger] self@[j]) && iv_result_id(
                        self@[j],
                    ) == tcid@),
            },
    {
        let mut i: usize = from;
        while i < self.inner.len()
            invariant
                from <= i <= self@.len(),
                self@.len() == self.inner.len(),
                forall|j: int|
                    from <= j < i ==> !(iv_is_result(#[trigger] self@[j]) && iv_result_id(self@[j])
                        == tcid@),
            decreases self.inner.len() - i,
        {
            proof {
                assert(self@[i as int] == self.inner@[i as int]@);
            }
            let hit = match &self.inner[i] {
                Interaction::ToolResult { tool_call_id, .. } => tool_call_id.eq(tcid),
                _ => false,
            };
            if hit {
                return Some(i);
            }
            i = i + 1;
        }
        None
    }

    /// Strips the tool call named `tcid` from the interaction at `index`.
    fn strip_call_at(&mut self, index: usize, tcid: &String)
        requires
            index < old(self)@.len(),
        ensures
            final(self)@ == old(self)@.update(
                index as int,
                strip_calls(old(self)@[index as int], tcid@),
            ),
    {
        let ghost h0 = self@;
        proof {
            assert(h0[index as int] == self.inner@[index as int]@);
        }
        let elem = self.inner.remove(index);
        let new_elem = match elem {
            Interaction::LlmResponse { interaction_id, content, tool_calls: Some(calls) } => {
                let ghost orig = calls.deep_view();
                let mut calls = calls;
                let mut kept: Vec<ToolCall> = Vec::new();
                let ghost mut processed: int = 0;
                proof {
                    assert(calls.deep_view() =~= orig.skip(0));
                    assert(kept.deep_view() =~= orig.take(0).filter(keep_other_calls(tcid@)));
                }
                while calls.len() > 0
                    invariant
                        0 <= processed <= orig.len(),
                        calls.deep_view() == orig.skip(processed),
                        kept.deep_view() == orig.take(processed).filter(keep_other_calls(tcid@)),
                    decreases calls.len(),
                {
                    let ghost calls_before = calls.deep_view();
                    let ghost kept_before = kept.deep_view();
                    proof {
                        assert(calls_before.len() == calls@.len());
                        assert(calls_before.len() > 0);
                    }
                    let c = calls.remove(0);
                    proof {
                        assert(c.deep_view() == calls_before[0]);
                        assert(processed < orig.len());
                        assert(orig.skip(processed)[0] == orig[processed]);
                        assert(calls_before[0] == orig[processed]);
                        assert(calls.deep_view() =~= calls_before.skip(1));
                        assert(calls_before.skip(1) =~= orig.skip(processed + 1));
                        assert(orig.take(processed + 1) =~= orig.take(processed).push(
                            orig[processed],
                        ));
                        lemma_filter_push(orig.take(processed), orig[processed], keep_other_calls(
                            tcid@,
                        ));
                    }
                    if !(c.id == *tcid) {
                        kept.push(c);
                        proof {
                            assert(kept.deep_view() =~= kept_before.push(c.deep_view()));
                            assert((keep_other_calls(tcid@))(c.deep_view()));
                        }
                    } else {
                        proof {
                            assert(!(keep_other_calls(tcid@))(c.deep_view()));
                        }
                    }
                    proof {
                        processed = processed + 1;
                    }
                }
                proof {
                    assert(orig.take(processed) =~= orig);
                }
                Interaction::LlmResponse { interaction_id, content, tool_calls: Some(kept) }
            },
            other => other,
        };
        self.inner.insert(index, new_elem);
        proof {
            assert(new_elem@ == strip_calls(h0[index as int], tcid@));
            assert(final(self)@ =~= h0.update(index as int, strip_calls(h0[index as int], tcid@)));
        }
    }

    /// Removes every empty interaction, keeping the order of the rest.
    fn retain_non_empty(&mut self)
        ensures
            final(self)@ == prune(old(self)@),
    {
        let ghost orig = self@;
        let mut kept: Vec<Interaction> = Vec::new();
        let ghost mut processed: int = 0;
        proof {
            assert(self@ =~= orig.skip(0));
            assert(kept.deep_view() =~= orig.take(0).filter(keep_non_empty()));
        }
        while self.inner.len() > 0
            invariant
                0 <= processed <= orig.len(),
                self@ == orig.skip(processed),
                kept.deep_view() == orig.take(processed).filter(keep_non_empty()),
            decreases self.inner.len(),
        {
            let ghost before = self@;
            let ghost kept_before = kept.deep_view();
            proof {
                assert(before.len() == self.inner@.len());
                assert(before.len() > 0);
            }
            let i = self.inner.remove(0);
            proof {
                assert(i@ == before[0]);
                assert(processed < orig.len());
                assert(orig.skip(processed)[0] == orig[processed]);
                assert(before[0] == orig[processed]);
                assert(self@ =~= before.skip(1));
                assert(before.skip(1) =~= orig.skip(processed + 1));
                assert(orig.take(processed + 1) =~= orig.take(processed).push(orig[processed]));
                lemma_filter_push(orig.take(processed), orig[processed], keep_non_empty());
            }
            if !i.is_empty() {
                kept.push(i);
                proof {
                    assert(kept.deep_view() =~= kept_before.push(before[0]));
                }
            }
            proof {
                processed = processed + 1;
            }
        }
        self.inner = kept;
        proof {
            assert(orig.take(processed) =~= orig);
        }
    }

    /// Targets the tool-call/result pair sharing `tool_call_id_to_delete`:
    /// strips the matching tool call from the interaction carrying
    /// `llm_interaction_id`, removes the matching tool result that appears at
    /// or after it, then prunes every interaction that has become empty.
    pub fn delete_by_tool_id(&mut self, llm_interaction_id: usize, tool_call_id_to_delete: &String)
        ensures
            final(self)@ == spec_delete_by_tool_id(
                old(self)@,
                llm_interaction_id,
                tool_call_id_to_delete@,
            ),
    {
        let ghost h0 = self@;
        let pos = self.position_of_id(llm_interaction_id);
        match pos {
            Some(index) => {
                proof {
                    lemma_first_id_idx(h0, llm_interaction_id, index as int);
                }
                self.strip_call_at(index, tool_call_id_to_delete);
                let ghost h1 = self@;
                let rpos = self.position_of_result_from(index, tool_call_id_to_delete);
                match rpos {
                    Some(j) => {
                        proof {
                            lemma_first_result_idx_from(
                                h1,
                                index as int,
                                tool_call_id_to_delete@,
                                j as int,
                            );
                        }
                        let _ = self.inner.remove(j);
                        proof {
                            assert(self@ =~= h1.remove(j as int));
                        }
                    },
                    None => {
                        proof {
                            lemma_no_first_result_idx_from(
                                h1,
                                index as int,
                                tool_call_id_to_delete@,
                            );
                        }
                    },
                }
            },
            None => {
                proof {
                    lemma_no_first_id_idx(h0, llm_interaction_id);
                }
            },
        }
        self.retain_non_empty();
    }

    /// Removes every interaction carrying `id`, keeping the order of the rest.
    fn retain_not_id(&mut self, id: usize)
        ensures
            final(self)@ == old(self)@.filter(keep_other_ids(id)),
    {
        let ghost orig = self@;
        let mut kept: Vec<Interaction> = Vec::new();
        let ghost mut processed: int = 0;
        proof {
            assert(self@ =~= orig.skip(0));
            assert(kept.deep_view() =~= orig.take(0).filter(keep_other_ids(id)));
        }
        while self.inner.len() > 0
            invariant
                0 <= processed <= orig.len(),
                self@ == orig.skip(processed),
                kept.deep_view() == orig.take(processed).filter(keep_other_ids(id)),
            decreases self.inner.len(),
        {
            let ghost before = self@;
            let ghost kept_before = kept.deep_view();
            proof {
                assert(before.len() == self.inner@.len());
                assert(before.len() > 0);
            }
            let i = self.inner.remove(0);
            proof {
                assert(i@ == before[0]);
                assert(processed < orig.len());
                assert(orig.skip(processed)[0] == orig[processed]);
                assert(before[0] == orig[processed]);
                assert(self@ =~= before.skip(1));
                assert(before.skip(1) =~= orig.skip(processed + 1));
                assert(orig.take(processed + 1) =~= orig.take(processed).push(orig[processed]));
                lemma_filter_push(orig.take(processed), orig[processed], keep_other_ids(id));
            }
            if !(i.id() == id) {
                kept.push(i);
                proof {
                    assert(kept.deep_view() =~= kept_before.push(before[0]));
                }
            }
            proof {
                processed = processed + 1;
            }
        }
        self.inner = kept;
        proof {
            assert(orig.take(processed) =~= orig);
        }
    }

    /// The position of the first model response holding a tool call named
    /// `tcid`, if any.
    fn position_of_holder(&self, tcid: &String) -> (r: Option<usize>)
        ensures
            match r {
                Some(m) => is_first_holder(self@, tcid@, m as int),
                None => forall|j: int|
                    0 <= j < self@.len() ==> !iv_has_call(#[trigger] self@[j], tcid@),
            },
    {
        let mut i: usize = 0;
        while i < self.inner.len()
            invariant
                0 <= i <= self@.len(),
                self@.len() == self.inner.len(),
                forall|j: int| 0 <= j < i ==> !iv_has_call(#[trigger] self@[j], tcid@),
            decreases self.inner.len() - i,
        {
            proof {
                assert(self@[i as int] == self.inner@[i as int]@);
            }
            let ghost cv = iv_calls(self@[i as int]);
            match &self.inner[i] {
                Interaction::LlmResponse { tool_calls: Some(calls), .. } => {
                    let mut ci: usize = 0;
                    while ci < calls.len()
                        invariant
                            0 <= ci <= calls.len(),
                            i < self@.len(),
                            cv == iv_calls(self@[i as int]),
                            forall|j: int| 0 <= j < i ==> !iv_has_call(#[trigger] self@[j], tcid@),
                            cv == calls.deep_view(),
                            cv.len() == calls.len(),
                            forall|cj: int| 0 <= cj < ci ==> (#[trigger] cv[cj]).id != tcid@,
                        decreases calls.len() - ci,
                    {
                        proof {
                            assert(cv[ci as int] == calls@[ci as int]@);
                        }
                        if calls[ci].id.eq(tcid) {
                            proof {
                                assert(cv[ci as int].id == tcid@);
                                assert(iv_has_call(self@[i as int], tcid@));
                            }
                            return Some(i);
                        }
                        ci = ci + 1;
                    }
                    proof {
                        assert(forall|cj: int|
                            0 <= cj < cv.len() ==> (#[trigger] cv[cj]).id != tcid@);
                        assert(!iv_has_call(self@[i as int], tcid@));
                    }
                },
                _ => {
                    proof {
                        assert(iv_calls(self@[i as int]).len() == 0);
                        assert(!iv_has_call(self@[i as int], tcid@));
                    }
                },
            }
            i = i + 1;
        }
        None
    }

    /// The cancellation-repair operation: computes the set of tool calls that
    /// already have a result, strips every other tool call from the most
    /// recent model response, and prunes whatever the stripping left empty,
    /// so that a cancelled turn leaves neither orphaned calls nor an empty
    /// response behind.
    pub fn clean_unfinished_tool_calls(&mut self)
        ensures
            final(self)@ == spec_clean_unfinished(old(self)@),
    {
        let ghost h0 = self@;
        // Collect the ids of the tool results present in the history.
        let mut ids: Vec<String> = Vec::new();
        let mut i: usize = 0;
        while i < self.inner.len()
            invariant
                0 <= i <= self.inner.len(),
                self@ == h0,
                h0.len() == self.inner.len(),
                forall|id: Seq<char>| #[trigger]
                    ids.deep_view().contains(id) ==> has_result(h0, id),
                forall|j: int|
                    0 <= j < i && iv_is_result(#[trigger] h0[j]) ==> ids.deep_view().contains(
                        iv_result_id(h0[j]),
                    ),
            decreases self.inner.len() - i,
        {
            proof {
                assert(h0[i as int] == self.inner@[i as int]@);
            }
            let ghost ids_before = ids.deep_view();
            match &self.inner[i] {
                Interaction::ToolResult { tool_call_id, .. } => {
                    ids.push(tool_call_id.clone());
                    proof {
                        assert(ids.deep_view() =~= ids_before.push(tool_call_id@));
                        assert(ids.deep_view()[ids_before.len() as int] == tool_call_id@);
                        assert(ids.deep_view().contains(tool_call_id@));
                        assert forall|id: Seq<char>| #[trigger]
                            ids.deep_view().contains(id) implies has_result(h0, id) by {
                            let n = choose|n: int|
                                0 <= n < ids.deep_view().len() && ids.deep_view()[n] == id;
                            if n < ids_before.len() {
                                assert(ids_before[n] == id);
                                assert(ids_before.contains(id));
                            } else {
                                assert(id == tool_call_id@);
                                assert(iv_is_result(h0[i as int]) && iv_result_id(h0[i as int])
                                    == tool_call_id@);
                            }
                        };
                        assert forall|j: int|
                            0 <= j < i + 1 && iv_is_result(#[trigger] h0[j]) implies ids
                            .deep_view().contains(iv_result_id(h0[j])) by {
                            if j < i {
                                assert(ids_before.contains(iv_result_id(h0[j])));
                                let n = choose|n: int|
                                    0 <= n < ids_before.len() && ids_before[n] == iv_result_id(
                                        h0[j],
                                    );
                                assert(ids.deep_view()[n] == iv_result_id(h0[j]));
                            }
                        };
                    }
                },
                _ => {},
            }
            i = i + 1;
        }
        proof {
            assert forall|id: Seq<char>| #[trigger]
                has_result(h0, id) implies ids.deep_view().contains(id) by {
                let j = choose|j: int|
                    0 <= j < h0.len() && iv_is_result(#[trigger] h0[j]) && iv_result_id(h0[j])
                        == id;
            };
        }
        // Find the most recent model response.
        let mut k_found: Option<usize> = None;
        let mut r: usize = self.inner.len();
        while r > 0
            invariant_except_break
                0 <= r <= self.inner.len(),
                self@ == h0,
                h0.len() == self.inner.len(),
                k_found is None,
                forall|j: int| r <= j < h0.len() ==> !iv_is_llm(#[trigger] h0[j]),
            ensures
                self@ == h0,
                h0.len() == self.inner.len(),
                match k_found {
                    Some(k) => is_last_llm(h0, k as int),
                    None => forall|j: int| 0 <= j < h0.len() ==> !iv_is_llm(#[trigger] h0[j]),
                },
            decreases r,
        {
            r = r - 1;
            proof {
                assert(h0[r as int] == self.inner@[r as int]@);
            }
            let is_llm = match &self.inner[r] {
                Interaction::LlmResponse { .. } => true,
                _ => false,
            };
            if is_llm {
                k_found = Some(r);
                break;
            }
        }
        match k_found {
            Some(k) => {
                proof {
                    lemma_last_llm_idx(h0, k as int);
                    assert(h0[k as int] == self.inner@[k as int]@);
                }
                // Strip the calls of that response that have no result yet.
                let elem = self.inner.remove(k);
                let new_elem = match elem {
                    Interaction::LlmResponse {
                        interaction_id,
                        content,
                        tool_calls: Some(calls),
                    } => {
                        let ghost orig = calls.deep_view();
                        let mut calls = calls;
                        let mut kept: Vec<ToolCall> = Vec::new();
                        let ghost mut processed: int = 0;
                        proof {
                            assert(calls.deep_view() =~= orig.skip(0));
                            assert(kept.deep_view() =~= orig.take(0).filter(
                                keep_finished_calls(h0),
                            ));
                        }
                        while calls.len() > 0
                            invariant
                                0 <= processed <= orig.len(),
                                calls.deep_view() == orig.skip(processed),
                                kept.deep_view() == orig.take(processed).filter(
                                    keep_finished_calls(h0),
                                ),
                                forall|id: Seq<char>|
                                    #[trigger] ids.deep_view().contains(id) <==> has_result(
                                        h0,
                                        id,
                                    ),
                            decreases calls.len(),
                        {
                            let ghost calls_before = calls.deep_view();
                            let ghost kept_before = kept.deep_view();
                            proof {
                                assert(calls_before.len() == calls@.len());
                                assert(calls_before.len() > 0);
                            }
                            let c = calls.remove(0);
                            proof {
                                assert(c.deep_view() == calls_before[0]);
                                assert(processed < orig.len());
                                assert(orig.skip(processed)[0] == orig[processed]);
                                assert(calls_before[0] == orig[processed]);
                                assert(calls.deep_view() =~= calls_before.skip(1));
                                assert(calls_before.skip(1) =~= orig.skip(processed + 1));
                                assert(orig.take(processed + 1) =~= orig.take(processed).push(
                                    orig[processed],
                                ));
                                lemma_filter_push(
                                    orig.take(processed),
                                    orig[processed],
                                    keep_finished_calls(h0),
                                );
                            }
                            if contains_id(&ids, &c.id) {
                                kept.push(c);
                                proof {
                                    assert(kept.deep_view() =~= kept_before.push(c.deep_view()));
                                    assert((keep_finished_calls(h0))(c.deep_view()));
                                }
                            } else {
                                proof {
                                    assert(!(keep_finished_calls(h0))(c.deep_view()));
                                }
                            }
                            proof {
                                processed = processed + 1;
                            }
                        }
                        proof {
                            assert(orig.take(processed) =~= orig);
                        }
                        Interaction::LlmResponse {
                            interaction_id,
                            content,
                            tool_calls: Some(kept),
                        }
                    },
                    other => other,
                };
                self.inner.insert(k, new_elem);
                proof {
                    assert(new_elem@ == strip_unfinished(h0[k as int], h0));
                    assert(self@ =~= h0.update(k as int, strip_unfinished(h0[k as int], h0)));
                }
                self.retain_non_empty();
            },
            None => {
                proof {
                    lemma_no_last_llm_idx(h0);
                }
            },
        }
    }

    /// Locates the interaction carrying `id` and removes it. A model
    /// response cascades: each of its tool-call/result pairs is deleted
    /// first. A tool result takes its matching tool call with it. In all
    /// cases every interaction that has become empty is pruned afterwards.
    pub fn delete_by_id(&mut self, id: usize)
        ensures
            final(self)@ == spec_delete_by_id(old(self)@, id),
    {
        let ghost h0 = self@;
        let pos = self.position_of_id(id);
        match pos {
            Some(k) => {
                proof {
                    lemma_first_id_idx(h0, id, k as int);
                    assert(h0[k as int] == self.inner@[k as int]@);
                }
                let mut llm_case: Option<Vec<String>> = None;
                let mut result_case: Option<String> = None;
                match &self.inner[k] {
                    Interaction::LlmResponse { tool_calls: Some(calls), .. } => {
                        let ghost idseq = iv_calls(h0[k as int]).map_values(call_id_of());
                        let mut cids: Vec<String> = Vec::new();
                        let mut ci: usize = 0;
                        while ci < calls.len()
                            invariant
                                0 <= ci <= calls.len(),
                                idseq == iv_calls(h0[k as int]).map_values(call_id_of()),
                                iv_calls(h0[k as int]) == calls.deep_view(),
                                idseq.len() == calls.len(),
                                cids.deep_view() == idseq.take(ci as int),
                            decreases calls.len() - ci,
                        {
                            let ghost cids_before = cids.deep_view();
                            proof {
                                assert(calls.deep_view()[ci as int] == calls@[ci as int]@);
                                assert(idseq[ci as int] == calls@[ci as int]@.id);
                            }
                            cids.push(calls[ci].id.clone());
                            proof {
                                assert(cids.deep_view() =~= cids_before.push(
                                    calls@[ci as int]@.id,
                                ));
                                assert(idseq.take(ci + 1) =~= idseq.take(ci as int).push(
                                    idseq[ci as int],
                                ));
                            }
                            ci = ci + 1;
                        }
                        proof {
                            assert(idseq.take(calls.len() as int) =~= idseq);
                        }
                        llm_case = Some(cids);
                    },
                    Interaction::ToolResult { tool_call_id, .. } => {
                        result_case = Some(tool_call_id.clone());
                    },
                    _ => {},
                }
                match llm_case {
                    Some(cids) => {
                        let ghost idseq = iv_calls(h0[k as int]).map_values(call_id_of());
                        let mut n: usize = 0;
                        while n < cids.len()
                            invariant
                                0 <= n <= cids.len(),
                                cids.deep_view() == idseq,
                                idseq.len() == cids.len(),
                                delete_calls_loop(self@, id, idseq.skip(n as int))
                                    == delete_calls_loop(h0, id, idseq),
                            decreases cids.len() - n,
                        {
                            let ghost before = self@;
                            proof {
                                assert(cids.deep_view()[n as int] == cids@[n as int]@);
                                assert(idseq.skip(n as int)[0] == idseq[n as int]);
                            }
                            self.delete_by_tool_id(id, &cids[n]);
                            proof {
                                assert(idseq.skip(n as int).drop_first() =~= idseq.skip(
                                    n as int + 1,
                                ));
                                assert(self@ == spec_delete_by_tool_id(
                                    before,
                                    id,
                                    idseq.skip(n as int)[0],
                                ));
                            }
                            n = n + 1;
                        }
                        proof {
                            assert(idseq.skip(cids.len() as int) =~= Seq::<Seq<char>>::empty());
                            assert(delete_calls_loop(self@, id, Seq::<Seq<char>>::empty())
                                == self@);
                        }
                    },
                    None => match result_case {
                        Some(tcid) => {
                            let hpos = self.position_of_holder(&tcid);
                            match hpos {
                                Some(m) => {
                                    proof {
                                        lemma_first_holder_idx(h0, tcid@, m as int);
                                        assert(h0[m as int] == self.inner@[m as int]@);
                                    }
                                    let lid = self.inner[m].id();
                                    self.delete_by_tool_id(lid, &tcid);
                                },
                                None => {
                                    proof {
                                        lemma_no_first_holder_idx(h0, tcid@);
                                    }
                                },
                            }
                        },
                        None => {},
                    },
                }
            },
            None => {
                proof {
                    lemma_no_first_id_idx(h0, id);
                }
            },
        }
        self.retain_not_id(id);
    }
}

} // verus!

verus! {

/// Whether `ids` holds a string equal to `x`.
fn contains_id(ids: &Vec<String>, x: &String) -> (r: bool)
    ensures
        r == ids.deep_view().contains(x@),
{
    let mut i: usize = 0;
    while i < ids.len()
        invariant
            0 <= i <= ids.len(),
            ids.deep_view().len() == ids.len(),
            forall|j: int| 0 <= j < i ==> ids.deep_view()[j] != x@,
        decreases ids.len() - i,
    {
        proof {
            assert(ids.deep_view()[i as int] == ids@[i as int]@);
        }
        if ids[i].eq(x) {
            proof {
                assert(ids.deep_view().contains(x@));
            }
            return true;
        }
        i = i + 1;
    }
    proof {
        if ids.deep_view().contains(x@) {
            let n = choose|n: int|
                0 <= n < ids.deep_view().len() && ids.deep_view()[n] == x@;
        }
    }
    false
}

} // verus!
