//! One assistant generation: what it needs, its intent and its retries.

use crate::command::{OperationCommand, OperationCommandView};
use crate::drive::tools::{find_tool, tool_named};
use crate::durable::{in_step, lemma_spared, spares};
use crate::json::{is_null, member, member_of, null_of, text, text_of, Json};
use crate::lane::settle::{keeps_step, law_settling_keeps_step, safe_decision, settled};
use crate::model::event::{HarnessEvent, HarnessEventView, PlannedEvent, PlannedEventView};
use crate::model::session::{
    ErrorDetails, ErrorDetailsView, GenerationContext, GenerationContextView, OperationError,
    OperationErrorView, OperationState, OperationStateView,
};
use crate::model::storage::{AddressView, DurableValueView, Write};
use crate::restore::matches_intent;
use crate::text::{join, reads};
use crate::types::{
    LaneRuntimeStateView, ProcedureResult, ProcedureResultView, SystemPrompt, SystemPromptView,
    ToolDescriptor, ToolDescriptorView,
};
use vstd::prelude::*;

verus! {

/// The error of a configuration that this process cannot serve.
pub open spec fn unavailable(code: Seq<char>, details: ErrorDetailsView) -> OperationErrorView {
    OperationErrorView {
        code,
        message: if code == "model_unavailable"@ {
            "The configured model is unavailable in this process"@
        } else {
            "One or more configured tools are unavailable in this process"@
        },
        details: Some(details),
    }
}

/// Makes the error of a configuration that this process cannot serve.
pub fn configuration_error(code: &str, details: ErrorDetails) -> (r: OperationError)
    ensures
        r.deep_view() == unavailable(code@, details.deep_view()),
{
    let code = code.to_string();
    let message = if reads(&code, "model_unavailable") {
        "The configured model is unavailable in this process".to_string()
    } else {
        "One or more configured tools are unavailable in this process".to_string()
    };
    OperationError { code, message, details: Some(details) }
}

/// The system prompt of a request. `computed` is what a computed prompt came to.
pub fn resolve_system_prompt(prompt: &Option<SystemPrompt>, computed: String) -> (r: String)
    ensures
        r@ == (match prompt.deep_view() {
            None => Seq::empty(),
            Some(SystemPromptView::Static(text)) => text,
            Some(SystemPromptView::Dynamic) => computed@,
        }),
{
    match prompt {
        None => String::new(),
        Some(SystemPrompt::Static(text)) => text.clone(),
        Some(SystemPrompt::Dynamic) => computed,
    }
}

/// The configured tools that a process lacks.
pub open spec fn missing(names: Seq<Seq<char>>, tools: Seq<ToolDescriptorView>) -> Seq<Seq<char>> {
    names.filter(|name: Seq<char>| tool_named(tools, name) is None)
}

/// The configured tools of a process, in the order of their names.
pub open spec fn resolved(names: Seq<Seq<char>>, tools: Seq<ToolDescriptorView>) -> Seq<
    ToolDescriptorView,
> {
    Seq::new(names.len(), |i: int| tool_named(tools, names[i])->Some_0)
}

fn missing_tools(names: &Vec<String>, tools: &Vec<ToolDescriptor>) -> (r: Vec<String>)
    ensures
        r.deep_view() == missing(names.deep_view(), tools.deep_view()),
{
    let ghost keep = |name: Seq<char>| tool_named(tools.deep_view(), name) is None;
    let mut lacking: Vec<String> = Vec::new();
    let mut i: usize = 0;
    assert(lacking.deep_view() =~= names.deep_view().take(0).filter(keep)) by {
        reveal(Seq::filter);
    }
    while i < names.len()
        invariant
            i <= names.len(),
            keep == (|name: Seq<char>| tool_named(tools.deep_view(), name) is None),
            lacking.deep_view() == names.deep_view().take(i as int).filter(keep),
        decreases names.len() - i,
    {
        let ghost before = lacking.deep_view();
        proof {
            crate::inbox::lemma_filter_step(names.deep_view(), i as int, keep);
        }
        if find_tool(tools, &names[i]).is_none() {
            lacking.push(names[i].clone());
            assert(lacking.deep_view() =~= before.push(names[i as int]@));
        }
        i += 1;
    }
    assert(names.deep_view().take(i as int) =~= names.deep_view());
    lacking
}

proof fn lemma_none_missing(names: Seq<Seq<char>>, tools: Seq<ToolDescriptorView>)
    requires
        missing(names, tools).len() == 0,
    ensures
        forall|i: int| 0 <= i < names.len() ==> tool_named(tools, #[trigger] names[i]) is Some,
    decreases names.len(),
{
    reveal(Seq::filter);
    if names.len() > 0 {
        lemma_none_missing(names.drop_last(), tools);
        assert forall|i: int| 0 <= i < names.len() implies tool_named(
            tools,
            #[trigger] names[i],
        ) is Some by {
            if i < names.len() - 1 {
                assert(names.drop_last()[i] == names[i]);
            }
        }
    }
}

/// What a generation is checked to have: its model, then all of its tools.
pub open spec fn generation_check(
    context: GenerationContextView,
    model_available: bool,
    tools: Seq<ToolDescriptorView>,
) -> Result<Seq<ToolDescriptorView>, OperationErrorView> {
    let names = context.configuration.active_tool_names;
    if !model_available {
        Err(
            unavailable(
                "model_unavailable"@,
                ErrorDetailsView::Model(context.configuration.model),
            ),
        )
    } else if missing(names, tools).len() > 0 {
        Err(
            unavailable(
                "configured_tools_unavailable"@,
                ErrorDetailsView::MissingTools(missing(names, tools)),
            ),
        )
    } else {
        Ok(resolved(names, tools))
    }
}

/// Checks that a process can serve a generation, and gives its tools.
pub fn prepare_generation(
    context: &GenerationContext,
    model_available: bool,
    tools: &Vec<ToolDescriptor>,
) -> (r: Result<Vec<ToolDescriptor>, OperationError>)
    ensures
        match generation_check(context.deep_view(), model_available, tools.deep_view()) {
            Ok(found) => r is Ok && r->Ok_0.deep_view() == found,
            Err(error) => r is Err && r->Err_0.deep_view() == error,
        },
{
    if !model_available {
        return Err(
            configuration_error(
                "model_unavailable",
                ErrorDetails::Model(context.configuration.model.clone()),
            ),
        );
    }
    let names = &context.configuration.active_tool_names;
    let lacking = missing_tools(names, tools);
    if lacking.len() > 0 {
        return Err(
            configuration_error(
                "configured_tools_unavailable",
                ErrorDetails::MissingTools(lacking),
            ),
        );
    }
    proof {
        lemma_none_missing(names.deep_view(), tools.deep_view());
    }
    let mut found: Vec<ToolDescriptor> = Vec::new();
    let mut i: usize = 0;
    let ghost expected = resolved(names.deep_view(), tools.deep_view());
    while i < names.len()
        invariant
            i <= names.len(),
            found.len() == i,
            expected == resolved(names.deep_view(), tools.deep_view()),
            forall|k: int|
                0 <= k < names.deep_view().len() ==> tool_named(
                    tools.deep_view(),
                    #[trigger] names.deep_view()[k],
                ) is Some,
            forall|k: int| 0 <= k < i ==> #[trigger] found.deep_view()[k] == expected[k],
        decreases names.len() - i,
    {
        let ghost before = found.deep_view();
        assert(tool_named(tools.deep_view(), names.deep_view()[i as int]) is Some);
        match find_tool(tools, &names[i]) {
            Some(tool) => {
                let tool = tool.clone();
                found.push(tool);
                assert(found.deep_view() =~= before.push(tool.deep_view()));
            },
            None => {},
        }
        i += 1;
    }
    assert(found.deep_view() =~= expected);
    Ok(found)
}

/// The change of stream options that a hook asks for.
pub open spec fn asked_options(hook: serde_json::Value) -> Option<serde_json::Value> {
    match member_of(hook, "streamOptions"@) {
        Some(patch) => if null_of(patch) {
            None
        } else {
            Some(patch)
        },
        None => None,
    }
}

/// Reads the change of stream options that a hook asks for.
pub fn stream_options_patch(hook: &Json) -> (r: Option<Json>)
    ensures
        r.deep_view() == asked_options(hook.deep_view()),
{
    match member(hook, "streamOptions") {
        Some(patch) => if is_null(&patch) {
            None
        } else {
            Some(patch)
        },
        None => None,
    }
}

/// The text that a hook gives under a key.
pub open spec fn asked_text(hook: serde_json::Value, key: Seq<char>) -> Option<Seq<char>> {
    match member_of(hook, key) {
        Some(value) => text_of(value),
        None => None,
    }
}

/// Reads the text that a hook gives under a key.
pub fn hook_text(hook: &Json, key: &str) -> (r: Option<String>)
    ensures
        r.deep_view() == asked_text(hook.deep_view(), key@),
{
    match member(hook, key) {
        Some(value) => text(&value),
        None => None,
    }
}

/// The system prompt of a request after the hook on its context.
pub fn transformed_prompt(hook: &Json, system_prompt: String) -> (r: String)
    ensures
        r@ == (match asked_text(hook.deep_view(), "systemPrompt"@) {
            Some(text) => text,
            None => system_prompt@,
        }),
{
    match hook_text(hook, "systemPrompt") {
        Some(text) => text,
        None => system_prompt,
    }
}

/// The session that a provider is told: the lanes of a session are kept apart.
pub fn request_session_id(session_id: &String, lane_name: &String) -> (r: String)
    ensures
        r@ == session_id@ + ":"@ + lane_name@,
{
    join(join(session_id.clone(), ":"), lane_name.as_str())
}

/// The leaf of a generation that is under way.
pub open spec fn generation_pending(
    ready: OperationStateView,
    current: OperationStateView,
    response_entry_id: Seq<char>,
    usage_id: Seq<char>,
    intended_output_limit: u64,
    context_window: u64,
) -> OperationStateView {
    match ready {
        OperationStateView::AssistantReady { generation_context, next_attempt, .. } => {
            OperationStateView::AssistantEffectPending {
                scope: current.scope(),
                generation_context,
                attempt: next_attempt,
                response_entry_id,
                usage_id,
                intended_output_limit,
                context_window,
            }
        },
        _ => arbitrary(),
    }
}

/// The commit that records that a generation is under way. The first attempt
/// starts a turn.
pub open spec fn generation_intent(
    lane: Seq<char>,
    operation_id: Seq<char>,
    ready: OperationStateView,
    current: OperationStateView,
    response_entry_id: Seq<char>,
    usage_id: Seq<char>,
    intended_output_limit: u64,
    context_window: u64,
) -> OperationCommandView<OperationStateView> {
    let next = generation_pending(
        ready,
        current,
        response_entry_id,
        usage_id,
        intended_output_limit,
        context_window,
    );
    OperationCommandView::Commit {
        writes: Seq::empty(),
        operation_state: next,
        lane: None,
        result: next,
        events: match ready {
            OperationStateView::AssistantReady { generation_context, next_attempt, .. } => {
                if next_attempt == 1 {
                    seq![
                        PlannedEventView::Ready(
                            HarnessEventView::TurnStart {
                                lane,
                                run_id: operation_id,
                                turn_id: generation_context.step_id,
                                recovery: None,
                            },
                        ),
                    ]
                } else {
                    Seq::empty()
                }
            },
            _ => Seq::empty(),
        },
    }
}

/// Records that a generation is under way.
pub fn publish_generation_intent(
    lane_name: &String,
    operation_id: &String,
    ready: &OperationState,
    current: &OperationState,
    response_entry_id: String,
    usage_id: String,
    intended_output_limit: u64,
    context_window: u64,
) -> (r: OperationCommand<OperationState>)
    requires
        ready.deep_view() is AssistantReady,
        !current.deep_view().is_deferred(),
    ensures
        r.deep_view() == generation_intent(
            lane_name@,
            operation_id@,
            ready.deep_view(),
            current.deep_view(),
            response_entry_id@,
            usage_id@,
            intended_output_limit,
            context_window,
        ),
{
    let (generation_context, next_attempt) = match ready {
        OperationState::AssistantReady { generation_context, next_attempt, .. } => (
            generation_context,
            *next_attempt,
        ),
        _ => vstd::pervasive::unreached(),
    };
    let mut events: Vec<PlannedEvent> = Vec::new();
    assert(events.deep_view() =~= Seq::empty());
    if next_attempt == 1 {
        let start = PlannedEvent::Ready(
            HarnessEvent::TurnStart {
                lane: lane_name.clone(),
                run_id: operation_id.clone(),
                turn_id: generation_context.step_id.clone(),
                recovery: None,
            },
        );
        events.push(start);
        assert(events.deep_view() =~= seq![start.deep_view()]);
    }
    let next = OperationState::AssistantEffectPending {
        scope: current.scope().clone(),
        generation_context: generation_context.clone(),
        attempt: next_attempt,
        response_entry_id,
        usage_id,
        intended_output_limit,
        context_window,
    };
    let writes: Vec<Write> = Vec::new();
    assert(writes.deep_view() =~= Seq::empty());
    OperationCommand::Commit {
        writes,
        operation_state: next.clone(),
        lane: None,
        result: next,
        events,
    }
}

/// The move of a waiting generation to its next attempt.
pub open spec fn retry_command(
    lane: Seq<char>,
    operation_id: Seq<char>,
    waiting: OperationStateView,
    current: OperationStateView,
) -> OperationCommandView<ProcedureResultView> {
    match waiting {
        OperationStateView::AssistantRetryWait { generation_context, next_attempt, .. } => {
            OperationCommandView::Commit {
                writes: Seq::empty(),
                operation_state: OperationStateView::AssistantReady {
                    scope: current.scope(),
                    generation_context,
                    next_attempt,
                },
                lane: None,
                result: ProcedureResultView::Continue,
                events: seq![
                    PlannedEventView::Ready(
                        HarnessEventView::RetryStart {
                            lane,
                            run_id: operation_id,
                            step: generation_context.step_id,
                            attempt: next_attempt,
                            recovery: None,
                        },
                    ),
                ],
            }
        },
        _ => arbitrary(),
    }
}

/// Moves a waiting generation to its next attempt.
pub fn run_retry_wait(
    lane_name: &String,
    operation_id: &String,
    waiting: &OperationState,
    current: &OperationState,
) -> (r: OperationCommand<ProcedureResult>)
    requires
        waiting.deep_view() is AssistantRetryWait,
        !current.deep_view().is_deferred(),
    ensures
        r.deep_view() == retry_command(
            lane_name@,
            operation_id@,
            waiting.deep_view(),
            current.deep_view(),
        ),
{
    let (generation_context, next_attempt) = match waiting {
        OperationState::AssistantRetryWait { generation_context, next_attempt, .. } => (
            generation_context,
            *next_attempt,
        ),
        _ => vstd::pervasive::unreached(),
    };
    let start = PlannedEvent::Ready(
        HarnessEvent::RetryStart {
            lane: lane_name.clone(),
            run_id: operation_id.clone(),
            step: generation_context.step_id.clone(),
            attempt: next_attempt,
            recovery: None,
        },
    );
    let ghost start_view = start.deep_view();
    let events = vec![start];
    assert(events.deep_view() =~= seq![start_view]);
    let writes: Vec<Write> = Vec::new();
    assert(writes.deep_view() =~= Seq::empty());
    OperationCommand::Commit {
        writes,
        operation_state: OperationState::AssistantReady {
            scope: current.scope().clone(),
            generation_context: generation_context.clone(),
            next_attempt,
        },
        lane: None,
        result: ProcedureResult::Continue,
        events,
    }
}

/// A decision that only moves its operation to another leaf of its intent keeps
/// the lane in step with storage.
pub proof fn lemma_bare_move_keeps_step<T>(
    store: Map<AddressView, DurableValueView>,
    lane: Seq<char>,
    state: LaneRuntimeStateView,
    command: OperationCommandView<T>,
)
    requires
        in_step(store, lane, state),
        state.operation is Some,
        command matches OperationCommandView::Commit { writes, operation_state, lane: patch, .. }
            && patch is None && matches_intent(
            state.operation->Some_0.meta.intent,
            operation_state,
        ) && forall|address: AddressView| #[trigger] spares(writes, address),
    ensures
        safe_decision(store, lane, state, command),
        keeps_step(store, lane, settled(lane, state, command)),
{
    let operation_id = state.operation->Some_0.meta.operation_id;
    if let OperationCommandView::Commit { writes, .. } = command {
        assert(spares(writes, AddressView::BranchTip { lane }));
        assert(spares(writes, AddressView::LaneConfig { lane }));
        assert(spares(writes, AddressView::LaneState { lane }));
        assert(spares(writes, AddressView::OperationMeta { operation_id }));
        lemma_spared(store, writes, AddressView::BranchTip { lane });
        lemma_spared(store, writes, AddressView::LaneConfig { lane });
    }
    law_settling_keeps_step(store, lane, state, command);
}

/// The moves of a generation keep the lane in step with storage.
pub proof fn law_generation_moves_keep_step(
    store: Map<AddressView, DurableValueView>,
    lane: Seq<char>,
    state: LaneRuntimeStateView,
    ready: OperationStateView,
    waiting: OperationStateView,
    response_entry_id: Seq<char>,
    usage_id: Seq<char>,
    intended_output_limit: u64,
    context_window: u64,
)
    requires
        in_step(store, lane, state),
        state.operation matches Some(operation) && operation.meta.intent is Run
            && !operation.state.is_deferred(),
        ready is AssistantReady,
        waiting is AssistantRetryWait,
    ensures
        ({
            let operation = state.operation->Some_0;
            let operation_id = operation.meta.operation_id;
            &&& keeps_step(
                store,
                lane,
                settled(
                    lane,
                    state,
                    generation_intent(
                        lane,
                        operation_id,
                        ready,
                        operation.state,
                        response_entry_id,
                        usage_id,
                        intended_output_limit,
                        context_window,
                    ),
                ),
            )
            &&& keeps_step(
                store,
                lane,
                settled(lane, state, retry_command(lane, operation_id, waiting, operation.state)),
            )
        }),
{
    let operation = state.operation->Some_0;
    let operation_id = operation.meta.operation_id;
    lemma_bare_move_keeps_step(
        store,
        lane,
        state,
        generation_intent(
            lane,
            operation_id,
            ready,
            operation.state,
            response_entry_id,
            usage_id,
            intended_output_limit,
            context_window,
        ),
    );
    lemma_bare_move_keeps_step(
        store,
        lane,
        state,
        retry_command(lane, operation_id, waiting, operation.state),
    );
}

} // verus!
