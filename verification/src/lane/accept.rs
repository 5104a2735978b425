//! Accepting an operation on a lane.

use crate::drive::boundary::{place_entry, placed_entry};
use crate::drive::checkpoint::{ReservedMessage, ReservedMessageView};
use crate::drive::dispatch::{intent_kind, kind_of_intent};
use crate::inbox::{about_item, item_message, load_item, loaded};
use crate::json::{elements, elements_of, text, text_of, Json};
use crate::model::message::{
    AgentMessage, AgentMessageView, ToolResultContent, ToolResultContentView, UserContent,
    UserContentView, UserMessage, UserMessageView,
};
use crate::model::session::{
    Control, InboxItem, InboxItemKind, InboxItemView, Operation, OperationScope, OperationScopeView,
    OperationView, PendingEntry, PendingEntryView, QueueMode, RunSettings,
};
use crate::model::storage::{NewEntry, NewEntryView, NewMessageEntry, NewMessageEntryView, Write};
use crate::text::{debug_text, join, quoted};
use crate::transcript::{
    any_pending, any_pending_assistant, is_pending, is_pending_assistant, lemma_prefix_push,
};
use crate::types::{
    Config, ConfigView, HarnessError, HarnessErrorView, PendingRow, PendingRowView, PromptTemplate,
    PromptTemplateView, Skill, SkillView,
};
use vstd::prelude::*;

verus! {

/// A request that was granted, or why not.
#[derive(Debug, PartialEq, Eq)]
pub enum Answer<T> {
    Granted { value: T },
    Refused { error: HarnessError },
}

/// Contents of an [`Answer`].
pub enum AnswerView<T> {
    Granted { value: T },
    Refused { error: HarnessErrorView },
}

impl<T: DeepView> DeepView for Answer<T> {
    type V = AnswerView<T::V>;

    open spec fn deep_view(&self) -> AnswerView<T::V> {
        match self {
            Answer::Granted { value } => AnswerView::Granted { value: value.deep_view() },
            Answer::Refused { error } => AnswerView::Refused { error: error.deep_view() },
        }
    }
}

/// Whether an inbox item enters the transcript when a run is accepted: writes
/// and items for the next run always, of steers and follow-ups the first, or all
/// if the mode says so.
pub open spec fn accepted_item(
    inbox: Seq<InboxItemView>,
    i: int,
    steering_mode: QueueMode,
    follow_up_mode: QueueMode,
) -> bool {
    match inbox[i].kind {
        InboxItemKind::Write => true,
        InboxItemKind::NextRun => true,
        InboxItemKind::Steer => steering_mode == QueueMode::All || !has_kind(
            inbox.take(i),
            InboxItemKind::Steer,
        ),
        InboxItemKind::FollowUp => follow_up_mode == QueueMode::All || !has_kind(
            inbox.take(i),
            InboxItemKind::FollowUp,
        ),
    }
}

/// Whether an inbox has an item of a kind.
pub open spec fn has_kind(inbox: Seq<InboxItemView>, kind: InboxItemKind) -> bool {
    exists|i: int| 0 <= i < inbox.len() && (#[trigger] inbox[i]).kind == kind
}

/// The items of the first `n` that are taken, or that are left.
pub open spec fn split_inbox(
    inbox: Seq<InboxItemView>,
    steering_mode: QueueMode,
    follow_up_mode: QueueMode,
    taken: bool,
    n: nat,
) -> Seq<InboxItemView>
    decreases n,
{
    if n == 0 {
        Seq::empty()
    } else {
        let rest = split_inbox(inbox, steering_mode, follow_up_mode, taken, (n - 1) as nat);
        if accepted_item(inbox, n - 1, steering_mode, follow_up_mode) == taken {
            rest.push(inbox[n - 1])
        } else {
            rest
        }
    }
}

/// Splits an inbox into what a run takes and what is left, both in order.
pub fn select_accepted_inbox(
    inbox: &Vec<InboxItem>,
    steering_mode: QueueMode,
    follow_up_mode: QueueMode,
) -> (r: (Vec<InboxItem>, Vec<InboxItem>))
    ensures
        r.0.deep_view() == split_inbox(
            inbox.deep_view(),
            steering_mode,
            follow_up_mode,
            true,
            inbox.len() as nat,
        ),
        r.1.deep_view() == split_inbox(
            inbox.deep_view(),
            steering_mode,
            follow_up_mode,
            false,
            inbox.len() as nat,
        ),
{
    let ghost all = inbox.deep_view();
    let mut steer_taken = false;
    let mut follow_up_taken = false;
    let mut selected: Vec<InboxItem> = Vec::new();
    let mut remainder: Vec<InboxItem> = Vec::new();
    let mut i: usize = 0;
    assert(selected.deep_view() =~= Seq::empty());
    assert(remainder.deep_view() =~= Seq::empty());
    while i < inbox.len()
        invariant
            i <= inbox.len(),
            all == inbox.deep_view(),
            steer_taken == has_kind(all.take(i as int), InboxItemKind::Steer),
            follow_up_taken == has_kind(all.take(i as int), InboxItemKind::FollowUp),
            selected.deep_view() == split_inbox(
                all,
                steering_mode,
                follow_up_mode,
                true,
                i as nat,
            ),
            remainder.deep_view() == split_inbox(
                all,
                steering_mode,
                follow_up_mode,
                false,
                i as nat,
            ),
        decreases inbox.len() - i,
    {
        let ghost before = selected.deep_view();
        let ghost left = remainder.deep_view();
        let kind = inbox[i].kind;
        let eligible = kind == InboxItemKind::Write || kind == InboxItemKind::NextRun || (kind
            == InboxItemKind::Steer && (steering_mode == QueueMode::All || !steer_taken)) || (kind
            == InboxItemKind::FollowUp && (follow_up_mode == QueueMode::All || !follow_up_taken));
        assert(eligible == accepted_item(all, i as int, steering_mode, follow_up_mode));
        proof {
            lemma_has_kind_step(all, i as int, InboxItemKind::Steer);
            lemma_has_kind_step(all, i as int, InboxItemKind::FollowUp);
        }
        if eligible {
            if kind == InboxItemKind::Steer {
                steer_taken = true;
            }
            if kind == InboxItemKind::FollowUp {
                follow_up_taken = true;
            }
            selected.push(inbox[i].clone());
            assert(selected.deep_view() =~= before.push(all[i as int]));
        } else {
            remainder.push(inbox[i].clone());
            assert(remainder.deep_view() =~= left.push(all[i as int]));
        }
        i += 1;
    }
    (selected, remainder)
}

proof fn lemma_has_kind_step(inbox: Seq<InboxItemView>, n: int, kind: InboxItemKind)
    requires
        0 <= n < inbox.len(),
    ensures
        has_kind(inbox.take(n + 1), kind) == (has_kind(inbox.take(n), kind) || inbox[n].kind
            == kind),
{
    let before = inbox.take(n);
    let after = inbox.take(n + 1);
    if has_kind(before, kind) {
        let i = choose|i: int| 0 <= i < before.len() && (#[trigger] before[i]).kind == kind;
        assert(after[i].kind == kind);
    }
    if inbox[n].kind == kind {
        assert(after[n].kind == kind);
    }
    if has_kind(after, kind) {
        let i = choose|i: int| 0 <= i < after.len() && (#[trigger] after[i]).kind == kind;
        if i < n {
            assert(before[i].kind == kind);
        }
    }
}

/// What a run takes and what is left are the whole inbox, item for item.
pub proof fn law_accepting_splits_the_inbox(
    inbox: Seq<InboxItemView>,
    steering_mode: QueueMode,
    follow_up_mode: QueueMode,
    n: nat,
)
    requires
        n <= inbox.len(),
    ensures
        split_inbox(inbox, steering_mode, follow_up_mode, true, n).to_multiset().add(
            split_inbox(inbox, steering_mode, follow_up_mode, false, n).to_multiset(),
        ) =~= inbox.take(n as int).to_multiset(),
    decreases n,
{
    broadcast use vstd::seq_lib::group_to_multiset_ensures;

    if n > 0 {
        law_accepting_splits_the_inbox(inbox, steering_mode, follow_up_mode, (n - 1) as nat);
        assert(inbox.take(n as int) =~= inbox.take(n - 1).push(inbox[n - 1]));
    } else {
        assert(inbox.take(0) =~= Seq::empty());
    }
}

/// The settings captured from a harness.
pub fn captured_settings(config: &Config) -> (r: RunSettings)
    ensures
        r == settings_of(config.deep_view()),
{
    RunSettings {
        compaction: config.compaction,
        steering_mode: config.steering_mode,
        follow_up_mode: config.follow_up_mode,
        tool_execution: config.tool_execution,
    }
}

/// The settings captured from a harness.
pub open spec fn settings_of(config: ConfigView) -> RunSettings {
    RunSettings {
        compaction: config.compaction,
        steering_mode: config.steering_mode,
        follow_up_mode: config.follow_up_mode,
        tool_execution: config.tool_execution,
    }
}

/// The scope of an operation that was just accepted.
pub open spec fn fresh_scope(config: ConfigView) -> OperationScopeView {
    OperationScopeView {
        control: Control::Running,
        settings: settings_of(config),
        latest_assistant_entry_id: None,
    }
}

pub(crate) fn new_scope(config: &Config) -> (r: OperationScope)
    ensures
        r.deep_view() == fresh_scope(config.deep_view()),
{
    OperationScope {
        control: Control::Running,
        settings: captured_settings(config),
        latest_assistant_entry_id: None,
    }
}

/// The entry that appends a queued payload, not yet behind any other.
pub fn pending_entry_write(entry_id: String, pending: PendingEntry) -> (r: NewEntry)
    ensures
        r.deep_view() == placed_entry(entry_id@, None, pending.deep_view()),
{
    place_entry(entry_id, None, pending)
}

/// An entry behind another.
pub open spec fn behind(entry: NewEntryView, parent_id: Option<Seq<char>>) -> NewEntryView {
    match entry {
        NewEntryView::Message(e) => NewEntryView::Message(NewMessageEntryView { parent_id, ..e }),
        NewEntryView::Compaction(e) => NewEntryView::Compaction(
            crate::model::storage::NewCompactionEntryView { parent_id, ..e },
        ),
        NewEntryView::BranchSummary(e) => NewEntryView::BranchSummary(
            crate::model::storage::NewBranchSummaryEntryView { parent_id, ..e },
        ),
        NewEntryView::Custom(e) => NewEntryView::Custom(
            crate::model::storage::NewCustomEntryView { parent_id, ..e },
        ),
    }
}

/// The entry that the `i`th of a chain follows.
pub open spec fn parent_in_chain(
    parent_id: Option<Seq<char>>,
    entries: Seq<NewEntryView>,
    i: int,
) -> Option<Seq<char>> {
    if i <= 0 {
        parent_id
    } else {
        Some(entries[i - 1].id())
    }
}

/// Entries in a chain: each behind the one before it, the first behind the
/// parent.
pub open spec fn chained(parent_id: Option<Seq<char>>, entries: Seq<NewEntryView>) -> Seq<
    NewEntryView,
> {
    Seq::new(entries.len(), |i: int| behind(entries[i], parent_in_chain(parent_id, entries, i)))
}

fn put_behind(entry: NewEntry, parent_id: Option<String>) -> (r: NewEntry)
    ensures
        r.deep_view() == behind(entry.deep_view(), parent_id.deep_view()),
{
    match entry {
        NewEntry::Message(mut e) => {
            e.parent_id = parent_id;
            NewEntry::Message(e)
        },
        NewEntry::Compaction(mut e) => {
            e.parent_id = parent_id;
            NewEntry::Compaction(e)
        },
        NewEntry::BranchSummary(mut e) => {
            e.parent_id = parent_id;
            NewEntry::BranchSummary(e)
        },
        NewEntry::Custom(mut e) => {
            e.parent_id = parent_id;
            NewEntry::Custom(e)
        },
    }
}

/// Puts entries in a chain.
pub fn chain_new_entries(parent_id: Option<String>, entries: Vec<NewEntry>) -> (r: Vec<NewEntry>)
    ensures
        r.deep_view() == chained(parent_id.deep_view(), entries.deep_view()),
{
    let ghost first = parent_id.deep_view();
    let ghost all = entries.deep_view();
    let mut parent = parent_id;
    let mut result: Vec<NewEntry> = Vec::new();
    let mut i: usize = 0;
    while i < entries.len()
        invariant
            i <= entries.len(),
            all == entries.deep_view(),
            result.len() == i,
            parent.deep_view() == parent_in_chain(first, all, i as int),
            forall|k: int| 0 <= k < i ==> #[trigger] result.deep_view()[k] == chained(first, all)[k],
        decreases entries.len() - i,
    {
        let ghost before = result.deep_view();
        let id = entries[i].id().clone();
        let entry = put_behind(entries[i].clone(), parent);
        result.push(entry);
        assert(result.deep_view() =~= before.push(entry.deep_view()));
        parent = Some(id);
        i += 1;
    }
    assert(result.deep_view() =~= chained(first, all));
    result
}

/// A chain keeps the ids of its entries, and links each to the one before it.
pub proof fn law_chains_are_linked(parent_id: Option<Seq<char>>, entries: Seq<NewEntryView>)
    ensures
        chained(parent_id, entries).len() == entries.len(),
        forall|i: int|
            0 <= i < entries.len() ==> (#[trigger] chained(parent_id, entries)[i]).id()
                == entries[i].id(),
        forall|i: int|
            0 < i < entries.len() ==> (#[trigger] chained(parent_id, entries)[i]).parent_id()
                == Some(chained(parent_id, entries)[i - 1].id()),
        entries.len() > 0 ==> chained(parent_id, entries)[0].parent_id() == parent_id,
{
}

/// The refusal of a lane that has an operation.
pub open spec fn lane_busy(lane: Seq<char>, operation: OperationView) -> HarnessErrorView {
    HarnessErrorView::LaneBusy {
        lane,
        operation_id: operation.meta.operation_id,
        kind: kind_of_intent(operation.meta.intent),
        message: "Lane "@ + debug_text(lane) + " already has an active operation"@,
    }
}

/// Words about a lane.
pub(crate) fn about_lane(lane_name: &String, tail: &str) -> (r: String)
    ensures
        r@ == "Lane "@ + debug_text(lane_name@) + tail@,
{
    join(join("Lane ".to_string(), quoted(lane_name.as_str()).as_str()), tail)
}

pub(crate) fn busy(lane_name: &String, operation: &Operation) -> (r: HarnessError)
    ensures
        r.deep_view() == lane_busy(lane_name@, operation.deep_view()),
{
    HarnessError::LaneBusy {
        lane: lane_name.clone(),
        operation_id: operation.meta.operation_id.clone(),
        kind: intent_kind(&operation.meta.intent).to_string(),
        message: about_lane(lane_name, " already has an active operation"),
    }
}

/// The refusal of a message.
pub open spec fn invalid_message(
    lane: Seq<char>,
    reason: Seq<char>,
    message: Seq<char>,
) -> HarnessErrorView {
    HarnessErrorView::InvalidMessage { lane, reason, message }
}

/// Refuses a message.
pub fn refuse_message(lane_name: &String, reason: &str, message: &str) -> (r: HarnessError)
    ensures
        r.deep_view() == invalid_message(lane_name@, reason@, message@),
{
    HarnessError::InvalidMessage {
        lane: lane_name.clone(),
        reason: reason.to_string(),
        message: message.to_string(),
    }
}

/// What a prompt is given as.
#[derive(Debug, PartialEq, Eq)]
pub enum PromptInput {
    /// The text of a user message.
    Text(String),
    /// Several messages.
    Many(Vec<Json>),
    /// One message.
    One(Json),
}

/// Contents of a [`PromptInput`].
#[allow(inconsistent_fields)]
pub enum PromptInputView {
    Text(Seq<char>),
    Many(Seq<serde_json::Value>),
    One(serde_json::Value),
}

impl DeepView for PromptInput {
    type V = PromptInputView;

    open spec fn deep_view(&self) -> PromptInputView {
        match self {
            PromptInput::Text(text) => PromptInputView::Text(text.deep_view()),
            PromptInput::Many(values) => PromptInputView::Many(values.deep_view()),
            PromptInput::One(value) => PromptInputView::One(value.deep_view()),
        }
    }
}

/// What a prompt is given as: a JSON string is text, an array is several
/// messages, anything else is one.
pub open spec fn prompt_input(prompt: serde_json::Value) -> PromptInputView {
    match text_of(prompt) {
        Some(text) => PromptInputView::Text(text),
        None => match elements_of(prompt) {
            Some(values) => PromptInputView::Many(values),
            None => PromptInputView::One(prompt),
        },
    }
}

/// Tells what a prompt is given as.
pub fn classify_prompt(prompt: &Json) -> (r: PromptInput)
    ensures
        r.deep_view() == prompt_input(prompt.deep_view()),
{
    match text(prompt) {
        Some(text) => PromptInput::Text(text),
        None => match elements(prompt) {
            Some(values) => {
                let mut many: Vec<Json> = Vec::new();
                let mut i: usize = 0;
                while i < values.len()
                    invariant
                        i <= values.len(),
                        many.len() == i,
                        forall|k: int| 0 <= k < i ==> #[trigger] many[k].deep_view() == values@[k],
                    decreases values.len() - i,
                {
                    many.push(Json { value: values[i].clone() });
                    i += 1;
                }
                assert(many.deep_view() =~= values@);
                PromptInput::Many(many)
            },
            None => PromptInput::One(prompt.clone()),
        },
    }
}

/// The blocks of a user message: its text, if there is any, then its images.
pub open spec fn user_blocks(text: Seq<char>, images: Seq<serde_json::Value>) -> Seq<
    ToolResultContentView,
> {
    let shown = Seq::new(images.len(), |i: int| ToolResultContentView::Image(images[i]));
    if text.len() == 0 {
        shown
    } else {
        seq![ToolResultContentView::Text { text, text_signature: None }] + shown
    }
}

/// A message of the user.
pub open spec fn user_message(
    blocks: Seq<ToolResultContentView>,
    timestamp: u64,
) -> AgentMessageView {
    AgentMessageView::User(UserMessageView { content: UserContentView::Blocks(blocks), timestamp })
}

/// The message that text and images of the user make, if there are any.
pub fn input_message(text: &String, images: &Vec<Json>, timestamp: u64) -> (r: Option<AgentMessage>)
    ensures
        r.deep_view() == if text@.len() == 0 && images.len() == 0 {
            None
        } else {
            Some(user_message(user_blocks(text@, images.deep_view()), timestamp))
        },
{
    if text.as_str().is_empty() && images.len() == 0 {
        return None;
    }
    let ghost shown = Seq::new(
        images.deep_view().len(),
        |i: int| ToolResultContentView::Image(images.deep_view()[i]),
    );
    let mut blocks: Vec<ToolResultContent> = Vec::new();
    let ghost mut head: Seq<ToolResultContentView> = Seq::empty();
    if !text.as_str().is_empty() {
        blocks.push(ToolResultContent::Text { text: text.clone(), text_signature: None });
        proof {
            head = seq![ToolResultContentView::Text { text: text@, text_signature: None }];
        }
    }
    assert(blocks.deep_view() =~= head + shown.take(0));
    let mut i: usize = 0;
    while i < images.len()
        invariant
            i <= images.len(),
            shown == Seq::new(
                images.deep_view().len(),
                |i: int| ToolResultContentView::Image(images.deep_view()[i]),
            ),
            blocks.deep_view() == head + shown.take(i as int),
        decreases images.len() - i,
    {
        let ghost before = blocks.deep_view();
        blocks.push(ToolResultContent::Image(images[i].clone()));
        assert(blocks.deep_view() =~= before.push(shown[i as int]));
        assert(blocks.deep_view() =~= head + shown.take(i as int + 1));
        i += 1;
    }
    assert(shown.take(i as int) =~= shown);
    assert(blocks.deep_view() =~= user_blocks(text@, images.deep_view()));
    Some(AgentMessage::User(UserMessage { content: UserContent::Blocks(blocks), timestamp }))
}

/// The message of a skill that was invoked.
pub fn skill_message(text: String, timestamp: u64) -> (r: AgentMessage)
    ensures
        r.deep_view() == user_message(
            seq![ToolResultContentView::Text { text: text@, text_signature: None }],
            timestamp,
        ),
{
    let ghost shown = text@;
    let blocks = vec![ToolResultContent::Text { text, text_signature: None }];
    assert(blocks.deep_view() =~= seq![
        ToolResultContentView::Text { text: shown, text_signature: None },
    ]);
    AgentMessage::User(UserMessage { content: UserContent::Blocks(blocks), timestamp })
}

/// The messages of a template that was filled in: none if nothing is left of it.
pub fn template_messages(content: String, timestamp: u64) -> (r: Vec<AgentMessage>)
    ensures
        r.deep_view() == if content@.len() == 0 {
            Seq::empty()
        } else {
            seq![
                user_message(
                    seq![ToolResultContentView::Text { text: content@, text_signature: None }],
                    timestamp,
                ),
            ]
        },
{
    let ghost expected = if content@.len() == 0 {
        Seq::empty()
    } else {
        seq![
            user_message(
                seq![ToolResultContentView::Text { text: content@, text_signature: None }],
                timestamp,
            ),
        ]
    };
    let messages = if content.as_str().is_empty() {
        Vec::new()
    } else {
        vec![skill_message(content, timestamp)]
    };
    assert(messages.deep_view() =~= expected);
    messages
}

/// The first skill with a name.
pub open spec fn skill_named(skills: Seq<SkillView>, name: Seq<char>) -> Option<SkillView>
    decreases skills.len(),
{
    if skills.len() == 0 {
        None
    } else {
        match skill_named(skills.drop_last(), name) {
            Some(skill) => Some(skill),
            None => if skills.last().name == name {
                Some(skills.last())
            } else {
                None
            },
        }
    }
}

proof fn lemma_skill_stays(skills: Seq<SkillView>, n: int, name: Seq<char>)
    requires
        0 <= n <= skills.len(),
        skill_named(skills.take(n), name) is Some,
    ensures
        skill_named(skills, name) == skill_named(skills.take(n), name),
    decreases skills.len(),
{
    if n < skills.len() {
        assert(skills.drop_last().take(n) =~= skills.take(n));
        lemma_skill_stays(skills.drop_last(), n, name);
    } else {
        assert(skills.take(n) =~= skills);
    }
}

/// Finds a skill, or refuses the request for it.
pub fn find_skill<'a>(config: &'a Config, name: &String) -> (r: Result<&'a Skill, HarnessError>)
    ensures
        match skill_named(config.deep_view().resources.skills, name@) {
            Some(skill) => r is Ok && r->Ok_0.deep_view() == skill,
            None => r is Err && r->Err_0.deep_view() == (HarnessErrorView::UnknownSkill {
                name: name@,
                message: "Unknown skill: "@ + name@,
            }),
        },
{
    let skills = &config.resources.skills;
    let mut i: usize = 0;
    while i < skills.len()
        invariant
            i <= skills.len(),
            *skills == config.resources.skills,
            skill_named(skills.deep_view().take(i as int), name@) is None,
        decreases skills.len() - i,
    {
        proof {
            lemma_prefix_push(*skills, i as int);
        }
        if skills[i].name == *name {
            proof {
                lemma_skill_stays(skills.deep_view(), i as int + 1, name@);
            }
            return Ok(&skills[i]);
        }
        i += 1;
    }
    assert(skills.deep_view().take(i as int) =~= skills.deep_view());
    Err(
        HarnessError::UnknownSkill {
            name: name.clone(),
            message: join("Unknown skill: ".to_string(), name.as_str()),
        },
    )
}

/// The first prompt template with a name.
pub open spec fn template_named(templates: Seq<PromptTemplateView>, name: Seq<char>) -> Option<
    PromptTemplateView,
>
    decreases templates.len(),
{
    if templates.len() == 0 {
        None
    } else {
        match template_named(templates.drop_last(), name) {
            Some(template) => Some(template),
            None => if templates.last().name == name {
                Some(templates.last())
            } else {
                None
            },
        }
    }
}

proof fn lemma_template_stays(templates: Seq<PromptTemplateView>, n: int, name: Seq<char>)
    requires
        0 <= n <= templates.len(),
        template_named(templates.take(n), name) is Some,
    ensures
        template_named(templates, name) == template_named(templates.take(n), name),
    decreases templates.len(),
{
    if n < templates.len() {
        assert(templates.drop_last().take(n) =~= templates.take(n));
        lemma_template_stays(templates.drop_last(), n, name);
    } else {
        assert(templates.take(n) =~= templates);
    }
}

/// Finds a prompt template, or refuses the request for it.
pub fn find_template<'a>(config: &'a Config, name: &String) -> (r: Result<
    &'a PromptTemplate,
    HarnessError,
>)
    ensures
        match template_named(config.deep_view().resources.prompt_templates, name@) {
            Some(template) => r is Ok && r->Ok_0.deep_view() == template,
            None => r is Err && r->Err_0.deep_view() == (HarnessErrorView::UnknownTemplate {
                name: name@,
                message: "Unknown prompt template: "@ + name@,
            }),
        },
{
    let templates = &config.resources.prompt_templates;
    let mut i: usize = 0;
    while i < templates.len()
        invariant
            i <= templates.len(),
            *templates == config.resources.prompt_templates,
            template_named(templates.deep_view().take(i as int), name@) is None,
        decreases templates.len() - i,
    {
        proof {
            lemma_prefix_push(*templates, i as int);
        }
        if templates[i].name == *name {
            proof {
                lemma_template_stays(templates.deep_view(), i as int + 1, name@);
            }
            return Ok(&templates[i]);
        }
        i += 1;
    }
    assert(templates.deep_view().take(i as int) =~= templates.deep_view());
    Err(
        HarnessError::UnknownTemplate {
            name: name.clone(),
            message: join("Unknown prompt template: ".to_string(), name.as_str()),
        },
    )
}

/// Refuses a prompt with a response that is still streaming.
pub fn check_prompt(lane_name: &String, messages: &Vec<AgentMessage>) -> (r: Result<(), HarnessError>)
    ensures
        r is Err <==> any_pending(messages.deep_view()),
        r is Err ==> r->Err_0.deep_view() == invalid_message(
            lane_name@,
            "pending_assistant"@,
            "Cannot accept a pending assistant message"@,
        ),
{
    if any_pending_assistant(messages) {
        Err(
            refuse_message(
                lane_name,
                "pending_assistant",
                "Cannot accept a pending assistant message",
            ),
        )
    } else {
        Ok(())
    }
}

/// The payload of an accepted item, which may not be a response that is still
/// streaming.
pub open spec fn captured(rows: Seq<PendingRowView>, item: InboxItemView) -> Result<
    PendingEntryView,
    Seq<char>,
> {
    match loaded(rows, item, "Pending "@) {
        Err(message) => Err(message),
        Ok(entry) => match entry {
            PendingEntryView::Message { payload } if is_pending(payload) => Err(
                about_item("Pending "@, item, " contains a pending assistant"@),
            ),
            _ => Ok(entry),
        },
    }
}

/// The entries of accepted items, or why the first unusable one cannot be
/// accepted.
pub open spec fn captured_entries(rows: Seq<PendingRowView>, items: Seq<InboxItemView>) -> Result<
    Seq<NewEntryView>,
    Seq<char>,
>
    decreases items.len(),
{
    if items.len() == 0 {
        Ok(Seq::empty())
    } else {
        match captured_entries(rows, items.drop_last()) {
            Err(message) => Err(message),
            Ok(entries) => match captured(rows, items.last()) {
                Err(message) => Err(message),
                Ok(entry) => Ok(entries.push(placed_entry(items.last().entry_id, None, entry))),
            },
        }
    }
}

proof fn lemma_capture_fails(rows: Seq<PendingRowView>, items: Seq<InboxItemView>, n: int)
    requires
        0 <= n <= items.len(),
        captured_entries(rows, items.take(n)) is Err,
    ensures
        captured_entries(rows, items) == captured_entries(rows, items.take(n)),
    decreases items.len(),
{
    if n < items.len() {
        assert(items.drop_last().take(n) =~= items.take(n));
        lemma_capture_fails(rows, items.drop_last(), n);
    } else {
        assert(items.take(n) =~= items);
    }
}

fn capture_item(rows: &Vec<PendingRow>, item: &InboxItem) -> (r: Result<PendingEntry, String>)
    ensures
        match captured(rows.deep_view(), item.deep_view()) {
            Ok(entry) => r is Ok && r->Ok_0.deep_view() == entry,
            Err(message) => r is Err && r->Err_0@ == message,
        },
{
    match load_item(rows, item, "Pending ") {
        Err(message) => Err(message),
        Ok(entry) => {
            if let PendingEntry::Message { payload } = &entry {
                if is_pending_assistant(payload) {
                    return Err(item_message("Pending ", item, " contains a pending assistant"));
                }
            }
            Ok(entry)
        },
    }
}

pub(crate) fn capture_entries(rows: &Vec<PendingRow>, items: &Vec<InboxItem>) -> (r: Result<
    Vec<NewEntry>,
    String,
>)
    ensures
        match captured_entries(rows.deep_view(), items.deep_view()) {
            Ok(entries) => r is Ok && r->Ok_0.deep_view() == entries,
            Err(message) => r is Err && r->Err_0@ == message,
        },
{
    let mut entries: Vec<NewEntry> = Vec::new();
    let mut i: usize = 0;
    assert(entries.deep_view() =~= Seq::empty());
    while i < items.len()
        invariant
            i <= items.len(),
            captured_entries(rows.deep_view(), items.deep_view().take(i as int)) == Ok::<
                Seq<NewEntryView>,
                Seq<char>,
            >(entries.deep_view()),
        decreases items.len() - i,
    {
        proof {
            lemma_prefix_push(*items, i as int);
        }
        match capture_item(rows, &items[i]) {
            Err(message) => {
                proof {
                    lemma_capture_fails(rows.deep_view(), items.deep_view(), i as int + 1);
                }
                return Err(message);
            },
            Ok(pending) => {
                let ghost before = entries.deep_view();
                let entry = pending_entry_write(items[i].entry_id.clone(), pending);
                entries.push(entry);
                assert(entries.deep_view() =~= before.push(entry.deep_view()));
            },
        }
        i += 1;
    }
    assert(items.deep_view().take(i as int) =~= items.deep_view());
    Ok(entries)
}

/// The entries of a prompt, not yet behind any other.
pub open spec fn prompt_entries(prompt: Seq<ReservedMessageView>) -> Seq<NewEntryView> {
    Seq::new(
        prompt.len(),
        |i: int|
            NewEntryView::Message(
                NewMessageEntryView {
                    id: prompt[i].entry_id,
                    parent_id: None,
                    custom_type: None,
                    message: prompt[i].message,
                    terminate: None,
                },
            ),
    )
}

/// The ids of a prompt.
pub open spec fn prompt_ids(prompt: Seq<ReservedMessageView>) -> Seq<Seq<char>> {
    Seq::new(prompt.len(), |i: int| prompt[i].entry_id)
}

pub(crate) fn enter_prompt(prompt: &Vec<ReservedMessage>) -> (r: (Vec<NewEntry>, Vec<String>))
    ensures
        r.0.deep_view() == prompt_entries(prompt.deep_view()),
        r.1.deep_view() == prompt_ids(prompt.deep_view()),
{
    let mut entries: Vec<NewEntry> = Vec::new();
    let mut ids: Vec<String> = Vec::new();
    let mut i: usize = 0;
    while i < prompt.len()
        invariant
            i <= prompt.len(),
            entries.len() == i,
            ids.len() == i,
            forall|k: int|
                0 <= k < i ==> #[trigger] entries.deep_view()[k] == prompt_entries(
                    prompt.deep_view(),
                )[k],
            forall|k: int|
                0 <= k < i ==> #[trigger] ids.deep_view()[k] == prompt_ids(prompt.deep_view())[k],
        decreases prompt.len() - i,
    {
        let ghost before = entries.deep_view();
        let ghost ids_before = ids.deep_view();
        let entry = NewEntry::Message(
            NewMessageEntry {
                id: prompt[i].entry_id.clone(),
                parent_id: None,
                custom_type: None,
                message: prompt[i].message.clone(),
                terminate: None,
            },
        );
        entries.push(entry);
        ids.push(prompt[i].entry_id.clone());
        assert(entries.deep_view() =~= before.push(entry.deep_view()));
        assert(ids.deep_view() =~= ids_before.push(prompt[i as int].entry_id@));
        i += 1;
    }
    assert(entries.deep_view() =~= prompt_entries(prompt.deep_view()));
    assert(ids.deep_view() =~= prompt_ids(prompt.deep_view()));
    (entries, ids)
}

/// Whether some item is part of the conversation, not only a write.
pub open spec fn any_conversation(items: Seq<InboxItemView>) -> bool {
    exists|i: int| 0 <= i < items.len() && (#[trigger] items[i]).kind != InboxItemKind::Write
}

pub(crate) fn has_conversation(items: &Vec<InboxItem>) -> (r: bool)
    ensures
        r == any_conversation(items.deep_view()),
{
    let mut i: usize = 0;
    while i < items.len()
        invariant
            i <= items.len(),
            forall|k: int|
                0 <= k < i ==> (#[trigger] items.deep_view()[k]).kind == InboxItemKind::Write,
        decreases items.len() - i,
    {
        if items[i].kind != InboxItemKind::Write {
            assert(items.deep_view()[i as int].kind != InboxItemKind::Write);
            return true;
        }
        i += 1;
    }
    false
}

} // verus!
