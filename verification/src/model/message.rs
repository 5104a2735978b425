//! Messages exchanged with a model and with tools.

use crate::json::Json;
use vstd::prelude::*;

verus! {

/// Why an assistant response stopped.
#[derive(Clone, Copy, Debug, PartialEq, Eq, Structural)]
pub enum StopReason {
    /// The response is still streaming.
    Pending,
    Stop,
    Length,
    ToolUse,
    Error,
    Aborted,
    /// The provider answered with a handle to poll.
    Deferred,
}

impl DeepView for StopReason {
    type V = StopReason;

    open spec fn deep_view(&self) -> StopReason {
        *self
    }
}

/// A provider-side handle of a response that is delivered later.
#[derive(Debug, PartialEq, Eq)]
pub struct DeferredHandle {
    pub id: String,
    pub provider: String,
    pub model_id: String,
    pub api: String,
}

/// Contents of a [`DeferredHandle`].
pub struct DeferredHandleView {
    pub id: Seq<char>,
    pub provider: Seq<char>,
    pub model_id: Seq<char>,
    pub api: Seq<char>,
}

impl DeepView for DeferredHandle {
    type V = DeferredHandleView;

    open spec fn deep_view(&self) -> DeferredHandleView {
        DeferredHandleView {
            id: self.id.deep_view(),
            provider: self.provider.deep_view(),
            model_id: self.model_id.deep_view(),
            api: self.api.deep_view(),
        }
    }
}

impl Clone for DeferredHandle {
    fn clone(&self) -> (r: Self)
        ensures
            r.deep_view() == self.deep_view(),
    {
        DeferredHandle {
            id: self.id.clone(),
            provider: self.provider.clone(),
            model_id: self.model_id.clone(),
            api: self.api.clone(),
        }
    }
}

/// A tool call as the model wrote it.
#[derive(Debug, PartialEq, Eq)]
pub struct ToolCallBlock {
    pub id: String,
    pub name: String,
    pub arguments: Json,
}

/// Contents of a [`ToolCallBlock`].
pub struct ToolCallBlockView {
    pub id: Seq<char>,
    pub name: Seq<char>,
    pub arguments: serde_json::Value,
}

impl DeepView for ToolCallBlock {
    type V = ToolCallBlockView;

    open spec fn deep_view(&self) -> ToolCallBlockView {
        ToolCallBlockView {
            id: self.id.deep_view(),
            name: self.name.deep_view(),
            arguments: self.arguments.deep_view(),
        }
    }
}

impl Clone for ToolCallBlock {
    fn clone(&self) -> (r: Self)
        ensures
            r.deep_view() == self.deep_view(),
    {
        ToolCallBlock {
            id: self.id.clone(),
            name: self.name.clone(),
            arguments: self.arguments.clone(),
        }
    }
}

/// One block of an assistant message.
#[allow(inconsistent_fields)]
#[derive(Debug, PartialEq, Eq)]
pub enum ContentBlock {
    ToolCall(ToolCallBlock),
    /// Text, thinking and whatever else a provider sends.
    Other(Json),
}

/// Contents of [`ContentBlock`].
#[allow(inconsistent_fields)]
pub enum ContentBlockView {
    ToolCall(ToolCallBlockView),
    Other(serde_json::Value),
}

impl DeepView for ContentBlock {
    type V = ContentBlockView;

    open spec fn deep_view(&self) -> ContentBlockView {
        match self {
            ContentBlock::ToolCall(item) => ContentBlockView::ToolCall(item.deep_view()),
            ContentBlock::Other(item) => ContentBlockView::Other(item.deep_view()),
        }
    }
}

impl Clone for ContentBlock {
    fn clone(&self) -> (r: Self)
        ensures
            r.deep_view() == self.deep_view(),
    {
        match self {
            ContentBlock::ToolCall(item) => ContentBlock::ToolCall(item.clone()),
            ContentBlock::Other(item) => ContentBlock::Other(item.clone()),
        }
    }
}

/// Token counts and cost of a request.
#[derive(Debug, PartialEq, Eq)]
pub struct Usage {
    pub input: u64,
    pub output: u64,
    pub cache_read: u64,
    pub cache_write: u64,
    pub cache_write_1h: Option<u64>,
    pub reasoning: Option<u64>,
    pub total_tokens: u64,
    pub cost: Json,
}

/// Contents of a [`Usage`].
pub struct UsageView {
    pub input: u64,
    pub output: u64,
    pub cache_read: u64,
    pub cache_write: u64,
    pub cache_write_1h: Option<u64>,
    pub reasoning: Option<u64>,
    pub total_tokens: u64,
    pub cost: serde_json::Value,
}

impl DeepView for Usage {
    type V = UsageView;

    open spec fn deep_view(&self) -> UsageView {
        UsageView {
            input: self.input.deep_view(),
            output: self.output.deep_view(),
            cache_read: self.cache_read.deep_view(),
            cache_write: self.cache_write.deep_view(),
            cache_write_1h: self.cache_write_1h.deep_view(),
            reasoning: self.reasoning.deep_view(),
            total_tokens: self.total_tokens.deep_view(),
            cost: self.cost.deep_view(),
        }
    }
}

impl Clone for Usage {
    fn clone(&self) -> (r: Self)
        ensures
            r.deep_view() == self.deep_view(),
    {
        Usage {
            input: self.input,
            output: self.output,
            cache_read: self.cache_read,
            cache_write: self.cache_write,
            cache_write_1h: self.cache_write_1h,
            reasoning: self.reasoning,
            total_tokens: self.total_tokens,
            cost: self.cost.clone(),
        }
    }
}

/// A response of a model.
#[derive(Debug, PartialEq, Eq)]
pub struct AssistantMessage {
    pub content: Vec<ContentBlock>,
    pub api: String,
    pub provider: String,
    pub model: String,
    pub response_model: Option<String>,
    pub response_id: Option<String>,
    pub provider_thinking_level: Option<String>,
    pub usage: Usage,
    pub stop_reason: StopReason,
    pub deferred: Option<DeferredHandle>,
    pub error_message: Option<String>,
    pub raw_stop_reason: Option<String>,
    pub end_turn: Option<bool>,
    pub timestamp: u64,
}

/// Contents of an [`AssistantMessage`].
pub struct AssistantMessageView {
    pub content: Seq<ContentBlockView>,
    pub api: Seq<char>,
    pub provider: Seq<char>,
    pub model: Seq<char>,
    pub response_model: Option<Seq<char>>,
    pub response_id: Option<Seq<char>>,
    pub provider_thinking_level: Option<Seq<char>>,
    pub usage: UsageView,
    pub stop_reason: StopReason,
    pub deferred: Option<DeferredHandleView>,
    pub error_message: Option<Seq<char>>,
    pub raw_stop_reason: Option<Seq<char>>,
    pub end_turn: Option<bool>,
    pub timestamp: u64,
}

impl DeepView for AssistantMessage {
    type V = AssistantMessageView;

    open spec fn deep_view(&self) -> AssistantMessageView {
        AssistantMessageView {
            content: self.content.deep_view(),
            api: self.api.deep_view(),
            provider: self.provider.deep_view(),
            model: self.model.deep_view(),
            response_model: self.response_model.deep_view(),
            response_id: self.response_id.deep_view(),
            provider_thinking_level: self.provider_thinking_level.deep_view(),
            usage: self.usage.deep_view(),
            stop_reason: self.stop_reason.deep_view(),
            deferred: self.deferred.deep_view(),
            error_message: self.error_message.deep_view(),
            raw_stop_reason: self.raw_stop_reason.deep_view(),
            end_turn: self.end_turn.deep_view(),
            timestamp: self.timestamp.deep_view(),
        }
    }
}

impl Clone for AssistantMessage {
    fn clone(&self) -> (r: Self)
        ensures
            r.deep_view() == self.deep_view(),
    {
        AssistantMessage {
            content: self.content.clone(),
            api: self.api.clone(),
            provider: self.provider.clone(),
            model: self.model.clone(),
            response_model: self.response_model.clone(),
            response_id: self.response_id.clone(),
            provider_thinking_level: self.provider_thinking_level.clone(),
            usage: self.usage.clone(),
            stop_reason: self.stop_reason,
            deferred: self.deferred.clone(),
            error_message: self.error_message.clone(),
            raw_stop_reason: self.raw_stop_reason.clone(),
            end_turn: self.end_turn,
            timestamp: self.timestamp,
        }
    }
}

/// One block of a tool result.
#[derive(Debug, PartialEq, Eq)]
pub enum ToolResultContent {
    Text {
        text: String,
        text_signature: Option<String>,
    },
    Image(Json),
}

/// Contents of [`ToolResultContent`].
pub enum ToolResultContentView {
    Text {
        text: Seq<char>,
        text_signature: Option<Seq<char>>,
    },
    Image(serde_json::Value),
}

impl DeepView for ToolResultContent {
    type V = ToolResultContentView;

    open spec fn deep_view(&self) -> ToolResultContentView {
        match self {
            ToolResultContent::Text { text, text_signature } => ToolResultContentView::Text {
                text: text.deep_view(),
                text_signature: text_signature.deep_view(),
            },
            ToolResultContent::Image(item) => ToolResultContentView::Image(item.deep_view()),
        }
    }
}

impl Clone for ToolResultContent {
    fn clone(&self) -> (r: Self)
        ensures
            r.deep_view() == self.deep_view(),
    {
        match self {
            ToolResultContent::Text { text, text_signature } => ToolResultContent::Text {
                text: text.clone(),
                text_signature: text_signature.clone(),
            },
            ToolResultContent::Image(item) => ToolResultContent::Image(item.clone()),
        }
    }
}

/// What a tool returned.
#[derive(Debug, PartialEq, Eq)]
pub struct AgentToolResult {
    pub content: Vec<ToolResultContent>,
    pub details: Json,
    pub usage: Option<Usage>,
}

/// Contents of an [`AgentToolResult`].
pub struct AgentToolResultView {
    pub content: Seq<ToolResultContentView>,
    pub details: serde_json::Value,
    pub usage: Option<UsageView>,
}

impl DeepView for AgentToolResult {
    type V = AgentToolResultView;

    open spec fn deep_view(&self) -> AgentToolResultView {
        AgentToolResultView {
            content: self.content.deep_view(),
            details: self.details.deep_view(),
            usage: self.usage.deep_view(),
        }
    }
}

impl Clone for AgentToolResult {
    fn clone(&self) -> (r: Self)
        ensures
            r.deep_view() == self.deep_view(),
    {
        AgentToolResult {
            content: self.content.clone(),
            details: self.details.clone(),
            usage: self.usage.clone(),
        }
    }
}

/// A tool result as it enters the transcript.
#[derive(Debug, PartialEq, Eq)]
pub struct ToolResultMessage {
    pub tool_call_id: String,
    pub tool_name: String,
    pub content: Vec<ToolResultContent>,
    pub details: Option<Json>,
    pub usage: Option<Usage>,
    pub added_tool_names: Option<Vec<String>>,
    pub is_error: bool,
    pub timestamp: u64,
}

/// Contents of a [`ToolResultMessage`].
pub struct ToolResultMessageView {
    pub tool_call_id: Seq<char>,
    pub tool_name: Seq<char>,
    pub content: Seq<ToolResultContentView>,
    pub details: Option<serde_json::Value>,
    pub usage: Option<UsageView>,
    pub added_tool_names: Option<Seq<Seq<char>>>,
    pub is_error: bool,
    pub timestamp: u64,
}

impl DeepView for ToolResultMessage {
    type V = ToolResultMessageView;

    open spec fn deep_view(&self) -> ToolResultMessageView {
        ToolResultMessageView {
            tool_call_id: self.tool_call_id.deep_view(),
            tool_name: self.tool_name.deep_view(),
            content: self.content.deep_view(),
            details: self.details.deep_view(),
            usage: self.usage.deep_view(),
            added_tool_names: self.added_tool_names.deep_view(),
            is_error: self.is_error.deep_view(),
            timestamp: self.timestamp.deep_view(),
        }
    }
}

impl Clone for ToolResultMessage {
    fn clone(&self) -> (r: Self)
        ensures
            r.deep_view() == self.deep_view(),
    {
        ToolResultMessage {
            tool_call_id: self.tool_call_id.clone(),
            tool_name: self.tool_name.clone(),
            content: self.content.clone(),
            details: self.details.clone(),
            usage: self.usage.clone(),
            added_tool_names: self.added_tool_names.clone(),
            is_error: self.is_error,
            timestamp: self.timestamp,
        }
    }
}

/// Content of a user message.
#[allow(inconsistent_fields)]
#[derive(Debug, PartialEq, Eq)]
pub enum UserContent {
    Text(String),
    Blocks(Vec<ToolResultContent>),
}

/// Contents of [`UserContent`].
#[allow(inconsistent_fields)]
pub enum UserContentView {
    Text(Seq<char>),
    Blocks(Seq<ToolResultContentView>),
}

impl DeepView for UserContent {
    type V = UserContentView;

    open spec fn deep_view(&self) -> UserContentView {
        match self {
            UserContent::Text(item) => UserContentView::Text(item.deep_view()),
            UserContent::Blocks(item) => UserContentView::Blocks(item.deep_view()),
        }
    }
}

impl Clone for UserContent {
    fn clone(&self) -> (r: Self)
        ensures
            r.deep_view() == self.deep_view(),
    {
        match self {
            UserContent::Text(item) => UserContent::Text(item.clone()),
            UserContent::Blocks(item) => UserContent::Blocks(item.clone()),
        }
    }
}

/// A message of the user.
#[derive(Debug, PartialEq, Eq)]
pub struct UserMessage {
    pub content: UserContent,
    pub timestamp: u64,
}

/// Contents of a [`UserMessage`].
pub struct UserMessageView {
    pub content: UserContentView,
    pub timestamp: u64,
}

impl DeepView for UserMessage {
    type V = UserMessageView;

    open spec fn deep_view(&self) -> UserMessageView {
        UserMessageView {
            content: self.content.deep_view(),
            timestamp: self.timestamp.deep_view(),
        }
    }
}

impl Clone for UserMessage {
    fn clone(&self) -> (r: Self)
        ensures
            r.deep_view() == self.deep_view(),
    {
        UserMessage {
            content: self.content.clone(),
            timestamp: self.timestamp,
        }
    }
}

/// Any message of a transcript.
#[allow(inconsistent_fields)]
#[derive(Debug, PartialEq, Eq)]
pub enum AgentMessage {
    User(UserMessage),
    Assistant(AssistantMessage),
    ToolResult(ToolResultMessage),
    Custom(Json),
}

/// Contents of [`AgentMessage`].
#[allow(inconsistent_fields)]
pub enum AgentMessageView {
    User(UserMessageView),
    Assistant(AssistantMessageView),
    ToolResult(ToolResultMessageView),
    Custom(serde_json::Value),
}

impl DeepView for AgentMessage {
    type V = AgentMessageView;

    open spec fn deep_view(&self) -> AgentMessageView {
        match self {
            AgentMessage::User(item) => AgentMessageView::User(item.deep_view()),
            AgentMessage::Assistant(item) => AgentMessageView::Assistant(item.deep_view()),
            AgentMessage::ToolResult(item) => AgentMessageView::ToolResult(item.deep_view()),
            AgentMessage::Custom(item) => AgentMessageView::Custom(item.deep_view()),
        }
    }
}

impl Clone for AgentMessage {
    fn clone(&self) -> (r: Self)
        ensures
            r.deep_view() == self.deep_view(),
    {
        match self {
            AgentMessage::User(item) => AgentMessage::User(item.clone()),
            AgentMessage::Assistant(item) => AgentMessage::Assistant(item.clone()),
            AgentMessage::ToolResult(item) => AgentMessage::ToolResult(item.clone()),
            AgentMessage::Custom(item) => AgentMessage::Custom(item.clone()),
        }
    }
}

} // verus!
