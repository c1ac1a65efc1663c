//! Chat completion requests and the responses to them, whole or in chunks.
use vstd::prelude::*;

verus! {

/// A request for a chat completion.
#[derive(Clone)]
pub struct ChatCompletionsRequest {
    pub model: String,
    pub messages: Vec<ChatCompletionMessage>,
}

/// One message of a conversation.
#[derive(Clone)]
pub struct ChatCompletionMessage {
    pub role: String,
    pub content: String,
}

/// A response to a request, or one chunk of a streamed response.
pub struct ChatCompletionsChunk {
    pub choices: Vec<ChatCompletionsChunkChoices>,
    pub created: u64,
}

/// One choice of a response: streamed responses fill `delta`, whole ones `message`.
pub struct ChatCompletionsChunkChoices {
    pub delta: Option<ChatCompletionsChunkDelta>,
    pub message: Option<ChatCompletionsMessage>,
}

/// What a chunk adds to a choice.
pub struct ChatCompletionsChunkDelta {
    pub reasoning_content: Option<String>,
    pub content: Option<String>,
}

/// The message of a whole response.
pub struct ChatCompletionsMessage {
    pub content: Option<String>,
}

/// An optional text; one that is missing counts as empty.
pub open spec fn text_or_empty(text: Option<String>) -> Seq<char> {
    match text {
        Some(text) => text@,
        None => Seq::empty(),
    }
}

impl ChatCompletionsChunkChoices {
    /// The reasoning that the choice carries.
    pub open spec fn reasoning(self) -> Seq<char> {
        match self.delta {
            Some(delta) => text_or_empty(delta.reasoning_content),
            None => Seq::empty(),
        }
    }

    /// The content that the choice carries: that of its delta, then that of its message.
    pub open spec fn content(self) -> Seq<char> {
        let of_delta = match self.delta {
            Some(delta) => text_or_empty(delta.content),
            None => Seq::empty(),
        };
        let of_message = match self.message {
            Some(message) => text_or_empty(message.content),
            None => Seq::empty(),
        };
        of_delta + of_message
    }
}

/// The reasoning of all `choices`, in order.
pub open spec fn reasoning_of(choices: Seq<ChatCompletionsChunkChoices>) -> Seq<char>
    decreases choices.len(),
{
    if choices.len() == 0 {
        Seq::empty()
    } else {
        reasoning_of(choices.drop_last()) + choices.last().reasoning()
    }
}

/// The content of all `choices`, in order.
pub open spec fn content_of(choices: Seq<ChatCompletionsChunkChoices>) -> Seq<char>
    decreases choices.len(),
{
    if choices.len() == 0 {
        Seq::empty()
    } else {
        content_of(choices.drop_last()) + choices.last().content()
    }
}

/// The texts of two runs of choices, one after the other, are the texts of both together.
pub proof fn law_texts_of_joined_choices(
    first: Seq<ChatCompletionsChunkChoices>,
    second: Seq<ChatCompletionsChunkChoices>,
)
    ensures
        reasoning_of(first + second) == reasoning_of(first) + reasoning_of(second),
        content_of(first + second) == content_of(first) + content_of(second),
    decreases second.len(),
{
    if second.len() == 0 {
        assert(first + second == first);
    } else {
        law_texts_of_joined_choices(first, second.drop_last());
        assert((first + second).drop_last() == first + second.drop_last());
    }
}

/// No choices say nothing, and one more choice adds its texts to those before it, character
/// for character: the content of its delta and then that of its message to the content, and
/// the reasoning of its delta to the reasoning. What is missing adds nothing.
pub proof fn law_choice_adds_its_texts(
    before: Seq<ChatCompletionsChunkChoices>,
    choice: ChatCompletionsChunkChoices,
)
    ensures
        content_of(Seq::empty()) == Seq::<char>::empty(),
        reasoning_of(Seq::empty()) == Seq::<char>::empty(),
        content_of(before.push(choice)) == content_of(before) + (match choice.delta {
            Some(ChatCompletionsChunkDelta { content: Some(text), .. }) => text@,
            _ => Seq::empty(),
        }) + (match choice.message {
            Some(ChatCompletionsMessage { content: Some(text) }) => text@,
            _ => Seq::empty(),
        }),
        reasoning_of(before.push(choice)) == reasoning_of(before) + (match choice.delta {
            Some(ChatCompletionsChunkDelta { reasoning_content: Some(text), .. }) => text@,
            _ => Seq::empty(),
        }),
{
    assert(before.push(choice).drop_last() == before);
}

} // verus!
