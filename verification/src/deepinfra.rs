use std::collections::HashMap;
use std::collections::hash_map::Entry;
use vstd::prelude::*;

verus! {

/// What a message says: its role, its optional author name and its text.
pub ghost struct MessageView {
    pub role: Seq<char>,
    pub name: Option<Seq<char>>,
    pub content: Seq<char>,
}

/// One message of a conversation, as the chat-completion endpoint reads it.
#[derive(Clone)]
pub struct DeepInfraChatContent {
    pub role: String,
    pub name: Option<String>,
    pub content: String,
}

/// The characters of an optional string.
pub open spec fn opt_chars(s: Option<String>) -> Option<Seq<char>> {
    match s {
        Some(t) => Some(t@),
        None => None,
    }
}

impl View for DeepInfraChatContent {
    type V = MessageView;

    open spec fn view(&self) -> MessageView {
        MessageView { role: self.role@, name: opt_chars(self.name), content: self.content@ }
    }
}

/// The role of the instructions put in front of every request.
pub open spec fn system_role() -> Seq<char> {
    "system"@
}

/// The role of what the people in the group say.
pub open spec fn user_role() -> Seq<char> {
    "user"@
}

/// The role of what the model answers.
pub open spec fn assistant_role() -> Seq<char> {
    "assistant"@
}

/// The system message carrying `prompt`.
pub open spec fn system_turn(prompt: Seq<char>) -> MessageView {
    MessageView { role: system_role(), name: None, content: prompt }
}

/// The message of a group member: named when a name is given.
pub open spec fn user_turn(name: Option<Seq<char>>, message: Seq<char>) -> MessageView {
    MessageView { role: user_role(), name: name, content: message }
}

/// The model's answer `reply`.
pub open spec fn assistant_turn(reply: Seq<char>) -> MessageView {
    MessageView { role: assistant_role(), name: None, content: reply }
}

impl DeepInfraChatContent {
    /// A message of `role` saying `content`, with no author name.
    pub fn new(role: &str, content: &str) -> (c: Self)
        ensures
            c@ == (MessageView { role: role@, name: None, content: content@ }),
    {
        DeepInfraChatContent { role: role.to_string(), name: None, content: content.to_string() }
    }

    /// A message of `role` saying `content`, written by `name`.
    pub fn new_named(role: &str, name: &str, content: &str) -> (c: Self)
        ensures
            c@ == (MessageView { role: role@, name: Some(name@), content: content@ }),
    {
        DeepInfraChatContent {
            role: role.to_string(),
            name: Some(name.to_string()),
            content: content.to_string(),
        }
    }

    /// A copy that says the same.
    pub fn duplicate(&self) -> (c: Self)
        ensures
            c@ == self@,
    {
        let name = match &self.name {
            Some(n) => Some(n.clone()),
            None => None,
        };
        DeepInfraChatContent { role: self.role.clone(), name, content: self.content.clone() }
    }
}

/// What the messages of a list say, in order.
pub open spec fn turns(v: Seq<DeepInfraChatContent>) -> Seq<MessageView> {
    v.map_values(|c: DeepInfraChatContent| c@)
}

/// The history left after withdrawing the last exchange: the last message goes,
/// and when it was the model's answer the message before it goes as well.
pub open spec fn recalled(h: Seq<MessageView>) -> Seq<MessageView> {
    if h.len() == 0 {
        h
    } else if h.last().role == assistant_role() && h.len() >= 2 {
        h.take(h.len() - 2)
    } else if h.last().role == assistant_role() {
        Seq::empty()
    } else {
        h.drop_last()
    }
}

/// What is sent to the model for one turn of a conversation.
pub struct ChatRequest {
    pub model: String,
    pub messages: Vec<DeepInfraChatContent>,
    pub stream: bool,
    /// The bit pattern of the sampling temperature (an IEEE-754 single).
    pub temperature_bits: u32,
    pub max_tokens: i32,
}

/// What a conversation holds: its history and the settings of its requests.
pub ghost struct ContextView {
    pub history: Seq<MessageView>,
    pub model: Seq<char>,
    pub stream: bool,
    pub temperature_bits: u32,
    pub max_tokens: i32,
}

/// One conversation with the model: the messages so far and the settings
/// every request of it is sent with.
#[derive(Clone)]
pub struct DeepInfraContext {
    history: Vec<DeepInfraChatContent>,
    model: String,
    stream: bool,
    temperature_bits: u32,
    max_tokens: i32,
}

impl View for DeepInfraContext {
    type V = ContextView;

    closed spec fn view(&self) -> ContextView {
        ContextView {
            history: turns(self.history@),
            model: self.model@,
            stream: self.stream,
            temperature_bits: self.temperature_bits,
            max_tokens: self.max_tokens,
        }
    }
}

/// The settings of `after` are those of `before`.
pub open spec fn same_settings(before: ContextView, after: ContextView) -> bool {
    &&& after.model == before.model
    &&& after.stream == before.stream
    &&& after.temperature_bits == before.temperature_bits
    &&& after.max_tokens == before.max_tokens
}

impl DeepInfraContext {
    /// An empty conversation with the given settings.
    pub fn new(model: String, stream: bool, temperature_bits: u32, max_tokens: i32) -> (c: Self)
        ensures
            c@ == (ContextView {
                history: Seq::empty(),
                model: model@,
                stream,
                temperature_bits,
                max_tokens,
            }),
    {
        let c = DeepInfraContext { history: Vec::new(), model, stream, temperature_bits, max_tokens };
        assert(turns(c.history@) =~= Seq::empty());
        c
    }

    /// The messages so far, oldest first.
    pub fn history(&self) -> (h: &Vec<DeepInfraChatContent>)
        ensures
            turns(h@) == self@.history,
    {
        &self.history
    }

    /// Forgets the whole history.
    pub fn clear(&mut self)
        ensures
            final(self)@.history == Seq::<MessageView>::empty(),
            same_settings(old(self)@, final(self)@),
    {
        self.history.clear();
        assert(turns(self.history@) =~= Seq::empty());
    }

    /// Withdraws the last exchange: the last message, and the one before it
    /// when the last one is the model's answer.
    pub fn recall(&mut self)
        ensures
            final(self)@.history == recalled(old(self)@.history),
            same_settings(old(self)@, final(self)@),
    {
        let ghost h0 = self.history@;
        let last = self.history.pop();
        proof {
            if h0.len() > 0 {
                assert(self.history@ =~= h0.drop_last());
                assert(turns(self.history@) =~= turns(h0).drop_last());
            }
        }
        if let Some(last) = last {
            let assistant = "assistant".to_string();
            if last.role == assistant {
                let ghost h1 = self.history@;
                self.history.pop();
                proof {
                    if h1.len() > 0 {
                        assert(self.history@ =~= h1.drop_last());
                        assert(turns(self.history@) =~= turns(h0).take(h0.len() - 2));
                    } else {
                        assert(turns(self.history@) =~= Seq::empty());
                    }
                }
            }
        }
    }

    /// The history with `prompt` as system message in front of it.
    fn request_messages(&self, prompt: &str) -> (v: Vec<DeepInfraChatContent>)
        ensures
            turns(v@) == seq![system_turn(prompt@)] + self@.history,
    {
        let mut v: Vec<DeepInfraChatContent> = Vec::new();
        v.push(DeepInfraChatContent::new("system", prompt));
        let n = self.history.len();
        for i in 0..n
            invariant
                n == self.history@.len(),
                turns(v@) == seq![system_turn(prompt@)] + turns(self.history@).take(i as int),
        {
            let c = self.history[i].duplicate();
            let ghost before = v@;
            v.push(c);
            assert(turns(v@) =~= turns(before).push(c@));
            assert(turns(self.history@).take(i + 1) =~= turns(self.history@).take(i as int).push(
                c@,
            ));
        }
        assert(turns(self.history@).take(n as int) =~= turns(self.history@));
        v
    }

    /// Adds what a member said to the history and gives the request to send
    /// for it: `prompt` as system message, then the whole history.
    pub fn chat(&mut self, prompt: String, name: Option<String>, message: &str) -> (request:
        ChatRequest)
        ensures
            final(self)@.history == old(self)@.history.push(
                user_turn(opt_chars(name), message@),
            ),
            same_settings(old(self)@, final(self)@),
            turns(request.messages@) == seq![system_turn(prompt@)] + final(self)@.history,
            request.model@ == old(self)@.model,
            request.stream == old(self)@.stream,
            request.temperature_bits == old(self)@.temperature_bits,
            request.max_tokens == old(self)@.max_tokens,
    {
        let c = match name {
            Some(name) => DeepInfraChatContent::new_named("user", name.as_str(), message),
            None => DeepInfraChatContent::new("user", message),
        };
        let ghost h0 = self.history@;
        self.history.push(c);
        assert(turns(self.history@) =~= turns(h0).push(c@));
        let messages = self.request_messages(prompt.as_str());
        ChatRequest {
            model: self.model.clone(),
            messages,
            stream: self.stream,
            temperature_bits: self.temperature_bits,
            max_tokens: self.max_tokens,
        }
    }

    /// Takes the outcome of a request: an answer joins the history and is
    /// handed back; a failure leaves the history as it is and is handed back.
    pub fn finish_chat<E>(&mut self, outcome: Result<String, E>) -> (r: Result<String, E>)
        ensures
            r == outcome,
            same_settings(old(self)@, final(self)@),
            final(self)@.history == (match outcome {
                Ok(reply) => old(self)@.history.push(assistant_turn(reply@)),
                Err(_) => old(self)@.history,
            }),
    {
        match outcome {
            Ok(reply) => {
                let c = DeepInfraChatContent::new("assistant", reply.as_str());
                let ghost h0 = self.history@;
                self.history.push(c);
                assert(turns(self.history@) =~= turns(h0).push(c@));
                Ok(reply)
            },
            Err(e) => Err(e),
        }
    }
}

/// One choice of the model's answer: the text of its message, when the
/// message has a text.
pub struct ChatChoice {
    pub content: Option<String>,
}

/// The model's answer to a request: its list of choices, when it has one.
pub struct ChatAnswer {
    pub choices: Option<Vec<ChatChoice>>,
}

/// The text the bot takes from an answer: that of the first choice.
pub open spec fn answer_text(answer: ChatAnswer) -> Option<Seq<char>> {
    match answer.choices {
        Some(v) => if v@.len() > 0 {
            opt_chars(v@[0].content)
        } else {
            None
        },
        None => None,
    }
}

/// The text of the first choice of the answer, which must have one.
pub fn answer_of(answer: &ChatAnswer) -> (a: String)
    requires
        answer_text(*answer) is Some,
    ensures
        Some(a@) == answer_text(*answer),
{
    let choices = answer.choices.as_ref().unwrap();
    choices[0].content.as_ref().unwrap().clone()
}

/// The conversations of the bot, one per group, all with the same settings.
#[derive(Clone)]
pub struct DeepInfraChatInner {
    model: String,
    temperature_bits: u32,
    max_tokens: i32,
    contexts: HashMap<i64, DeepInfraContext>,
}

/// The settings a conversation of a group starts with, and the conversations
/// already started, by group.
pub ghost struct ChatsView {
    pub model: Seq<char>,
    pub temperature_bits: u32,
    pub max_tokens: i32,
    pub contexts: Map<i64, ContextView>,
}

impl View for DeepInfraChatInner {
    type V = ChatsView;

    closed spec fn view(&self) -> ChatsView {
        ChatsView {
            model: self.model@,
            temperature_bits: self.temperature_bits,
            max_tokens: self.max_tokens,
            contexts: context_views(self.contexts@),
        }
    }
}

/// The conversation a group starts with: empty, not streamed, with the
/// settings of `chats`.
pub open spec fn fresh_context(chats: ChatsView) -> ContextView {
    ContextView {
        history: Seq::empty(),
        model: chats.model,
        stream: false,
        temperature_bits: chats.temperature_bits,
        max_tokens: chats.max_tokens,
    }
}

/// What each conversation of a map holds.
pub open spec fn context_views(m: Map<i64, DeepInfraContext>) -> Map<i64, ContextView> {
    m.map_values(|c: DeepInfraContext| c@)
}

/// Starting or replacing one conversation changes the views of the map in that entry only.
proof fn lemma_views_insert(m: Map<i64, DeepInfraContext>)
    ensures
        forall|k: i64, v: DeepInfraContext|
            #[trigger] context_views(m.insert(k, v)) == context_views(m).insert(k, v@),
{
    assert forall|k: i64, v: DeepInfraContext|
        #[trigger] context_views(m.insert(k, v)) == context_views(m).insert(k, v@) by {
        assert(context_views(m.insert(k, v)) =~= context_views(m).insert(k, v@));
    }
}

/// The conversation group `id` has: the one kept for it, or a fresh one.
pub open spec fn conversation_of(chats: ChatsView, id: i64) -> ContextView {
    if chats.contexts.contains_key(id) {
        chats.contexts[id]
    } else {
        fresh_context(chats)
    }
}

/// `chats` with `context` kept as the conversation of group `id`.
pub open spec fn with_conversation(chats: ChatsView, id: i64, context: ContextView) -> ChatsView {
    ChatsView { contexts: chats.contexts.insert(id, context), ..chats }
}

impl DeepInfraChatInner {
    /// No conversation yet; each group's will have these settings.
    pub fn new(model: &str, temperature_bits: u32, max_tokens: i32) -> (c: Self)
        ensures
            c@ == (ChatsView {
                model: model@,
                temperature_bits,
                max_tokens,
                contexts: Map::empty(),
            }),
    {
        let c = DeepInfraChatInner {
            model: model.to_string(),
            temperature_bits,
            max_tokens,
            contexts: HashMap::new(),
        };
        assert(context_views(c.contexts@) =~= Map::empty());
        c
    }

    /// The conversation of group `id`, started fresh when the group has none yet.
    pub fn get(&mut self, id: i64) -> (context: &mut DeepInfraContext)
        ensures
            context@ == conversation_of(old(self)@, id),
            final(self)@ == with_conversation(old(self)@, id, final(context)@),
    {
        broadcast use vstd::std_specs::hash::group_hash_axioms;
        proof {
            lemma_views_insert(self.contexts@);
        }
        let fresh = DeepInfraContext::new(
            self.model.clone(),
            false,
            self.temperature_bits,
            self.max_tokens,
        );
        match self.contexts.entry(id) {
            Entry::Occupied(e) => e.into_mut(),
            Entry::Vacant(e) => e.insert(fresh),
        }
    }
}

/// The bot's chat service, set up once with the settings of all its conversations.
pub struct DeepInfraChat;

impl DeepInfraChat {
    /// The chat service with no conversation yet, whose conversations use the
    /// given model, temperature and token limit.
    pub fn init(model: &str, temperature_bits: u32, max_tokens: i32) -> (chats: DeepInfraChatInner)
        ensures
            chats@ == (ChatsView {
                model: model@,
                temperature_bits,
                max_tokens,
                contexts: Map::empty(),
            }),
    {
        DeepInfraChatInner::new(model, temperature_bits, max_tokens)
    }
}

/// Recalling right after an answered question withdraws both the question
/// and the answer: the history is back to what it was before the question.
pub proof fn law_recall_undoes_answered_turn(
    history: Seq<MessageView>,
    name: Option<Seq<char>>,
    message: Seq<char>,
    reply: Seq<char>,
)
    ensures
        recalled(history.push(user_turn(name, message)).push(assistant_turn(reply))) == history,
{
    let h = history.push(user_turn(name, message)).push(assistant_turn(reply));
    assert(h.take(h.len() - 2) =~= history);
}

/// Recalling after a question that got no answer withdraws just the question.
pub proof fn law_recall_undoes_unanswered_question(
    history: Seq<MessageView>,
    name: Option<Seq<char>>,
    message: Seq<char>,
)
    ensures
        recalled(history.push(user_turn(name, message))) == history,
{
    reveal_strlit("user");
    reveal_strlit("assistant");
    assert(user_role() != assistant_role()) by {
        assert(user_role()[0] != assistant_role()[0]);
    }
    assert(history.push(user_turn(name, message)).drop_last() =~= history);
}

/// A group finds its conversation as it left it, and keeping one group's
/// conversation leaves every other group's as it was.
pub proof fn law_conversations_kept_per_group(
    chats: ChatsView,
    id: i64,
    context: ContextView,
    other: i64,
)
    requires
        other != id,
    ensures
        conversation_of(with_conversation(chats, id, context), id) == context,
        conversation_of(with_conversation(chats, id, context), other) == conversation_of(
            chats,
            other,
        ),
{
}

} // verus!
