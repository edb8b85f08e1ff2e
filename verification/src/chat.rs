//! The chat flow's decision logic: assembling the LLM context for a
//! question about a meeting, the language-specific system prompt, the
//! rule for when a stored summary is usable, and the validity rules
//! for stored chat messages.
//!
//! Message persistence itself and the LLM transport are external
//! collaborators; the caller fetches the records, hands them in as
//! plain values, and performs the one call these functions prepare.

use vstd::prelude::*;
use crate::chars::{is_ws, is_ws_char, leading_ws, lemma_leading_ws_char, lemma_trailing_ws,
    str_eq, trailing_ws, trim_spec};

verus! {

/// One stored chat message of a meeting's conversation; the creation
/// time is carried as milliseconds since the Unix epoch.
pub struct ChatMessage {
    pub id: String,
    pub meeting_id: String,
    pub role: String,
    pub content: String,
    pub created_at: i64,
    pub metadata: Option<String>,
}

/// Ghost image of [`ChatMessage`].
pub ghost struct ChatMessageModel {
    pub id: Seq<char>,
    pub meeting_id: Seq<char>,
    pub role: Seq<char>,
    pub content: Seq<char>,
    pub created_at: int,
    pub metadata: Option<Seq<char>>,
}

impl DeepView for ChatMessage {
    type V = ChatMessageModel;

    open spec fn deep_view(&self) -> ChatMessageModel {
        self.view()
    }
}

impl View for ChatMessage {
    type V = ChatMessageModel;

    open spec fn view(&self) -> ChatMessageModel {
        ChatMessageModel {
            id: self.id@,
            meeting_id: self.meeting_id@,
            role: self.role@,
            content: self.content@,
            created_at: self.created_at as int,
            metadata: match self.metadata {
                Option::Some(ref m) => Option::Some(m@),
                Option::None => Option::None,
            },
        }
    }
}

/// A question asked about one meeting.
pub struct AskQuestionRequest {
    pub meeting_id: String,
    pub question: String,
    pub model_provider: String,
    pub model_name: String,
}

/// The answer, together with the two messages the exchange stored.
pub struct AskQuestionResponse {
    pub answer: String,
    pub user_message: ChatMessage,
    pub assistant_message: ChatMessage,
}

/// The label a chat role gets in the rendered conversation: stored
/// roles are exactly `user` and `assistant`.
pub open spec fn role_label(role: Seq<char>) -> Seq<char> {
    if role == "user"@ {
        "User"@
    } else {
        "Assistant"@
    }
}

/// The previous conversation, one labelled entry per message.
pub open spec fn history_entries(msgs: Seq<ChatMessageModel>) -> Seq<char>
    decreases msgs.len(),
{
    if msgs.len() == 0 {
        Seq::empty()
    } else {
        role_label(msgs[0].role) + ": "@ + msgs[0].content + "\n\n"@ + history_entries(
            msgs.skip(1),
        )
    }
}

/// One more message extends the rendered history at its end.
pub proof fn lemma_history_push(msgs: Seq<ChatMessageModel>, x: ChatMessageModel)
    ensures
        history_entries(msgs.push(x)) == history_entries(msgs) + role_label(x.role) + ": "@
            + x.content + "\n\n"@,
    decreases msgs.len(),
{
    let ys = msgs.push(x);
    if msgs.len() == 0 {
        assert(ys.skip(1) =~= Seq::<ChatMessageModel>::empty());
        assert(history_entries(Seq::<ChatMessageModel>::empty()) == Seq::<char>::empty());
        assert(ys[0] == x);
        assert(history_entries(ys) =~= history_entries(msgs) + role_label(x.role) + ": "@
            + x.content + "\n\n"@);
    } else {
        assert(ys[0] == msgs[0]);
        assert(ys.skip(1) =~= msgs.skip(1).push(x));
        lemma_history_push(msgs.skip(1), x);
        assert(history_entries(ys) =~= history_entries(msgs) + role_label(x.role) + ": "@
            + x.content + "\n\n"@);
    }
}

/// The full context handed to the LLM for a question: title,
/// transcript, the summary when one is usable, the previous
/// conversation when one exists, and the question itself.
pub open spec fn context_spec(
    meeting_title: Seq<char>,
    transcript: Seq<char>,
    summary: Option<Seq<char>>,
    history: Seq<ChatMessageModel>,
    current_question: Seq<char>,
) -> Seq<char> {
    "# Meeting Title\n"@ + meeting_title + "\n\n"@ + "# Transcript\n"@ + transcript + "\n\n"@ + (
    match summary {
        Option::Some(s) => "# Summary\n"@ + s + "\n\n"@,
        Option::None => Seq::<char>::empty(),
    }) + (if history.len() == 0 {
        Seq::<char>::empty()
    } else {
        "# Previous Conversation\n"@ + history_entries(history)
    }) + "# Current Question\n"@ + current_question
}

/// The language-dependent system prompt of the chat flow, with the
/// current date written into it.
pub open spec fn system_prompt_spec(language: Seq<char>, current_date: Seq<char>) -> Seq<char> {
    if language == "en"@ || language == "en-US"@ {
        "You are an AI assistant helping users understand their meeting notes. Today's date is "@
            + current_date
            + ". You have access to the meeting transcript, summary, and previous conversation history. Answer questions accurately based on the context provided. If information is not in the context, say so clearly. Be concise but comprehensive in your responses. Respond in English."@
    } else {
        "Você é um assistente de IA ajudando usuários a entender suas anotações de reunião. A data de hoje é "@
            + current_date
            + ". Você tem acesso à transcrição da reunião, ao resumo, e ao histórico de conversas anteriores. Responda perguntas com precisão baseado no contexto fornecido. Se a informação não estiver no contexto, deixe isso claro. Seja conciso mas abrangente em suas respostas. Responda em português do Brasil."@
    }
}

/// The chat service: the deciding, text-assembling part of asking a
/// question about a meeting. The caller owns storage and transport.
pub struct ChatService;

impl ChatService {
    /// Builds the LLM context for a question, from the meeting's
    /// title, transcript, optional summary and prior conversation.
    pub fn build_context(
        meeting_title: &str,
        transcript: &str,
        summary: Option<&str>,
        chat_history: &Vec<ChatMessage>,
        current_question: &str,
    ) -> (r: String)
        ensures
            r@ == context_spec(
                meeting_title@,
                transcript@,
                match summary {
                    Option::Some(s) => Option::Some(s@),
                    Option::None => Option::None,
                },
                chat_history.deep_view(),
                current_question@,
            ),
    {
        let mut context = String::from_str("# Meeting Title\n");
        context.append(meeting_title);
        context.append("\n\n");
        context.append("# Transcript\n");
        context.append(transcript);
        context.append("\n\n");
        match summary {
            Option::Some(summary_text) => {
                context.append("# Summary\n");
                context.append(summary_text);
                context.append("\n\n");
            },
            Option::None => {},
        }
        let ghost before_history = context@;
        if chat_history.len() > 0 {
            context.append("# Previous Conversation\n");
            let mut i: usize = 0;
            while i < chat_history.len()
                invariant
                    i <= chat_history.len(),
                    context@ == before_history + "# Previous Conversation\n"@ + history_entries(
                        chat_history.deep_view().take(i as int),
                    ),
                decreases chat_history.len() - i,
            {
                let ghost done = chat_history.deep_view().take(i as int);
                let msg = &chat_history[i];
                if str_eq(msg.role.as_str(), "user") {
                    context.append("User");
                } else {
                    context.append("Assistant");
                }
                context.append(": ");
                context.append(msg.content.as_str());
                context.append("\n\n");
                proof {
                    lemma_history_push(done, msg@);
                    assert(chat_history.deep_view().take(i as int + 1) =~= done.push(msg@));
                    assert(context@ =~= before_history + "# Previous Conversation\n"@
                        + history_entries(chat_history.deep_view().take(i as int + 1)));
                }
                i += 1;
            }
            proof {
                assert(chat_history.deep_view().take(chat_history.len() as int)
                    =~= chat_history.deep_view());
            }
        }
        context.append("# Current Question\n");
        context.append(current_question);
        proof {
            assert(history_entries(Seq::<ChatMessageModel>::empty()) == Seq::<char>::empty());
        }
        assert(context@ =~= context_spec(
            meeting_title@,
            transcript@,
            match summary {
                Option::Some(s) => Option::Some(s@),
                Option::None => Option::None,
            },
            chat_history.deep_view(),
            current_question@,
        ));
        context
    }

    /// Builds the chat system prompt for the given language; the
    /// caller supplies today's date already formatted, since only it
    /// can read the clock.
    pub fn build_system_prompt(language: &str, current_date: &str) -> (r: String)
        ensures
            r@ == system_prompt_spec(language@, current_date@),
    {
        if str_eq(language, "en") || str_eq(language, "en-US") {
            let mut p = String::from_str(
                "You are an AI assistant helping users understand their meeting notes. Today's date is ",
            );
            p.append(current_date);
            p.append(
                ". You have access to the meeting transcript, summary, and previous conversation history. Answer questions accurately based on the context provided. If information is not in the context, say so clearly. Be concise but comprehensive in your responses. Respond in English.",
            );
            p
        } else {
            let mut p = String::from_str(
                "Você é um assistente de IA ajudando usuários a entender suas anotações de reunião. A data de hoje é ",
            );
            p.append(current_date);
            p.append(
                ". Você tem acesso à transcrição da reunião, ao resumo, e ao histórico de conversas anteriores. Responda perguntas com precisão baseado no contexto fornecido. Se a informação não estiver no contexto, deixe isso claro. Seja conciso mas abrangente em suas respostas. Responda em português do Brasil.",
            );
            p
        }
    }

    /// A stored summary reaches the chat context only when its
    /// process completed; the caller lowercases the status and
    /// extracts the markdown from the stored result beforehand.
    pub fn usable_summary(status_lowercase: &str, markdown: Option<String>) -> (r: Option<String>)
        ensures
            status_lowercase@ == "completed"@ ==> r == markdown,
            status_lowercase@ != "completed"@ ==> r is None,
    {
        if str_eq(status_lowercase, "completed") {
            markdown
        } else {
            Option::None
        }
    }
}

/// The chat-message store's validation rules; the store itself is an
/// external collaborator.
pub struct ChatMessagesRepository;

impl ChatMessagesRepository {
    /// A meeting identifier is acceptable when it is not blank
    /// (non-empty after trimming).
    pub fn meeting_id_valid(meeting_id: &str) -> (r: bool)
        ensures
            r == (trim_spec(meeting_id@).len() != 0),
    {
        let n = meeting_id.unicode_len();
        let mut i: usize = 0;
        while i < n && is_ws(meeting_id.get_char(i))
            invariant
                i <= n,
                n == meeting_id@.len(),
                forall|j: int| 0 <= j < i ==> is_ws_char(meeting_id@[j]),
            decreases n - i,
        {
            i += 1;
        }
        proof {
            lemma_leading_ws_char(meeting_id@, i as int);
            if i < n {
                lemma_trailing_ws(meeting_id@);
                assert(leading_ws(meeting_id@) + trailing_ws(meeting_id@) < n) by {
                    if trailing_ws(meeting_id@) >= n - i {
                        assert(is_ws_char(meeting_id@[i as int]));
                    }
                }
            }
        }
        i < n
    }

    /// A stored role is exactly `user` or `assistant`.
    pub fn role_valid(role: &str) -> (r: bool)
        ensures
            r == (role@ == "user"@ || role@ == "assistant"@),
    {
        str_eq(role, "user") || str_eq(role, "assistant")
    }
}

} // verus!
