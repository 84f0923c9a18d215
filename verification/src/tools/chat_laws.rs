//! What holds of the tools over the stored chats: the chat store is asked all that was asked, and its
//! answer is shown.

use vstd::prelude::*;

use crate::json;
use crate::request_laws;
use crate::text;
use crate::tools;
use crate::tools::chat_tools;
use crate::tools::chat_tools::{
    ChatAnswerInput, ChatGetInput, ChatHistoryOperation, ChatListInput, ChatSearchInput,
    ChatSimilarInput, ChatUpdateInput, MessageRole, RetrievalMode,
};
use crate::tools::laws;

verus! {

/// Whether a field holds a text that was given, or nothing where none was.
pub open spec fn says_text(j: json::JsonView, name: Seq<char>, t: Option<String>) -> bool {
    laws::has_entry(
        j,
        name,
        if t is Some {
            json::JsonView::Text(t->0@)
        } else {
            json::JsonView::Null
        },
    )
}

/// Whether a field holds a number that was given, or nothing where none was.
pub open spec fn says_number(j: json::JsonView, name: Seq<char>, n: Option<usize>) -> bool {
    laws::has_entry(
        j,
        name,
        if n is Some {
            json::JsonView::Unsigned(n->0 as u64)
        } else {
            json::JsonView::Null
        },
    )
}

/// Whether a field holds a number that is not whole, as it was given, or nothing where none was.
pub open spec fn says_decimal(j: json::JsonView, name: Seq<char>, d: Option<String>) -> bool {
    laws::has_entry(
        j,
        name,
        if d is Some {
            json::JsonView::Decimal(d->0@)
        } else {
            json::JsonView::Null
        },
    )
}

/// Whether a field holds a flag that was given, or nothing where none was.
pub open spec fn says_flag(j: json::JsonView, name: Seq<char>, b: Option<bool>) -> bool {
    laws::has_entry(
        j,
        name,
        if b is Some {
            json::JsonView::Bool(b->0)
        } else {
            json::JsonView::Null
        },
    )
}

/// Whether a field holds texts that were given, in order, or nothing where none were.
pub open spec fn says_texts(j: json::JsonView, name: Seq<char>, l: Option<Vec<String>>) -> bool {
    j matches json::JsonView::Object(fields) && exists|i: int|
        {
            &&& 0 <= i < fields.len()
            &&& (#[trigger] fields[i]).0 == name
            &&& l is None ==> fields[i].1 is Null
            &&& l is Some ==> (fields[i].1 matches json::JsonView::Array(items) && items.len()
                == l->0@.len() && forall|k: int|
                0 <= k < items.len() ==> #[trigger] items[k] == json::JsonView::Text(l->0@[k]@))
        }
}

/// The name of a way to search: the one that was asked for, or the hybrid one.
pub proof fn ways_to_search_are_named(name: Option<Seq<char>>, mode: Option<RetrievalMode>)
    ensures
        chat_tools::mode_name(chat_tools::mode_named(name)) == (if name == Some("bm25"@) {
            "bm25"@
        } else if name == Some("embedding"@) {
            "embedding"@
        } else {
            "hybrid"@
        }),
        mode is Some ==> chat_tools::mode_or_hybrid(mode) == mode->0,
        mode is None ==> chat_tools::mode_or_hybrid(mode) == RetrievalMode::Hybrid,
        mode is Some ==> chat_tools::mode_named(Some(chat_tools::mode_name(mode->0))) == mode->0,
{
    reveal_strlit("bm25");
    reveal_strlit("embedding");
    reveal_strlit("hybrid");
    assert("bm25"@.len() == 4 && "embedding"@.len() == 9 && "hybrid"@.len() == 6);
}

/// A search asks for what is searched for, where, how many and in which way.
pub proof fn searches_ask_for_all(input: ChatSearchInput)
    ensures
        ({
            let j = chat_tools::chat_search_request(input);
            &&& laws::has_entry(j, "query"@, json::JsonView::Text(input.query@))
            &&& says_text(j, "project_id"@, input.project_id)
            &&& says_text(j, "chat_id"@, input.chat_id)
            &&& says_number(j, "top_k"@, input.top_k)
            &&& says_decimal(j, "alpha"@, input.alpha)
            &&& laws::has_entry(
                j,
                "mode"@,
                json::JsonView::Text(
                    chat_tools::mode_name(chat_tools::mode_named(text::opt_view(input.mode))),
                ),
            )
        }),
{
    let f = chat_tools::chat_search_request(input)->Object_0;
    assert(f[0].0 == "query"@ && f[1].0 == "project_id"@ && f[2].0 == "chat_id"@);
    assert(f[3].0 == "top_k"@ && f[4].0 == "mode"@ && f[5].0 == "alpha"@);
}

/// A question is asked as a search is, with the question in the place of what is searched for.
pub proof fn questions_ask_for_all(input: ChatAnswerInput)
    ensures
        ({
            let j = chat_tools::chat_answer_request(input);
            &&& laws::has_entry(j, "question"@, json::JsonView::Text(input.question@))
            &&& says_text(j, "project_id"@, input.project_id)
            &&& says_text(j, "chat_id"@, input.chat_id)
            &&& says_number(j, "top_k"@, input.top_k)
            &&& says_decimal(j, "alpha"@, input.alpha)
            &&& laws::has_entry(
                j,
                "mode"@,
                json::JsonView::Text(
                    chat_tools::mode_name(chat_tools::mode_named(text::opt_view(input.mode))),
                ),
            )
        }),
{
    let f = chat_tools::chat_answer_request(input)->Object_0;
    assert(f[0].0 == "question"@ && f[1].0 == "project_id"@ && f[2].0 == "chat_id"@);
    assert(f[3].0 == "top_k"@ && f[4].0 == "mode"@ && f[5].0 == "alpha"@);
}

/// A chat is asked for by its identifier, a list by its bounds, and similar chats by the chat that they
/// are like, how many, and whether they are of the project.
pub proof fn chats_are_asked_for(get: ChatGetInput, list: ChatListInput, similar: ChatSimilarInput)
    ensures
        laws::has_entry(
            chat_tools::chat_get_request(get),
            "chat_id"@,
            json::JsonView::Text(get.chat_id@),
        ),
        says_text(chat_tools::chat_list_request(list), "project_id"@, list.project_id),
        says_number(chat_tools::chat_list_request(list), "limit"@, list.limit),
        says_number(chat_tools::chat_list_request(list), "offset"@, list.offset),
        says_text(chat_tools::chat_similar_request(similar), "chat_id"@, similar.chat_id),
        says_number(chat_tools::chat_similar_request(similar), "n"@, similar.n),
        says_flag(
            chat_tools::chat_similar_request(similar),
            "project_scoped"@,
            similar.project_scoped,
        ),
{
    let g = chat_tools::chat_get_request(get)->Object_0;
    assert(g[0].0 == "chat_id"@);
    let l = chat_tools::chat_list_request(list)->Object_0;
    assert(l[0].0 == "project_id"@ && l[1].0 == "limit"@ && l[2].0 == "offset"@);
    let s = chat_tools::chat_similar_request(similar)->Object_0;
    assert(s[0].0 == "chat_id"@ && s[1].0 == "n"@ && s[2].0 == "project_scoped"@);
}

/// A change asks for all that is to be changed of the chat, and for nothing else.
pub proof fn changes_ask_for_all(input: ChatUpdateInput)
    ensures
        ({
            let j = chat_tools::chat_update_request(input);
            &&& laws::has_entry(j, "chat_id"@, json::JsonView::Text(input.chat_id@))
            &&& says_text(j, "title"@, input.title)
            &&& says_text(j, "summary"@, input.summary)
            &&& says_texts(j, "tags_add"@, input.tags_add)
            &&& says_texts(j, "tags_remove"@, input.tags_remove)
            &&& says_flag(j, "archived"@, input.archived)
            &&& says_flag(j, "pinned"@, input.pinned)
        }),
{
    let f = chat_tools::chat_update_request(input)->Object_0;
    assert(f[0].0 == "chat_id"@ && f[1].0 == "title"@ && f[2].0 == "summary"@);
    assert(f[3].0 == "tags_add"@ && f[4].0 == "tags_remove"@ && f[5].0 == "archived"@);
    assert(f[6].0 == "pinned"@);
}

/// The tool that does everything asks the chat store what the tools for one thing ask it.
pub proof fn one_tool_asks_what_the_others_ask(
    search: ChatSearchInput,
    answer: ChatAnswerInput,
    similar: ChatSimilarInput,
    list: ChatListInput,
    get: ChatGetInput,
    update: ChatUpdateInput,
)
    ensures
        chat_tools::operation_request(
            ChatHistoryOperation::Search {
                query: search.query,
                project_id: search.project_id,
                chat_id: search.chat_id,
                top_k: search.top_k,
                mode: Some(chat_tools::mode_named(text::opt_view(search.mode))),
                alpha: search.alpha,
            },
        ) == Some(chat_tools::chat_search_request(search)),
        chat_tools::operation_request(
            ChatHistoryOperation::Answer {
                question: answer.question,
                project_id: answer.project_id,
                chat_id: answer.chat_id,
                top_k: answer.top_k,
                mode: Some(chat_tools::mode_named(text::opt_view(answer.mode))),
                alpha: answer.alpha,
            },
        ) == Some(chat_tools::chat_answer_request(answer)),
        chat_tools::operation_request(
            ChatHistoryOperation::Similar {
                chat_id: similar.chat_id,
                n: similar.n,
                project_scoped: similar.project_scoped,
            },
        ) == Some(chat_tools::chat_similar_request(similar)),
        chat_tools::operation_request(
            ChatHistoryOperation::List {
                project_id: list.project_id,
                limit: list.limit,
                offset: list.offset,
            },
        ) == Some(chat_tools::chat_list_request(list)),
        chat_tools::operation_request(ChatHistoryOperation::Get { chat_id: get.chat_id }) == Some(
            chat_tools::chat_get_request(get),
        ),
        chat_tools::operation_request(
            ChatHistoryOperation::UpdateMetadata {
                chat_id: update.chat_id,
                title: update.title,
                summary: update.summary,
                tags_add: update.tags_add,
                tags_remove: update.tags_remove,
                archived: update.archived,
                pinned: update.pinned,
            },
        ) == Some(chat_tools::chat_update_request(update)),
{
}

/// A message is stored with what it says, who wrote it and where it belongs; nobody stands for the user.
pub proof fn stored_messages_say_all(
    chat_id: Option<String>,
    project_id: Option<String>,
    title: Option<String>,
    role: Option<MessageRole>,
    content: String,
)
    ensures
        chat_tools::operation_request(
            ChatHistoryOperation::Append { chat_id, project_id, title, role, content },
        ) matches Some(j) && laws::has_entry(j, "content"@, json::JsonView::Text(content@))
            && says_text(j, "chat_id"@, chat_id) && says_text(j, "project_id"@, project_id)
            && says_text(j, "title"@, title) && laws::has_entry(
            j,
            "role"@,
            json::JsonView::Text(
                if role == Some(MessageRole::Assistant) {
                    "assistant"@
                } else if role == Some(MessageRole::System) {
                    "system"@
                } else {
                    "user"@
                },
            ),
        ),
{
    let f = chat_tools::operation_request(
        ChatHistoryOperation::Append { chat_id, project_id, title, role, content },
    )->0->Object_0;
    assert(f[0].0 == "chat_id"@ && f[1].0 == "project_id"@ && f[2].0 == "title"@);
    assert(f[3].0 == "role"@ && f[4].0 == "content"@);
}

/// A chat is deleted by its identifier; chats are made and embedded anew with what is given of them; to
/// read the settings nothing is sent.
pub proof fn other_operations_say_all(
    chat_id: String,
    some_chat: Option<String>,
    project_id: Option<String>,
    title: Option<String>,
)
    ensures
        chat_tools::operation_request(ChatHistoryOperation::DeleteChat { chat_id }) matches Some(j)
            && laws::has_entry(j, "chat_id"@, json::JsonView::Text(chat_id@)),
        chat_tools::operation_request(ChatHistoryOperation::Reembed { chat_id: some_chat }) matches
            Some(j) && says_text(j, "chat_id"@, some_chat),
        chat_tools::operation_request(ChatHistoryOperation::CreateChat { project_id, title })
            matches Some(j) && says_text(j, "project_id"@, project_id) && says_text(
            j,
            "title"@,
            title,
        ),
        chat_tools::operation_request(ChatHistoryOperation::ConfigGet) is None,
{
    let d = chat_tools::operation_request(ChatHistoryOperation::DeleteChat { chat_id })->0->Object_0;
    assert(d[0].0 == "chat_id"@);
    let e = chat_tools::operation_request(
        ChatHistoryOperation::Reembed { chat_id: some_chat },
    )->0->Object_0;
    assert(e[0].0 == "chat_id"@);
    let c = chat_tools::operation_request(
        ChatHistoryOperation::CreateChat { project_id, title },
    )->0->Object_0;
    assert(c[0].0 == "project_id"@ && c[1].0 == "title"@);
}

/// The settings that are given are set, and no others.
pub proof fn settings_say_all(
    embedding_model: Option<String>,
    hybrid_alpha: Option<String>,
    similar_chats_k: Option<usize>,
    summary_refresh_chars: Option<usize>,
    summary_delta_chars: Option<usize>,
    rag_top_k: Option<usize>,
    auto_tag: Option<bool>,
    default_retrieval_mode: Option<RetrievalMode>,
)
    ensures
        chat_tools::operation_request(
            ChatHistoryOperation::ConfigSet {
                embedding_model,
                hybrid_alpha,
                similar_chats_k,
                summary_refresh_chars,
                summary_delta_chars,
                rag_top_k,
                auto_tag,
                default_retrieval_mode,
            },
        ) matches Some(j) && says_text(j, "embedding_model"@, embedding_model) && says_decimal(
            j,
            "hybrid_alpha"@,
            hybrid_alpha,
        ) && says_number(j, "similar_chats_k"@, similar_chats_k) && says_number(
            j,
            "summary_refresh_chars"@,
            summary_refresh_chars,
        ) && says_number(j, "summary_delta_chars"@, summary_delta_chars) && says_number(
            j,
            "rag_top_k"@,
            rag_top_k,
        ) && says_flag(j, "auto_tag"@, auto_tag) && laws::has_entry(
            j,
            "default_retrieval_mode"@,
            if default_retrieval_mode is Some {
                json::JsonView::Text(chat_tools::mode_name(default_retrieval_mode->0))
            } else {
                json::JsonView::Null
            },
        ),
{
    let f = chat_tools::operation_request(
        ChatHistoryOperation::ConfigSet {
            embedding_model,
            hybrid_alpha,
            similar_chats_k,
            summary_refresh_chars,
            summary_delta_chars,
            rag_top_k,
            auto_tag,
            default_retrieval_mode,
        },
    )->0->Object_0;
    assert(f[0].0 == "embedding_model"@ && f[1].0 == "hybrid_alpha"@);
    assert(f[2].0 == "similar_chats_k"@ && f[3].0 == "summary_refresh_chars"@);
    assert(f[4].0 == "summary_delta_chars"@ && f[5].0 == "rag_top_k"@);
    assert(f[6].0 == "auto_tag"@ && f[7].0 == "default_retrieval_mode"@);
}

/// The answer of the chat store is shown as it is under its heading; where it is not JSON, an error is.
pub proof fn answers_are_shown(heading: Seq<char>, raw: Seq<char>, error: Seq<char>)
    ensures
        ({
            let shown = chat_tools::shown_answer(heading, raw, error);
            &&& exists|b: Seq<char>| shown == #[trigger] (heading + b)
            &&& json::parsed_json(raw) matches Ok(j) ==> request_laws::has_part(
                shown,
                json::pretty_json(j),
            )
            &&& json::parsed_json(raw) is Err ==> exists|e: json::JsonView|
                {
                    &&& request_laws::has_part(shown, #[trigger] json::pretty_json(e))
                    &&& laws::has_entry(e, "ok"@, json::JsonView::Bool(false))
                    &&& laws::has_entry(e, "error"@, json::JsonView::Text(error))
                }
        }),
{
    let j = chat_tools::answer_value(raw, error);
    laws::sections_hold_their_value(heading, j);
    if json::parsed_json(raw) is Err {
        let f = j->Object_0;
        assert(f[0] == ("ok"@, json::JsonView::Bool(false)));
        assert(f[1] == ("error"@, json::JsonView::Text(error)));
        assert(request_laws::has_part(
            tools::json_section(heading, j),
            json::pretty_json(j),
        ));
    }
}

} // verus!
