//! A guest that turns HTTP requests into tasks for workers.
use vstd::prelude::*;

use crate::text::characters;
use crate::text::push_text;
use crate::text::same_text;
use crate::text::split;
use crate::text::split_on;
use crate::text::string_of;

verus! {

/// How long a worker has to answer, in milliseconds.
pub const TASK_TIMEOUT_MS: u32 = 5_000;

/// Where a request leads.
#[derive(Clone, Copy, Debug, PartialEq, Eq, Structural)]
pub enum Route {
    /// To the page of the user interface.
    Page,
    /// To a new task.
    Task,
    /// Nowhere.
    Unknown,
}

/// The path of a request, without its query: what stands before the first `?`.
pub open spec fn path_of(path_with_query: Option<Seq<char>>) -> Seq<char> {
    match path_with_query {
        Some(text) => split_on(text, '?')[0],
        None => Seq::empty(),
    }
}

/// Where a path leads.
pub open spec fn leads_to(path: Seq<char>) -> Route {
    if path == "/"@ {
        Route::Page
    } else if path == "/task"@ {
        Route::Task
    } else {
        Route::Unknown
    }
}

/// Where a request leads, by its path.
pub fn route(path_with_query: Option<&str>) -> (route: Route)
    ensures
        route == leads_to(path_of(crate::text::optional_str(path_with_query))),
{
    let path = match path_with_query {
        Some(text) => {
            let letters = characters(text);
            let pieces = split(&letters, '?');
            proof {
                crate::text::law_split_then_join(text@, '?');
                assert(split_on(text@, '?')[0] == pieces@[0]@);
            }
            string_of(&pieces[0])
        },
        None => {
            let path = String::new();
            assert(path@ =~= Seq::empty());
            path
        },
    };
    if same_text(path.as_str(), "/") {
        Route::Page
    } else if same_text(path.as_str(), "/task") {
        Route::Task
    } else {
        Route::Unknown
    }
}

/// A task that a caller asks for, of a worker that they may name.
#[derive(Debug, PartialEq, Eq)]
pub struct TaskRequest {
    pub worker: Option<String>,
    pub payload: String,
}

/// A message to a worker that is to be answered in time.
#[derive(Debug, PartialEq, Eq)]
pub struct TaskCall {
    pub subject: String,
    pub body: Vec<u8>,
    pub timeout_ms: u32,
}

/// The message that a task is sent as: to the worker that the caller names, or else to `leet`.
pub fn task_call(request: TaskRequest) -> (call: TaskCall)
    ensures
        call.subject@ == "tasks."@ + (match request.worker {
            Some(worker) => worker@,
            None => "leet"@,
        }),
        call.body@ == vstd::utf8::encode_utf8(request.payload@),
        call.timeout_ms == 5_000,
{
    let mut subject = "tasks.".to_string();
    match &request.worker {
        Some(worker) => push_text(&mut subject, worker.as_str()),
        None => push_text(&mut subject, "leet"),
    }
    TaskCall {
        subject,
        body: vstd::slice::slice_to_vec(request.payload.as_str().as_bytes()),
        timeout_ms: TASK_TIMEOUT_MS,
    }
}

/// What a caller is answered.
#[derive(Debug, PartialEq, Eq)]
pub struct Answer {
    pub status: u16,
    pub content_type: Option<&'static str>,
    pub body: Vec<u8>,
}

/// The answer to a task: the body of the worker's answer, or the words of what went wrong.
pub fn task_answer(reply: Result<Vec<u8>, String>) -> (answer: Answer)
    ensures
        answer.content_type is None,
        match reply {
            Ok(body) => answer.status == 200 && answer.body == body,
            Err(error) => answer.status == 502 && answer.body@ == vstd::utf8::encode_utf8(error@),
        },
{
    match reply {
        Ok(body) => Answer { status: 200, content_type: None, body },
        Err(error) => Answer {
            status: 502,
            content_type: None,
            body: vstd::slice::slice_to_vec(error.as_str().as_bytes()),
        },
    }
}

/// The answer with the page of the user interface.
pub fn page(html: &str) -> (answer: Answer)
    ensures
        answer.status == 200,
        answer.content_type matches Some(kind) && kind@ == "text/html"@,
        answer.body@ == vstd::utf8::encode_utf8(html@),
{
    Answer {
        status: 200,
        content_type: Some("text/html"),
        body: vstd::slice::slice_to_vec(html.as_bytes()),
    }
}

/// The answer to a request that leads nowhere.
pub fn not_found() -> (answer: Answer)
    ensures
        answer.status == 404,
        answer.content_type is None,
        answer.body@ == vstd::utf8::encode_utf8("Not found\n"@),
{
    Answer {
        status: 404,
        content_type: None,
        body: vstd::slice::slice_to_vec("Not found\n".as_bytes()),
    }
}

/// The query of a request makes no difference to where it leads.
pub proof fn law_queries_do_not_route(path: Seq<char>, query: Seq<char>)
    requires
        !path.contains('?'),
    ensures
        leads_to(path_of(Some(path + seq!['?'] + query))) == leads_to(path_of(Some(path))),
{
    lemma_first_piece(path, query);
    crate::text::law_join_then_split(seq![path], '?');
    assert(crate::text::join_with(seq![path], '?') == path);
}

/// What stands before the first separator is the first piece.
proof fn lemma_first_piece(path: Seq<char>, query: Seq<char>)
    requires
        !path.contains('?'),
    ensures
        split_on(path + seq!['?'] + query, '?').len() >= 2,
        split_on(path + seq!['?'] + query, '?')[0] == path,
    decreases query.len(),
{
    let text = path + seq!['?'] + query;
    if query.len() == 0 {
        assert(text.drop_last() =~= path);
        crate::text::law_join_then_split(seq![path], '?');
        assert(crate::text::join_with(seq![path], '?') == path);
    } else {
        lemma_first_piece(path, query.drop_last());
        assert(text.drop_last() =~= path + seq!['?'] + query.drop_last());
    }
}

/// The path `/` leads to the page and the path `/task` to a new task, whatever the query; no other
/// path leads anywhere, and neither does a request without one.
pub proof fn law_two_paths_lead_somewhere(path: Seq<char>, query: Seq<char>)
    requires
        !path.contains('?'),
    ensures
        path_of(Some(path)) == path,
        path_of(Some(path + seq!['?'] + query)) == path,
        leads_to(path) == Route::Page <==> path == seq!['/'],
        leads_to(path) == Route::Task <==> path == seq!['/', 't', 'a', 's', 'k'],
        leads_to(path_of(None)) == Route::Unknown,
{
    lemma_first_piece(path, query);
    crate::text::law_join_then_split(seq![path], '?');
    assert(crate::text::join_with(seq![path], '?') == path);
    reveal_strlit("/");
    reveal_strlit("/task");
    assert("/"@ =~= seq!['/']);
    assert("/task"@ =~= seq!['/', 't', 'a', 's', 'k']);
}

/// A task goes to the worker that the caller names, or else to `leet`, with the payload as its
/// body and five seconds to answer.
pub proof fn law_tasks_go_to_their_workers(request: TaskRequest, call: TaskCall)
    requires
        call_ensures(task_call, (request,), call),
    ensures
        call.subject@.take(6) == seq!['t', 'a', 's', 'k', 's', '.'],
        request.worker matches Some(worker) ==> call.subject@.skip(6) == worker@,
        request.worker is None ==> call.subject@.skip(6) == seq!['l', 'e', 'e', 't'],
        call.body@ == vstd::utf8::encode_utf8(request.payload@),
        call.timeout_ms == 5000,
{
    reveal_strlit("tasks.");
    reveal_strlit("leet");
    assert("leet"@ =~= seq!['l', 'e', 'e', 't']);
    assert(call.subject@.take(6) =~= seq!['t', 'a', 's', 'k', 's', '.']);
    if let Some(worker) = request.worker {
        assert(call.subject@.skip(6) =~= worker@);
    } else {
        assert(call.subject@.skip(6) =~= "leet"@);
    }
}

/// A worker's answer is handed on as it is, and a failure as a bad gateway, in its words.
pub proof fn law_answers_are_handed_on(reply: Result<Vec<u8>, String>, answer: Answer)
    requires
        call_ensures(task_answer, (reply,), answer),
    ensures
        reply matches Ok(body) ==> answer.status == 200 && answer.body@ == body@,
        reply matches Err(error) ==> answer.status == 502 && answer.body@
            == vstd::utf8::encode_utf8(error@),
{
}

} // verus!
