use wash_messaging::http_api::{
    not_found, page, route, task_answer, task_call, Route, TaskRequest,
};

#[test]
fn paths_lead_somewhere() {
    assert_eq!(route(Some("/")), Route::Page);
    assert_eq!(route(Some("/?a=1")), Route::Page);
    assert_eq!(route(Some("/task")), Route::Task);
    assert_eq!(route(Some("/task?worker=x?y")), Route::Task);
    assert_eq!(route(Some("/tasks")), Route::Unknown);
    assert_eq!(route(Some("")), Route::Unknown);
    assert_eq!(route(None), Route::Unknown);
}

#[test]
fn tasks_go_to_their_worker() {
    let call = task_call(TaskRequest { worker: Some("reverse".into()), payload: "é".into() });
    assert_eq!(call.subject, "tasks.reverse");
    assert_eq!(call.body, "é".as_bytes());
    assert_eq!(call.timeout_ms, 5_000);
    let call = task_call(TaskRequest { worker: None, payload: String::new() });
    assert_eq!(call.subject, "tasks.leet");
    assert!(call.body.is_empty());
}

#[test]
fn answers_tell_how_it_went() {
    let answer = task_answer(Ok(vec![1, 2]));
    assert_eq!((answer.status, answer.body), (200, vec![1, 2]));
    let answer = task_answer(Err("request timed out".into()));
    assert_eq!((answer.status, answer.body), (502, b"request timed out".to_vec()));
    let answer = not_found();
    assert_eq!((answer.status, answer.body), (404, b"Not found\n".to_vec()));
    let answer = page("<html/>");
    assert_eq!(answer.content_type, Some("text/html"));
    assert_eq!((answer.status, answer.body), (200, b"<html/>".to_vec()));
}
