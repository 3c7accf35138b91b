use cedarling_pdp::cli::context::ReplContext;
use cedarling_pdp::cli::hist::InputHistory;
use cedarling_pdp::cli::key_events::Parser;
use cedarling_pdp::cli::renderer::RenderRequest;
use cedarling_pdp::http_retry::next_fetch_action;
use cedarling_pdp::http_retry::FetchAction;
use cedarling_pdp::http_retry::FetchEvent;
use cedarling_pdp::http_retry::RetryPolicy;

#[test]
fn history_scrubs_back_and_forth() {
    let mut hist = InputHistory::new();
    assert_eq!(hist.prev(), None);
    hist.push("first".to_string());
    hist.push("second".to_string());
    assert_eq!(hist.prev().map(|s| s.clone()), Some("second".to_string()));
    assert_eq!(hist.prev().map(|s| s.clone()), Some("first".to_string()));
    assert_eq!(hist.prev(), None);
    assert_eq!(hist.next().map(|s| s.clone()), Some("first".to_string()));
    assert_eq!(hist.next().map(|s| s.clone()), Some("second".to_string()));
    assert_eq!(hist.next(), None);
}

#[test]
fn context_stores_and_reports_variables() {
    let mut ctx = ReplContext::new();
    let msg = ctx.set_var("greeting".to_string(), "hello".to_string());
    match msg {
        RenderRequest::WriteNewline(s) => assert_eq!(s, "set `greeting` to `hello`"),
        _ => panic!("expected a newline write"),
    }
    match ctx.try_print_var("greeting") {
        RenderRequest::WriteNewline(s) => assert_eq!(s, "greeting = hello"),
        _ => panic!("expected a newline write"),
    }
    match ctx.try_print_var("missing") {
        RenderRequest::WriteNewline(s) => {
            assert_eq!(s, "Invalid command or variable: missing")
        },
        _ => panic!("expected a newline write"),
    }
    // overwriting keeps one binding per name
    ctx.set_var("greeting".to_string(), "bye".to_string());
    match ctx.try_print_var("greeting") {
        RenderRequest::WriteNewline(s) => assert_eq!(s, "greeting = bye"),
        _ => panic!("expected a newline write"),
    }
}

#[test]
fn key_events_edit_the_line() {
    let mut parser = Parser::new();
    let mut input = String::new();

    parser.insert_char(&mut input, 'h');
    parser.insert_char(&mut input, 'i');
    assert_eq!(input, "hi");

    // backspace removes the character before the cursor
    let req = parser.backspace(&mut input);
    assert!(req.is_some());
    assert_eq!(input, "h");

    // on an empty line backspace draws nothing
    let mut empty = String::new();
    let mut fresh = Parser::new();
    assert!(fresh.backspace(&mut empty).is_none());

    // cursor moves stop at the ends
    let mut parser = Parser::new();
    assert!(parser.move_cursor_left().is_none());
    assert!(parser.move_cursor_right(0).is_none());
    let mut input = String::new();
    parser.insert_char(&mut input, 'x');
    assert!(parser.move_cursor_left().is_some());
    assert!(parser.move_cursor_right(input.len()).is_some());
}

#[test]
fn key_events_scrub_history() {
    let mut parser = Parser::new();
    parser.push_history("one".to_string());
    parser.push_history("two".to_string());

    let mut input = String::new();
    let reqs = parser.scrub_hist_prev(&mut input);
    assert_eq!(input, "two");
    assert_eq!(reqs.len(), 2);
    match &reqs[0] {
        RenderRequest::UpdateLine(s) => assert_eq!(s, "two"),
        _ => panic!("expected an update"),
    }
    match &reqs[1] {
        RenderRequest::SetCursorPos(p) => assert_eq!(*p, 3),
        _ => panic!("expected a cursor move"),
    }

    parser.scrub_hist_prev(&mut input);
    assert_eq!(input, "one");

    // stepping forward revisits the entries, then clears the line
    parser.scrub_hist_next(&mut input);
    assert_eq!(input, "one");
    parser.scrub_hist_next(&mut input);
    assert_eq!(input, "two");
    let reqs = parser.scrub_hist_next(&mut input);
    assert_eq!(input, "");
    assert_eq!(reqs.len(), 2);

    // pasting appends
    let mut input = "ab".to_string();
    parser.handle_paste_event(&mut input, "cd");
    assert_eq!(input, "abcd");

    // enter resets the cursor
    let req = parser.handle_enter(&input);
    match req {
        RenderRequest::UpdateLine(s) => assert_eq!(s, "abcd"),
        _ => panic!("expected an update"),
    }
}

#[test]
fn fetch_retry_backs_off_linearly_and_gives_up() {
    let policy = RetryPolicy { max_retries: 3, retry_delay_ms: 100 };

    assert_eq!(
        next_fetch_action(&policy, 0, &FetchEvent::Response(200)),
        FetchAction::Done
    );
    assert_eq!(
        next_fetch_action(&policy, 0, &FetchEvent::Response(404)),
        FetchAction::FailStatus(404)
    );
    assert_eq!(
        next_fetch_action(&policy, 0, &FetchEvent::TransportError),
        FetchAction::Retry(100)
    );
    assert_eq!(
        next_fetch_action(&policy, 1, &FetchEvent::TransportError),
        FetchAction::Retry(200)
    );
    assert_eq!(
        next_fetch_action(&policy, 2, &FetchEvent::TransportError),
        FetchAction::Retry(300)
    );
    assert_eq!(
        next_fetch_action(&policy, 3, &FetchEvent::TransportError),
        FetchAction::FailMaxRetries
    );
}
