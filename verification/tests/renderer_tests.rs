use cedarling_pdp::cli::renderer::RenderRequest;
use cedarling_pdp::cli::renderer::Renderer;

#[test]
fn test_print_line() {
    let mut renderer = Renderer::new();
    let events = vec![RenderRequest::WriteNewline("Hello, world!".to_string())];

    renderer.listen(&events);

    let output = renderer.output().clone();
    assert_eq!(output, "~~> \u{1b}[1B\u{1b}[1GHello, world!\n");
}

#[test]
fn test_update_line() {
    let mut renderer = Renderer::new();
    let events = vec![
        RenderRequest::UpdateLine("Hello, world!".to_string()),
        RenderRequest::UpdateLine("Goodbye, world!".to_string()),
    ];

    renderer.listen(&events);

    let output = renderer.output().clone();
    assert_eq!(
        output,
        "~~> \u{1b}[2K\u{1b}[1G~~> Hello, world!\u{1b}[2K\u{1b}[1G~~> Goodbye, world!"
    );
}

#[test]
fn renderer_backspace_and_cursor_moves() {
    let mut renderer = Renderer::new();
    renderer.handle_event(&RenderRequest::MoveCursorLeft);
    renderer.handle_event(&RenderRequest::MoveCursorRight);
    renderer.handle_event(&RenderRequest::SetCursorPos(2));
    let output = renderer.output().clone();
    // left, right, then column 6 (two past the four prompt cells, 1-based)
    assert_eq!(output, "\u{1b}[1D\u{1b}[1C\u{1b}[6G");

    let mut renderer = Renderer::new();
    renderer.handle_event(&RenderRequest::Backspace("ab".to_string()));
    let output = renderer.output().clone();
    assert_eq!(output, "\u{1b}7\u{1b}[2K\u{1b}[1G~~> ab\u{1b}8\u{1b}[1D");
}
