use termplay::color::Rgb;
use termplay::escape::push_cursor_escape;
use termplay::escape::push_decimal;
use termplay::producer::FrameProducer;
use termplay::producer::ProducerMessage;
use termplay::render::DefaultRenderer;
use termplay::session::HideCursor;
use termplay::session::RenderSession;
use termplay::watcher::default_watcher;
use termplay::watcher::ResizeWatcher;

#[test]
fn decimal_rendering() {
    let mut out = Vec::new();
    push_decimal(&mut out, 0);
    out.push(b',');
    push_decimal(&mut out, 255);
    out.push(b',');
    push_decimal(&mut out, 12034);
    assert_eq!(out, b"0,255,12034".to_vec());
}

#[test]
fn cursor_escape_format() {
    let mut out = Vec::new();
    push_cursor_escape(&mut out, 12, 3);
    assert_eq!(out, b"\x1b[12;3H".to_vec());
}

#[test]
fn hide_cursor_guard_brackets_the_sink() {
    let mut guard = HideCursor::new(Vec::new());
    assert_eq!(guard.drain(), b"\x1b[?25l".to_vec());
    guard.sink().push(b'x');
    guard.show();
    assert_eq!(guard.drain(), b"x\x1b[?25h".to_vec());
    assert_eq!(guard.drain(), Vec::<u8>::new());
}

#[test]
fn poll_watcher_is_edge_triggered() {
    let mut w = default_watcher(80, 24);
    assert!(!w.resized(80, 24));
    assert!(w.resized(100, 24));
    assert!(!w.resized(100, 24));
    assert!(w.resized(100, 30));
    assert!(!w.resized(100, 30));
}

#[test]
fn session_renders_two_frames_end_to_end() {
    // The full path of two sequential 2x2 frames through producer and
    // session: first all black, then pixel (0, 0) turned pure red. The
    // second frame costs exactly one cursor escape, one colour activation
    // and one glyph.
    let mut producer = FrameProducer::new();
    producer.subscribe();
    let mut session: RenderSession<DefaultRenderer<Rgb>> = RenderSession::new();
    let mut out = Vec::new();

    let black = vec![0u8; 16];
    producer.deliver(black.clone(), 2, 2);
    let mut red = black.clone();
    red[0] = 255;

    // Drain the Initialize and the first FrameReady.
    assert_eq!(
        producer.drain(),
        Some(ProducerMessage::Initialize { width: 2, height: 2 })
    );
    session.handle_message(
        ProducerMessage::Initialize { width: 2, height: 2 },
        &Vec::new(),
        &mut out,
    );
    assert_eq!(out, b"\x1b[2J".to_vec());
    assert!(session.is_initialized());
    assert_eq!((session.grid_width(), session.grid_height()), (2, 2));
    out.clear();

    assert_eq!(producer.drain(), Some(ProducerMessage::FrameReady));
    let frame = producer.frame().clone();
    session.handle_message(ProducerMessage::FrameReady, &frame, &mut out);
    assert_eq!(out, b"\x1b[0;0H\x1b[38;2;0;0;0m  \n  ".to_vec());
    out.clear();

    // Second frame: one red pixel.
    producer.deliver(red, 2, 2);
    assert_eq!(producer.drain(), Some(ProducerMessage::FrameReady));
    let frame = producer.frame().clone();
    session.handle_message(ProducerMessage::FrameReady, &frame, &mut out);
    assert_eq!(out, b"\x1b[0;0H\x1b[38;2;255;0;0m)".to_vec());

    let c = producer.counter();
    assert_eq!((c.dropped, c.not_dropped), (0, 2));
}

#[test]
fn session_reinitializes_on_resolution_change() {
    let mut session: RenderSession<DefaultRenderer<Rgb>> = RenderSession::new();
    let mut out = Vec::new();
    session.handle_initialize(2, 2, &mut out);
    assert_eq!((session.grid_width(), session.grid_height()), (2, 2));
    session.handle_frame(&vec![0u8; 16], &mut out);
    out.clear();
    session.handle_initialize(3, 1, &mut out);
    assert_eq!(out, b"\x1b[2J".to_vec());
    assert_eq!((session.grid_width(), session.grid_height()), (3, 1));
}
