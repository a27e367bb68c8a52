use base64ct::Base64;
use base64ct::Encoding;
use termplay::buffer::Differ;
use termplay::buffer::Pixel;
use termplay::color::BackgroundRgb;
use termplay::color::Rgb;
use termplay::render::gamma_correct;
use termplay::render::luminance;
use termplay::render::DefaultRenderer;
use termplay::render::KittyRenderer;
use termplay::render::Renderer;

fn px(r: u8, g: u8, b: u8, x: u8) -> Pixel {
    Pixel { r, g, b, x }
}

#[test]
fn luminance_weighs_green_heaviest() {
    // (3*10 + 30 + 4*20) / 8 == 17
    assert_eq!(luminance(px(10, 20, 30, 0)), 17);
    assert_eq!(luminance(px(0, 0, 0, 0)), 0);
    assert_eq!(luminance(px(255, 255, 255, 0)), 255);
}

#[test]
fn gamma_keeps_endpoints_and_brightens_midtones() {
    let zero = gamma_correct(px(0, 0, 0, 42));
    assert_eq!((zero.r, zero.g, zero.b, zero.x), (0, 0, 0, 42));
    let full = gamma_correct(px(255, 255, 255, 42));
    assert_eq!((full.r, full.g, full.b, full.x), (255, 255, 255, 42));
    // sqrt(255 * 1) rounds down to 15: dark channels are lifted.
    let dark = gamma_correct(px(1, 1, 1, 0));
    assert_eq!((dark.r, dark.g, dark.b), (15, 15, 15));
    // sqrt(255 * 64) = 127: quarter brightness maps to half.
    let mid = gamma_correct(px(64, 64, 64, 0));
    assert_eq!((mid.r, mid.g, mid.b), (127, 127, 127));
}

fn raw_frame(pixels: &[Pixel]) -> Vec<u8> {
    let mut bytes = Vec::new();
    for p in pixels {
        bytes.extend_from_slice(&[p.r, p.g, p.b, p.x]);
    }
    bytes
}

#[test]
fn first_frame_renders_every_cell_with_row_wrap() {
    let mut renderer: DefaultRenderer<Rgb> = DefaultRenderer::new(2, 2);
    let mut state: Differ<Rgb> = renderer.create_state();
    let black = vec![px(0, 0, 0, 0); 4];
    renderer.consume(&black);
    let mut out = Vec::new();
    renderer.render_frame(&mut out, &mut state);
    // Every cell changes (the fresh grid's glyph byte was 0, a black cell
    // stores the space glyph): one run over all four cells, with a newline
    // when the run crosses from row 0 to row 1.
    assert_eq!(out, b"\x1b[0;0H\x1b[38;2;0;0;0m  \n  ".to_vec());
}

#[test]
fn single_changed_pixel_renders_one_escape_pair_and_one_glyph() {
    let mut renderer: DefaultRenderer<Rgb> = DefaultRenderer::new(2, 2);
    let mut state: Differ<Rgb> = renderer.create_state();
    let black = vec![px(0, 0, 0, 0); 4];
    renderer.consume(&black);
    let mut out = Vec::new();
    renderer.render_frame(&mut out, &mut state);
    out.clear();

    let mut second = black.clone();
    second[0] = px(255, 0, 0, 0);
    renderer.consume(&second);
    renderer.render_frame(&mut out, &mut state);
    // Exactly one cursor escape, one colour activation, one glyph byte
    // (pure red has luminance 95, ramp entry 23 is ')'), and no newline.
    assert_eq!(out, b"\x1b[0;0H\x1b[38;2;255;0;0m)".to_vec());
}

#[test]
fn unchanged_frame_renders_nothing() {
    let mut renderer: DefaultRenderer<Rgb> = DefaultRenderer::new(2, 2);
    let mut state: Differ<Rgb> = renderer.create_state();
    let frame = vec![px(10, 20, 30, 0); 4];
    renderer.consume(&frame);
    let mut out = Vec::new();
    renderer.render_frame(&mut out, &mut state);
    out.clear();
    renderer.consume(&frame);
    renderer.render_frame(&mut out, &mut state);
    assert_eq!(out, Vec::<u8>::new());
}

#[test]
fn background_strategy_copies_pixels_and_prints_spaces() {
    let mut renderer: DefaultRenderer<BackgroundRgb> = DefaultRenderer::new(2, 1);
    let mut state: Differ<BackgroundRgb> = renderer.create_state();
    let frame = vec![px(5, 6, 7, 99), px(5, 6, 7, 99)];
    renderer.consume(&frame);
    let mut out = Vec::new();
    renderer.render_frame(&mut out, &mut state);
    // One run of two cells, background activation, glyphs forced to spaces.
    assert_eq!(out, b"\x1b[0;0H\x1b[48;2;5;6;7m  ".to_vec());
}

#[test]
fn contiguous_runs_skip_the_cursor_escape() {
    // Two index-adjacent runs of different styles: the second run's start
    // equals the first run's end, so the terminal's auto-advanced cursor is
    // already in place and no positioning escape is written for it.
    let mut renderer: DefaultRenderer<Rgb> = DefaultRenderer::new(4, 1);
    let mut state: Differ<Rgb> = renderer.create_state();
    let frame = vec![
        px(255, 0, 0, 0),
        px(255, 0, 0, 0),
        px(0, 0, 255, 0),
        px(0, 0, 255, 0),
    ];
    renderer.consume(&frame);
    let mut out = Vec::new();
    renderer.render_frame(&mut out, &mut state);
    // Red has luminance 95 (glyph ')'), blue 31 (glyph 'I').
    assert_eq!(
        out,
        b"\x1b[0;0H\x1b[38;2;255;0;0m))\x1b[38;2;0;0;255mII".to_vec()
    );
}

#[test]
fn grouped_runs_share_one_style_activation() {
    // Alternating styles: grouping brings the two red runs together and
    // the two blue runs together, so each style is activated once; the
    // separated runs still reposition the cursor.
    let mut renderer: DefaultRenderer<Rgb> = DefaultRenderer::new(4, 1);
    let mut state: Differ<Rgb> = renderer.create_state();
    let frame = vec![
        px(255, 0, 0, 0),
        px(0, 0, 255, 0),
        px(255, 0, 0, 0),
        px(0, 0, 255, 0),
    ];
    renderer.consume(&frame);
    let mut out = Vec::new();
    renderer.render_frame(&mut out, &mut state);
    assert_eq!(
        out,
        b"\x1b[0;0H\x1b[38;2;255;0;0m)\x1b[0;2H)\x1b[0;1H\x1b[38;2;0;0;255mI\x1b[0;3HI".to_vec()
    );
}

#[test]
fn verify_input_reinterprets_four_bytes_per_cell() {
    let renderer: DefaultRenderer<Rgb> = DefaultRenderer::new(2, 1);
    let bytes = vec![1, 2, 3, 4, 5, 6, 7, 8];
    let pixels = renderer.verify_input(&bytes);
    assert_eq!(pixels, vec![px(1, 2, 3, 4), px(5, 6, 7, 8)]);
}

#[test]
fn kitty_single_chunk_frame() {
    let mut renderer = KittyRenderer::from_dims(2, 1);
    let mut state = ();
    let frame = vec![px(1, 2, 3, 4), px(5, 6, 7, 8)];
    renderer.consume(&frame);
    let mut out = Vec::new();
    renderer.render_frame(&mut out, &mut state);
    assert_eq!(
        out,
        b"\x1b_Ga=T,f=32,s=2,v=1,C=1,m=0,x=1,y=1;AQIDBAUGBwg=\x1b\\".to_vec()
    );
}

#[test]
fn kitty_chunking_splits_flags_and_reassembles() {
    // 64 x 16 pixels: 4096 raw bytes, 5464 encoded bytes, so two chunks.
    let width = 64u32;
    let height = 16u32;
    let mut renderer = KittyRenderer::from_dims(width, height);
    let mut state = ();
    let pixels: Vec<Pixel> = (0..(width * height))
        .map(|i| px((i % 251) as u8, (i % 13) as u8, (i % 7) as u8, 255))
        .collect();
    renderer.consume(&pixels);
    let mut out = Vec::new();
    renderer.render_frame(&mut out, &mut state);

    // The whole encoding, computed independently.
    let raw = raw_frame(&pixels);
    let mut dst = vec![0u8; 4 * ((raw.len() + 2) / 3)];
    let encoded = Base64::encode(&raw, &mut dst).unwrap().as_bytes().to_vec();
    assert_eq!(encoded.len(), 5464);

    // Split the stream into escapes and check headers, flags and payloads.
    let text = out;
    let mut chunks: Vec<(Vec<u8>, Vec<u8>)> = Vec::new();
    let mut rest: &[u8] = &text;
    while !rest.is_empty() {
        assert_eq!(&rest[..3], b"\x1b_G");
        let semi = rest.iter().position(|&b| b == b';').unwrap();
        let header = rest[3..semi].to_vec();
        let tail = &rest[semi + 1..];
        let term = tail.windows(2).position(|w| w == b"\x1b\\").unwrap();
        let payload = tail[..term].to_vec();
        chunks.push((header, payload));
        rest = &tail[term + 2..];
    }
    assert_eq!(chunks.len(), 2, "ceil(5464 / 4096) chunks expected");
    assert_eq!(chunks[0].0, b"a=T,f=32,s=64,v=16,C=1,m=1,x=1,y=1".to_vec());
    assert_eq!(chunks[1].0, b"a=T,f=32,s=64,v=16,C=1,m=0,x=1,y=1".to_vec());
    assert_eq!(chunks[0].1.len(), 4096);
    assert_eq!(chunks[1].1.len(), 5464 - 4096);
    let mut joined = chunks[0].1.clone();
    joined.extend_from_slice(&chunks[1].1);
    assert_eq!(joined, encoded, "concatenated payloads differ from the encoding");
}
