use capture_agent::protocol::CaptureSourceKind;
use capture_agent::source::CaptureSource;
use capture_agent::test_pattern::TestPatternSource;

#[test]
fn pattern_is_deterministic_and_changes_between_frames() {
    let mut first = TestPatternSource::new(160, 90);
    let mut second = TestPatternSource::new(160, 90);

    let first_frame = first.capture().expect("first frame");
    let same_frame = second.capture().expect("same frame");
    let next_frame = first.capture().expect("next frame");

    assert_eq!(first_frame.rgba, same_frame.rgba);
    assert_ne!(first_frame.rgba, next_frame.rgba);
    assert_eq!(first_frame.rgba.len(), 160 * 90 * 4);
}

#[test]
fn pattern_describes_itself() {
    let source = TestPatternSource::new(1280, 720);
    let info = source.info();
    assert_eq!(info.kind, CaptureSourceKind::TestPattern);
    assert_eq!(info.id, "test-pattern");
    assert_eq!(info.title, "Deterministic test pattern");
    assert_eq!(info.width, 1280);
    assert_eq!(info.height, 720);
    assert!(info.visible);
}

#[test]
fn first_pixel_is_the_first_band_and_alpha_is_opaque() {
    let mut source = TestPatternSource::new(64, 48);
    let frame = source.render_next();
    assert_eq!(&frame.rgba[0..4], &[235, 64, 52, 255]);
    assert!(frame.rgba.chunks(4).all(|pixel| pixel[3] == 255));
}

#[test]
fn bit_zero_cell_shows_the_frame_parity() {
    let mut source = TestPatternSource::new(160, 90);
    let cell = 3usize;
    let offset = (cell * 160 + cell) * 4;
    let even = source.render_next();
    let odd = source.render_next();
    assert_eq!(&even.rgba[offset..offset + 4], &[0, 0, 0, 255]);
    assert_eq!(&odd.rgba[offset..offset + 4], &[255, 255, 255, 255]);
}

#[test]
fn empty_pattern_has_no_bytes() {
    let mut source = TestPatternSource::new(0, 10);
    assert!(source.can_render_next());
    assert!(source.capture().unwrap().rgba.is_empty());
}

#[test]
fn oversized_pattern_cannot_be_rendered() {
    let source = TestPatternSource::new(70_000, 70_000);
    assert!(!source.can_render_next());
}

#[test]
fn oversized_pattern_is_refused_as_a_source() {
    let mut source = TestPatternSource::new(70_000, 70_000);
    assert!(source.capture().is_err());
    assert_eq!(source.describe().width, 70_000);
}

#[test]
fn bands_move_seven_pixels_per_frame() {
    let width = 64usize;
    let mut source = TestPatternSource::new(64, 48);
    let first = source.render_next();
    let _ = source.render_next();
    let third = source.render_next();
    for y in 0..2 {
        for x in 0..width {
            let moved = (x + 7 * 2) % width;
            let at = (y * width + x) * 4;
            let from = (y * width + moved) * 4;
            assert_eq!(&third.rgba[at..at + 4], &first.rgba[from..from + 4]);
        }
    }
}

#[test]
fn rendering_does_not_advance_the_frame() {
    let mut source = TestPatternSource::new(40, 30);
    let rendered = source.render();
    assert_eq!(rendered, source.render_next().rgba);
    assert_ne!(rendered, source.render());
}
