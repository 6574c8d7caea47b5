use capture_agent::pixels::{bgra_to_rgba, pad_rgba};

#[test]
fn odd_frames_are_padded_by_repeating_edges() {
    let source = [1, 1, 1, 1, 2, 2, 2, 2, 3, 3, 3, 3];
    let padded = pad_rgba(&source, 3, 1);
    assert_eq!(padded.len(), 4 * 2 * 4);
    assert_eq!(&padded[0..16], &[1, 1, 1, 1, 2, 2, 2, 2, 3, 3, 3, 3, 3, 3, 3, 3]);
    assert_eq!(&padded[16..32], &padded[0..16]);
}

#[test]
fn even_frames_are_unchanged() {
    let source: Vec<u8> = (0..16).collect();
    assert_eq!(pad_rgba(&source, 2, 2), source);
}

#[test]
fn bgra_is_swapped_to_opaque_rgba() {
    assert_eq!(bgra_to_rgba(&[1, 2, 3, 0, 4, 5, 6, 7]), vec![3, 2, 1, 255, 6, 5, 4, 255]);
}
