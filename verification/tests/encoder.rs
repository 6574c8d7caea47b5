use capture_agent::encoder::{EncoderError, EncoderRegistry};
use capture_agent::thumbnail::{thumbnail_rgba, ThumbnailError, THUMBNAIL_HEIGHT, THUMBNAIL_WIDTH};

#[test]
fn encoder_factory_installs_once() {
    let mut registry = EncoderRegistry::new();
    assert_eq!(registry.verify_video_runtime(), Err(EncoderError::NotInstalled));
    assert_eq!(registry.install_encoder_factory(7), Ok(()));
    assert_eq!(registry.install_encoder_factory(7), Ok(()));
    assert_eq!(registry.install_encoder_factory(8), Err(EncoderError::DifferentFactoryInstalled));
    assert_eq!(registry.verify_video_runtime(), Ok(()));
}

#[test]
fn thumbnails_have_a_fixed_size() {
    let frame = vec![200u8; 960 * 600 * 4];
    let thumbnail = thumbnail_rgba(frame, 960, 600).unwrap();
    assert_eq!(thumbnail.len(), (THUMBNAIL_WIDTH * THUMBNAIL_HEIGHT * 4) as usize);
    assert!(thumbnail.iter().all(|byte| *byte == 200));
    let small = thumbnail_rgba(vec![7u8; 64 * 32 * 4], 64, 32).unwrap();
    assert_eq!(small.len(), (THUMBNAIL_WIDTH * THUMBNAIL_HEIGHT * 4) as usize);
    assert_eq!(thumbnail_rgba(vec![0; 10], 64, 32), Err(ThumbnailError::InvalidBuffer));
}
