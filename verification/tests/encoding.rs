use capture_agent::encoding::{
    drain_step, encoder_settings, ffmpeg_failure, ffmpeg_result, signed_decimal, DrainStep,
    EncoderOptionsError, AVERROR_EAGAIN, AVERROR_EOF,
};

#[test]
fn encoder_settings_round_up_to_even() {
    let settings = encoder_settings(81, 45, 20, 2, 2048).unwrap();
    assert_eq!(settings.encoded_width, 82);
    assert_eq!(settings.encoded_height, 46);
    assert_eq!(settings.bit_rate, 2_048_000);
    assert_eq!(settings.gop_size, 2);
    assert!(settings.needs_padding());
    assert_eq!(settings.check_frame_length(81 * 45 * 4), Ok(()));
    assert_eq!(settings.check_frame_length(10), Err((10, 81 * 45 * 4)));
    let even = encoder_settings(80, 46, 30, 60, 1000).unwrap();
    assert!(!even.needs_padding());
}

#[test]
fn encoder_options_are_refused() {
    assert_eq!(encoder_settings(0, 45, 20, 2, 2048), Err(EncoderOptionsError::Invalid));
    assert_eq!(encoder_settings(81, 45, 0, 2, 2048), Err(EncoderOptionsError::Invalid));
    assert_eq!(encoder_settings(u32::MAX, 45, 20, 2, 2048), Err(EncoderOptionsError::TooLarge));
}

#[test]
fn draining_stops_at_eof_or_again() {
    assert_eq!(drain_step(0, false), DrainStep::WritePacket);
    assert_eq!(drain_step(AVERROR_EAGAIN, false), DrainStep::Done);
    assert_eq!(drain_step(AVERROR_EOF, false), DrainStep::Done);
    assert_eq!(drain_step(AVERROR_EOF, true), DrainStep::Done);
    assert_eq!(drain_step(AVERROR_EAGAIN, true), DrainStep::FlushIncomplete);
    assert_eq!(drain_step(-22, true), DrainStep::Failed(-22));
}

#[test]
fn ffmpeg_failures_name_operation_and_code() {
    assert_eq!(signed_decimal(-22), "-22");
    assert_eq!(signed_decimal(i32::MIN), "-2147483648");
    assert_eq!(signed_decimal(7), "7");
    assert_eq!(
        ffmpeg_failure("cannot open output video file", "Invalid argument", -22),
        "cannot open output video file: Invalid argument (-22)"
    );
    assert_eq!(ffmpeg_result(0, "op", "ok"), Ok(()));
    assert_eq!(
        ffmpeg_result(-1, "op", "Operation not permitted"),
        Err("op: Operation not permitted (-1)".to_string())
    );
}
