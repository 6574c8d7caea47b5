use capture_agent::runner::{
    gstreamer_arguments, inspect_program_name, required_gstreamer_elements, DimensionError,
};

#[test]
fn inspector_is_named_after_the_launcher() {
    assert_eq!(inspect_program_name("gst-launch-1.0"), Some("gst-inspect-1.0".to_string()));
    assert_eq!(
        inspect_program_name("x-gst-launch-gst-launch"),
        Some("x-gst-inspect-gst-launch".to_string())
    );
    assert_eq!(inspect_program_name("launcher"), None);
}

#[test]
fn pipeline_needs_seven_elements() {
    assert_eq!(
        required_gstreamer_elements(),
        vec!["fdsrc", "rawvideoparse", "videoconvert", "videobox", "x264enc", "matroskamux", "filesink"]
    );
}

#[test]
fn pipeline_pads_odd_frames() {
    let arguments = gstreamer_arguments("/tmp/job/videos/00000001.mkv.tmp", 81, 45, 20, 2, 2048).unwrap();
    let expected = vec![
        "-q", "fdsrc", "fd=0", "blocksize=14580", "!", "rawvideoparse", "format=rgba", "width=81",
        "height=45", "framerate=20/1", "!", "videoconvert", "!", "videobox", "right=-1",
        "bottom=-1", "!", "video/x-raw,format=I420,width=82,height=46", "!", "x264enc",
        "tune=zerolatency", "speed-preset=veryfast", "key-int-max=2", "bitrate=2048", "!",
        "matroskamux", "!", "filesink", "location=/tmp/job/videos/00000001.mkv.tmp",
    ];
    assert_eq!(arguments, expected);
}

#[test]
fn pipeline_refuses_empty_frames() {
    assert_eq!(gstreamer_arguments("out.mkv", 0, 45, 20, 2, 2048), Err(DimensionError::Zero));
    assert_eq!(gstreamer_arguments("out.mkv", 81, 0, 20, 2, 2048), Err(DimensionError::Zero));
}
