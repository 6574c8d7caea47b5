use capture_agent::pixels::{component, decode_z_pixmap, ByteOrder, ChannelMasks, DecodeError};
use capture_agent::platform::{parse_window_id, x11_window_label_of, TargetError};
use capture_agent::window_list::{window_class, window_title, x11_fallback_title, x11_window_info, x11_window_listed};

fn visual() -> ChannelMasks {
    ChannelMasks {
        red_mask: 0x00ff0000,
        green_mask: 0x0000ff00,
        blue_mask: 0x000000ff,
    }
}

#[test]
fn parses_decimal_and_hex_window_ids() {
    assert_eq!(parse_window_id("42").unwrap(), 42);
    assert_eq!(parse_window_id("0x2a").unwrap(), 42);
    assert!(parse_window_id("window").is_err());
}

#[test]
fn window_ids_are_trimmed_and_bounded() {
    assert_eq!(parse_window_id("  0x2A\n").unwrap(), 42);
    assert_eq!(parse_window_id("+17").unwrap(), 17);
    assert_eq!(parse_window_id("4294967295").unwrap(), u32::MAX);
    assert_eq!(parse_window_id("4294967296"), Err(TargetError::InvalidWindowId));
    assert_eq!(parse_window_id("0x"), Err(TargetError::InvalidWindowId));
    assert_eq!(parse_window_id(""), Err(TargetError::InvalidWindowId));
    assert_eq!(parse_window_id("-1"), Err(TargetError::InvalidWindowId));
}

#[test]
fn window_labels_read_back() {
    for window in [0u32, 1, 42, 0x3a00007, u32::MAX] {
        let label = x11_window_label_of(window);
        assert_eq!(parse_window_id(&label).unwrap(), window);
    }
    assert_eq!(x11_window_label_of(0x3a00007), "0x3a00007");
}

#[test]
fn decodes_common_little_endian_bgrx_buffer() {
    let rgba = decode_z_pixmap(&[0x33, 0x22, 0x11, 0], 1, 1, 32, ByteOrder::LsbFirst, &visual()).unwrap();
    assert_eq!(rgba, vec![0x11, 0x22, 0x33, 255]);
}

#[test]
fn decodes_big_endian_and_packed_buffers() {
    let rgba = decode_z_pixmap(&[0, 0x11, 0x22, 0x33], 1, 1, 32, ByteOrder::MsbFirst, &visual()).unwrap();
    assert_eq!(rgba, vec![0x11, 0x22, 0x33, 255]);
    let rgba = decode_z_pixmap(&[0x33, 0x22, 0x11, 0x66, 0x55, 0x44], 2, 1, 24, ByteOrder::LsbFirst, &visual()).unwrap();
    assert_eq!(rgba, vec![0x11, 0x22, 0x33, 255, 0x44, 0x55, 0x66, 255]);
    let rgba = decode_z_pixmap(&[0x11, 0x22, 0x33], 1, 1, 24, ByteOrder::MsbFirst, &visual()).unwrap();
    assert_eq!(rgba, vec![0x11, 0x22, 0x33, 255]);
}

#[test]
fn decodes_rows_with_padding() {
    let data = [1, 2, 3, 0, 9, 9, 9, 9, 4, 5, 6, 0, 9, 9, 9, 9];
    let rgba = decode_z_pixmap(&data, 1, 2, 32, ByteOrder::LsbFirst, &visual()).unwrap();
    assert_eq!(rgba, vec![3, 2, 1, 255, 6, 5, 4, 255]);
}

#[test]
fn refuses_malformed_buffers() {
    assert_eq!(decode_z_pixmap(&[0; 4], 1, 0, 32, ByteOrder::LsbFirst, &visual()), Err(DecodeError::InvalidLength));
    assert_eq!(decode_z_pixmap(&[0; 5], 1, 2, 32, ByteOrder::LsbFirst, &visual()), Err(DecodeError::InvalidLength));
    assert_eq!(decode_z_pixmap(&[0; 4], 2, 1, 32, ByteOrder::LsbFirst, &visual()), Err(DecodeError::RowTooShort));
}

#[test]
fn components_scale_to_a_byte() {
    assert_eq!(component(0x00ff0000, 0x00ff0000), 255);
    assert_eq!(component(0x12345678, 0), 0);
    assert_eq!(component(0b1111_1000_0000_0000, 0b1111_1000_0000_0000), 255);
    assert_eq!(component(0b1000_0000_0000_0000, 0b1111_1000_0000_0000), (16u32 * 255 / 31) as u8);
    assert_eq!(component(0x00000f00, 0x00000f00), 255);
}

#[test]
fn window_class_is_the_last_name() {
    assert_eq!(window_class(b"xterm\0XTerm\0").as_deref(), Some("XTerm"));
    assert_eq!(window_class(b"single").as_deref(), Some("single"));
    assert_eq!(window_class(b"\0\0"), None);
    assert_eq!(window_class(b""), None);
}

#[test]
fn window_title_prefers_the_utf8_name() {
    assert_eq!(window_title(Some("终端\0".as_bytes()), Some(b"legacy")).as_deref(), Some("终端"));
    assert_eq!(window_title(Some(b""), Some(b"legacy\0\0")).as_deref(), Some("legacy"));
    assert_eq!(window_title(Some(b""), None), None);
    assert_eq!(window_title(None, Some(b"legacy")), None);
}

#[test]
fn x11_windows_need_a_size_and_a_title() {
    assert!(x11_window_listed(10, 10, "Editor"));
    assert!(!x11_window_listed(0, 10, "Editor"));
    assert!(!x11_window_listed(10, 0, "Editor"));
    assert!(!x11_window_listed(10, 10, "  \t"));
}

#[test]
fn x11_window_info_names_unknown_applications() {
    let info = x11_window_info(0x2a, "Title".into(), 640, 480, true, None, Some(12));
    assert_eq!(info.source.id, "0x2a");
    assert_eq!(info.application_name, "X11 应用");
    assert_eq!(info.process_id, Some(12));
    assert!(info.source.visible);
    assert_eq!(x11_fallback_title(0x2a), "X11 window 0x2a");
}

#[test]
fn byte_order_only_reverses_pixel_bytes() {
    let lsb = [0x33, 0x22, 0x11, 0x00, 0x66, 0x55, 0x44, 0x00];
    let msb = [0x00, 0x11, 0x22, 0x33, 0x00, 0x44, 0x55, 0x66];
    assert_eq!(
        decode_z_pixmap(&msb, 2, 1, 32, ByteOrder::MsbFirst, &visual()),
        decode_z_pixmap(&lsb, 2, 1, 32, ByteOrder::LsbFirst, &visual())
    );
    let lsb = [0x33, 0x22, 0x11, 0x66, 0x55, 0x44];
    let msb = [0x11, 0x22, 0x33, 0x44, 0x55, 0x66];
    assert_eq!(
        decode_z_pixmap(&msb, 2, 1, 24, ByteOrder::MsbFirst, &visual()),
        decode_z_pixmap(&lsb, 2, 1, 24, ByteOrder::LsbFirst, &visual())
    );
}

#[test]
fn decimal_and_padded_ids_read_back() {
    for window in [0u32, 7, 42, 0x3a00007, u32::MAX] {
        assert_eq!(parse_window_id(&window.to_string()).unwrap(), window);
        assert_eq!(parse_window_id(&format!(" \t{window}\n ")).unwrap(), window);
        let label = x11_window_label_of(window);
        assert_eq!(parse_window_id(&format!("  {label} ")).unwrap(), window);
    }
}

#[test]
fn oversized_images_with_short_buffers_are_refused() {
    let data = [0u8; 8];
    assert_eq!(
        decode_z_pixmap(&data, u32::MAX, u32::MAX, 32, ByteOrder::LsbFirst, &visual()),
        Err(DecodeError::InvalidLength)
    );
    assert_eq!(
        decode_z_pixmap(&data, u32::MAX, 2, 24, ByteOrder::LsbFirst, &visual()),
        Err(DecodeError::RowTooShort)
    );
    assert_eq!(
        decode_z_pixmap(&data, u32::MAX, 1, 32, ByteOrder::MsbFirst, &visual()),
        Err(DecodeError::RowTooShort)
    );
}
