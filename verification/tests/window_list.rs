use capture_agent::platform::{hwnd_label_of, open_window_source, Platform, TargetError, WindowHandle};
use capture_agent::protocol::{ApplicationInfo, NativeTarget, WindowCandidate};
use capture_agent::source::SourceState;
use capture_agent::window_list::{
    linux_candidate, macos_candidate, macos_fallback_title, macos_thumbnail_size, macos_window_listed,
    sort_candidates, sort_window_details,
    source_state, thumbnail_file_name, window_presented, window_size, windows_candidate,
    windows_window_listed, x11_window_info,
};

fn candidate(name: &str, title: &str, id: &str) -> WindowCandidate {
    WindowCandidate {
        candidate_id: id.into(),
        application: ApplicationInfo {
            group_id: name.into(),
            display_name: name.into(),
            process_id: None,
            icon_path: None,
        },
        title: title.into(),
        visible: true,
        capturable: true,
        unavailable_reason: None,
        thumbnail_path: None,
        width: 10,
        height: 10,
        native_target: NativeTarget { kind: "x11-window".into(), value: id.into() },
    }
}

#[test]
fn targets_are_resolved_per_platform() {
    assert_eq!(open_window_source(Platform::Linux, "x11-window", "0x2a"), Ok(WindowHandle::X11(42)));
    assert_eq!(open_window_source(Platform::Linux, "windows-hwnd", "0x2a"), Err(TargetError::UnsupportedKind));
    assert_eq!(open_window_source(Platform::Macos, "macos-cgwindow", "1234"), Ok(WindowHandle::CgWindow(1234)));
    assert_eq!(open_window_source(Platform::Macos, "macos-cgwindow", " 1234"), Err(TargetError::InvalidWindowId));
    assert_eq!(open_window_source(Platform::Windows, "windows-hwnd", "0x1A2B"), Ok(WindowHandle::Hwnd(0x1a2b)));
    assert_eq!(open_window_source(Platform::Windows, "windows-hwnd", "0x0x10"), Ok(WindowHandle::Hwnd(16)));
    assert_eq!(open_window_source(Platform::Windows, "windows-hwnd", "zz"), Err(TargetError::InvalidWindowId));
    assert_eq!(open_window_source(Platform::Windows, "x11-window", "0x10"), Err(TargetError::UnsupportedKind));
}

#[test]
fn hwnd_labels_read_back() {
    assert_eq!(hwnd_label_of(0x1a2b), "0x1A2B");
    for handle in [0usize, 1, 0xdead_beef, usize::MAX] {
        let label = hwnd_label_of(handle);
        assert_eq!(open_window_source(Platform::Windows, "windows-hwnd", &label), Ok(WindowHandle::Hwnd(handle)));
    }
}

#[test]
fn candidates_sort_by_application_then_title_stably() {
    let sorted = sort_candidates(vec![
        candidate("b", "x", "1"),
        candidate("a", "z", "2"),
        candidate("a", "y", "3"),
        candidate("b", "x", "4"),
        candidate("B", "x", "5"),
    ]);
    let ids: Vec<&str> = sorted.iter().map(|c| c.candidate_id.as_str()).collect();
    assert_eq!(ids, vec!["5", "3", "2", "1", "4"]);
}

#[test]
fn x11_details_sort_by_application_then_title() {
    let sorted = sort_window_details(vec![
        x11_window_info(3, "zeta".into(), 1, 1, true, Some("Editor".into()), None),
        x11_window_info(1, "alpha".into(), 1, 1, true, Some("Terminal".into()), None),
        x11_window_info(2, "beta".into(), 1, 1, true, Some("Editor".into()), None),
    ]);
    let ids: Vec<&str> = sorted.iter().map(|d| d.source.id.as_str()).collect();
    assert_eq!(ids, vec!["0x2", "0x3", "0x1"]);
}

#[test]
fn linux_candidates_group_by_lowercase_application() {
    let detail = x11_window_info(0x2a, "Notes".into(), 800, 600, false, Some("GEdit".into()), Some(7));
    let candidate = linux_candidate(detail, Some("/tmp/x11-2a.png".into()));
    assert_eq!(candidate.candidate_id, "x11-window:0x2a");
    assert_eq!(candidate.application.group_id, "linux:gedit");
    assert_eq!(candidate.application.display_name, "GEdit");
    assert_eq!(candidate.application.process_id, Some(7));
    assert!(!candidate.capturable);
    assert_eq!(candidate.unavailable_reason.as_deref(), Some("窗口已隐藏"));
    assert_eq!(candidate.thumbnail_path.as_deref(), Some("/tmp/x11-2a.png"));
}

#[test]
fn windows_candidates_use_upper_case_handles() {
    let candidate = windows_candidate(0xBEEF, "Doc".into(), 31, None, true, None, 100, 50);
    assert_eq!(candidate.candidate_id, "windows-hwnd:0xBEEF");
    assert_eq!(candidate.application.display_name, "Windows 应用");
    assert_eq!(candidate.application.group_id, "windows:windows 应用");
    assert_eq!(candidate.application.process_id, Some(31));
    assert!(candidate.capturable);
    assert_eq!(candidate.unavailable_reason, None);
    let hidden = windows_candidate(1, "Doc".into(), 31, Some("Word".into()), false, None, 100, 50);
    assert_eq!(hidden.unavailable_reason.as_deref(), Some("窗口已隐藏或最小化"));
    assert_eq!(hidden.application.group_id, "windows:word");
}

#[test]
fn macos_candidates_group_by_bundle() {
    let candidate = macos_candidate(77, "Inbox".into(), Some("Mail".into()), Some("com.apple.mail".into()), Some(5), true, None, 300, 200);
    assert_eq!(candidate.candidate_id, "macos-cgwindow:77");
    assert_eq!(candidate.application.group_id, "macos:com.apple.mail");
    let unnamed = macos_candidate(78, "Inbox".into(), Some(String::new()), None, None, false, None, 300, 200);
    assert_eq!(unnamed.application.display_name, "macOS 应用");
    assert_eq!(unnamed.application.group_id, "macos:macOS 应用");
}

#[test]
fn native_windows_are_filtered() {
    assert!(windows_window_listed("Doc", 3, 4, true));
    assert!(!windows_window_listed("Doc", 4, 4, true));
    assert!(!windows_window_listed(" ", 3, 4, true));
    assert!(!windows_window_listed("Doc", 3, 4, false));
    assert!(macos_window_listed(0, "Doc", 2, 2));
    assert!(!macos_window_listed(3, "Doc", 2, 2));
    assert!(!macos_window_listed(0, "Doc", 1, 2));
}

#[test]
fn window_geometry_and_visibility() {
    assert_eq!(window_size(10, 20, 110, 70), Some((100, 50)));
    assert_eq!(window_size(10, 20, 11, 70), None);
    assert_eq!(window_size(i32::MIN, 0, i32::MAX, 10), None);
    assert!(window_presented(true, false, None));
    assert!(window_presented(true, false, Some(0)));
    assert!(!window_presented(true, false, Some(1)));
    assert!(!window_presented(true, true, Some(0)));
    assert!(!window_presented(false, false, None));
    assert_eq!(source_state(false, true), SourceState::Destroyed);
    assert_eq!(source_state(true, false), SourceState::Hidden);
    assert_eq!(source_state(true, true), SourceState::Available);
}

#[test]
fn thumbnails_are_named_after_the_window() {
    assert_eq!(thumbnail_file_name(Platform::Linux, "0x2a"), "x11-2a.png");
    assert_eq!(thumbnail_file_name(Platform::Windows, "0xBEEF"), "windows-BEEF.png");
    assert_eq!(thumbnail_file_name(Platform::Macos, "77"), "macos-77.png");
}

#[test]
fn macos_fallbacks_and_thumbnail_sizes() {
    assert_eq!(macos_fallback_title(4242), "Window 4242");
    assert_eq!(macos_thumbnail_size(1920, 1080), (960, 600));
    assert_eq!(macos_thumbnail_size(640, 480), (640, 480));
}
