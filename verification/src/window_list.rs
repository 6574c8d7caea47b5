//! The windows offered for capture: which native windows are listed, how
//! each becomes a candidate, the order of the list, and the decoding of the
//! X11 window properties the list is built from.

use vstd::prelude::*;

use crate::ordering::{stable_sort, stably_sorted, TextKey};
use crate::platform::{
    hwnd_label, hwnd_label_of, macos_kind, windows_kind, without_hex_prefixes, x11_kind,
    x11_window_label, x11_window_label_of, Platform,
};
use crate::protocol::{
    target_key, ApplicationInfo, CaptureSourceInfo, CaptureSourceKind, NativeTarget,
    WindowCandidate,
};
use crate::pixels::ChannelMasks;
use crate::source::SourceState;
use crate::text::{
    ascii_lowercase, blank, chars_of, concat, decimal, digits, is_blank, lossy_utf8,
    slice_chars, string_of, to_ascii_lowercase, trim_trailing_nuls, utf8_lossy,
    without_trailing_nuls,
};

verus! {

broadcast use vstd::string::group_string_axioms;

/// An X11 window as the X11 backend lists it.
pub struct X11WindowInfo {
    pub source: CaptureSourceInfo,
    pub application_name: String,
    pub process_id: Option<u32>,
}

/// Whether an X11 window is listed: it has a non-zero size and a title
/// that is not blank.
pub fn x11_window_listed(width: u32, height: u32, title: &str) -> (listed: bool)
    ensures
        listed == (width != 0 && height != 0 && !is_blank(title@)),
{
    width != 0 && height != 0 && !blank(title)
}

/// The listing of X11 window `window`; an unknown application is called
/// `X11 应用`.
pub fn x11_window_info(
    window: u32,
    title: String,
    width: u32,
    height: u32,
    viewable: bool,
    application_name: Option<String>,
    process_id: Option<u32>,
) -> (info: X11WindowInfo)
    ensures
        info.source.kind == CaptureSourceKind::X11Window,
        info.source.id@ == x11_window_label(window),
        info.source.title == title,
        info.source.width == width,
        info.source.height == height,
        info.source.visible == viewable,
        info.application_name@ == match application_name {
            Some(name) => name@,
            None => "X11 应用"@,
        },
        info.process_id == process_id,
{
    let name = match application_name {
        Some(name) => name,
        None => "X11 应用".to_string(),
    };
    X11WindowInfo {
        source: CaptureSourceInfo {
            kind: CaptureSourceKind::X11Window,
            id: x11_window_label_of(window),
            title,
            width,
            height,
            visible: viewable,
        },
        application_name: name,
        process_id,
    }
}

/// The title shown for an X11 window whose title cannot be read.
pub fn x11_fallback_title(window: u32) -> (title: String)
    ensures
        title@ == "X11 window "@ + x11_window_label(window),
{
    let label = x11_window_label_of(window);
    concat("X11 window ", label.as_str())
}

/// The title shown for a macOS window that has none: `Window` and its id.
pub fn macos_fallback_title(window_id: u32) -> (title: String)
    ensures
        title@ == "Window "@ + digits(window_id as nat, 10, false),
{
    let number = decimal(window_id as u64);
    concat("Window ", number.as_str())
}

/// The size at which a macOS window is shot for its thumbnail: its own
/// size, at most 960 x 600.
pub fn macos_thumbnail_size(width: u32, height: u32) -> (size: (u32, u32))
    ensures
        size.0 == if width <= 960 { width } else { 960 },
        size.1 == if height <= 600 { height } else { 600 },
{
    (if width <= 960 { width } else { 960 }, if height <= 600 { height } else { 600 })
}

/// Sort key of an X11 window listing: application name, then title.
pub open spec fn detail_key(detail: X11WindowInfo) -> TextKey {
    (detail.application_name@, detail.source.title@)
}

/// Sorts X11 window listings by application name, then title, keeping
/// equal listings in their original order.
pub fn sort_window_details(details: Vec<X11WindowInfo>) -> (sorted: Vec<X11WindowInfo>)
    ensures
        stably_sorted(sorted@, details@, |detail: X11WindowInfo| detail_key(detail)),
{
    let mut keys: Vec<(Vec<char>, Vec<char>)> = Vec::new();
    let mut i: usize = 0;
    while i < details.len()
        invariant
            i <= details@.len(),
            keys@.len() == i,
            forall|j: int| 0 <= j < i ==> detail_key(#[trigger] details@[j]) == (keys@[j].0@, keys@[j].1@),
        decreases details@.len() - i,
    {
        let name = chars_of(details[i].application_name.as_str());
        let title = chars_of(details[i].source.title.as_str());
        keys.push((name, title));
        i = i + 1;
    }
    stable_sort(details, keys, Ghost(|detail: X11WindowInfo| detail_key(detail)))
}

/// Sort key of a window candidate: application display name, then title.
pub open spec fn candidate_key(candidate: WindowCandidate) -> TextKey {
    (candidate.application.display_name@, candidate.title@)
}

/// Sorts window candidates by application display name, then title,
/// keeping equal candidates in their original order.
pub fn sort_candidates(candidates: Vec<WindowCandidate>) -> (sorted: Vec<WindowCandidate>)
    ensures
        stably_sorted(sorted@, candidates@, |candidate: WindowCandidate| candidate_key(candidate)),
{
    let mut keys: Vec<(Vec<char>, Vec<char>)> = Vec::new();
    let mut i: usize = 0;
    while i < candidates.len()
        invariant
            i <= candidates@.len(),
            keys@.len() == i,
            forall|j: int| 0 <= j < i ==> candidate_key(#[trigger] candidates@[j]) == (keys@[j].0@, keys@[j].1@),
        decreases candidates@.len() - i,
    {
        let name = chars_of(candidates[i].application.display_name.as_str());
        let title = chars_of(candidates[i].title.as_str());
        keys.push((name, title));
        i = i + 1;
    }
    stable_sort(candidates, keys, Ghost(|candidate: WindowCandidate| candidate_key(candidate)))
}

/// The candidate made of a native window: its target, its application,
/// and whether it can be captured (only when visible).
pub open spec fn is_candidate(
    candidate: WindowCandidate,
    kind: Seq<char>,
    value: Seq<char>,
    group_id: Seq<char>,
    display_name: Seq<char>,
    process_id: Option<u32>,
    title: String,
    visible: bool,
    hidden_reason: Seq<char>,
    thumbnail_path: Option<String>,
    width: u32,
    height: u32,
) -> bool {
    &&& candidate.candidate_id@ == target_key(kind, value)
    &&& candidate.native_target.kind@ == kind
    &&& candidate.native_target.value@ == value
    &&& candidate.application.group_id@ == group_id
    &&& candidate.application.display_name@ == display_name
    &&& candidate.application.process_id == process_id
    &&& candidate.application.icon_path is None
    &&& candidate.title == title
    &&& candidate.visible == visible
    &&& candidate.capturable == visible
    &&& (if visible {
        candidate.unavailable_reason is None
    } else {
        candidate.unavailable_reason matches Some(reason) && reason@ == hidden_reason
    })
    &&& candidate.thumbnail_path == thumbnail_path
    &&& candidate.width == width
    &&& candidate.height == height
}

fn make_candidate(
    kind: String,
    value: String,
    group_id: String,
    display_name: String,
    process_id: Option<u32>,
    title: String,
    visible: bool,
    hidden_reason: &str,
    thumbnail_path: Option<String>,
    width: u32,
    height: u32,
) -> (candidate: WindowCandidate)
    ensures
        is_candidate(
            candidate,
            kind@,
            value@,
            group_id@,
            display_name@,
            process_id,
            title,
            visible,
            hidden_reason@,
            thumbnail_path,
            width,
            height,
        ),
{
    let target = NativeTarget { kind, value };
    let candidate_id = target.key();
    WindowCandidate {
        candidate_id,
        application: ApplicationInfo { group_id, display_name, process_id, icon_path: None },
        title,
        visible,
        capturable: visible,
        unavailable_reason: if visible {
            None
        } else {
            Some(hidden_reason.to_string())
        },
        thumbnail_path,
        width,
        height,
        native_target: target,
    }
}

/// The candidate of a listed X11 window, grouped by its lower-cased
/// application name.
pub fn linux_candidate(detail: X11WindowInfo, thumbnail_path: Option<String>) -> (candidate: WindowCandidate)
    ensures
        is_candidate(
            candidate,
            x11_kind(),
            detail.source.id@,
            "linux:"@ + ascii_lowercase(detail.application_name@),
            detail.application_name@,
            detail.process_id,
            detail.source.title,
            detail.source.visible,
            "窗口已隐藏"@,
            thumbnail_path,
            detail.source.width,
            detail.source.height,
        ),
{
    let lower = to_ascii_lowercase(detail.application_name.as_str());
    let group_id = concat("linux:", lower.as_str());
    let kind = "x11-window".to_string();
    proof {
        reveal_strlit("x11-window");
        assert(kind@ =~= x11_kind());
    }
    make_candidate(
        kind,
        detail.source.id,
        group_id,
        detail.application_name,
        detail.process_id,
        detail.source.title,
        detail.source.visible,
        "窗口已隐藏",
        thumbnail_path,
        detail.source.width,
        detail.source.height,
    )
}

/// Whether a native Windows window is listed: its title is not blank, it
/// belongs to another process than the agent's own, and it has usable
/// bounds.
pub fn windows_window_listed(title: &str, process_id: u32, own_process_id: u32, has_bounds: bool) -> (listed: bool)
    ensures
        listed == (!is_blank(title@) && process_id != own_process_id && has_bounds),
{
    !blank(title) && process_id != own_process_id && has_bounds
}

/// The candidate of a listed Windows window; an unknown application is
/// called `Windows 应用`, and the group is the lower-cased application name.
pub fn windows_candidate(
    handle: usize,
    title: String,
    process_id: u32,
    application_name: Option<String>,
    visible: bool,
    thumbnail_path: Option<String>,
    width: u32,
    height: u32,
) -> (candidate: WindowCandidate)
    ensures
        ({
            let name = match application_name {
                Some(name) => name@,
                None => "Windows 应用"@,
            };
            is_candidate(
                candidate,
                windows_kind(),
                hwnd_label(handle),
                "windows:"@ + ascii_lowercase(name),
                name,
                Some(process_id),
                title,
                visible,
                "窗口已隐藏或最小化"@,
                thumbnail_path,
                width,
                height,
            )
        }),
{
    let name = match application_name {
        Some(name) => name,
        None => "Windows 应用".to_string(),
    };
    let lower = to_ascii_lowercase(name.as_str());
    let group_id = concat("windows:", lower.as_str());
    let kind = "windows-hwnd".to_string();
    proof {
        reveal_strlit("windows-hwnd");
        assert(kind@ =~= windows_kind());
    }
    make_candidate(
        kind,
        hwnd_label_of(handle),
        group_id,
        name,
        Some(process_id),
        title,
        visible,
        "窗口已隐藏或最小化",
        thumbnail_path,
        width,
        height,
    )
}

/// Whether a macOS window is listed: it is on the normal window layer, its
/// title is not blank and it is at least 2 x 2 points.
pub fn macos_window_listed(layer: i64, title: &str, width: u32, height: u32) -> (listed: bool)
    ensures
        listed == (layer == 0 && !is_blank(title@) && width >= 2 && height >= 2),
{
    layer == 0 && !blank(title) && width >= 2 && height >= 2
}

/// `text` when it is not empty, `fallback` otherwise.
pub open spec fn non_empty_or(text: Option<Seq<char>>, fallback: Seq<char>) -> Seq<char> {
    match text {
        Some(value) => if value.len() > 0 { value } else { fallback },
        None => fallback,
    }
}

fn non_empty_or_exec(text: Option<String>, fallback: String) -> (chosen: String)
    ensures
        chosen@ == non_empty_or(
            match text {
                Some(value) => Some(value@),
                None => None,
            },
            fallback@,
        ),
{
    match text {
        Some(value) => if value.as_str().is_empty() { fallback } else { value },
        None => fallback,
    }
}

/// The candidate of a listed macOS window: an application without a name is
/// called `macOS 应用`, and the group is the application's bundle id, or its
/// name when it has none.
pub fn macos_candidate(
    window_id: u32,
    title: String,
    application_name: Option<String>,
    bundle_id: Option<String>,
    process_id: Option<u32>,
    visible: bool,
    thumbnail_path: Option<String>,
    width: u32,
    height: u32,
) -> (candidate: WindowCandidate)
    ensures
        ({
            let name = non_empty_or(
                match application_name {
                    Some(value) => Some(value@),
                    None => None,
                },
                "macOS 应用"@,
            );
            let bundle = non_empty_or(
                match bundle_id {
                    Some(value) => Some(value@),
                    None => None,
                },
                name,
            );
            is_candidate(
                candidate,
                macos_kind(),
                digits(window_id as nat, 10, false),
                "macos:"@ + bundle,
                name,
                process_id,
                title,
                visible,
                "窗口已隐藏"@,
                thumbnail_path,
                width,
                height,
            )
        }),
{
    let name = non_empty_or_exec(application_name, "macOS 应用".to_string());
    let bundle = non_empty_or_exec(bundle_id, name.clone());
    let group_id = concat("macos:", bundle.as_str());
    let kind = "macos-cgwindow".to_string();
    proof {
        reveal_strlit("macos-cgwindow");
        assert(kind@ =~= macos_kind());
    }
    make_candidate(
        kind,
        decimal(window_id as u64),
        group_id,
        name,
        process_id,
        title,
        visible,
        "窗口已隐藏",
        thumbnail_path,
        width,
        height,
    )
}

/// The size of a window from its bounding rectangle, when both sides are
/// longer than one pixel and computable.
pub open spec fn rect_size(left: i32, top: i32, right: i32, bottom: i32) -> Option<(u32, u32)> {
    let width = right - left;
    let height = bottom - top;
    if i32::MIN <= width <= i32::MAX && i32::MIN <= height <= i32::MAX && width > 1 && height > 1 {
        Some((width as u32, height as u32))
    } else {
        None
    }
}

/// The size of a window from its bounding rectangle; see [`rect_size`].
pub fn window_size(left: i32, top: i32, right: i32, bottom: i32) -> (size: Option<(u32, u32)>)
    ensures
        size == rect_size(left, top, right, bottom),
{
    let width = match right.checked_sub(left) {
        Some(value) => value,
        None => return None,
    };
    let height = match bottom.checked_sub(top) {
        Some(value) => value,
        None => return None,
    };
    if width > 1 && height > 1 {
        Some((width as u32, height as u32))
    } else {
        None
    }
}

/// Whether a Windows window is presented on screen: visible, not
/// minimized, and not cloaked (a failed cloak query counts as not cloaked).
pub fn window_presented(visible: bool, minimized: bool, cloaked: Option<u32>) -> (presented: bool)
    ensures
        presented == (visible && !minimized && (cloaked matches Some(value) ==> value == 0)),
{
    if !visible || minimized {
        return false;
    }
    match cloaked {
        Some(value) => value == 0,
        None => true,
    }
}

/// The state of a native window source: destroyed when the window is gone,
/// hidden when it is not shown, available otherwise.
pub fn source_state(present: bool, shown: bool) -> (state: SourceState)
    ensures
        state == if !present {
            SourceState::Destroyed
        } else if !shown {
            SourceState::Hidden
        } else {
            SourceState::Available
        },
{
    if !present {
        SourceState::Destroyed
    } else if !shown {
        SourceState::Hidden
    } else {
        SourceState::Available
    }
}

/// File name of the thumbnail of a window with the given id: the platform
/// prefix, the id without any leading `0x`, and `.png`.
pub open spec fn thumbnail_name(platform: Platform, value: Seq<char>) -> Seq<char> {
    match platform {
        Platform::Linux => "x11-"@ + without_hex_prefixes(value) + ".png"@,
        Platform::Windows => "windows-"@ + without_hex_prefixes(value) + ".png"@,
        Platform::Macos => "macos-"@ + value + ".png"@,
    }
}

/// The file name of a window's thumbnail; see [`thumbnail_name`].
pub fn thumbnail_file_name(platform: Platform, value: &str) -> (name: String)
    ensures
        name@ == thumbnail_name(platform, value@),
{
    let stem = match platform {
        Platform::Macos => value.to_string(),
        _ => {
            let chars = chars_of(value);
            let mut start: usize = 0;
            assert(chars@.skip(0) =~= chars@);
            while chars.len() - start >= 2 && chars[start] == '0' && chars[start + 1] == 'x'
                invariant
                    start <= chars@.len(),
                    chars@ == value@,
                    without_hex_prefixes(chars@) == without_hex_prefixes(chars@.skip(start as int)),
                decreases chars@.len() - start,
            {
                proof {
                    assert(chars@.skip(start as int).skip(2) =~= chars@.skip(start + 2));
                }
                start = start + 2;
            }
            let rest = slice_chars(chars.as_slice(), start, chars.len());
            proof {
                assert(rest@ =~= chars@.skip(start as int));
            }
            string_of(rest.as_slice())
        },
    };
    let prefix = match platform {
        Platform::Linux => "x11-",
        Platform::Windows => "windows-",
        Platform::Macos => "macos-",
    };
    let named = concat(prefix, stem.as_str());
    concat(named.as_str(), ".png")
}

/// `bytes` without trailing zero bytes.
pub open spec fn without_trailing_zeros(bytes: Seq<u8>) -> Seq<u8>
    decreases bytes.len(),
{
    if bytes.len() > 0 && bytes.last() == 0 {
        without_trailing_zeros(bytes.drop_last())
    } else {
        bytes
    }
}

/// The bytes after the last zero byte of `bytes`.
pub open spec fn after_last_zero(bytes: Seq<u8>) -> Seq<u8>
    decreases bytes.len(),
{
    if bytes.len() == 0 {
        bytes
    } else if bytes.last() == 0 {
        Seq::empty()
    } else {
        after_last_zero(bytes.drop_last()).push(bytes.last())
    }
}

/// The last non-empty NUL-separated name of an X11 `WM_CLASS` value, the
/// window's class.
pub open spec fn class_name_bytes(value: Seq<u8>) -> Option<Seq<u8>> {
    let kept = without_trailing_zeros(value);
    if kept.len() == 0 {
        None
    } else {
        Some(after_last_zero(kept))
    }
}

proof fn lemma_after_last_zero(bytes: Seq<u8>, start: int)
    requires
        0 <= start <= bytes.len(),
        start == 0 || bytes[start - 1] == 0,
        forall|i: int| start <= i < bytes.len() ==> #[trigger] bytes[i] != 0,
    ensures
        after_last_zero(bytes) == bytes.skip(start),
    decreases bytes.len(),
{
    if bytes.len() > start {
        lemma_after_last_zero(bytes.drop_last(), start);
        assert(bytes.drop_last().skip(start).push(bytes.last()) =~= bytes.skip(start));
    } else if bytes.len() > 0 {
        assert(bytes.skip(start) =~= Seq::<u8>::empty());
    } else {
        assert(bytes.skip(start) =~= bytes);
    }
}

/// The class name of an X11 window from its `WM_CLASS` value, decoded as
/// lossy UTF-8; none when the value names nothing.
pub fn window_class(value: &[u8]) -> (class: Option<String>)
    ensures
        class is Some <==> class_name_bytes(value@) is Some,
        class matches Some(name) ==> name@ == lossy_utf8(class_name_bytes(value@)->0),
{
    let mut end: usize = value.len();
    assert(value@.take(end as int) =~= value@);
    while end > 0 && value[end - 1] == 0
        invariant
            end <= value@.len(),
            without_trailing_zeros(value@) == without_trailing_zeros(value@.take(end as int)),
        decreases end,
    {
        proof {
            assert(value@.take(end as int).drop_last() =~= value@.take(end - 1));
        }
        end = end - 1;
    }
    let ghost kept = value@.take(end as int);
    proof {
        assert(without_trailing_zeros(kept) == kept);
    }
    if end == 0 {
        return None;
    }
    let mut start: usize = end;
    while start > 0 && value[start - 1] != 0
        invariant
            start <= end <= value@.len(),
            kept == value@.take(end as int),
            forall|i: int| start <= i < end ==> #[trigger] kept[i] != 0,
        decreases start,
    {
        start = start - 1;
    }
    proof {
        lemma_after_last_zero(kept, start as int);
    }
    let mut segment: Vec<u8> = Vec::new();
    let mut i: usize = start;
    while i < end
        invariant
            start <= i <= end <= value@.len(),
            segment@ == value@.subrange(start as int, i as int),
        decreases end - i,
    {
        segment.push(value[i]);
        proof {
            assert(segment@ =~= value@.subrange(start as int, i + 1));
        }
        i = i + 1;
    }
    proof {
        assert(segment@ =~= kept.skip(start as int));
    }
    Some(utf8_lossy(segment.as_slice()))
}

/// The title of an X11 window from its `_NET_WM_NAME` value, or from its
/// `WM_NAME` value when the former is empty, decoded as lossy UTF-8 without
/// trailing NULs; none when the property that decides could not be read.
pub open spec fn window_title_text(utf8: Option<Seq<u8>>, legacy: Option<Seq<u8>>) -> Option<Seq<char>> {
    match utf8 {
        None => None,
        Some(value) => if value.len() > 0 {
            Some(without_trailing_nuls(lossy_utf8(value)))
        } else {
            match legacy {
                None => None,
                Some(old) => Some(without_trailing_nuls(lossy_utf8(old))),
            }
        },
    }
}

/// Decodes an X11 window title; see [`window_title_text`].
pub fn window_title(utf8: Option<&[u8]>, legacy: Option<&[u8]>) -> (title: Option<String>)
    ensures
        title is Some <==> window_title_text(
            match utf8 {
                Some(value) => Some(value@),
                None => None,
            },
            match legacy {
                Some(value) => Some(value@),
                None => None,
            },
        ) is Some,
        title matches Some(text) ==> Some(text@) == window_title_text(
            match utf8 {
                Some(value) => Some(value@),
                None => None,
            },
            match legacy {
                Some(value) => Some(value@),
                None => None,
            },
        ),
{
    match utf8 {
        None => None,
        Some(value) => {
            if value.len() > 0 {
                let text = utf8_lossy(value);
                Some(trim_trailing_nuls(text.as_str()))
            } else {
                match legacy {
                    None => None,
                    Some(old) => {
                        let text = utf8_lossy(old);
                        Some(trim_trailing_nuls(text.as_str()))
                    },
                }
            }
        },
    }
}

/// A pixmap format an X11 server advertises: a depth and the bits each
/// pixel of that depth takes.
#[derive(Debug, Clone, Copy, PartialEq, Eq, Structural)]
pub struct PixmapFormat {
    pub depth: u8,
    pub bits_per_pixel: u8,
}

/// A visual an X11 server advertises: its id and channel masks.
#[derive(Debug, Clone, Copy, PartialEq, Eq, Structural)]
pub struct VisualInfo {
    pub visual_id: u32,
    pub masks: ChannelMasks,
}

/// The bits per pixel of the first advertised pixmap format of `depth`.
pub fn pixmap_bits_per_pixel(formats: &[PixmapFormat], depth: u8) -> (bits: Option<u8>)
    ensures
        bits matches Some(b) ==> exists|i: int|
            0 <= i < formats@.len() && formats@[i].depth == depth && formats@[i].bits_per_pixel == b
                && forall|j: int| 0 <= j < i ==> #[trigger] formats@[j].depth != depth,
        bits is None ==> forall|i: int| 0 <= i < formats@.len() ==> #[trigger] formats@[i].depth != depth,
{
    let mut i: usize = 0;
    while i < formats.len()
        invariant
            i <= formats@.len(),
            forall|j: int| 0 <= j < i ==> #[trigger] formats@[j].depth != depth,
        decreases formats@.len() - i,
    {
        if formats[i].depth == depth {
            return Some(formats[i].bits_per_pixel);
        }
        i = i + 1;
    }
    None
}

/// The first advertised visual with id `visual_id`.
pub fn find_visual(visuals: &[VisualInfo], visual_id: u32) -> (found: Option<ChannelMasks>)
    ensures
        found matches Some(masks) ==> exists|i: int|
            0 <= i < visuals@.len() && visuals@[i].visual_id == visual_id && visuals@[i].masks == masks
                && forall|j: int| 0 <= j < i ==> #[trigger] visuals@[j].visual_id != visual_id,
        found is None ==> forall|i: int| 0 <= i < visuals@.len() ==> #[trigger] visuals@[i].visual_id != visual_id,
{
    let mut i: usize = 0;
    while i < visuals.len()
        invariant
            i <= visuals@.len(),
            forall|j: int| 0 <= j < i ==> #[trigger] visuals@[j].visual_id != visual_id,
        decreases visuals@.len() - i,
    {
        if visuals[i].visual_id == visual_id {
            return Some(visuals[i].masks);
        }
        i = i + 1;
    }
    None
}

/// Whether the X11 backend can decode pixels of this size.
pub fn supported_pixel_size(bits_per_pixel: u8) -> (supported: bool)
    ensures
        supported == (bits_per_pixel == 24 || bits_per_pixel == 32),
{
    bits_per_pixel == 24 || bits_per_pixel == 32
}

/// The size of a captured X11 window, refused when either side is zero.
pub fn capture_size(width: u16, height: u16) -> (size: Option<(u32, u32)>)
    ensures
        size == if width == 0 || height == 0 {
            None
        } else {
            Some((width as u32, height as u32))
        },
{
    if width == 0 || height == 0 {
        None
    } else {
        Some((width as u32, height as u32))
    }
}

} // verus!
