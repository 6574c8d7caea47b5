//! Native window targets of the three platform backends: which target
//! kinds each accepts, how their window handles are written and read, and
//! the geometry and visibility rules applied to native windows.

use vstd::prelude::*;

use crate::text::{
    chars_of, digits, format_digits, is_whitespace, parse_unsigned, parsed_unsigned, slice_chars,
    string_of, trim_chars, trimmed, lemma_padded_digits_parse, zero_padded, lemma_digits_read_back,
    lemma_digit_not_whitespace, lemma_trimmed_unchanged, lemma_digits_leading_zero,
    lemma_trimmed_padding, is_blank, digit_value,
};

verus! {

broadcast use vstd::string::group_string_axioms;

/// Why a native target was refused.
#[derive(Debug, Clone, Copy, PartialEq, Eq, Structural)]
pub enum TargetError {
    /// The target kind belongs to another backend.
    UnsupportedKind,
    /// The window handle is not a number of the expected form.
    InvalidWindowId,
}

/// The native platforms with a capture backend.
#[derive(Debug, Clone, Copy, PartialEq, Eq, Structural)]
pub enum Platform {
    Linux,
    Macos,
    Windows,
}

/// A window handle resolved by [`open_window_source`].
#[derive(Debug, Clone, Copy, PartialEq, Eq, Structural)]
pub enum WindowHandle {
    /// An X11 window id.
    X11(u32),
    /// A CoreGraphics window id.
    CgWindow(u32),
    /// A Win32 window handle.
    Hwnd(usize),
}

/// Target kind of X11 windows.
pub open spec fn x11_kind() -> Seq<char> {
    seq!['x', '1', '1', '-', 'w', 'i', 'n', 'd', 'o', 'w']
}

/// Target kind of macOS windows.
pub open spec fn macos_kind() -> Seq<char> {
    seq!['m', 'a', 'c', 'o', 's', '-', 'c', 'g', 'w', 'i', 'n', 'd', 'o', 'w']
}

/// Target kind of Windows windows.
pub open spec fn windows_kind() -> Seq<char> {
    seq!['w', 'i', 'n', 'd', 'o', 'w', 's', '-', 'h', 'w', 'n', 'd']
}

/// The prefix `0x`.
pub open spec fn hex_prefix() -> Seq<char> {
    seq!['0', 'x']
}

/// Whether `text` starts with `0x`.
pub open spec fn has_hex_prefix(text: Seq<char>) -> bool {
    text.len() >= 2 && text[0] == '0' && text[1] == 'x'
}

/// The X11 window id written in `value`, as the X11 backend reads it:
/// surrounding whitespace is ignored, then `0x` introduces a hexadecimal
/// number and anything else is read as a decimal number.
pub open spec fn x11_window_id(value: Seq<char>) -> Option<nat> {
    let text = trimmed(value);
    if has_hex_prefix(text) {
        parsed_unsigned(text.skip(2), 16, u32::MAX as nat)
    } else {
        parsed_unsigned(text, 10, u32::MAX as nat)
    }
}

/// `text` without every leading repetition of `0x`, as
/// `str::trim_start_matches("0x")`.
pub open spec fn without_hex_prefixes(text: Seq<char>) -> Seq<char>
    decreases text.len(),
{
    if has_hex_prefix(text) {
        without_hex_prefixes(text.skip(2))
    } else {
        text
    }
}

/// The window handle a target of `kind` with `value` designates on
/// `platform`, or why there is none.
pub open spec fn window_handle(platform: Platform, kind: Seq<char>, value: Seq<char>) -> Result<WindowHandle, TargetError> {
    match platform {
        Platform::Linux => if kind != x11_kind() {
            Err(TargetError::UnsupportedKind)
        } else {
            match x11_window_id(value) {
                Some(id) => Ok(WindowHandle::X11(id as u32)),
                None => Err(TargetError::InvalidWindowId),
            }
        },
        Platform::Macos => if kind != macos_kind() {
            Err(TargetError::UnsupportedKind)
        } else {
            match parsed_unsigned(value, 10, u32::MAX as nat) {
                Some(id) => Ok(WindowHandle::CgWindow(id as u32)),
                None => Err(TargetError::InvalidWindowId),
            }
        },
        Platform::Windows => if kind != windows_kind() {
            Err(TargetError::UnsupportedKind)
        } else {
            match parsed_unsigned(without_hex_prefixes(value), 16, usize::MAX as nat) {
                Some(id) => Ok(WindowHandle::Hwnd(id as usize)),
                None => Err(TargetError::InvalidWindowId),
            }
        },
    }
}

fn same_chars(chars: &Vec<char>, expected: &[char]) -> (same: bool)
    ensures
        same == (chars@ == expected@),
{
    if chars.len() != expected.len() {
        return false;
    }
    let mut i: usize = 0;
    while i < chars.len()
        invariant
            chars@.len() == expected@.len(),
            i <= chars@.len(),
            forall|j: int| 0 <= j < i ==> chars@[j] == expected@[j],
        decreases chars@.len() - i,
    {
        if chars[i] != expected[i] {
            return false;
        }
        i = i + 1;
    }
    proof {
        assert(chars@ =~= expected@);
    }
    true
}

fn starts_with_hex_prefix(chars: &Vec<char>) -> (result: bool)
    ensures
        result == has_hex_prefix(chars@),
{
    chars.len() >= 2 && chars[0] == '0' && chars[1] == 'x'
}

/// Reads an X11 window id; see [`x11_window_id`].
pub fn parse_window_id(value: &str) -> (id: Result<u32, TargetError>)
    ensures
        id == match x11_window_id(value@) {
            Some(n) => Ok::<u32, TargetError>(n as u32),
            None => Err(TargetError::InvalidWindowId),
        },
{
    let raw = chars_of(value);
    let text = trim_chars(raw.as_slice());
    let parsed = if starts_with_hex_prefix(&text) {
        let digits = slice_chars(text.as_slice(), 2, text.len());
        proof {
            assert(digits@ =~= text@.skip(2));
        }
        parse_unsigned(digits.as_slice(), 16, u32::MAX as u64)
    } else {
        parse_unsigned(text.as_slice(), 10, u32::MAX as u64)
    };
    match parsed {
        Some(n) => Ok(n as u32),
        None => Err(TargetError::InvalidWindowId),
    }
}

/// Strips every leading `0x`; see [`without_hex_prefixes`].
fn strip_hex_prefixes(chars: &Vec<char>) -> (rest: Vec<char>)
    ensures
        rest@ == without_hex_prefixes(chars@),
{
    let mut start: usize = 0;
    assert(chars@.skip(0) =~= chars@);
    while chars.len() - start >= 2 && chars[start] == '0' && chars[start + 1] == 'x'
        invariant
            start <= chars@.len(),
            without_hex_prefixes(chars@) == without_hex_prefixes(chars@.skip(start as int)),
        decreases chars@.len() - start,
    {
        proof {
            assert(chars@.skip(start as int).skip(2) =~= chars@.skip(start + 2));
            assert(has_hex_prefix(chars@.skip(start as int)));
        }
        start = start + 2;
    }
    let rest = slice_chars(chars.as_slice(), start, chars.len());
    proof {
        assert(rest@ =~= chars@.skip(start as int));
        assert(!has_hex_prefix(rest@));
    }
    rest
}

/// The window handle that a capture target designates on `platform`: the
/// target kind must be the platform's own, and its value must be a window
/// id in the platform's notation (see [`window_handle`]).
pub fn open_window_source(platform: Platform, kind: &str, value: &str) -> (handle: Result<WindowHandle, TargetError>)
    ensures
        handle == window_handle(platform, kind@, value@),
{
    let kind_chars = chars_of(kind);
    match platform {
        Platform::Linux => {
            if !same_chars(&kind_chars, &['x', '1', '1', '-', 'w', 'i', 'n', 'd', 'o', 'w']) {
                return Err(TargetError::UnsupportedKind);
            }
            match parse_window_id(value) {
                Ok(id) => Ok(WindowHandle::X11(id)),
                Err(error) => Err(error),
            }
        },
        Platform::Macos => {
            if !same_chars(
                &kind_chars,
                &['m', 'a', 'c', 'o', 's', '-', 'c', 'g', 'w', 'i', 'n', 'd', 'o', 'w'],
            ) {
                return Err(TargetError::UnsupportedKind);
            }
            let digits = chars_of(value);
            match parse_unsigned(digits.as_slice(), 10, u32::MAX as u64) {
                Some(id) => Ok(WindowHandle::CgWindow(id as u32)),
                None => Err(TargetError::InvalidWindowId),
            }
        },
        Platform::Windows => {
            if !same_chars(
                &kind_chars,
                &['w', 'i', 'n', 'd', 'o', 'w', 's', '-', 'h', 'w', 'n', 'd'],
            ) {
                return Err(TargetError::UnsupportedKind);
            }
            let raw = chars_of(value);
            let digits = strip_hex_prefixes(&raw);
            match parse_unsigned(digits.as_slice(), 16, usize::MAX as u64) {
                Some(id) => Ok(WindowHandle::Hwnd(id as usize)),
                None => Err(TargetError::InvalidWindowId),
            }
        },
    }
}

/// How the X11 backend writes a window id: `0x` and lower-case hexadecimal.
pub open spec fn x11_window_label(window: u32) -> Seq<char> {
    hex_prefix() + digits(window as nat, 16, false)
}

/// How the Windows backend writes a window handle: `0x` and upper-case
/// hexadecimal.
pub open spec fn hwnd_label(handle: usize) -> Seq<char> {
    hex_prefix() + digits(handle as nat, 16, true)
}

/// The id under which the X11 backend lists `window`.
pub fn x11_window_label_of(window: u32) -> (label: String)
    ensures
        label@ == x11_window_label(window),
{
    let mut chars: Vec<char> = Vec::new();
    chars.push('0');
    chars.push('x');
    let digits = format_digits(window as u64, 16, false);
    let mut i: usize = 0;
    while i < digits.len()
        invariant
            i <= digits@.len(),
            chars@ == hex_prefix() + digits@.take(i as int),
        decreases digits@.len() - i,
    {
        chars.push(digits[i]);
        proof {
            assert(chars@ =~= hex_prefix() + digits@.take(i + 1));
        }
        i = i + 1;
    }
    proof {
        assert(digits@.take(digits@.len() as int) =~= digits@);
    }
    string_of(chars.as_slice())
}

/// The id under which the Windows backend lists the window `handle`.
pub fn hwnd_label_of(handle: usize) -> (label: String)
    ensures
        label@ == hwnd_label(handle),
{
    let mut chars: Vec<char> = Vec::new();
    chars.push('0');
    chars.push('x');
    let digits = format_digits(handle as u64, 16, true);
    let mut i: usize = 0;
    while i < digits.len()
        invariant
            i <= digits@.len(),
            chars@ == hex_prefix() + digits@.take(i as int),
        decreases digits@.len() - i,
    {
        chars.push(digits[i]);
        proof {
            assert(chars@ =~= hex_prefix() + digits@.take(i + 1));
        }
        i = i + 1;
    }
    proof {
        assert(digits@.take(digits@.len() as int) =~= digits@);
    }
    string_of(chars.as_slice())
}

/// An X11 window id as the X11 backend writes it reads back as the same
/// window.
pub proof fn lemma_x11_label_read_back(window: u32)
    ensures
        x11_window_id(x11_window_label(window)) == Some(window as nat),
        window_handle(Platform::Linux, x11_kind(), x11_window_label(window)) == Ok::<
            WindowHandle,
            TargetError,
        >(WindowHandle::X11(window)),
{
    let d = digits(window as nat, 16, false);
    let label = x11_window_label(window);
    lemma_digits_read_back(window as nat, 16, false);
    lemma_digit_not_whitespace(d.last(), 16);
    assert(label.last() == d.last());
    lemma_trimmed_unchanged(label);
    assert(label.skip(2) =~= d);
    assert(zero_padded(d, 0) == d);
    lemma_padded_digits_parse(window as nat, 16, false, 0, u32::MAX as nat);
}

/// An X11 window id reads back as the same window whether it is written in
/// decimal or as the X11 backend's `0x` label, with any whitespace around
/// it.
pub proof fn lemma_x11_ids_read_back(window: u32, before: Seq<char>, after: Seq<char>)
    requires
        is_blank(before),
        is_blank(after),
    ensures
        x11_window_id(before + x11_window_label(window) + after) == Some(window as nat),
        x11_window_id(before + digits(window as nat, 10, false) + after) == Some(window as nat),
{
    let hex = digits(window as nat, 16, false);
    let label = x11_window_label(window);
    lemma_digits_read_back(window as nat, 16, false);
    lemma_digit_not_whitespace(hex.last(), 16);
    assert(label.last() == hex.last());
    lemma_trimmed_padding(before, label, after);
    assert(label.skip(2) =~= hex);
    assert(zero_padded(hex, 0) == hex);
    lemma_padded_digits_parse(window as nat, 16, false, 0, u32::MAX as nat);

    let dec = digits(window as nat, 10, false);
    lemma_digits_read_back(window as nat, 10, false);
    lemma_digit_not_whitespace(dec[0], 10);
    lemma_digit_not_whitespace(dec.last(), 10);
    lemma_trimmed_padding(before, dec, after);
    if dec.len() >= 2 {
        assert(digit_value(dec[1], 10) is Some);
    }
    assert(!has_hex_prefix(dec));
    assert(zero_padded(dec, 0) == dec);
    lemma_padded_digits_parse(window as nat, 10, false, 0, u32::MAX as nat);
}

/// A window handle as the Windows backend writes it reads back as the same
/// handle.
pub proof fn lemma_hwnd_label_read_back(handle: usize)
    ensures
        window_handle(Platform::Windows, windows_kind(), hwnd_label(handle)) == Ok::<
            WindowHandle,
            TargetError,
        >(WindowHandle::Hwnd(handle)),
{
    let d = digits(handle as nat, 16, true);
    let label = hwnd_label(handle);
    lemma_digits_read_back(handle as nat, 16, true);
    lemma_digits_leading_zero(handle as nat, 16, true);
    assert(label.skip(2) =~= d);
    assert(!has_hex_prefix(d));
    assert(without_hex_prefixes(d) == d);
    assert(without_hex_prefixes(label) == d);
    assert(zero_padded(d, 0) == d);
    lemma_padded_digits_parse(handle as nat, 16, true, 0, usize::MAX as nat);
}

} // verus!
