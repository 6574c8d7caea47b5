//! Reading small text settings: the lines of a text, the value of a
//! `KEY=value` or `key: value` line, the user's videos directory from the
//! XDG user-dirs file, the host triple reported by `rustc -vV`, and whether
//! a Cargo manifest declares a workspace.

use vstd::prelude::*;

use crate::platform::Platform;
use crate::text::{chars_of, slice_chars, string_of, trim_chars, trimmed};

verus! {

broadcast use vstd::string::group_string_axioms;

/// Length of the first line of `text`: the index of its first newline, or
/// its length.
pub open spec fn line_length(text: Seq<char>) -> nat
    decreases text.len(),
{
    if text.len() == 0 || text[0] == '\n' {
        0
    } else {
        1 + line_length(text.drop_first())
    }
}

proof fn lemma_line_length(text: Seq<char>, k: int)
    requires
        0 <= k <= text.len(),
        forall|i: int| 0 <= i < k ==> #[trigger] text[i] != '\n',
        k == text.len() || text[k] == '\n',
    ensures
        line_length(text) == k,
    decreases k,
{
    if k > 0 {
        lemma_line_length(text.drop_first(), k - 1);
    }
}

pub proof fn lemma_line_length_bound(text: Seq<char>)
    ensures
        line_length(text) <= text.len(),
    decreases text.len(),
{
    if text.len() > 0 && text[0] != '\n' {
        lemma_line_length_bound(text.drop_first());
    }
}

/// A line without its line ending: a carriage return before the newline
/// belongs to the ending.
pub open spec fn line_body(raw: Seq<char>, terminated: bool) -> Seq<char> {
    if terminated && raw.len() > 0 && raw.last() == '\r' {
        raw.drop_last()
    } else {
        raw
    }
}

/// The lines of `text`, as `str::lines`: split after each newline, without
/// the line endings (`\n` or `\r\n`); a final empty line is not a line.
pub open spec fn text_lines(text: Seq<char>) -> Seq<Seq<char>>
    decreases text.len(),
{
    if text.len() == 0 {
        Seq::empty()
    } else {
        let end = line_length(text) as int;
        proof {
            lemma_line_length_bound(text);
        }
        if end < text.len() {
            seq![line_body(text.take(end), true)] + text_lines(text.skip(end + 1))
        } else {
            seq![line_body(text, false)]
        }
    }
}

/// The lines of `text`; see [`text_lines`].
pub fn lines_of(text: &str) -> (lines: Vec<Vec<char>>)
    ensures
        lines@.map_values(|line: Vec<char>| line@) == text_lines(text@),
{
    let chars = chars_of(text);
    let size = chars.len();
    let mut lines: Vec<Vec<char>> = Vec::new();
    let mut start: usize = 0;
    proof {
        assert(chars@.skip(0) =~= chars@);
        assert(lines@.map_values(|line: Vec<char>| line@) =~= Seq::<Seq<char>>::empty());
        assert(Seq::<Seq<char>>::empty() + text_lines(chars@) =~= text_lines(chars@));
    }
    while start < size
        invariant
            size == chars@.len(),
            chars@ == text@,
            start <= size,
            text_lines(chars@) == lines@.map_values(|line: Vec<char>| line@) + text_lines(
                chars@.skip(start as int),
            ),
        decreases size - start,
    {
        let ghost rest = chars@.skip(start as int);
        let mut end: usize = start;
        while end < size && chars[end] != '\n'
            invariant
                start <= end <= size,
                size == chars@.len(),
                forall|i: int| start <= i < end ==> #[trigger] chars@[i] != '\n',
            decreases size - end,
        {
            end = end + 1;
        }
        proof {
            assert forall|i: int| 0 <= i < end - start implies #[trigger] rest[i] != '\n' by {
                assert(rest[i] == chars@[start + i]);
            }
            if end < size {
                assert(rest[end - start] == chars@[end as int]);
            }
            lemma_line_length(rest, end - start);
        }
        let terminated = end < size;
        let line_end = if terminated && end > start && chars[end - 1] == '\r' { end - 1 } else { end };
        let line = slice_chars(chars.as_slice(), start, line_end);
        let ghost before = lines@.map_values(|line: Vec<char>| line@);
        lines.push(line);
        proof {
            assert(rest.take(end - start) =~= chars@.subrange(start as int, end as int));
            assert(line@ == line_body(rest.take(end - start), terminated)) by {
                if terminated && end > start && chars@[end - 1] == '\r' {
                    assert(line@ =~= chars@.subrange(start as int, end as int).drop_last());
                }
            }
            assert(lines@.map_values(|line: Vec<char>| line@) =~= before.push(line@));
        }
        if terminated {
            proof {
                assert(rest.skip(end - start + 1) =~= chars@.skip(end + 1));
                assert(before.push(line@) + text_lines(chars@.skip(end + 1)) =~= before + (seq![line@]
                    + text_lines(chars@.skip(end + 1))));
            }
            start = end + 1;
        } else {
            proof {
                assert(chars@.skip(size as int) =~= Seq::<char>::empty());
                assert(before.push(line@) + text_lines(chars@.skip(size as int)) =~= before + seq![line@]);
            }
            start = size;
        }
    }
    proof {
        assert(chars@.skip(size as int) =~= Seq::<char>::empty());
        assert(lines@.map_values(|line: Vec<char>| line@) + Seq::<Seq<char>>::empty()
            =~= lines@.map_values(|line: Vec<char>| line@));
    }
    lines
}

/// The rest of the first of `lines` that starts with `prefix`, as
/// `lines().find_map(|line| line.strip_prefix(prefix))`.
pub open spec fn prefixed_value(lines: Seq<Seq<char>>, prefix: Seq<char>) -> Option<Seq<char>>
    decreases lines.len(),
{
    if lines.len() == 0 {
        None
    } else if lines[0].len() >= prefix.len() && lines[0].take(prefix.len() as int) == prefix {
        Some(lines[0].skip(prefix.len() as int))
    } else {
        prefixed_value(lines.drop_first(), prefix)
    }
}

fn starts_with(line: &Vec<char>, prefix: &[char]) -> (result: bool)
    ensures
        result == (line@.len() >= prefix@.len() && line@.take(prefix@.len() as int) == prefix@),
{
    if line.len() < prefix.len() {
        return false;
    }
    let mut i: usize = 0;
    while i < prefix.len()
        invariant
            i <= prefix@.len() <= line@.len(),
            forall|j: int| 0 <= j < i ==> line@[j] == prefix@[j],
        decreases prefix@.len() - i,
    {
        if line[i] != prefix[i] {
            proof {
                assert(line@.take(prefix@.len() as int)[i as int] != prefix@[i as int]);
            }
            return false;
        }
        i = i + 1;
    }
    proof {
        assert(line@.take(prefix@.len() as int) =~= prefix@);
    }
    true
}

/// Finds the value of the first line of `text` that starts with `prefix`;
/// see [`prefixed_value`].
pub fn find_prefixed_value(text: &str, prefix: &[char]) -> (value: Option<Vec<char>>)
    ensures
        value is Some <==> prefixed_value(text_lines(text@), prefix@) is Some,
        value matches Some(v) ==> Some(v@) == prefixed_value(text_lines(text@), prefix@),
{
    let lines = lines_of(text);
    let ghost all = lines@.map_values(|line: Vec<char>| line@);
    let mut i: usize = 0;
    assert(all.skip(0) =~= all);
    while i < lines.len()
        invariant
            all == lines@.map_values(|line: Vec<char>| line@),
            all == text_lines(text@),
            i <= lines@.len(),
            prefixed_value(all, prefix@) == prefixed_value(all.skip(i as int), prefix@),
        decreases lines@.len() - i,
    {
        proof {
            assert(all.skip(i as int)[0] == lines@[i as int]@);
            assert(all.skip(i as int).drop_first() =~= all.skip(i + 1));
        }
        if starts_with(&lines[i], prefix) {
            let size = lines[i].len();
            let value = slice_chars(lines[i].as_slice(), prefix.len(), size);
            proof {
                assert(value@ =~= lines@[i as int]@.skip(prefix@.len() as int));
            }
            return Some(value);
        }
        i = i + 1;
    }
    None
}

/// The host triple that `rustc -vV` reports on its `host: ` line.
pub open spec fn host_triple_in(output: Seq<char>) -> Option<Seq<char>> {
    prefixed_value(text_lines(output), "host: "@)
}

/// Reads the host triple from the output of `rustc -vV`.
pub fn host_triple(output: &str) -> (triple: Option<String>)
    ensures
        triple is Some <==> host_triple_in(output@) is Some,
        triple matches Some(t) ==> Some(t@) == host_triple_in(output@),
{
    let prefix = ['h', 'o', 's', 't', ':', ' '];
    proof {
        reveal_strlit("host: ");
        assert(prefix@ =~= "host: "@);
    }
    match find_prefixed_value(output, &prefix) {
        Some(value) => Some(string_of(value.as_slice())),
        None => None,
    }
}

/// Whether some line of a Cargo manifest is `[workspace]` once trimmed.
pub open spec fn declares_workspace(manifest: Seq<char>) -> bool {
    exists|i: int| 0 <= i < text_lines(manifest).len() && #[trigger] trimmed(text_lines(manifest)[i]) == "[workspace]"@
}

/// Whether a Cargo manifest declares a workspace; see [`declares_workspace`].
pub fn is_workspace_manifest(manifest: &str) -> (declares: bool)
    ensures
        declares == declares_workspace(manifest@),
{
    let lines = lines_of(manifest);
    let ghost all = lines@.map_values(|line: Vec<char>| line@);
    let marker = ['[', 'w', 'o', 'r', 'k', 's', 'p', 'a', 'c', 'e', ']'];
    proof {
        reveal_strlit("[workspace]");
        assert(marker@ =~= "[workspace]"@);
    }
    let mut i: usize = 0;
    while i < lines.len()
        invariant
            all == lines@.map_values(|line: Vec<char>| line@),
            all == text_lines(manifest@),
            marker@ == "[workspace]"@,
            i <= lines@.len(),
            forall|j: int| 0 <= j < i ==> #[trigger] trimmed(all[j]) != "[workspace]"@,
        decreases lines@.len() - i,
    {
        let line = trim_chars(lines[i].as_slice());
        if same(&line, &marker) {
            proof {
                assert(all[i as int] == lines@[i as int]@);
            }
            return true;
        }
        i = i + 1;
    }
    false
}

fn same(chars: &Vec<char>, expected: &[char]) -> (equal: bool)
    ensures
        equal == (chars@ == expected@),
{
    if chars.len() != expected.len() {
        return false;
    }
    let mut i: usize = 0;
    while i < chars.len()
        invariant
            chars@.len() == expected@.len(),
            i <= chars@.len(),
            forall|j: int| 0 <= j < i ==> chars@[j] == expected@[j],
        decreases chars@.len() - i,
    {
        if chars[i] != expected[i] {
            return false;
        }
        i = i + 1;
    }
    proof {
        assert(chars@ =~= expected@);
    }
    true
}

/// Number of leading characters of `text` equal to `c`.
pub open spec fn leading_count(text: Seq<char>, c: char) -> nat
    decreases text.len(),
{
    if text.len() > 0 && text[0] == c {
        1 + leading_count(text.drop_first(), c)
    } else {
        0
    }
}

/// Number of trailing characters of `text` equal to `c`.
pub open spec fn trailing_count(text: Seq<char>, c: char) -> nat
    decreases text.len(),
{
    if text.len() > 0 && text.last() == c {
        1 + trailing_count(text.drop_last(), c)
    } else {
        0
    }
}

/// `text` without leading and trailing `c`, as `str::trim_matches(c)`.
pub open spec fn trim_char(text: Seq<char>, c: char) -> Seq<char> {
    let rest = text.skip(leading_count(text, c) as int);
    rest.take(rest.len() - trailing_count(rest, c))
}

proof fn lemma_leading_count(text: Seq<char>, c: char, k: int)
    requires
        0 <= k <= text.len(),
        forall|i: int| 0 <= i < k ==> #[trigger] text[i] == c,
        k == text.len() || text[k] != c,
    ensures
        leading_count(text, c) == k,
    decreases k,
{
    if k > 0 {
        lemma_leading_count(text.drop_first(), c, k - 1);
    }
}

proof fn lemma_trailing_count(text: Seq<char>, c: char, k: int)
    requires
        0 <= k <= text.len(),
        forall|i: int| text.len() - k <= i < text.len() ==> #[trigger] text[i] == c,
        k == text.len() || text[text.len() - k - 1] != c,
    ensures
        trailing_count(text, c) == k,
    decreases k,
{
    if k > 0 {
        let shorter = text.drop_last();
        assert forall|i: int| shorter.len() - (k - 1) <= i < shorter.len() implies #[trigger] shorter[i] == c by {
            assert(shorter[i] == text[i]);
        }
        lemma_trailing_count(shorter, c, k - 1);
    }
}

fn trim_char_exec(text: &Vec<char>, c: char) -> (result: Vec<char>)
    ensures
        result@ == trim_char(text@, c),
{
    let size = text.len();
    let mut start: usize = 0;
    while start < size && text[start] == c
        invariant
            size == text@.len(),
            start <= size,
            forall|i: int| 0 <= i < start ==> #[trigger] text@[i] == c,
        decreases size - start,
    {
        start = start + 1;
    }
    proof {
        lemma_leading_count(text@, c, start as int);
    }
    let ghost rest = text@.skip(start as int);
    let mut end: usize = size;
    while end > start && text[end - 1] == c
        invariant
            size == text@.len(),
            start <= end <= size,
            forall|i: int| end <= i < size ==> #[trigger] text@[i] == c,
        decreases end,
    {
        end = end - 1;
    }
    proof {
        assert forall|i: int| rest.len() - (size - end) <= i < rest.len() implies #[trigger] rest[i] == c by {
            assert(rest[i] == text@[start + i]);
        }
        if end > start {
            assert(rest[rest.len() - (size - end) - 1] == text@[end - 1]);
        }
        lemma_trailing_count(rest, c, size - end);
    }
    let result = slice_chars(text.as_slice(), start, end);
    proof {
        assert(result@ =~= trim_char(text@, c));
    }
    result
}

/// `text` with every occurrence of `pattern` replaced by `replacement`,
/// scanning left to right without overlaps, as `str::replace`.
pub open spec fn replaced_all(text: Seq<char>, pattern: Seq<char>, replacement: Seq<char>) -> Seq<char>
    decreases text.len(),
{
    if pattern.len() == 0 || text.len() < pattern.len() {
        text
    } else if text.take(pattern.len() as int) == pattern {
        replacement + replaced_all(text.skip(pattern.len() as int), pattern, replacement)
    } else {
        seq![text[0]] + replaced_all(text.drop_first(), pattern, replacement)
    }
}

fn matches_at(text: &Vec<char>, at: usize, pattern: &[char]) -> (found: bool)
    requires
        at <= text@.len(),
    ensures
        found == (text@.skip(at as int).len() >= pattern@.len() && text@.skip(at as int).take(
            pattern@.len() as int,
        ) == pattern@),
{
    if text.len() - at < pattern.len() {
        return false;
    }
    let mut i: usize = 0;
    while i < pattern.len()
        invariant
            at + pattern@.len() <= text.len(),
            i <= pattern@.len(),
            forall|j: int| 0 <= j < i ==> text@[at + j] == pattern@[j],
        decreases pattern@.len() - i,
    {
        if text[at + i] != pattern[i] {
            proof {
                assert(text@.skip(at as int).take(pattern@.len() as int)[i as int] == text@[at + i]);
            }
            return false;
        }
        i = i + 1;
    }
    proof {
        assert(text@.skip(at as int).take(pattern@.len() as int) =~= pattern@);
    }
    true
}

fn replace_all_exec(text: &Vec<char>, pattern: &[char], replacement: &[char]) -> (result: Vec<char>)
    requires
        pattern@.len() > 0,
    ensures
        result@ == replaced_all(text@, pattern@, replacement@),
{
    let size = text.len();
    let mut result: Vec<char> = Vec::new();
    let mut i: usize = 0;
    proof {
        assert(text@.skip(0) =~= text@);
        assert(Seq::<char>::empty() + replaced_all(text@, pattern@, replacement@) =~= replaced_all(text@, pattern@, replacement@));
    }
    while i < size
        invariant
            size == text@.len(),
            pattern@.len() > 0,
            i <= size,
            replaced_all(text@, pattern@, replacement@) == result@ + replaced_all(
                text@.skip(i as int),
                pattern@,
                replacement@,
            ),
        decreases size - i,
    {
        let ghost rest = text@.skip(i as int);
        let ghost before = result@;
        if matches_at(text, i, pattern) {
            let mut k: usize = 0;
            while k < replacement.len()
                invariant
                    k <= replacement@.len(),
                    result@ == before + replacement@.take(k as int),
                decreases replacement@.len() - k,
            {
                result.push(replacement[k]);
                proof {
                    assert(result@ =~= before + replacement@.take(k + 1));
                }
                k = k + 1;
            }
            proof {
                assert(replacement@.take(replacement@.len() as int) =~= replacement@);
                assert(rest.skip(pattern@.len() as int) =~= text@.skip(i + pattern@.len()));
                assert(before + (replacement@ + replaced_all(text@.skip(i + pattern@.len()), pattern@, replacement@))
                    =~= result@ + replaced_all(text@.skip(i + pattern@.len()), pattern@, replacement@));
            }
            i = i + pattern.len();
        } else {
            result.push(text[i]);
            proof {
                assert(rest[0] == text@[i as int]);
                assert(rest.drop_first() =~= text@.skip(i + 1));
                assert(before + (seq![text@[i as int]] + replaced_all(text@.skip(i + 1), pattern@, replacement@))
                    =~= result@ + replaced_all(text@.skip(i + 1), pattern@, replacement@));
            }
            i = i + 1;
        }
    }
    proof {
        assert(text@.skip(size as int) =~= Seq::<char>::empty());
        assert(result@ + Seq::<char>::empty() =~= result@);
    }
    result
}

/// The videos directory an XDG `user-dirs.dirs` file names: the value of
/// its first `XDG_VIDEOS_DIR=` line without surrounding quotes, with each
/// `$HOME` replaced by the home directory.
pub open spec fn videos_directory_in(content: Seq<char>, home: Seq<char>) -> Option<Seq<char>> {
    match prefixed_value(text_lines(content), "XDG_VIDEOS_DIR="@) {
        Some(value) => Some(replaced_all(trim_char(value, '"'), "$HOME"@, home)),
        None => None,
    }
}

/// Reads the videos directory from an XDG `user-dirs.dirs` file; see
/// [`videos_directory_in`].
pub fn videos_directory(content: &str, home: &str) -> (directory: Option<String>)
    ensures
        directory is Some <==> videos_directory_in(content@, home@) is Some,
        directory matches Some(d) ==> Some(d@) == videos_directory_in(content@, home@),
{
    let key = ['X', 'D', 'G', '_', 'V', 'I', 'D', 'E', 'O', 'S', '_', 'D', 'I', 'R', '='];
    let variable = ['$', 'H', 'O', 'M', 'E'];
    proof {
        reveal_strlit("XDG_VIDEOS_DIR=");
        reveal_strlit("$HOME");
        assert(key@ =~= "XDG_VIDEOS_DIR="@);
        assert(variable@ =~= "$HOME"@);
    }
    match find_prefixed_value(content, &key) {
        None => None,
        Some(value) => {
            let unquoted = trim_char_exec(&value, '"');
            let home_chars = chars_of(home);
            let replaced = replace_all_exec(&unquoted, &variable, home_chars.as_slice());
            Some(string_of(replaced.as_slice()))
        },
    }
}

/// The text an optional string holds, if any.
pub open spec fn optional_text(value: Option<String>) -> Option<Seq<char>> {
    match value {
        Some(text) => Some(text@),
        None => None,
    }
}

/// Where a new capture's output directory goes by default, as a base
/// directory and a relative path below it: `Videos/OmniInlet` in the user
/// profile on Windows, `Movies/OmniInlet` in the home directory on macOS,
/// and on Linux `OmniInlet` in the XDG videos directory, or else
/// `Videos/OmniInlet` in the home directory.
pub open spec fn default_output_location(
    platform: Platform,
    user_profile: Option<Seq<char>>,
    home: Option<Seq<char>>,
    videos_directory: Option<Seq<char>>,
) -> Option<(Seq<char>, Seq<char>)> {
    match platform {
        Platform::Windows => match user_profile {
            Some(base) => Some((base, "Videos/OmniInlet"@)),
            None => None,
        },
        Platform::Macos => match home {
            Some(base) => Some((base, "Movies/OmniInlet"@)),
            None => None,
        },
        Platform::Linux => match videos_directory {
            Some(base) => Some((base, "OmniInlet"@)),
            None => match home {
                Some(base) => Some((base, "Videos/OmniInlet"@)),
                None => None,
            },
        },
    }
}

/// The default output location; see [`default_output_location`].
pub fn default_output_directory(
    platform: Platform,
    user_profile: Option<String>,
    home: Option<String>,
    videos_directory: Option<String>,
) -> (location: Option<(String, &'static str)>)
    ensures
        location is Some <==> default_output_location(
            platform,
            optional_text(user_profile),
            optional_text(home),
            optional_text(videos_directory),
        ) is Some,
        location matches Some((base, relative)) ==> Some((base@, relative@)) == default_output_location(
            platform,
            optional_text(user_profile),
            optional_text(home),
            optional_text(videos_directory),
        ),
{
    match platform {
        Platform::Windows => match user_profile {
            Some(base) => Some((base, "Videos/OmniInlet")),
            None => None,
        },
        Platform::Macos => match home {
            Some(base) => Some((base, "Movies/OmniInlet")),
            None => None,
        },
        Platform::Linux => match videos_directory {
            Some(base) => Some((base, "OmniInlet")),
            None => match home {
                Some(base) => Some((base, "Videos/OmniInlet")),
                None => None,
            },
        },
    }
}

/// The directory that holds agent leases, as a base directory and path
/// components below it: the local application data directory on Windows,
/// `Library/Application Support` in the home directory on macOS, and on
/// Linux the runtime directory, else the cache directory, else `.cache` in
/// the home directory; below it `omni-inlet` on Linux and `OmniInlet`
/// elsewhere, then `runtime/agents`.
pub open spec fn agents_location(
    platform: Platform,
    local_app_data: Option<Seq<char>>,
    home: Option<Seq<char>>,
    runtime_dir: Option<Seq<char>>,
    cache_home: Option<Seq<char>>,
) -> Option<(Seq<char>, Seq<Seq<char>>)> {
    let base: Option<(Seq<char>, Seq<Seq<char>>)> = match platform {
        Platform::Windows => match local_app_data {
            Some(dir) => Some((dir, Seq::empty())),
            None => None,
        },
        Platform::Macos => match home {
            Some(dir) => Some((dir, seq!["Library/Application Support"@])),
            None => None,
        },
        Platform::Linux => match runtime_dir {
            Some(dir) => Some((dir, Seq::empty())),
            None => match cache_home {
                Some(dir) => Some((dir, Seq::empty())),
                None => match home {
                    Some(dir) => Some((dir, seq![".cache"@])),
                    None => None,
                },
            },
        },
    };
    let product = if platform == Platform::Linux { "omni-inlet"@ } else { "OmniInlet"@ };
    match base {
        Some((dir, parts)) => Some((dir, parts + seq![product, "runtime/agents"@])),
        None => None,
    }
}

/// The agents directory; see [`agents_location`].
pub fn agents_directory(
    platform: Platform,
    local_app_data: Option<String>,
    home: Option<String>,
    runtime_dir: Option<String>,
    cache_home: Option<String>,
) -> (location: Option<(String, Vec<&'static str>)>)
    ensures
        location is Some <==> agents_location(
            platform,
            optional_text(local_app_data),
            optional_text(home),
            optional_text(runtime_dir),
            optional_text(cache_home),
        ) is Some,
        location matches Some((base, parts)) ==> Some(
            (base@, parts@.map_values(|part: &'static str| part@)),
        ) == agents_location(
            platform,
            optional_text(local_app_data),
            optional_text(home),
            optional_text(runtime_dir),
            optional_text(cache_home),
        ),
{
    let mut parts: Vec<&'static str> = Vec::new();
    let base = match platform {
        Platform::Windows => local_app_data,
        Platform::Macos => {
            parts.push("Library/Application Support");
            home
        },
        Platform::Linux => match runtime_dir {
            Some(dir) => Some(dir),
            None => match cache_home {
                Some(dir) => Some(dir),
                None => {
                    parts.push(".cache");
                    home
                },
            },
        },
    };
    match base {
        None => None,
        Some(dir) => {
            let product = match platform {
                Platform::Linux => "omni-inlet",
                _ => "OmniInlet",
            };
            parts.push(product);
            parts.push("runtime/agents");
            proof {
                let expected = agents_location(
                    platform,
                    optional_text(local_app_data),
                    optional_text(home),
                    optional_text(runtime_dir),
                    optional_text(cache_home),
                );
                let expected_parts = expected.unwrap().1;
                assert(parts@.map_values(|part: &'static str| part@) =~= expected_parts);
            }
            Some((dir, parts))
        },
    }
}

} // verus!
