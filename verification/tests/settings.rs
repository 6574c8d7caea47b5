use capture_agent::platform::Platform;
use capture_agent::settings::{
    agents_directory, default_output_directory, find_prefixed_value, host_triple,
    is_workspace_manifest, lines_of, videos_directory,
};

fn text(chars: Vec<char>) -> String {
    chars.into_iter().collect()
}

#[test]
fn lines_drop_their_endings() {
    let lines: Vec<String> = lines_of("one\r\ntwo\n\nthree\n").into_iter().map(text).collect();
    assert_eq!(lines, vec!["one", "two", "", "three"]);
    let lines: Vec<String> = lines_of("last\r").into_iter().map(text).collect();
    assert_eq!(lines, vec!["last\r"]);
    assert!(lines_of("").is_empty());
}

#[test]
fn prefixed_values_come_from_the_first_matching_line() {
    let prefix: Vec<char> = "host: ".chars().collect();
    let value = find_prefixed_value("rustc 1.80\nhost: a\nhost: b\n", &prefix);
    assert_eq!(value.map(text), Some("a".to_string()));
    assert_eq!(find_prefixed_value("nothing here", &prefix), None);
}

#[test]
fn host_triple_is_read_from_rustc_output() {
    let output = "rustc 1.80.0\nbinary: rustc\nhost: x86_64-unknown-linux-gnu\nrelease: 1.80.0\n";
    assert_eq!(host_triple(output), Some("x86_64-unknown-linux-gnu".to_string()));
    assert_eq!(host_triple("rustc 1.80.0\n"), None);
}

#[test]
fn workspace_manifests_are_recognised() {
    assert!(is_workspace_manifest("[package]\nname = \"x\"\n\n  [workspace]  \nmembers = []\n"));
    assert!(!is_workspace_manifest("[package]\nname = \"workspace\"\n"));
}

#[test]
fn videos_directory_expands_home() {
    let content = "# comment\nXDG_DESKTOP_DIR=\"$HOME/Desktop\"\nXDG_VIDEOS_DIR=\"$HOME/Videos\"\n";
    assert_eq!(videos_directory(content, "/home/ada"), Some("/home/ada/Videos".to_string()));
    assert_eq!(videos_directory("XDG_MUSIC_DIR=\"$HOME/Music\"\n", "/home/ada"), None);
}

#[test]
fn default_output_directory_per_platform() {
    assert_eq!(
        default_output_directory(Platform::Windows, Some("C:/Users/ada".to_string()), None, None),
        Some(("C:/Users/ada".to_string(), "Videos/OmniInlet"))
    );
    assert_eq!(
        default_output_directory(Platform::Macos, None, Some("/Users/ada".to_string()), None),
        Some(("/Users/ada".to_string(), "Movies/OmniInlet"))
    );
    assert_eq!(
        default_output_directory(
            Platform::Linux,
            None,
            Some("/home/ada".to_string()),
            Some("/home/ada/Videos".to_string())
        ),
        Some(("/home/ada/Videos".to_string(), "OmniInlet"))
    );
    assert_eq!(
        default_output_directory(Platform::Linux, None, Some("/home/ada".to_string()), None),
        Some(("/home/ada".to_string(), "Videos/OmniInlet"))
    );
    assert_eq!(default_output_directory(Platform::Linux, None, None, None), None);
}

#[test]
fn agents_directory_per_platform() {
    assert_eq!(
        agents_directory(Platform::Linux, None, Some("/home/ada".to_string()), Some("/run/user/1000".to_string()), None),
        Some(("/run/user/1000".to_string(), vec!["omni-inlet", "runtime/agents"]))
    );
    assert_eq!(
        agents_directory(Platform::Linux, None, Some("/home/ada".to_string()), None, None),
        Some(("/home/ada".to_string(), vec![".cache", "omni-inlet", "runtime/agents"]))
    );
    assert_eq!(
        agents_directory(Platform::Macos, None, Some("/Users/ada".to_string()), None, None),
        Some(("/Users/ada".to_string(), vec!["Library/Application Support", "OmniInlet", "runtime/agents"]))
    );
    assert_eq!(
        agents_directory(Platform::Windows, Some("C:/Local".to_string()), None, None, None),
        Some(("C:/Local".to_string(), vec!["OmniInlet", "runtime/agents"]))
    );
    assert_eq!(agents_directory(Platform::Windows, None, Some("/x".to_string()), None, None), None);
}
