use tool_runner::identity::{strip_suffix_any_case, Platform, Runner, DISPATCHER_NAME};

fn windows() -> Platform {
    Platform {
        exe_suffix: ".exe".to_string(),
        windows_paths: true,
    }
}

fn unix() -> Platform {
    Platform {
        exe_suffix: String::new(),
        windows_paths: false,
    }
}

fn name_of(arg0: &str, platform: &Platform) -> String {
    Runner::new(arg0, platform).expect("a file name").exe_name().to_string()
}

#[test]
fn lowercase_suffix_is_removed() {
    assert_eq!(name_of("tool.exe", &windows()), "tool");
}

#[test]
fn uppercase_suffix_is_removed() {
    assert_eq!(name_of("Tool.EXE", &windows()), "Tool");
}

#[test]
fn mixed_case_suffix_is_kept() {
    assert_eq!(name_of("Tool.Exe", &windows()), "Tool.Exe");
}

#[test]
fn uppercase_and_lowercase_invocations_agree() {
    assert_eq!(name_of("mytool.EXE", &windows()), "mytool");
    assert_eq!(
        name_of("mytool.EXE", &windows()),
        name_of("mytool.exe", &windows())
    );
}

#[test]
fn name_without_suffix_is_unchanged() {
    assert_eq!(name_of("mytool", &windows()), "mytool");
}

#[test]
fn suffix_only_in_the_middle_is_kept() {
    assert_eq!(name_of("a.exe.b", &windows()), "a.exe.b");
}

#[test]
fn no_suffix_on_platform_without_one() {
    assert_eq!(name_of("tool.exe", &unix()), "tool.exe");
}

#[test]
fn directories_are_dropped() {
    assert_eq!(name_of("/usr/local/bin/mytool", &unix()), "mytool");
    assert_eq!(name_of("./mytool", &unix()), "mytool");
}

#[test]
fn windows_directories_are_dropped() {
    assert_eq!(name_of("C:\\tools\\bin\\mytool.exe", &windows()), "mytool");
    assert_eq!(name_of("C:/tools/mytool.EXE", &windows()), "mytool");
}

#[test]
fn backslash_is_a_name_character_on_unix() {
    assert_eq!(name_of("dir/a\\b", &unix()), "a\\b");
}

#[test]
fn no_file_name_gives_no_identity() {
    assert!(Runner::new("", &unix()).is_none());
    assert!(Runner::new("/", &unix()).is_none());
    assert!(Runner::new("bin/..", &unix()).is_none());
    assert!(Runner::new("bin/../", &unix()).is_none());
    assert!(Runner::new(".", &unix()).is_none());
    assert!(Runner::new("./", &unix()).is_none());
    assert!(Runner::new("..", &unix()).is_none());
}

#[test]
fn trailing_separators_are_skipped() {
    assert_eq!(name_of("bin/", &unix()), "bin");
    assert_eq!(name_of("bin/tool/", &unix()), "tool");
    assert_eq!(name_of("/usr/bin/", &unix()), "bin");
    assert_eq!(name_of("bin//tool//", &unix()), "tool");
    assert_eq!(name_of("C:\\tools\\", &windows()), "tools");
}

#[test]
fn current_directory_parts_are_skipped() {
    assert_eq!(name_of("bin/tool/.", &unix()), "tool");
    assert_eq!(name_of("bin/tool/./", &unix()), "tool");
    assert_eq!(name_of("bin/tool.exe/.", &windows()), "tool");
}

#[test]
fn drive_prefix_is_no_name() {
    assert!(Runner::new("C:", &windows()).is_none());
    assert!(Runner::new("C:\\", &windows()).is_none());
    assert_eq!(name_of("C:tool.exe", &windows()), "tool");
    assert_eq!(name_of("d:mytool", &windows()), "mytool");
    assert_eq!(name_of("C:tool", &unix()), "C:tool");
    assert_eq!(name_of("1:tool", &windows()), "1:tool");
}

#[test]
fn dotted_names_are_files() {
    assert_eq!(name_of("bin/...", &unix()), "...");
    assert_eq!(name_of(".tool", &unix()), ".tool");
}

#[test]
fn strip_suffix_candidates_in_order() {
    assert_eq!(strip_suffix_any_case("x.exe", ".exe"), "x");
    assert_eq!(strip_suffix_any_case("x.EXE", ".exe"), "x");
    assert_eq!(strip_suffix_any_case("x.eXe", ".exe"), "x.eXe");
    assert_eq!(strip_suffix_any_case("x.exe", ".EXE"), "x");
    assert_eq!(strip_suffix_any_case("x.exe", ""), "x.exe");
    assert_eq!(strip_suffix_any_case("exe", ".exe"), "exe");
    assert_eq!(strip_suffix_any_case(".exe", ".exe"), "");
}

#[test]
fn own_name_does_not_run() {
    assert_eq!(DISPATCHER_NAME, "rokit");
    assert!(!Runner::new("rokit", &unix()).unwrap().should_run());
    assert!(!Runner::new("/home/u/.rokit/bin/rokit", &unix()).unwrap().should_run());
    assert!(!Runner::new("rokit.EXE", &windows()).unwrap().should_run());
}

#[test]
fn other_names_run() {
    assert!(Runner::new("mytool", &unix()).unwrap().should_run());
    assert!(Runner::new("Rokit", &unix()).unwrap().should_run());
    assert!(Runner::new("rokit2", &unix()).unwrap().should_run());
    assert!(Runner::new("rokit.exe", &unix()).unwrap().should_run());
}
