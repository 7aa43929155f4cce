use oxidase::dom::{Document, Element};
use oxidase::main_macro::{is_hosted_attr, is_launch_call, launch_rewrite, text_contains, LaunchForm};
use oxidase::runner::{button_label, is_interactive_mode, progress_width, runner_frame};

fn path(segments: &[&str]) -> Vec<String> {
    segments.iter().map(|s| s.to_string()).collect()
}

#[test]
fn test_mock_document_current() {
    // On non-wasm host without active mock, current() returns None
    assert!(Document::current().is_none());
}

#[test]
fn mock_handles() {
    assert_eq!(Document::mock(), Document::default());
    assert_eq!(Element::mock(), Element::default());
}

#[test]
fn launch_calls_are_recognised_by_last_segment() {
    assert!(is_launch_call(Some(&path(&["dioxus", "launch"]))));
    assert!(is_launch_call(Some(&path(&["launch"]))));
    assert!(is_launch_call(Some(&path(&["oxidase", "launch"]))));
    assert!(is_launch_call(Some(&path(&["my", "app", "launch"]))));
    assert!(!is_launch_call(Some(&path(&["dioxus", "launcher"]))));
    assert!(!is_launch_call(Some(&path(&[]))));
    assert!(!is_launch_call(None));
}

#[test]
fn hosted_attribute() {
    assert!(is_hosted_attr("hosted"));
    assert!(is_hosted_attr("foo"));
    assert!(is_hosted_attr("mode = native"));
    assert!(!is_hosted_attr(""));
    assert!(!is_hosted_attr("headless"));
    assert!(!is_hosted_attr("mode = headless"));
    assert!(text_contains("abc", ""));
    assert!(text_contains("abcabd", "abd"));
    assert!(!text_contains("ab", "abc"));
}

#[test]
fn launch_rewrite_forms() {
    let p = path(&["dioxus", "launch"]);
    // `#[main]` without arguments turns `dioxus::launch(app)` into this library's launch.
    assert_eq!(launch_rewrite(Some(&p), true, is_hosted_attr("")), Some(LaunchForm::Library));
    assert_eq!(launch_rewrite(Some(&p), true, true), Some(LaunchForm::Hosted));
    assert_eq!(launch_rewrite(Some(&p), false, false), None);
    assert_eq!(launch_rewrite(Some(&path(&["println"])), true, false), None);
}

#[test]
fn runner_mode_and_frames() {
    assert!(is_interactive_mode(&path(&["runner", "--interactive"]), false));
    assert!(is_interactive_mode(&path(&["runner"]), true));
    assert!(!is_interactive_mode(&path(&["runner", "--release"]), false));
    let f = runner_frame(0, false, false);
    assert_eq!((f.frame_count, f.log_frame, f.finished), (1, true, false));
    let f = runner_frame(19, false, false);
    assert_eq!((f.frame_count, f.log_frame, f.finished), (20, true, true));
    let f = runner_frame(19, true, false);
    assert!(!f.finished);
    let f = runner_frame(26, false, true);
    assert_eq!((f.frame_count, f.log_frame, f.finished), (27, false, false));
    let f = runner_frame(59, false, true);
    assert_eq!((f.frame_count, f.log_frame, f.finished), (60, true, false));
    let f = runner_frame(299, false, true);
    assert!(f.finished);
}

#[test]
fn test_main_macro_compiles_without_launch() {
    // A `#[main]` function whose body makes no launch call is left as it is.
    assert_eq!(launch_rewrite(Some(&path(&["println"])), true, is_hosted_attr("")), None);
    assert_eq!(launch_rewrite(None, false, is_hosted_attr("")), None);
    println!("no launch statement");
}

#[test]
fn test_main_macro_rewrites_dioxus_launch() {
    let _prefix = 42;
    assert_eq!(
        launch_rewrite(Some(&path(&["dioxus", "launch"])), true, is_hosted_attr("")),
        Some(LaunchForm::Library)
    );
}

#[test]
fn runner_button_label_and_progress() {
    assert_eq!(button_label(0), "Click to Test Event");
    assert_eq!(button_label(1), "Clicked 1 times");
    assert_eq!(button_label(12), "Clicked 12 times");
    assert_eq!(progress_width(0), 0);
    assert_eq!(progress_width(33), 99);
    assert_eq!(progress_width(34), 2);
}
