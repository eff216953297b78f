use luminliquid::text::append_decimal;
use luminliquid::window::maximize_window;
use luminliquid::window::multi_panel_window;
use luminliquid::window::recovery_window;
use luminliquid::window::WindowAction;
use luminliquid::window::WindowSizeMemory;

fn in_decimal(n: i64) -> String {
    let mut out = String::new();
    append_decimal(&mut out, n);
    out
}

#[test]
fn new_memory_holds_no_size() {
    assert_eq!(WindowSizeMemory::new().recall(), None);
}

#[test]
fn memory_holds_the_size_remembered_last() {
    let mut memory = WindowSizeMemory::new();
    memory.remember((800, 600));
    assert_eq!(memory.recall(), Some((800, 600)));
    memory.remember((1024, 768));
    assert_eq!(memory.recall(), Some((1024, 768)));
}

#[test]
fn maximize_remembers_the_size_and_maximizes() {
    let mut memory = WindowSizeMemory::new();
    let action = maximize_window(&mut memory, Some((1280, 720)), false);
    assert_eq!(action, WindowAction::Maximize);
    assert_eq!(memory.recall(), Some((1280, 720)));
}

#[test]
fn maximize_of_a_maximized_window_restores_it() {
    let mut memory = WindowSizeMemory::new();
    memory.remember((800, 600));
    let action = maximize_window(&mut memory, Some((1920, 1080)), true);
    assert_eq!(action, WindowAction::Unmaximize);
    assert_eq!(memory.recall(), Some((800, 600)));
}

#[test]
fn restoring_a_maximized_window_remembers_nothing_new() {
    let mut memory = WindowSizeMemory::new();
    assert_eq!(maximize_window(&mut memory, Some((1920, 1080)), true), WindowAction::Unmaximize);
    assert_eq!(memory.recall(), None);
}

#[test]
fn size_from_before_maximizing_survives_the_toggle() {
    let mut memory = WindowSizeMemory::new();
    assert_eq!(maximize_window(&mut memory, Some((1000, 700)), false), WindowAction::Maximize);
    assert_eq!(maximize_window(&mut memory, Some((1920, 1080)), true), WindowAction::Unmaximize);
    assert_eq!(recovery_window(&memory, (1920, 1080)), (1000, 700));
    assert_eq!(maximize_window(&mut memory, Some((900, 650)), false), WindowAction::Maximize);
    assert_eq!(recovery_window(&memory, (1920, 1080)), (900, 650));
}

#[test]
fn maximize_without_a_size_keeps_the_memory() {
    let mut memory = WindowSizeMemory::new();
    assert_eq!(maximize_window(&mut memory, None, false), WindowAction::Maximize);
    assert_eq!(memory.recall(), None);
    memory.remember((800, 600));
    assert_eq!(maximize_window(&mut memory, None, true), WindowAction::Unmaximize);
    assert_eq!(memory.recall(), Some((800, 600)));
}

#[test]
fn recovery_gives_the_remembered_size() {
    let mut memory = WindowSizeMemory::new();
    memory.remember((800, 600));
    assert_eq!(recovery_window(&memory, (1920, 1080)), (800, 600));
}

#[test]
fn recovery_without_memory_gives_the_present_size() {
    let memory = WindowSizeMemory::new();
    assert_eq!(recovery_window(&memory, (1920, 1080)), (1920, 1080));
}

#[test]
fn multi_panel_window_is_as_laid_down() {
    let window = multi_panel_window(1_700_000_000_123);
    assert_eq!(window.label, "multi_panel_1700000000123");
    assert_eq!(window.route, "/multi_panel");
    assert_eq!(window.title, "Luminliquid - Multi Panel Trading");
    assert_eq!((window.width, window.height), (1200, 800));
    assert_eq!((window.min_width, window.min_height), (800, 600));
    assert!(window.resizable);
    assert!(!window.decorations);
}

#[test]
fn multi_panel_label_takes_any_time() {
    assert_eq!(multi_panel_window(0).label, "multi_panel_0");
    assert_eq!(multi_panel_window(-1).label, "multi_panel_-1");
    assert_eq!(multi_panel_window(i64::MAX).label, "multi_panel_9223372036854775807");
    assert_eq!(multi_panel_window(i64::MIN).label, "multi_panel_-9223372036854775808");
}

#[test]
fn decimal_notation_agrees_with_the_standard_library() {
    for n in [0i64, 1, 9, 10, 11, 99, 100, 101, 1_000_000, -1, -9, -10, -12345, i64::MAX, i64::MIN, i64::MIN + 1] {
        assert_eq!(in_decimal(n), n.to_string());
    }
}

#[test]
fn decimal_notation_is_appended() {
    let mut out = "n = ".to_string();
    append_decimal(&mut out, -42);
    assert_eq!(out, "n = -42");
}
