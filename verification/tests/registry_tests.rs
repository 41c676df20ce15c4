use sagi::CompositorEvent;
use sagi::WindowRegistry;

fn reg(r: &mut WindowRegistry, class: &str, handle: u64, title: &str) {
    r.register(String::from(class), handle, String::from(title));
}

#[test]
fn scenario_register_then_promote() {
    let mut r = WindowRegistry::new();
    reg(&mut r, "firefox", 1, "Tab1");
    reg(&mut r, "firefox", 2, "Tab2");
    reg(&mut r, "kitty", 3, "term");

    let snap = r.snapshot();
    assert_eq!(snap.len(), 2);
    assert_eq!(snap[0].class, "firefox");
    assert_eq!(snap[0].windows.len(), 2);
    assert_eq!(snap[0].windows[0].handle, 1);
    assert_eq!(snap[0].windows[1].handle, 2);
    assert_eq!(snap[1].class, "kitty");
    assert_eq!(snap[1].windows.len(), 1);
    assert_eq!(snap[1].windows[0].handle, 3);

    assert!(r.promote(&String::from("kitty"), 3));
    let snap = r.snapshot();
    assert_eq!(snap.len(), 2);
    assert_eq!(snap[0].class, "kitty");
    assert_eq!(snap[0].windows.len(), 1);
    assert_eq!(snap[0].windows[0].handle, 3);
    assert_eq!(snap[1].class, "firefox");
    assert_eq!(snap[1].windows.len(), 2);
    assert_eq!(snap[1].windows[0].handle, 1);
    assert_eq!(snap[1].windows[1].handle, 2);
}

#[test]
fn unregister_twice_second_not_found() {
    let mut r = WindowRegistry::new();
    reg(&mut r, "firefox", 1, "Tab1");
    reg(&mut r, "kitty", 2, "term");

    assert!(r.unregister(1));
    let before = r.snapshot();
    assert!(!r.unregister(1));
    let after = r.snapshot();
    assert_eq!(before.len(), after.len());
    for (b, a) in before.iter().zip(after.iter()) {
        assert_eq!(b.class, a.class);
        assert_eq!(b.windows.len(), a.windows.len());
        for (wb, wa) in b.windows.iter().zip(a.windows.iter()) {
            assert_eq!(wb.handle, wa.handle);
            assert_eq!(wb.title, wa.title);
        }
    }
}

#[test]
fn unregister_last_window_removes_group() {
    let mut r = WindowRegistry::new();
    reg(&mut r, "firefox", 1, "Tab1");
    reg(&mut r, "kitty", 2, "term");
    assert!(r.unregister(2));
    let snap = r.snapshot();
    assert_eq!(snap.len(), 1);
    assert_eq!(snap[0].class, "firefox");
}

#[test]
fn groups_always_nonempty() {
    let mut r = WindowRegistry::new();
    reg(&mut r, "a", 1, "w1");
    reg(&mut r, "b", 2, "w2");
    reg(&mut r, "a", 3, "w3");
    r.unregister(1);
    r.unregister(2);
    r.unregister(99);
    reg(&mut r, "c", 4, "w4");
    r.unregister(3);
    for g in r.snapshot() {
        assert!(!g.windows.is_empty());
    }
}

#[test]
fn promote_moves_window_and_group_to_front_keeps_other_order() {
    let mut r = WindowRegistry::new();
    reg(&mut r, "a", 1, "w1");
    reg(&mut r, "b", 2, "w2");
    reg(&mut r, "b", 3, "w3");
    reg(&mut r, "b", 4, "w4");
    reg(&mut r, "c", 5, "w5");

    assert!(r.promote(&String::from("b"), 3));
    let snap = r.snapshot();
    let classes: Vec<&str> = snap.iter().map(|g| g.class.as_str()).collect();
    assert_eq!(classes, vec!["b", "a", "c"]);
    let handles: Vec<u64> = snap[0].windows.iter().map(|w| w.handle).collect();
    assert_eq!(handles, vec![3, 2, 4]);
}

#[test]
fn promote_miss_returns_false_and_changes_nothing() {
    let mut r = WindowRegistry::new();
    reg(&mut r, "a", 1, "w1");
    assert!(!r.promote(&String::from("nope"), 1));
    assert!(!r.promote(&String::from("a"), 77));
    let snap = r.snapshot();
    assert_eq!(snap.len(), 1);
    assert_eq!(snap[0].class, "a");
    assert_eq!(snap[0].windows[0].handle, 1);
}

#[test]
fn contains_handle_tracks_registration() {
    let mut r = WindowRegistry::new();
    assert!(!r.contains_handle(1));
    reg(&mut r, "a", 1, "w1");
    assert!(r.contains_handle(1));
    r.unregister(1);
    assert!(!r.contains_handle(1));
}

#[test]
fn apply_event_translates_notifications() {
    let mut r = WindowRegistry::new();
    assert!(r.apply_event(CompositorEvent::WindowOpened {
        class: String::from("firefox"),
        handle: 1,
        title: String::from("Tab1"),
    }));
    assert!(r.apply_event(CompositorEvent::WindowOpened {
        class: String::from("kitty"),
        handle: 2,
        title: String::from("term"),
    }));
    // A duplicate handle is dropped, not registered twice.
    assert!(!r.apply_event(CompositorEvent::WindowOpened {
        class: String::from("firefox"),
        handle: 1,
        title: String::from("again"),
    }));
    assert_eq!(r.snapshot().len(), 2);

    assert!(r.apply_event(CompositorEvent::ActiveChanged {
        class: String::from("kitty"),
        handle: 2,
    }));
    assert_eq!(r.snapshot()[0].class, "kitty");

    assert!(r.apply_event(CompositorEvent::WindowClosed { handle: 2 }));
    assert!(!r.apply_event(CompositorEvent::WindowClosed { handle: 2 }));
    let snap = r.snapshot();
    assert_eq!(snap.len(), 1);
    assert_eq!(snap[0].class, "firefox");
}
