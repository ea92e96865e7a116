use mibar::window::{WindowId, WindowRegistry};

#[test]
fn windows_live_until_killed() {
    let mut reg: WindowRegistry<&str> = WindowRegistry::new();
    let a = reg.open_window();
    let b = reg.open_window();
    assert_eq!(a, WindowId(0));
    assert_eq!(b, WindowId(1));
    assert!(a.is_alive(&reg));
    assert!(reg.is_alive(b));
    a.kill(&mut reg);
    assert!(!a.is_alive(&reg));
    assert!(b.is_alive(&reg));
    let c = reg.open_window();
    assert_ne!(c, a);
    assert!(!reg.is_alive(a));
}

#[test]
fn surfaces_are_read_back() {
    let mut reg: WindowRegistry<String> = WindowRegistry::new();
    let a = reg.open_window();
    let b = reg.open_window();
    assert_eq!(reg.surface(a), None);
    reg.set_surface(a, String::from("surface a"));
    assert_eq!(reg.surface(a).map(|s| s.as_str()), Some("surface a"));
    assert_eq!(reg.surface(b), None);
    reg.kill(a);
    assert_eq!(reg.surface(a), None);
    reg.kill(a);
    assert!(reg.is_alive(b));
}
