use x11anywhere::security::SecurityPolicy;

#[test]
fn policies() {
    let d = SecurityPolicy::default();
    assert!(d.window_isolation && !d.allow_global_selections && !d.allow_keyboard_grabs && d.allow_pointer_grabs);
    assert_eq!((d.max_windows_per_client, d.max_pixmaps_per_client), (1000, 1000));
    let p = SecurityPolicy::permissive();
    assert!(!p.window_isolation && p.allow_global_selections && p.allow_keyboard_grabs && p.allow_pointer_grabs);
    assert_eq!((p.max_windows_per_client, p.max_pixmaps_per_client), (0, 0));
    let s = SecurityPolicy::strict();
    assert!(s.window_isolation && !s.allow_global_selections && !s.allow_keyboard_grabs && !s.allow_pointer_grabs);
    assert_eq!((s.max_windows_per_client, s.max_pixmaps_per_client), (100, 100));
}
