use bevy_define::ChangeTicks;

fn ticks(added: u32, changed: u32, last_run: u32, this_run: u32) -> ChangeTicks {
    ChangeTicks { added, changed, last_run, this_run }
}

#[test]
fn changes_after_last_run_are_seen() {
    let t = ticks(5, 8, 6, 10);
    assert!(!t.is_added());
    assert!(t.is_changed());
    assert!(t.is_added_after(4));
    assert!(!t.is_changed_after(9));
    assert_eq!(t.added(), 5);
    assert_eq!(t.last_changed(), 8);
}

#[test]
fn set_changed_marks_current_run() {
    let mut t = ticks(1, 1, 3, 7);
    assert!(!t.is_changed());
    t.set_changed();
    assert_eq!(t, ticks(1, 7, 3, 7));
    assert!(t.is_changed());
    assert!(!t.is_added());
}

#[test]
fn set_added_marks_both() {
    let mut t = ticks(1, 1, 3, 7);
    t.set_added();
    assert_eq!(t, ticks(7, 7, 3, 7));
    assert!(t.is_added());
    assert!(t.is_changed());
}

#[test]
fn change_in_same_tick_as_last_run_is_not_seen() {
    let mut t = ticks(1, 1, 7, 7);
    t.set_changed();
    assert!(!t.is_changed());
}

#[test]
fn set_last_ticks() {
    let mut t = ticks(1, 2, 3, 9);
    t.set_last_changed(5);
    assert_eq!(t, ticks(1, 5, 3, 9));
    t.set_last_added(8);
    assert_eq!(t, ticks(8, 8, 3, 9));
    assert!(t.is_added());
}

#[test]
fn ticks_wrap_around() {
    // last run just before the wrap, change just after it
    let t = ticks(0, 2, u32::MAX - 1, 5);
    assert!(t.is_changed());
    assert!(t.is_added());
    let t = ticks(0, u32::MAX - 3, u32::MAX - 1, 5);
    assert!(!t.is_changed());
}

#[test]
fn very_old_ticks_are_capped() {
    // both older than the largest age told apart: neither counts as newer
    let t = ticks(10, 10, 20, 4_000_000_000);
    assert!(!t.is_changed());
}
