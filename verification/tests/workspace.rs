use orbit::workspace::Workspace;

fn ws(handles: &[isize]) -> Workspace {
    let mut w = Workspace::new();
    for &h in handles {
        w.adopt(h);
    }
    w
}

#[test]
fn new_workspace_is_empty() {
    let w = Workspace::new();
    assert!(w.is_empty());
    assert_eq!(w.len(), 0);
    assert_eq!(w.tile_count(), 0);
}

#[test]
fn adopt_appends_even_twice() {
    let mut w = ws(&[1, 2]);
    w.adopt(2);
    assert_eq!(w.handles, vec![1, 2, 2]);
    assert_eq!(w.tile_count(), 3);
}

#[test]
fn track_appends_when_absent() {
    let mut w = ws(&[1, 2]);
    assert!(w.track(3));
    assert_eq!(w.handles, vec![1, 2, 3]);
    assert!(w.contains(3));
}

#[test]
fn track_is_idempotent() {
    let mut w = ws(&[1, 2]);
    assert!(w.track(7));
    let once = w.handles.clone();
    assert!(!w.track(7));
    assert_eq!(w.handles, once);
}

#[test]
fn untrack_removes_first_occurrence() {
    let mut w = ws(&[4, 5, 4, 6]);
    assert!(w.untrack(4));
    assert_eq!(w.handles, vec![5, 4, 6]);
    assert!(!w.untrack(9));
    assert_eq!(w.handles, vec![5, 4, 6]);
}

#[test]
fn untrack_undoes_track() {
    let mut w = ws(&[10, 20, 30]);
    assert!(w.track(40));
    assert!(w.untrack(40));
    assert_eq!(w.handles, vec![10, 20, 30]);
}

#[test]
fn untrack_keeps_others_in_order() {
    let mut w = ws(&[10, 20, 30, 40]);
    assert!(w.untrack(20));
    assert_eq!(w.handles, vec![10, 30, 40]);
    assert!(!w.contains(20));
}

#[test]
fn prune_keeps_alive_in_order() {
    let mut w = ws(&[1, 2, 3, 4, 5]);
    w.prune(&vec![true, false, true, false, true]);
    assert_eq!(w.handles, vec![1, 3, 5]);
    w.prune(&vec![false, false, false]);
    assert!(w.is_empty());
}

#[test]
fn contains_finds_any_position() {
    let w = ws(&[3, 1, 4, 1, 5]);
    assert!(w.contains(3));
    assert!(w.contains(5));
    assert!(!w.contains(9));
    assert!(!Workspace::new().contains(0));
}
