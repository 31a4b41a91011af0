use slycer::recent::{RECENT_CAPACITY, RecentLines};

fn lines(from: usize, to: usize) -> Vec<String> {
    (from..to).map(|i| format!("line {i}")).collect()
}

#[test]
fn new_window_is_empty() {
    let window = RecentLines::new();
    assert_eq!(window.len(), 0);
    assert!(window.snapshot().is_empty());
}

#[test]
fn capacity_is_five() {
    assert_eq!(RECENT_CAPACITY, 5);
}

#[test]
fn window_keeps_arrival_order() {
    let mut window = RecentLines::new();
    for line in lines(0, 3) {
        window.push(line);
    }
    assert_eq!(window.len(), 3);
    assert_eq!(window.snapshot(), lines(0, 3));
}

#[test]
fn seven_lines_leave_the_last_five() {
    let mut window = RecentLines::new();
    for line in lines(0, 7) {
        window.push(line);
        assert!(window.len() <= 5);
    }
    assert_eq!(window.snapshot(), lines(2, 7));
}

#[test]
fn full_window_lets_the_oldest_go() {
    let mut window = RecentLines::new();
    for line in lines(0, 5) {
        window.push(line);
    }
    assert_eq!(window.snapshot(), lines(0, 5));
    window.push("newest".to_string());
    let mut expected = lines(1, 5);
    expected.push("newest".to_string());
    assert_eq!(window.snapshot(), expected);
}

#[test]
fn window_never_exceeds_its_capacity() {
    let mut window = RecentLines::new();
    for line in lines(0, 100) {
        window.push(line);
        assert!(window.len() <= RECENT_CAPACITY);
    }
    assert_eq!(window.snapshot(), lines(95, 100));
}

#[test]
fn equal_lines_are_kept_apart() {
    let mut window = RecentLines::new();
    for _ in 0..3 {
        window.push("same".to_string());
    }
    assert_eq!(window.snapshot(), vec!["same".to_string(); 3]);
}
