use wmt::priority_queue::{Priority, PriorityQueue};

#[test]
fn normal_jobs_are_served_before_low_jobs() {
    let mut queue = PriorityQueue::new();
    queue.push("L1".to_string(), Some(Priority::Low));
    queue.push("L2".to_string(), Some(Priority::Low));
    queue.push("N1".to_string(), Some(Priority::Normal));
    queue.push("N2".to_string(), Some(Priority::Normal));
    assert!(!queue.is_empty());
    assert_eq!(queue.pop(), Some("N1".to_string()));
    assert_eq!(queue.pop(), Some("N2".to_string()));
    assert_eq!(queue.pop(), Some("L1".to_string()));
    assert_eq!(queue.pop(), Some("L2".to_string()));
    assert_eq!(queue.pop(), None);
    assert!(queue.is_empty());
}

#[test]
fn a_job_without_priority_is_a_normal_job() {
    let mut queue = PriorityQueue::new();
    queue.push("low".to_string(), Some(Priority::Low));
    queue.push("plain".to_string(), None);
    assert_eq!(queue.pop(), Some("plain".to_string()));
    assert_eq!(queue.pop(), Some("low".to_string()));
    assert_eq!(Priority::default(), Priority::Normal);
    assert_eq!(Priority::len(), 2);
}

#[test]
fn each_lane_is_first_in_first_out() {
    let mut queue = PriorityQueue::new();
    queue.push("a".to_string(), Some(Priority::Low));
    queue.push("b".to_string(), Some(Priority::Normal));
    queue.push("c".to_string(), Some(Priority::Low));
    assert_eq!(queue.pop_priority(Priority::Low), Some("a".to_string()));
    queue.push("d".to_string(), Some(Priority::Normal));
    assert_eq!(queue.pop_priority(Priority::Low), Some("c".to_string()));
    assert_eq!(queue.pop_priority(Priority::Low), None);
    assert!(!queue.is_empty());
    assert_eq!(queue.pop(), Some("b".to_string()));
    assert_eq!(queue.pop(), Some("d".to_string()));
    assert_eq!(queue.pop_priority(Priority::Normal), None);
    assert!(queue.is_empty());
}

#[test]
fn a_new_queue_is_empty() {
    let mut queue = PriorityQueue::new();
    assert!(queue.is_empty());
    assert_eq!(queue.pop(), None);
    assert!(queue.is_empty());
}

#[test]
fn normal_precedes_low() {
    assert!(Priority::Normal < Priority::Low);
}
