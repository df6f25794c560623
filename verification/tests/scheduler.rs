use osoy::scheduler::{schedule, Admission, AdmissionError, Release, Scheduler};

#[test]
fn five_transfers_over_two_slots() {
    let mut scheduler = Scheduler::new(2).unwrap();
    let mut running = Vec::new();
    for _ in 0..5 {
        let admission = scheduler.submit();
        if admission.start {
            running.push(admission.ticket);
        }
        assert!(scheduler.active() <= 2);
    }
    assert_eq!(running, vec![0, 1]);
    assert_eq!(scheduler.waiting(), 3);
    let mut done = 0;
    let mut handed = Vec::new();
    while let Some(ticket) = running.pop() {
        match scheduler.finish(ticket) {
            Release::Handed(next) => {
                handed.push(next);
                running.push(next);
            }
            Release::Freed => {}
            Release::NotActive => panic!("ticket {} held no slot", ticket),
        }
        done += 1;
        assert!(scheduler.active() <= 2);
    }
    assert_eq!(done, 5);
    assert_eq!(handed, vec![2, 3, 4]);
    assert_eq!(scheduler.finished(), 5);
    assert_eq!(scheduler.active(), 0);
    assert_eq!(scheduler.waiting(), 0);
    assert_eq!(scheduler.submitted(), 5);
}

#[test]
fn no_slots_are_refused() {
    assert!(matches!(Scheduler::new(0), Err(AdmissionError::NoSlots)));
    assert!(matches!(schedule(3, 0), Err(AdmissionError::NoSlots)));
    assert!(Scheduler::new(1).is_ok());
}

#[test]
fn tickets_follow_submission() {
    let mut scheduler = Scheduler::new(1).unwrap();
    assert_eq!(scheduler.limit(), 1);
    assert_eq!(scheduler.submit(), Admission { ticket: 0, start: true });
    assert_eq!(scheduler.submit(), Admission { ticket: 1, start: false });
    assert_eq!(scheduler.submit(), Admission { ticket: 2, start: false });
    assert!(scheduler.is_active(0));
    assert!(!scheduler.is_active(1));
    assert_eq!(scheduler.finish(0), Release::Handed(1));
    assert!(scheduler.is_active(1));
    assert!(!scheduler.is_active(0));
    assert_eq!(scheduler.finish(1), Release::Handed(2));
    assert_eq!(scheduler.finish(2), Release::Freed);
    assert_eq!(scheduler.submit(), Admission { ticket: 3, start: true });
}

#[test]
fn finishing_twice_changes_nothing() {
    let mut scheduler = Scheduler::new(2).unwrap();
    scheduler.submit();
    scheduler.submit();
    scheduler.submit();
    assert_eq!(scheduler.finish(2), Release::NotActive);
    assert_eq!(scheduler.finish(7), Release::NotActive);
    assert_eq!(scheduler.finish(1), Release::Handed(2));
    assert_eq!(scheduler.finish(1), Release::NotActive);
    assert_eq!(scheduler.finished(), 1);
    assert_eq!(scheduler.active(), 2);
}

#[test]
fn a_batch_starts_up_to_the_limit() {
    let scheduler = schedule(5, 2).unwrap();
    assert_eq!(scheduler.active(), 2);
    assert_eq!(scheduler.waiting(), 3);
    assert!(scheduler.is_active(0));
    assert!(scheduler.is_active(1));
    assert!(!scheduler.is_active(2));
    let small = schedule(2, 10).unwrap();
    assert_eq!(small.active(), 2);
    assert_eq!(small.waiting(), 0);
    let none = schedule(0, 3).unwrap();
    assert_eq!(none.active(), 0);
    assert_eq!(none.submitted(), 0);
}

#[test]
fn every_transfer_ends_once_whatever_the_order() {
    let mut scheduler = schedule(7, 3).unwrap();
    let mut running = vec![0usize, 1, 2];
    let mut ended = Vec::new();
    let mut turn = 0;
    while !running.is_empty() {
        let pick = turn % running.len();
        let ticket = running.remove(pick);
        match scheduler.finish(ticket) {
            Release::Handed(next) => running.push(next),
            Release::Freed => {}
            Release::NotActive => panic!("ticket {} held no slot", ticket),
        }
        ended.push(ticket);
        assert!(scheduler.active() <= 3);
        assert_eq!(scheduler.active(), running.len());
        turn += 1;
    }
    ended.sort();
    assert_eq!(ended, vec![0, 1, 2, 3, 4, 5, 6]);
    assert_eq!(scheduler.finished(), 7);
}
