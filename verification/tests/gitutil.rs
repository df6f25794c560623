use osoy::board::ProgressBoard;
use osoy::gitutil::{
    changes, clone, done_message, progress_message, pull, status_index_char, status_wt_char,
    EntryStatus, FetchMessage, ProgressBar, ProgressObjects, RepoStatus, Transfer, BAR_WIDTH,
};
use osoy::scheduler::AdmissionError;
use osoy::task::{FetchError, Summary};

fn sample(total: u64, received: u64, indexed: u64) -> ProgressObjects {
    ProgressObjects { total, received, indexed }
}

fn clean() -> EntryStatus {
    EntryStatus {
        index_new: false,
        index_modified: false,
        index_deleted: false,
        index_renamed: false,
        index_typechange: false,
        wt_new: false,
        wt_modified: false,
        wt_deleted: false,
        wt_renamed: false,
        wt_typechange: false,
    }
}

#[test]
fn samples_add_pointwise() {
    assert_eq!(sample(1, 2, 3).add(sample(10, 20, 30)), sample(11, 22, 33));
    assert_eq!(
        sample(1, 2, 3).add(sample(10, 20, 30)),
        sample(10, 20, 30).add(sample(1, 2, 3))
    );
    assert_eq!(
        sample(1, 2, 3).add(sample(4, 5, 6)).add(sample(7, 8, 9)),
        sample(1, 2, 3).add(sample(4, 5, 6).add(sample(7, 8, 9)))
    );
    assert_eq!(ProgressObjects::default(), sample(1, 0, 0));
    assert_eq!(ProgressObjects::new(4, 3, 2), sample(4, 3, 2));
    assert_eq!(sample(9, 3, 1).complete(), sample(9, 9, 9));
    assert!(sample(0, 5, 5).is_wf());
    assert!(sample(5, 5, 5).is_wf());
    assert!(!sample(5, 6, 0).is_wf());
    assert!(!sample(5, 0, 6).is_wf());
}

#[test]
fn bar_shares_the_cells() {
    assert_eq!(BAR_WIDTH, 50);
    assert_eq!(
        sample(0, 0, 0).bar(),
        ProgressBar { left: 0, mid: 0, right: 50, part: 0 }
    );
    assert_eq!(
        sample(100, 50, 20).bar(),
        ProgressBar { left: 10, mid: 15, right: 25, part: 20 }
    );
    assert_eq!(
        sample(100, 20, 50).bar(),
        ProgressBar { left: 10, mid: 15, right: 25, part: 20 }
    );
    assert_eq!(
        sample(3, 1, 1).bar(),
        ProgressBar { left: 16, mid: 0, right: 34, part: 33 }
    );
    assert_eq!(
        sample(7, 7, 7).bar(),
        ProgressBar { left: 50, mid: 0, right: 0, part: 100 }
    );
    assert_eq!(
        sample(u64::MAX, u64::MAX, u64::MAX - 1).bar(),
        ProgressBar { left: 49, mid: 1, right: 0, part: 99 }
    );
    assert_eq!(sample(3, 1, 2).percentages(), (33, 66));
    assert_eq!(sample(u64::MAX, u64::MAX, 0).percentages(), (100, 0));
}

#[test]
fn pulls_are_set_up_in_order() {
    let fetch = pull(vec!["a".to_string(), "b".to_string(), "c".to_string()], 2).unwrap();
    assert_eq!(fetch.transfers.len(), 3);
    assert!(matches!(&fetch.transfers[1], Transfer::Pull { path } if path == "b"));
    assert_eq!(fetch.transfers[2].path(), "c");
    assert_eq!(fetch.scheduler.active(), 2);
    assert_eq!(fetch.scheduler.waiting(), 1);
    assert!(matches!(pull(vec!["a".to_string()], 0), Err(AdmissionError::NoSlots)));
    assert!(matches!(pull(vec![], 0), Err(AdmissionError::NoSlots)));
}

#[test]
fn clones_are_set_up_in_order() {
    let fetch = clone(
        vec![
            ("https://x/a".to_string(), "src/a".to_string()),
            ("https://x/b".to_string(), "src/b".to_string()),
        ],
        5,
    )
    .unwrap();
    assert_eq!(fetch.transfers.len(), 2);
    assert!(matches!(&fetch.transfers[0],
        Transfer::Clone { url, path } if url == "https://x/a" && path == "src/a"));
    assert_eq!(fetch.transfers[1].path(), "src/b");
    assert_eq!(fetch.scheduler.active(), 2);
    assert_eq!(fetch.scheduler.waiting(), 0);
    assert!(matches!(clone(vec![], 0), Err(AdmissionError::NoSlots)));
}

#[test]
fn messages_carry_the_sum() {
    let mut board = ProgressBoard::new();
    board.init("a");
    board.init("b");
    match progress_message(&mut board, "a", sample(10, 4, 2)) {
        Some(FetchMessage::Progress(sum)) => assert_eq!(sum, sample(11, 4, 2)),
        other => panic!("{:?}", other),
    }
    assert!(progress_message(&mut board, "c", sample(u64::MAX, 0, 0)).is_none());
    assert_eq!(board.get("c"), None);
    match done_message(&mut board, "a".to_string(), Ok(Summary::Done)) {
        FetchMessage::Done((path, outcome, sum)) => {
            assert_eq!(path, "a");
            assert_eq!(outcome, Ok(Summary::Done));
            assert_eq!(sum, sample(11, 10, 10));
        }
        other => panic!("{:?}", other),
    }
    assert_eq!(board.get("a"), None);
    assert_eq!(board.aggregate(), sample(1, 0, 0));
    match done_message(&mut board, "zz".to_string(), Err(FetchError::Backend)) {
        FetchMessage::Done((path, outcome, sum)) => {
            assert_eq!(path, "zz");
            assert_eq!(outcome, Err(FetchError::Backend));
            assert_eq!(sum, sample(1, 0, 0));
        }
        other => panic!("{:?}", other),
    }
}

#[test]
fn status_letters() {
    assert_eq!(status_wt_char(&clean()), None);
    assert_eq!(status_index_char(&clean()), None);
    assert_eq!(status_wt_char(&EntryStatus { wt_new: true, wt_deleted: true, ..clean() }), Some('n'));
    assert_eq!(status_wt_char(&EntryStatus { wt_modified: true, wt_renamed: true, ..clean() }), Some('m'));
    assert_eq!(status_wt_char(&EntryStatus { wt_deleted: true, ..clean() }), Some('d'));
    assert_eq!(status_wt_char(&EntryStatus { wt_renamed: true, wt_typechange: true, ..clean() }), Some('r'));
    assert_eq!(status_wt_char(&EntryStatus { wt_typechange: true, index_new: true, ..clean() }), Some('t'));
    assert_eq!(status_index_char(&EntryStatus { index_new: true, ..clean() }), Some('N'));
    assert_eq!(status_index_char(&EntryStatus { index_modified: true, ..clean() }), Some('M'));
    assert_eq!(status_index_char(&EntryStatus { index_deleted: true, ..clean() }), Some('D'));
    assert_eq!(status_index_char(&EntryStatus { index_renamed: true, ..clean() }), Some('R'));
    assert_eq!(status_index_char(&EntryStatus { index_typechange: true, wt_new: true, ..clean() }), Some('T'));
}

#[test]
fn staged_changes_come_first() {
    let entries = vec![
        (EntryStatus { wt_modified: true, ..clean() }, "a".to_string()),
        (EntryStatus { index_new: true, wt_deleted: true, ..clean() }, "b".to_string()),
        (clean(), "c".to_string()),
        (EntryStatus { index_renamed: true, ..clean() }, "d".to_string()),
    ];
    let expected = vec![
        ('N', "b".to_string()),
        ('R', "d".to_string()),
        ('m', "a".to_string()),
        ('d', "b".to_string()),
    ];
    assert_eq!(changes(&entries), expected);
    let status = RepoStatus::from(Some("main".to_string()), Some((2, 3)), Some(entries));
    assert_eq!(status.changes, Some(expected));
    assert_eq!(status.branch, Some("main".to_string()));
    assert_eq!(status.graph, Some((2, 3)));
    let headless = RepoStatus::from(None, Some((2, 3)), None);
    assert_eq!(headless.changes, None);
    assert_eq!(headless.branch, None);
    assert_eq!(headless.graph, None);
}
