use sa_core::atomic_file::{
    blocking_task, Action, AtomicFile, TaskAction, TaskEvent,
};
use sa_core::error::Error;
use sa_core::shared_promise::shared_promise_pair;

fn run(events: &[TaskEvent]) -> bool {
    for event in events {
        match blocking_task(*event) {
            TaskAction::Continue => {}
            TaskAction::Persist => return true,
            TaskAction::Discard | TaskAction::ReportFailure => return false,
        }
    }
    false
}

#[test]
fn must_commit() {
    let mut f = AtomicFile::new();
    assert_eq!(f.write(), Action::SendData);
    assert_eq!(f.commit(), Action::SendFinish);
    assert!(run(&[TaskEvent::Data { written: true }, TaskEvent::Finish]));
}

#[test]
fn must_cancel() {
    let mut f = AtomicFile::new();
    assert_eq!(f.write(), Action::SendData);
    assert_eq!(f.cancel(), Action::SendCancel);
    assert!(!run(&[TaskEvent::Data { written: true }, TaskEvent::Cancel]));
}

#[test]
fn must_cancel_on_drop() {
    let mut f = AtomicFile::new();
    assert_eq!(f.write(), Action::SendData);
    assert!(!run(&[TaskEvent::Data { written: true }, TaskEvent::DataClosed, TaskEvent::Dropped]));
    assert_eq!(blocking_task(TaskEvent::Dropped), TaskAction::Discard);
}

#[test]
fn must_error_on_write() {
    let mut f = AtomicFile::new();
    assert_eq!(f.write(), Action::SendData);
    assert_eq!(blocking_task(TaskEvent::Data { written: false }), TaskAction::ReportFailure);
    f.task_failed(Error::IO);
    assert_eq!(f.write(), Action::Fail(Error::IO));
    assert_eq!(f.write(), Action::Fail(Error::AtomicFilePoisoned));
    assert_eq!(f.cancel(), Action::Fail(Error::AtomicFilePoisoned));
    assert_eq!(f.commit(), Action::Fail(Error::AtomicFilePoisoned));
}

#[test]
fn a_stored_error_is_returned_by_whatever_comes_next() {
    let mut f = AtomicFile::new();
    f.task_failed(Error::AtomicFileWrite);
    f.task_failed(Error::IO);
    assert_eq!(f.commit(), Action::Fail(Error::AtomicFileWrite));
    assert_eq!(f.write(), Action::Fail(Error::AtomicFilePoisoned));
    let mut g = AtomicFile::new();
    g.task_failed(Error::IO);
    assert_eq!(g.cancel(), Action::Fail(Error::IO));
    assert_eq!(g.cancel(), Action::Fail(Error::AtomicFilePoisoned));
}

#[test]
fn a_closed_file_takes_nothing_more() {
    let mut f = AtomicFile::new();
    assert_eq!(f.commit(), Action::SendFinish);
    assert_eq!(f.write(), Action::Fail(Error::AtomicFilePoisoned));
    f.task_failed(Error::IO);
    assert_eq!(f.cancel(), Action::Fail(Error::AtomicFilePoisoned));
}

#[test]
fn must_resolve() {
    let (swear, mut promise) = shared_promise_pair();
    assert_eq!(promise.recv(), None);
    assert!(swear.fulfill(&mut promise, 42));
    assert_eq!(promise.recv(), Some(Some(&42)));
}

#[test]
fn must_retain() {
    let (swear, mut promise) = shared_promise_pair();
    swear.fulfill(&mut promise, 42);
    assert_eq!(promise.recv(), Some(Some(&42)));
    assert_eq!(promise.recv(), Some(Some(&42)));
    assert_eq!(promise.recv(), Some(Some(&42)));
}

#[test]
fn must_resolve_multi() {
    let (swear, mut promise) = shared_promise_pair();
    for _ in 0..5 {
        assert_eq!(promise.recv(), None);
    }
    swear.fulfill(&mut promise, 42);
    for _ in 0..5 {
        assert_eq!(promise.recv(), Some(Some(&42)));
    }
}

#[test]
fn an_abandoned_promise_is_broken() {
    let (swear, mut promise) = shared_promise_pair::<u32>();
    swear.abandon(&mut promise);
    assert_eq!(promise.recv(), Some(None));
    let (late, _) = shared_promise_pair::<u32>();
    assert!(!late.fulfill(&mut promise, 1));
    assert_eq!(promise.recv(), Some(None));
}
