use mongo_collection::repository::outcome::{
    delete_many_outcome, delete_outcome, exists_outcome, insert_outcome, update_many_outcome,
    update_outcome, DeleteSummary, Drain, UpdateSummary,
};

fn drained<T, E>(replies: Vec<Result<Option<T>, E>>) -> Drain<T, E> {
    let mut drain = Drain::start();
    for reply in replies {
        drain = drain.step(reply);
    }
    drain
}

#[test]
fn update_that_changes_nothing_is_false() {
    let reply: Result<UpdateSummary, ()> = Ok(UpdateSummary { matched_count: 1, modified_count: 0 });
    assert_eq!(update_outcome(reply), Ok(false));
}

#[test]
fn update_that_changes_a_record_is_true() {
    let reply: Result<UpdateSummary, ()> = Ok(UpdateSummary { matched_count: 1, modified_count: 1 });
    assert_eq!(update_outcome(reply), Ok(true));
}

#[test]
fn update_without_match_is_false() {
    let reply: Result<UpdateSummary, ()> = Ok(UpdateSummary { matched_count: 0, modified_count: 0 });
    assert_eq!(update_outcome(reply), Ok(false));
}

#[test]
fn update_many_counts_the_modified_not_the_matched() {
    let reply: Result<UpdateSummary, ()> = Ok(UpdateSummary { matched_count: 9, modified_count: 4 });
    assert_eq!(update_many_outcome(reply), Ok(4));
    let none: Result<UpdateSummary, ()> = Ok(UpdateSummary { matched_count: 9, modified_count: 0 });
    assert_eq!(update_many_outcome(none), Ok(0));
}

#[test]
fn delete_reports_whether_a_record_went() {
    let gone: Result<DeleteSummary, ()> = Ok(DeleteSummary { deleted_count: 1 });
    assert_eq!(delete_outcome(gone), Ok(true));
}

#[test]
fn second_delete_of_the_same_record_is_false_not_an_error() {
    let first: Result<DeleteSummary, String> = Ok(DeleteSummary { deleted_count: 1 });
    let second: Result<DeleteSummary, String> = Ok(DeleteSummary { deleted_count: 0 });
    assert_eq!(delete_outcome(first), Ok(true));
    assert_eq!(delete_outcome(second), Ok(false));
}

#[test]
fn delete_many_counts_the_removed() {
    let reply: Result<DeleteSummary, ()> = Ok(DeleteSummary { deleted_count: 12 });
    assert_eq!(delete_many_outcome(reply), Ok(12));
    let none: Result<DeleteSummary, ()> = Ok(DeleteSummary { deleted_count: 0 });
    assert_eq!(delete_many_outcome(none), Ok(0));
}

#[test]
fn exists_is_whether_a_record_was_found() {
    let found: Result<Option<&str>, ()> = Ok(Some("record"));
    let absent: Result<Option<&str>, ()> = Ok(None);
    assert_eq!(exists_outcome(found), Ok(true));
    assert_eq!(exists_outcome(absent), Ok(false));
}

#[test]
fn insert_gives_back_what_was_handed_in() {
    let one: Result<&str, ()> = insert_outcome("record", Ok(()));
    assert_eq!(one, Ok("record"));
    let many: Result<Vec<u8>, ()> = insert_outcome(vec![1, 2, 3], Ok(()));
    assert_eq!(many, Ok(vec![1, 2, 3]));
}

#[test]
fn store_failures_are_handed_on_as_they_came() {
    assert_eq!(insert_outcome("record", Err("down")), Err("down"));
    assert_eq!(exists_outcome::<u8, &str>(Err("down")), Err("down"));
    assert_eq!(update_outcome(Err("down")), Err("down"));
    assert_eq!(update_many_outcome(Err("timeout")), Err("timeout"));
    assert_eq!(delete_outcome(Err("down")), Err("down"));
    assert_eq!(delete_many_outcome(Err("refused")), Err("refused"));
}

#[test]
fn stream_is_drained_in_its_order() {
    let replies: Vec<Result<Option<u32>, ()>> = vec![Ok(Some(3)), Ok(Some(1)), Ok(Some(2)), Ok(None)];
    match drained(replies) {
        Drain::Complete(records) => assert_eq!(records, vec![3, 1, 2]),
        _ => panic!("the stream has ended"),
    }
}

#[test]
fn empty_stream_is_drained_to_nothing() {
    let replies: Vec<Result<Option<u32>, ()>> = vec![Ok(None)];
    match drained(replies) {
        Drain::Complete(records) => assert!(records.is_empty()),
        _ => panic!("the stream has ended"),
    }
}

#[test]
fn unfinished_stream_is_still_being_read() {
    let replies: Vec<Result<Option<u32>, ()>> = vec![Ok(Some(7)), Ok(Some(8))];
    match drained(replies) {
        Drain::Reading(records) => assert_eq!(records, vec![7, 8]),
        _ => panic!("the stream has not ended"),
    }
    match Drain::<u32, ()>::start() {
        Drain::Reading(records) => assert!(records.is_empty()),
        _ => panic!("nothing was read yet"),
    }
}

#[test]
fn failing_stream_gives_only_its_failure() {
    let replies: Vec<Result<Option<u32>, &str>> = vec![Ok(Some(1)), Ok(Some(2)), Err("lost")];
    match drained(replies) {
        Drain::Failed(e) => assert_eq!(e, "lost"),
        _ => panic!("the stream has failed"),
    }
}

#[test]
fn ended_reading_takes_no_more_replies() {
    let replies: Vec<Result<Option<u32>, &str>> =
        vec![Ok(Some(1)), Ok(None), Ok(Some(2)), Err("late")];
    match drained(replies) {
        Drain::Complete(records) => assert_eq!(records, vec![1]),
        _ => panic!("the stream had ended"),
    }
    let replies: Vec<Result<Option<u32>, &str>> = vec![Err("first"), Ok(Some(2)), Err("second")];
    match drained(replies) {
        Drain::Failed(e) => assert_eq!(e, "first"),
        _ => panic!("the stream had failed"),
    }
}
