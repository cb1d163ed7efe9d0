use taskscore::transaction::{Command, Exchange};

fn run(is_write: bool, answers: &[bool]) -> (Vec<Command>, bool, bool) {
    let (mut exchange, first) = Exchange::start(is_write);
    let mut issued = vec![first];
    for answer in answers {
        issued.push(exchange.advance(*answer));
    }
    (issued, exchange.is_finished(), exchange.has_succeeded())
}

#[test]
fn a_write_that_succeeds_is_committed_last() {
    let (issued, finished, succeeded) = run(true, &[true, true, true, true]);
    assert_eq!(
        issued,
        vec![Command::Begin, Command::Run, Command::Pull, Command::Commit, Command::Finish]
    );
    assert!(finished);
    assert!(succeeded);
}

#[test]
fn a_write_whose_statement_is_rejected_is_rolled_back() {
    let (issued, finished, succeeded) = run(true, &[true, false, true, true, false]);
    assert_eq!(
        issued,
        vec![
            Command::Begin,
            Command::Run,
            Command::Rollback,
            Command::Finish,
            Command::Finish,
            Command::Finish
        ]
    );
    assert!(finished);
    assert!(!succeeded);
}

#[test]
fn a_write_whose_rows_are_unusable_is_rolled_back() {
    let (issued, _, succeeded) = run(true, &[true, true, false, true]);
    assert_eq!(
        issued,
        vec![Command::Begin, Command::Run, Command::Pull, Command::Rollback, Command::Finish]
    );
    assert!(!succeeded);
}

#[test]
fn a_write_that_cannot_begin_sends_nothing_more() {
    let (issued, finished, succeeded) = run(true, &[false]);
    assert_eq!(issued, vec![Command::Begin, Command::Finish]);
    assert!(finished);
    assert!(!succeeded);
}

#[test]
fn a_write_whose_commit_fails_has_not_succeeded() {
    let (issued, _, succeeded) = run(true, &[true, true, true, false]);
    assert_eq!(issued[3], Command::Commit);
    assert!(!succeeded);
}

#[test]
fn a_read_runs_and_pulls_without_transaction() {
    let (issued, finished, succeeded) = run(false, &[true, true]);
    assert_eq!(issued, vec![Command::Run, Command::Pull, Command::Finish]);
    assert!(finished);
    assert!(succeeded);
    let (issued, _, succeeded) = run(false, &[true, false]);
    assert_eq!(issued, vec![Command::Run, Command::Pull, Command::Finish]);
    assert!(!succeeded);
    let (issued, _, succeeded) = run(false, &[true, true, true, false]);
    assert_eq!(issued.len(), 5);
    assert!(succeeded);
    let (_, finished, _) = run(false, &[]);
    assert!(!finished);
}
