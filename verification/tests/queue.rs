use datafusion_exec::queue::{QueueAction, RunQueue};

fn drive(pieces: Vec<&'static str>, fails: &str) -> (Vec<&'static str>, Result<(), String>) {
    let mut queue = RunQueue::new(pieces);
    let mut outcome: Result<(), String> = Ok(());
    let mut done = vec![];
    loop {
        let (next, action) = queue.step(outcome);
        queue = next;
        match action {
            QueueAction::Run(piece) => {
                done.push(piece);
                outcome = if piece == fails { Err(format!("{piece} failed")) } else { Ok(()) };
            }
            QueueAction::Finish(result) => return (done, result),
        }
    }
}

#[test]
fn pieces_in_order() {
    assert_eq!(drive(vec!["a", "b", "c"], ""), (vec!["a", "b", "c"], Ok(())));
    assert_eq!(drive(vec![], ""), (vec![], Ok(())));
}

#[test]
fn first_failure_ends_the_work() {
    assert_eq!(
        drive(vec!["a", "b", "c"], "b"),
        (vec!["a", "b"], Err("b failed".to_string()))
    );
}

#[test]
fn nothing_waits_after_a_failure() {
    let queue = RunQueue::new(vec![1, 2]);
    let (queue, action) = queue.step(Err::<(), i32>(7));
    assert_eq!(action, QueueAction::Finish(Err(7)));
    let (_, action) = queue.step(Ok::<(), i32>(()));
    assert_eq!(action, QueueAction::Finish(Ok(())));
}
