//! Work that is done one piece after the other, up to the first failure: the commands of a session,
//! the script files, the statements of a command.
use vstd::prelude::*;

verus! {

/// Pieces of work that wait for their turn.
#[derive(Debug, PartialEq, Eq)]
pub struct RunQueue<T> {
    pub waiting: Vec<T>,
}

/// What to do next.
#[derive(Debug, PartialEq, Eq)]
pub enum QueueAction<T, E> {
    /// Do this piece.
    Run(T),
    /// The work is done, or has failed.
    Finish(Result<(), E>),
}

/// One step, upon the outcome of the piece before: after a failure nothing more is done.
pub open spec fn queue_step<T, E>(waiting: Seq<T>, outcome: Result<(), E>) -> (
    Seq<T>,
    QueueAction<T, E>,
) {
    match outcome {
        Err(error) => (Seq::empty(), QueueAction::Finish(Err(error))),
        Ok(_) => if waiting.len() == 0 {
            (waiting, QueueAction::Finish(Ok(())))
        } else {
            (waiting.drop_first(), QueueAction::Run(waiting[0]))
        },
    }
}

impl<T> RunQueue<T> {
    /// The pieces, in the order in which they are to be done.
    pub fn new(pieces: Vec<T>) -> (r: Self)
        ensures
            r.waiting@ == pieces@,
    {
        RunQueue { waiting: pieces }
    }

    /// One step, upon the outcome of the piece before; `Ok(())` begins the work.
    pub fn step<E>(self, outcome: Result<(), E>) -> (r: (Self, QueueAction<T, E>))
        ensures
            (r.0.waiting@, r.1) == queue_step(self.waiting@, outcome),
    {
        match outcome {
            Err(error) => (RunQueue { waiting: Vec::new() }, QueueAction::Finish(Err(error))),
            Ok(_) => {
                let mut waiting = self.waiting;
                if waiting.len() == 0 {
                    (RunQueue { waiting }, QueueAction::Finish(Ok(())))
                } else {
                    let piece = waiting.remove(0);
                    assert(waiting@ =~= self.waiting@.drop_first());
                    (RunQueue { waiting }, QueueAction::Run(piece))
                }
            },
        }
    }
}

/// What waits after some outcomes.
pub open spec fn queue_after<T, E>(pieces: Seq<T>, outcomes: Seq<Result<(), E>>) -> Seq<T>
    decreases outcomes.len(),
{
    if outcomes.len() == 0 {
        pieces
    } else {
        queue_step(queue_after(pieces, outcomes.drop_last()), outcomes.last()).0
    }
}

/// The answer to the outcome of index `i`.
pub open spec fn queue_answer<T, E>(pieces: Seq<T>, outcomes: Seq<Result<(), E>>, i: int) -> QueueAction<
    T,
    E,
> {
    queue_step(queue_after(pieces, outcomes.take(i)), outcomes[i]).1
}

proof fn lemma_waiting<T, E>(pieces: Seq<T>, outcomes: Seq<Result<(), E>>, n: int)
    requires
        0 <= n <= outcomes.len(),
        n <= pieces.len(),
        forall|j: int| 0 <= j < n ==> outcomes[j] is Ok,
    ensures
        queue_after(pieces, outcomes.take(n)) == pieces.skip(n),
    decreases n,
{
    if n > 0 {
        lemma_waiting(pieces, outcomes, n - 1);
        assert(outcomes.take(n).drop_last() =~= outcomes.take(n - 1));
        assert(pieces.skip(n - 1).drop_first() =~= pieces.skip(n));
    } else {
        assert(pieces.skip(0) =~= pieces);
    }
}

/// The pieces are done in order, each exactly once, for as long as none fails. The first failure is
/// the outcome of the work; without one the work succeeds after the last piece.
///
/// The outcome of index 0 begins the work; the outcome of index `i + 1` is that of the piece of
/// index `i`.
pub proof fn law_in_order_until_the_first_failure<T, E>(
    pieces: Seq<T>,
    outcomes: Seq<Result<(), E>>,
    i: int,
)
    requires
        0 <= i < outcomes.len(),
        i <= pieces.len(),
        forall|j: int| 0 <= j < i ==> outcomes[j] is Ok,
    ensures
        queue_answer(pieces, outcomes, i) == match outcomes[i] {
            Err(error) => QueueAction::<T, E>::Finish(Err(error)),
            Ok(_) => if i < pieces.len() {
                QueueAction::Run(pieces[i])
            } else {
                QueueAction::Finish(Ok(()))
            },
        },
{
    lemma_waiting(pieces, outcomes, i);
}

/// After a failure no piece is done any more.
pub proof fn law_nothing_after_a_failure<T, E>(
    pieces: Seq<T>,
    outcomes: Seq<Result<(), E>>,
    i: int,
    j: int,
)
    requires
        0 <= i < j < outcomes.len(),
        outcomes[i] is Err,
    ensures
        queue_answer(pieces, outcomes, j) is Finish,
{
    lemma_empty_after_failure(pieces, outcomes, i, j);
}

proof fn lemma_empty_after_failure<T, E>(
    pieces: Seq<T>,
    outcomes: Seq<Result<(), E>>,
    i: int,
    j: int,
)
    requires
        0 <= i < j <= outcomes.len(),
        outcomes[i] is Err,
    ensures
        queue_after(pieces, outcomes.take(j)).len() == 0,
    decreases j,
{
    assert(outcomes.take(j).drop_last() =~= outcomes.take(j - 1));
    if i < j - 1 {
        lemma_empty_after_failure(pieces, outcomes, i, j - 1);
    }
}

/// The whole of the work, whatever the outcomes are: the outcome of index `i` is answered with the
/// piece of index `i`, where there is one and nothing has failed so far; in every other case it is
/// handed back as the outcome of the work.
pub proof fn law_work_as_a_whole<T, E>(pieces: Seq<T>, outcomes: Seq<Result<(), E>>, i: int)
    requires
        0 <= i < outcomes.len(),
    ensures
        queue_answer(pieces, outcomes, i) == if i < pieces.len() && (forall|j: int|
            0 <= j <= i ==> (#[trigger] outcomes[j]) is Ok) {
            QueueAction::<T, E>::Run(pieces[i])
        } else {
            QueueAction::Finish(outcomes[i])
        },
{
    lemma_left(pieces, outcomes, i);
    let fine = forall|j: int| 0 <= j <= i ==> (#[trigger] outcomes[j]) is Ok;
    match outcomes[i] {
        Ok(done) => {
            assert(done == ());
        },
        Err(_) => {},
    }
    if fine {
        assert(outcomes[i] is Ok);
    } else if outcomes[i] is Ok {
        let j = choose|j: int| 0 <= j <= i && !((#[trigger] outcomes[j]) is Ok);
        lemma_empty_after_failure(pieces, outcomes, j, i);
    }
}

proof fn lemma_left<T, E>(pieces: Seq<T>, outcomes: Seq<Result<(), E>>, n: int)
    requires
        0 <= n <= outcomes.len(),
    ensures
        (forall|j: int| 0 <= j < n ==> (#[trigger] outcomes[j]) is Ok) ==> queue_after(
            pieces,
            outcomes.take(n),
        ) == if n <= pieces.len() {
            pieces.skip(n)
        } else {
            Seq::empty()
        },
    decreases n,
{
    if n > 0 {
        lemma_left(pieces, outcomes, n - 1);
        assert(outcomes.take(n).drop_last() =~= outcomes.take(n - 1));
        if n <= pieces.len() {
            assert(pieces.skip(n - 1).drop_first() =~= pieces.skip(n));
        } else if n - 1 == pieces.len() {
            assert(pieces.skip(n - 1) =~= Seq::empty());
        }
    } else {
        assert(pieces.skip(0) =~= pieces);
    }
}

} // verus!
