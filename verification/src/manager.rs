//! How many proofs are worked on at once, and how the unfinished ones are taken up
//! again when the service starts.
use crate::protocol::Status;
use vstd::prelude::*;

verus! {

/// How many proofs may wait to be worked on.
pub const QUEUE_CAPACITY: usize = 256;

/// The terms under which proofs are worked on.
pub struct TaskManager {
    /// How many are worked on at once.
    pub permits: usize,
    /// How many may wait.
    pub queue_capacity: usize,
}

/// Which rows are taken up again: those with this status, as of this time, at most
/// so many.
pub struct BacklogQuery {
    pub status: Status,
    pub now: i64,
    pub limit: i32,
}

/// What came of queueing a proof.
#[derive(Clone, Copy, PartialEq, Eq, Structural, Debug)]
pub enum SendOutcome {
    Sent,
    Full,
    Closed,
}

/// The next proof is to be queued.
pub struct LoadWork {
    loaded: usize,
    left: usize,
}

/// How far the loading has come.
pub enum LoadStep {
    Send(LoadWork),
    /// It is over, with this many proofs queued.
    Done(usize),
    /// The rows could not be had: what is said about it, and why.
    Fail { message: String, cause: String },
}

/// What a [`LoadStep`] says.
pub enum LoadView {
    /// So many were queued; so many are left after the next.
    Send { loaded: nat, left: nat },
    Done { loaded: nat },
    Fail { message: Seq<char>, cause: Seq<char> },
}

impl View for LoadWork {
    type V = LoadView;

    closed spec fn view(&self) -> LoadView {
        LoadView::Send { loaded: self.loaded as nat, left: self.left as nat }
    }
}

impl View for LoadStep {
    type V = LoadView;

    open spec fn view(&self) -> LoadView {
        match self {
            LoadStep::Send(w) => w@,
            LoadStep::Done(loaded) => LoadView::Done { loaded: *loaded as nat },
            LoadStep::Fail { message, cause } => LoadView::Fail { message: message@, cause: cause@ },
        }
    }
}

/// The state before the next of `left` proofs, `loaded` of them queued already.
pub open spec fn loading(loaded: nat, left: nat) -> LoadView {
    if left == 0 {
        LoadView::Done { loaded }
    } else {
        LoadView::Send { loaded, left: (left - 1) as nat }
    }
}

/// The state after a proof was queued, or not. The first that cannot be queued
/// ends the loading.
pub open spec fn load_answered(state: LoadView, outcome: SendOutcome) -> LoadView {
    match state {
        LoadView::Send { loaded, left } => if outcome == SendOutcome::Sent {
            loading(loaded + 1, left)
        } else {
            LoadView::Done { loaded }
        },
        other => other,
    }
}

/// The first state, once the rows were asked for: how many there are, or why they could
/// not be had.
pub open spec fn load_begun(found: Result<nat, Seq<char>>) -> LoadView {
    match found {
        Ok(found) => loading(0, found),
        Err(cause) => LoadView::Fail {
            message: "Failed to load incomplete tasks from database"@,
            cause,
        },
    }
}

/// The terms for a configured number of proofs at once.
pub open spec fn terms_for(max_concurrent_tasks: Option<usize>) -> TaskManager {
    TaskManager {
        permits: match max_concurrent_tasks {
            Some(n) => n,
            None => 1,
        },
        queue_capacity: QUEUE_CAPACITY,
    }
}

/// Which rows are taken up again at the time `now`: all that are computing.
pub open spec fn backlog_at(now: u64) -> BacklogQuery {
    BacklogQuery { status: Status::Computing, now: now as i64, limit: i32::MAX }
}

impl TaskManager {
    /// The terms for a configured number of proofs at once; one, if none is
    /// configured.
    pub fn new(max_concurrent_tasks: Option<usize>) -> (r: Self)
        ensures
            r == terms_for(max_concurrent_tasks),
    {
        let permits: usize = match max_concurrent_tasks {
            Some(n) => n,
            None => 1,
        };
        TaskManager { permits, queue_capacity: QUEUE_CAPACITY }
    }

    /// Which rows are taken up again at the time `now`.
    pub fn backlog(&self, now: u64) -> (r: BacklogQuery)
        ensures
            r == backlog_at(now),
            r.status == Status::Computing,
            r.now == now as i64,
            r.limit == i32::MAX,
    {
        BacklogQuery {
            status: Status::Computing,
            now: #[verifier::truncate]
            (now as i64),
            limit: i32::MAX,
        }
    }

    /// Begins to queue the unfinished proofs, in their order: so many were found, or the
    /// rows could not be had for this reason.
    pub fn load_incomplete_tasks_from_db(&self, found: Result<usize, String>) -> (r: LoadStep)
        ensures
            r@ == load_begun(
                match found {
                    Ok(found) => Ok(found as nat),
                    Err(cause) => Err(cause@),
                },
            ),
    {
        match found {
            Ok(found) => {
                if found == 0 {
                    LoadStep::Done(0)
                } else {
                    LoadStep::Send(LoadWork { loaded: 0, left: found - 1 })
                }
            },
            Err(cause) => LoadStep::Fail {
                message: "Failed to load incomplete tasks from database".to_string(),
                cause,
            },
        }
    }
}

impl LoadWork {
    #[verifier::type_invariant]
    spec fn counted(self) -> bool {
        self.loaded + self.left < usize::MAX
    }

    /// Which row is to be queued, counted from zero: as many as were queued come before
    /// it.
    pub fn index(&self) -> (r: usize)
        ensures
            self@ is Send,
            r == self@->Send_loaded,
    {
        self.loaded
    }

    /// Goes on, knowing what came of queueing the proof.
    pub fn answer(self, outcome: SendOutcome) -> (r: LoadStep)
        ensures
            r@ == load_answered(self@, outcome),
    {
        proof {
            use_type_invariant(&self);
        }
        if outcome == SendOutcome::Sent {
            let loaded: usize = self.loaded + 1;
            if self.left == 0 {
                LoadStep::Done(loaded)
            } else {
                LoadStep::Send(LoadWork { loaded, left: self.left - 1 })
            }
        } else {
            LoadStep::Done(self.loaded)
        }
    }
}

/// The state after several outcomes.
pub open spec fn load_after(state: LoadView, outcomes: Seq<SendOutcome>) -> LoadView
    decreases outcomes.len(),
{
    if outcomes.len() == 0 {
        state
    } else {
        load_after(load_answered(state, outcomes[0]), outcomes.skip(1))
    }
}

/// How many of `outcomes`, from the first on, are successes without a gap.
pub open spec fn sent_in_a_row(outcomes: Seq<SendOutcome>) -> nat
    decreases outcomes.len(),
{
    if outcomes.len() == 0 || outcomes[0] != SendOutcome::Sent {
        0
    } else {
        1 + sent_in_a_row(outcomes.skip(1))
    }
}

proof fn lemma_done_stays(loaded: nat, outcomes: Seq<SendOutcome>)
    ensures
        load_after(LoadView::Done { loaded }, outcomes) == (LoadView::Done { loaded }),
    decreases outcomes.len(),
{
    if outcomes.len() > 0 {
        lemma_done_stays(loaded, outcomes.skip(1));
    }
}

proof fn lemma_loading(loaded: nat, left: nat, outcomes: Seq<SendOutcome>)
    requires
        outcomes.len() == left,
    ensures
        load_after(loading(loaded, left), outcomes) == (LoadView::Done {
            loaded: loaded + sent_in_a_row(outcomes),
        }),
    decreases left,
{
    if left > 0 {
        if outcomes[0] == SendOutcome::Sent {
            lemma_loading(loaded + 1, (left - 1) as nat, outcomes.skip(1));
        } else {
            lemma_done_stays(loaded, outcomes.skip(1));
        }
    } else {
        assert(load_after(loading(loaded, left), outcomes) == loading(loaded, left));
    }
}

/// The rows are queued in their order, none twice and none left out: after so many
/// successes, each of the next rows in turn, the row to queue is the one with their
/// number.
pub proof fn law_rows_are_queued_in_order(found: nat, outcomes: Seq<SendOutcome>)
    requires
        outcomes.len() < found,
        forall|i: int| 0 <= i < outcomes.len() ==> outcomes[i] == SendOutcome::Sent,
    ensures
        load_after(load_begun(Ok(found)), outcomes) == (LoadView::Send {
            loaded: outcomes.len(),
            left: (found - outcomes.len() - 1) as nat,
        }),
{
    lemma_sent_in_order(0, found, outcomes);
}

proof fn lemma_sent_in_order(loaded: nat, left: nat, outcomes: Seq<SendOutcome>)
    requires
        outcomes.len() < left,
        forall|i: int| 0 <= i < outcomes.len() ==> outcomes[i] == SendOutcome::Sent,
    ensures
        load_after(loading(loaded, left), outcomes) == (LoadView::Send {
            loaded: loaded + outcomes.len(),
            left: (left - outcomes.len() - 1) as nat,
        }),
    decreases outcomes.len(),
{
    if outcomes.len() > 0 {
        assert(outcomes[0] == SendOutcome::Sent);
        lemma_sent_in_order(loaded + 1, (left - 1) as nat, outcomes.skip(1));
    }
}

/// Loading ends after as many proofs as could be queued without a gap from the
/// first on, whatever would have come of the others.
pub proof fn law_loading_stops_at_the_first_gap(found: nat, outcomes: Seq<SendOutcome>)
    requires
        outcomes.len() == found,
    ensures
        load_after(load_begun(Ok(found)), outcomes) == (LoadView::Done {
            loaded: sent_in_a_row(outcomes),
        }),
        sent_in_a_row(outcomes) <= found,
{
    lemma_loading(0, found, outcomes);
    lemma_row_bounded(outcomes);
}

proof fn lemma_row_bounded(outcomes: Seq<SendOutcome>)
    ensures
        sent_in_a_row(outcomes) <= outcomes.len(),
    decreases outcomes.len(),
{
    if outcomes.len() > 0 && outcomes[0] == SendOutcome::Sent {
        lemma_row_bounded(outcomes.skip(1));
    }
}

/// As many proofs are worked on at once as configured, one if nothing is, and 256 may wait.
pub proof fn law_terms_of_the_manager(configured: usize)
    ensures
        terms_for(Some(configured)).permits == configured,
        terms_for(None).permits == 1,
        terms_for(Some(configured)).queue_capacity == 256,
        terms_for(None).queue_capacity == 256,
{
}

/// Rows that cannot be had end the loading at once, with the reason; whatever is then said
/// of sending changes nothing.
pub proof fn law_rows_that_cannot_be_had(cause: Seq<char>, outcomes: Seq<SendOutcome>)
    ensures
        load_after(load_begun(Err(cause)), outcomes) == (LoadView::Fail {
            message: "Failed to load incomplete tasks from database"@,
            cause,
        }),
    decreases outcomes.len(),
{
    if outcomes.len() > 0 {
        law_rows_that_cannot_be_had(cause, outcomes.skip(1));
    }
}

/// All rows that are computing are taken up again, as of the time, as many as a query can
/// ask for.
pub proof fn law_backlog_is_what_computes(now: u64)
    ensures
        backlog_at(now).status == Status::Computing,
        now <= i64::MAX ==> backlog_at(now).now == now,
        backlog_at(now).limit == 0x7fff_ffff,
{
}

} // verus!
