//! How one segment of a proof is proved.
//!
//! The segment is read from a file that may not be complete yet, so a failure to read
//! or to decode it is tried again some times. The program and its keys are had from the
//! caches, and made only where their slots are empty. Each state below names what is to be
//! done outside; its `answer` takes what came of it and gives the next state.
use crate::cache::{ProgramCache, StarkKeyCache};
use crate::codec::{zstd_content, zstd_unpack};
use crate::memory::{law_asking_keeps, law_slot_is_filled_if_kept, lemma_shelf_wf, Memory};
use crate::outcome::{bytes_view, done_view, value_view};
use crate::text::cat;
use vstd::prelude::*;

verus! {

/// How often reading a segment is tried again.
pub const MAX_RETRIES: usize = 10;

/// How long to wait before that, in milliseconds.
pub const RETRY_DELAY: u64 = 300;

/// What is to be proved.
pub struct ProveContext {
    pub program_id: String,
    /// The file of the program.
    pub elf_path: String,
    /// The file of the segment.
    pub segment: String,
    pub seg_size: u32,
}

/// What a [`ProveContext`] says.
#[verifier::ext_equal]
pub struct ProveContextView {
    pub program_id: Seq<char>,
    pub elf_path: Seq<char>,
    pub segment: Seq<char>,
    pub seg_size: u32,
}

impl View for ProveContext {
    type V = ProveContextView;

    open spec fn view(&self) -> ProveContextView {
        ProveContextView {
            program_id: self.program_id@,
            elf_path: self.elf_path@,
            segment: self.segment@,
            seg_size: self.seg_size,
        }
    }
}

/// Where an execution stands, of type `S`, and the public values so far, of type `P`.
pub struct StateWithPublicValues<S, P> {
    pub state: S,
    pub public_values: P,
}

/// A segment: the state from which its record can be made, or the record itself, of
/// type `R`.
pub enum Segment<S, P, R> {
    State(Box<StateWithPublicValues<S, P>>),
    Record(Box<R>),
}

/// The prover of segments.
pub struct RootProver {}

/// The file of the segment is to be read.
pub struct ReadWork<'a> {
    pub ctx: &'a ProveContext,
    pub retries: usize,
}

/// These bytes are to be decoded as a segment.
pub struct DecodeWork<'a> {
    pub ctx: &'a ProveContext,
    pub retries: usize,
    pub bytes: Vec<u8>,
}

/// `complaint` may be logged; then [`RETRY_DELAY`] is to pass.
pub struct PauseWork<'a> {
    pub ctx: &'a ProveContext,
    pub retries: usize,
    pub complaint: String,
}

/// An execution that is to be traced.
pub struct Tracing<'a, S, P> {
    pub ctx: &'a ProveContext,
    pub state: S,
    pub public_values: P,
}

/// What a [`Tracing`] says.
pub struct TracingView<S, P> {
    pub ctx: ProveContextView,
    pub state: S,
    pub public_values: P,
}

impl<'a, S, P> View for Tracing<'a, S, P> {
    type V = TracingView<S, P>;

    open spec fn view(&self) -> TracingView<S, P> {
        TracingView { ctx: self.ctx@, state: self.state, public_values: self.public_values }
    }
}

/// A record that is to be proved. Where public values come with it, they replace its own.
pub struct Proving<'a, P, R> {
    pub ctx: &'a ProveContext,
    pub record: R,
    pub public_values: Option<P>,
}

/// What a [`Proving`] says.
pub struct ProvingView<P, R> {
    pub ctx: ProveContextView,
    pub record: R,
    pub public_values: Option<P>,
}

impl<'a, P, R> View for Proving<'a, P, R> {
    type V = ProvingView<P, R>;

    open spec fn view(&self) -> ProvingView<P, R> {
        ProvingView { ctx: self.ctx@, record: self.record, public_values: self.public_values }
    }
}

/// The cache of programs is to be asked for the slot of the program.
pub struct ProgramAsk<'a, S, P> {
    pub job: Tracing<'a, S, P>,
}

/// The slot `let_go` is to be dropped, and whether `slot` is filled to be found out. No
/// other proof may fill it until this one has gone on to the trace or failed.
pub struct ProgramLook<'a, S, P> {
    pub job: Tracing<'a, S, P>,
    pub slot: u64,
    pub let_go: Option<u64>,
}

/// The file of the program is to be read.
pub struct ElfWork<'a, S, P> {
    pub job: Tracing<'a, S, P>,
    pub slot: u64,
}

/// The program is to be made from its file.
pub struct BuildWork<'a, S, P> {
    pub job: Tracing<'a, S, P>,
    pub slot: u64,
    pub elf: Vec<u8>,
}

/// The slot is to be filled with the program that was made.
pub struct ProgramKeep<'a, S, P> {
    pub job: Tracing<'a, S, P>,
    pub slot: u64,
}

/// The execution of the program in `slot` is to be traced from a state on.
pub struct TraceWork<'a, P> {
    pub ctx: &'a ProveContext,
    pub public_values: P,
    pub slot: u64,
}

/// The cache of keys is to be asked for the slot of the program's keys.
pub struct KeysAsk<'a, P, R> {
    pub job: Proving<'a, P, R>,
}

/// The slot `let_go` is to be dropped, and whether `slot` is filled to be found out. No
/// other proof may fill it until this one has gone on to the proof.
pub struct KeysLook<'a, P, R> {
    pub job: Proving<'a, P, R>,
    pub slot: u64,
    pub let_go: Option<u64>,
}

/// The keys are to be made from the program of the record, and the slot filled with them.
pub struct KeysKeep<'a, P, R> {
    pub job: Proving<'a, P, R>,
    pub slot: u64,
}

/// A record is to be proved with the keys in `slot`. Where public values come with it, its
/// deferred events are to be dropped and its public values replaced first.
pub struct ProveWork<'a> {
    pub ctx: &'a ProveContext,
    pub slot: u64,
}

/// How far the proof of a segment has come.
pub enum RootStep<'a, S, P, R> {
    Read(ReadWork<'a>),
    Decode(DecodeWork<'a>),
    Pause(PauseWork<'a>),
    AskProgram(ProgramAsk<'a, S, P>),
    LookProgram(ProgramLook<'a, S, P>),
    ReadElf(ElfWork<'a, S, P>),
    BuildProgram(BuildWork<'a, S, P>),
    KeepProgram(ProgramKeep<'a, S, P>),
    Trace { state: S, trace: TraceWork<'a, P> },
    AskKeys(KeysAsk<'a, P, R>),
    LookKeys(KeysLook<'a, P, R>),
    KeepKeys(KeysKeep<'a, P, R>),
    Prove { record: R, public_values: Option<P>, proof: ProveWork<'a> },
    /// The proof.
    Done(Vec<u8>),
    /// There is none, for this reason.
    Fail(String),
}

/// What a [`RootStep`] says.
pub enum RootView<S, P, R> {
    Read { ctx: ProveContextView, retries: nat },
    Decode { ctx: ProveContextView, retries: nat, bytes: Seq<u8> },
    Pause { ctx: ProveContextView, retries: nat, complaint: Seq<char> },
    AskProgram { job: TracingView<S, P> },
    LookProgram { job: TracingView<S, P>, slot: u64, let_go: Option<u64> },
    ReadElf { job: TracingView<S, P>, slot: u64 },
    BuildProgram { job: TracingView<S, P>, slot: u64, elf: Seq<u8> },
    KeepProgram { job: TracingView<S, P>, slot: u64 },
    Trace { job: TracingView<S, P>, slot: u64 },
    AskKeys { record: ProvingView<P, R> },
    LookKeys { record: ProvingView<P, R>, slot: u64, let_go: Option<u64> },
    KeepKeys { record: ProvingView<P, R>, slot: u64 },
    Prove { record: ProvingView<P, R>, slot: u64 },
    Done(Seq<u8>),
    Fail(Seq<char>),
}

impl<'a, S, P, R> View for RootStep<'a, S, P, R> {
    type V = RootView<S, P, R>;

    open spec fn view(&self) -> RootView<S, P, R> {
        match self {
            RootStep::Read(w) => RootView::Read { ctx: w.ctx@, retries: w.retries as nat },
            RootStep::Decode(w) => RootView::Decode {
                ctx: w.ctx@,
                retries: w.retries as nat,
                bytes: w.bytes@,
            },
            RootStep::Pause(w) => RootView::Pause {
                ctx: w.ctx@,
                retries: w.retries as nat,
                complaint: w.complaint@,
            },
            RootStep::AskProgram(w) => RootView::AskProgram { job: w.job@ },
            RootStep::LookProgram(w) => RootView::LookProgram {
                job: w.job@,
                slot: w.slot,
                let_go: w.let_go,
            },
            RootStep::ReadElf(w) => RootView::ReadElf { job: w.job@, slot: w.slot },
            RootStep::BuildProgram(w) => RootView::BuildProgram {
                job: w.job@,
                slot: w.slot,
                elf: w.elf@,
            },
            RootStep::KeepProgram(w) => RootView::KeepProgram { job: w.job@, slot: w.slot },
            RootStep::Trace { state, trace } => RootView::Trace {
                job: TracingView {
                    ctx: trace.ctx@,
                    state: *state,
                    public_values: trace.public_values,
                },
                slot: trace.slot,
            },
            RootStep::AskKeys(w) => RootView::AskKeys { record: w.job@ },
            RootStep::LookKeys(w) => RootView::LookKeys {
                record: w.job@,
                slot: w.slot,
                let_go: w.let_go,
            },
            RootStep::KeepKeys(w) => RootView::KeepKeys { record: w.job@, slot: w.slot },
            RootStep::Prove { record, public_values, proof } => RootView::Prove {
                record: ProvingView {
                    ctx: proof.ctx@,
                    record: *record,
                    public_values: *public_values,
                },
                slot: proof.slot,
            },
            RootStep::Done(proof) => RootView::Done(proof@),
            RootStep::Fail(message) => RootView::Fail(message@),
        }
    }
}

/// The first state of the proof of a segment.
pub open spec fn root_begun<S, P, R>(ctx: ProveContextView) -> RootView<S, P, R> {
    RootView::Read { ctx, retries: 0 }
}

/// The state after the delay.
pub open spec fn resumed<S, P, R>(ctx: ProveContextView, retries: nat) -> RootView<S, P, R> {
    RootView::Read { ctx, retries }
}

/// The state after the slot of the program was filled.
pub open spec fn program_kept<S, P, R>(job: TracingView<S, P>, slot: u64) -> RootView<S, P, R> {
    RootView::Trace { job, slot }
}

/// The state after the slot of the keys was filled.
pub open spec fn keys_made<S, P, R>(record: ProvingView<P, R>, slot: u64) -> RootView<S, P, R> {
    RootView::Prove { record, slot }
}

/// The state after an attempt to get the segment failed.
pub open spec fn attempt_failed<S, P, R>(
    ctx: ProveContextView,
    retries: nat,
    complaint: Seq<char>,
) -> RootView<S, P, R> {
    if retries >= MAX_RETRIES {
        RootView::Fail("Segment read/decode failed after 10 retries: "@ + complaint)
    } else {
        RootView::Pause { ctx, retries: retries + 1, complaint }
    }
}

/// The state after the file was read and what it holds unpacked.
pub open spec fn unpacked<S, P, R>(
    ctx: ProveContextView,
    retries: nat,
    content: Result<Seq<u8>, Seq<char>>,
) -> RootView<S, P, R> {
    match content {
        Ok(bytes) => RootView::Decode { ctx, retries, bytes },
        Err(message) => attempt_failed(ctx, retries, "zstd decode failed: "@ + message),
    }
}

/// The state after the file was read.
pub open spec fn read_answered<S, P, R>(
    ctx: ProveContextView,
    retries: nat,
    outcome: Result<Seq<u8>, Seq<char>>,
) -> RootView<S, P, R> {
    match outcome {
        Ok(bytes) => unpacked(ctx, retries, zstd_content(bytes)),
        Err(message) => attempt_failed(ctx, retries, message),
    }
}

/// The state after the bytes were decoded.
pub open spec fn decode_answered<S, P, R>(
    ctx: ProveContextView,
    retries: nat,
    outcome: Result<Segment<S, P, R>, Seq<char>>,
) -> RootView<S, P, R> {
    match outcome {
        Ok(Segment::State(at)) => RootView::AskProgram {
            job: TracingView { ctx, state: at.state, public_values: at.public_values },
        },
        Ok(Segment::Record(record)) => RootView::AskKeys {
            record: ProvingView { ctx, record: *record, public_values: None },
        },
        Err(message) => attempt_failed(ctx, retries, "deserialize failed: "@ + message),
    }
}

/// The state once it is known whether the slot of the program is filled.
pub open spec fn program_looked<S, P, R>(
    job: TracingView<S, P>,
    slot: u64,
    filled: bool,
) -> RootView<S, P, R> {
    if filled {
        RootView::Trace { job, slot }
    } else {
        RootView::ReadElf { job, slot }
    }
}

/// The state after the file of the program was read.
pub open spec fn elf_answered<S, P, R>(
    job: TracingView<S, P>,
    slot: u64,
    outcome: Result<Seq<u8>, Seq<char>>,
) -> RootView<S, P, R> {
    match outcome {
        Ok(elf) => RootView::BuildProgram { job, slot, elf },
        Err(message) => RootView::Fail(message),
    }
}

/// The state after the program was made, or not.
pub open spec fn build_answered<S, P, R>(
    job: TracingView<S, P>,
    slot: u64,
    outcome: Result<(), Seq<char>>,
) -> RootView<S, P, R> {
    match outcome {
        Ok(_) => RootView::KeepProgram { job, slot },
        Err(message) => RootView::Fail(message),
    }
}

/// The state after the execution was traced: only its first record counts.
pub open spec fn traced<S, P, R>(
    ctx: ProveContextView,
    public_values: P,
    records: Seq<R>,
) -> RootView<S, P, R> {
    RootView::AskKeys {
        record: ProvingView { ctx, record: records[0], public_values: Some(public_values) },
    }
}

/// The state once it is known whether the slot of the keys is filled.
pub open spec fn keys_looked<S, P, R>(
    record: ProvingView<P, R>,
    slot: u64,
    filled: bool,
) -> RootView<S, P, R> {
    if filled {
        RootView::Prove { record, slot }
    } else {
        RootView::KeepKeys { record, slot }
    }
}

/// The state after the record was proved.
pub open spec fn prove_answered<S, P, R>(outcome: Result<Seq<u8>, Seq<char>>) -> RootView<
    S,
    P,
    R,
> {
    match outcome {
        Ok(proof) => RootView::Done(proof),
        Err(message) => RootView::Fail(message),
    }
}

fn fail_attempt<'a, S, P, R>(ctx: &'a ProveContext, retries: usize, complaint: String) -> (r:
    RootStep<'a, S, P, R>)
    ensures
        r@ == attempt_failed::<S, P, R>(ctx@, retries as nat, complaint@),
{
    if retries >= MAX_RETRIES {
        RootStep::Fail(
            cat("Segment read/decode failed after 10 retries: ", complaint.as_str()),
        )
    } else {
        RootStep::Pause(PauseWork { ctx, retries: retries + 1, complaint })
    }
}

impl Default for RootProver {
    fn default() -> (r: Self)
        ensures
            r == (RootProver {  }),
    {
        RootProver {  }
    }
}

impl RootProver {
    /// Begins the proof of a segment.
    pub fn prove<'a, S, P, R>(&self, ctx: &'a ProveContext) -> (r: RootStep<'a, S, P, R>)
        ensures
            r@ == root_begun::<S, P, R>(ctx@),
    {
        RootStep::Read(ReadWork { ctx, retries: 0 })
    }
}

impl<'a> ReadWork<'a> {
    /// Goes on with what the file holds, or the message in its place.
    pub fn answer<S, P, R>(self, outcome: Result<Vec<u8>, String>) -> (r: RootStep<'a, S, P, R>)
        ensures
            r@ == read_answered::<S, P, R>(self.ctx@, self.retries as nat, bytes_view(outcome)),
    {
        match outcome {
            Ok(bytes) => self.unpack(zstd_unpack(bytes.as_slice())),
            Err(message) => fail_attempt(self.ctx, self.retries, message),
        }
    }

    /// Goes on with what the file holds once unpacked, or the message in its place.
    pub fn unpack<S, P, R>(self, content: Result<Vec<u8>, String>) -> (r: RootStep<'a, S, P, R>)
        ensures
            r@ == unpacked::<S, P, R>(self.ctx@, self.retries as nat, bytes_view(content)),
    {
        match content {
            Ok(bytes) => RootStep::Decode(
                DecodeWork { ctx: self.ctx, retries: self.retries, bytes },
            ),
            Err(message) => fail_attempt(
                self.ctx,
                self.retries,
                cat("zstd decode failed: ", message.as_str()),
            ),
        }
    }
}

impl<'a> DecodeWork<'a> {
    /// Goes on with the segment, or the message in its place.
    pub fn answer<S, P, R>(self, outcome: Result<Segment<S, P, R>, String>) -> (r: RootStep<
        'a,
        S,
        P,
        R,
    >)
        ensures
            r@ == decode_answered::<S, P, R>(
                self.ctx@,
                self.retries as nat,
                value_view(outcome),
            ),
    {
        match outcome {
            Ok(Segment::State(at)) => {
                let at: StateWithPublicValues<S, P> = *at;
                RootStep::AskProgram(
                    ProgramAsk {
                        job: Tracing {
                            ctx: self.ctx,
                            state: at.state,
                            public_values: at.public_values,
                        },
                    },
                )
            },
            Ok(Segment::Record(record)) => RootStep::AskKeys(
                KeysAsk {
                    job: Proving { ctx: self.ctx, record: *record, public_values: None },
                },
            ),
            Err(message) => fail_attempt(
                self.ctx,
                self.retries,
                cat("deserialize failed: ", message.as_str()),
            ),
        }
    }
}

impl<'a> PauseWork<'a> {
    /// Goes on after the delay.
    pub fn answer<S, P, R>(self) -> (r: RootStep<'a, S, P, R>)
        ensures
            r@ == resumed::<S, P, R>(self.ctx@, self.retries as nat),
    {
        RootStep::Read(ReadWork { ctx: self.ctx, retries: self.retries })
    }
}

fn begin_trace<'a, S, P, R>(job: Tracing<'a, S, P>, slot: u64) -> (r: RootStep<'a, S, P, R>)
    ensures
        r@ == (RootView::<S, P, R>::Trace { job: job@, slot }),
{
    RootStep::Trace {
        state: job.state,
        trace: TraceWork { ctx: job.ctx, public_values: job.public_values, slot },
    }
}

fn begin_proof<'a, S, P, R>(job: Proving<'a, P, R>, slot: u64) -> (r: RootStep<'a, S, P, R>)
    ensures
        r@ == (RootView::<S, P, R>::Prove { record: job@, slot }),
{
    RootStep::Prove {
        record: job.record,
        public_values: job.public_values,
        proof: ProveWork { ctx: job.ctx, slot },
    }
}

impl<'a, S, P> ProgramAsk<'a, S, P> {
    /// Asks the cache for the slot of the program.
    pub fn ask(self, programs: &mut ProgramCache) -> (r: ProgramLook<'a, S, P>)
        requires
            old(programs)@.wf(),
            old(programs)@.made < u64::MAX,
        ensures
            final(programs)@ == old(programs)@.asked(self.job.ctx.program_id@),
            final(programs)@.wf(),
            r.job == self.job,
            r.slot == old(programs)@.slot_for(self.job.ctx.program_id@),
            r.let_go == old(programs)@.let_go(self.job.ctx.program_id@),
    {
        let grant = programs.get_or_init_slot(self.job.ctx.program_id.as_str());
        ProgramLook { job: self.job, slot: grant.slot, let_go: grant.let_go }
    }
}

impl<'a, S, P> ProgramLook<'a, S, P> {
    /// Goes on, knowing whether the slot is filled: the file is read only if it is not.
    pub fn answer<R>(self, filled: bool) -> (r: RootStep<'a, S, P, R>)
        ensures
            r@ == program_looked::<S, P, R>(self.job@, self.slot, filled),
    {
        if filled {
            begin_trace(self.job, self.slot)
        } else {
            RootStep::ReadElf(ElfWork { job: self.job, slot: self.slot })
        }
    }
}

impl<'a, S, P> ElfWork<'a, S, P> {
    /// Goes on with what the file holds, or the message in its place.
    pub fn answer<R>(self, outcome: Result<Vec<u8>, String>) -> (r: RootStep<'a, S, P, R>)
        ensures
            r@ == elf_answered::<S, P, R>(self.job@, self.slot, bytes_view(outcome)),
    {
        match outcome {
            Ok(elf) => RootStep::BuildProgram(BuildWork { job: self.job, slot: self.slot, elf }),
            Err(message) => RootStep::Fail(message),
        }
    }
}

impl<'a, S, P> BuildWork<'a, S, P> {
    /// Goes on, unless the program could not be made. A slot is not filled with a failure.
    pub fn answer<R>(self, outcome: Result<(), String>) -> (r: RootStep<'a, S, P, R>)
        ensures
            r@ == build_answered::<S, P, R>(self.job@, self.slot, done_view(outcome)),
    {
        match outcome {
            Ok(_) => RootStep::KeepProgram(ProgramKeep { job: self.job, slot: self.slot }),
            Err(message) => RootStep::Fail(message),
        }
    }
}

impl<'a, S, P> ProgramKeep<'a, S, P> {
    /// Goes on, the slot being filled.
    pub fn answer<R>(self) -> (r: RootStep<'a, S, P, R>)
        ensures
            r@ == program_kept::<S, P, R>(self.job@, self.slot),
    {
        begin_trace(self.job, self.slot)
    }
}

impl<'a, P, R> KeysAsk<'a, P, R> {
    /// Asks the cache for the slot of the keys.
    pub fn ask(self, keys: &mut StarkKeyCache) -> (r: KeysLook<'a, P, R>)
        requires
            old(keys)@.wf(),
            old(keys)@.made < u64::MAX,
        ensures
            final(keys)@ == old(keys)@.asked(self.job.ctx.program_id@),
            final(keys)@.wf(),
            r.job == self.job,
            r.slot == old(keys)@.slot_for(self.job.ctx.program_id@),
            r.let_go == old(keys)@.let_go(self.job.ctx.program_id@),
    {
        let grant = keys.get_or_init_slot(self.job.ctx.program_id.as_str());
        KeysLook { job: self.job, slot: grant.slot, let_go: grant.let_go }
    }
}

impl<'a, P, R> KeysLook<'a, P, R> {
    /// Goes on, knowing whether the slot is filled: keys are made only if it is not.
    pub fn answer<S>(self, filled: bool) -> (r: RootStep<'a, S, P, R>)
        ensures
            r@ == keys_looked::<S, P, R>(self.job@, self.slot, filled),
    {
        if filled {
            begin_proof(self.job, self.slot)
        } else {
            RootStep::KeepKeys(KeysKeep { job: self.job, slot: self.slot })
        }
    }
}

impl<'a, P, R> KeysKeep<'a, P, R> {
    /// Goes on, the slot being filled.
    pub fn answer<S>(self) -> (r: RootStep<'a, S, P, R>)
        ensures
            r@ == keys_made::<S, P, R>(self.job@, self.slot),
    {
        begin_proof(self.job, self.slot)
    }
}

impl<'a, P> TraceWork<'a, P> {
    /// Goes on with the records of the execution, at least one.
    pub fn answer<S, R>(self, records: Vec<R>) -> (r: RootStep<'a, S, P, R>)
        requires
            records@.len() > 0,
        ensures
            r@ == traced::<S, P, R>(self.ctx@, self.public_values, records@),
    {
        let mut records: Vec<R> = records;
        let record: R = records.remove(0);
        RootStep::AskKeys(
            KeysAsk {
                job: Proving { ctx: self.ctx, record, public_values: Some(self.public_values) },
            },
        )
    }
}

impl<'a> ProveWork<'a> {
    /// Ends with the proof, or the message in its place.
    pub fn answer<S, P, R>(self, outcome: Result<Vec<u8>, String>) -> (r: RootStep<'a, S, P, R>)
        ensures
            r@ == prove_answered::<S, P, R>(bytes_view(outcome)),
    {
        match outcome {
            Ok(proof) => RootStep::Done(proof),
            Err(message) => RootStep::Fail(message),
        }
    }
}

// ---------------------------------------------------------------------------
// What holds of every attempt
// ---------------------------------------------------------------------------

/// What came of one attempt to get a segment: the segment, or the complaint that it
/// ended in.
pub enum Attempt<S, P, R> {
    Unreadable(Seq<char>),
    Undecodable { frames: Seq<u8>, message: Seq<char> },
    Decoded { frames: Seq<u8>, segment: Segment<S, P, R> },
}

/// The complaint of an attempt. Bytes that do not unpack are not decoded.
pub open spec fn complaint<S, P, R>(attempt: Attempt<S, P, R>) -> Option<Seq<char>> {
    match attempt {
        Attempt::Unreadable(message) => Some(message),
        Attempt::Undecodable { frames, message } => match zstd_content(frames) {
            Ok(_) => Some("deserialize failed: "@ + message),
            Err(reason) => Some("zstd decode failed: "@ + reason),
        },
        Attempt::Decoded { frames, segment } => match zstd_content(frames) {
            Ok(_) => None,
            Err(reason) => Some("zstd decode failed: "@ + reason),
        },
    }
}

/// The state in which an attempt ends.
pub open spec fn attempted<S, P, R>(
    ctx: ProveContextView,
    retries: nat,
    attempt: Attempt<S, P, R>,
) -> RootView<S, P, R> {
    let read = match attempt {
        Attempt::Unreadable(message) => Err(message),
        Attempt::Undecodable { frames, message } => Ok(frames),
        Attempt::Decoded { frames, segment } => Ok(frames),
    };
    match read_answered::<S, P, R>(ctx, retries, read) {
        RootView::Decode { ctx, retries, bytes } => decode_answered(
            ctx,
            retries,
            match attempt {
                Attempt::Unreadable(message) => Err(message),
                Attempt::Undecodable { frames, message } => Err(message),
                Attempt::Decoded { frames, segment } => Ok(segment),
            },
        ),
        other => other,
    }
}

/// The state in which attempts end, `retries` of which were made before: the state
/// after the first that gives a segment, or after the last.
pub open spec fn fetched<S, P, R>(
    ctx: ProveContextView,
    retries: nat,
    attempts: Seq<Attempt<S, P, R>>,
) -> RootView<S, P, R>
    decreases attempts.len(),
{
    if attempts.len() == 0 {
        RootView::Read { ctx, retries }
    } else {
        match attempted(ctx, retries, attempts[0]) {
            RootView::Pause { ctx, retries, complaint } => fetched(
                ctx,
                retries,
                attempts.skip(1),
            ),
            other => other,
        }
    }
}

/// Where one of the first eleven attempts gives a segment, that segment is proved,
/// whatever the attempts before it ended in.
pub proof fn law_one_good_attempt_is_enough<S, P, R>(
    ctx: ProveContextView,
    attempts: Seq<Attempt<S, P, R>>,
    good: int,
)
    requires
        0 <= good < attempts.len(),
        good <= 10,
        complaint(attempts[good]) is None,
        forall|i: int| 0 <= i < good ==> complaint(#[trigger] attempts[i]) is Some,
    ensures
        fetched(ctx, 0, attempts) == decode_answered::<S, P, R>(
            ctx,
            good as nat,
            Ok(attempts[good]->Decoded_segment),
        ),
        fetched(ctx, 0, attempts) is AskProgram || fetched(ctx, 0, attempts) is AskKeys,
{
    lemma_good_attempt(ctx, 0, attempts, good);
}

proof fn lemma_good_attempt<S, P, R>(
    ctx: ProveContextView,
    retries: nat,
    attempts: Seq<Attempt<S, P, R>>,
    good: int,
)
    requires
        0 <= good < attempts.len(),
        retries + good <= MAX_RETRIES,
        complaint(attempts[good]) is None,
        forall|i: int| 0 <= i < good ==> complaint(#[trigger] attempts[i]) is Some,
    ensures
        fetched(ctx, retries, attempts) == decode_answered::<S, P, R>(
            ctx,
            (retries + good) as nat,
            Ok(attempts[good]->Decoded_segment),
        ),
    decreases good,
{
    if good > 0 {
        assert(complaint(attempts[0]) is Some);
        let rest = attempts.skip(1);
        assert(rest[good - 1] == attempts[good]);
        assert forall|i: int| 0 <= i < good - 1 implies complaint(#[trigger] rest[i]) is Some by {
            assert(rest[i] == attempts[i + 1]);
        }
        lemma_good_attempt(ctx, retries + 1, rest, good - 1);
    }
}

/// Where the first eleven attempts all fail, the proof fails with the complaint of the
/// eleventh, and there is no twelfth.
pub proof fn law_eleven_failures_are_final<S, P, R>(
    ctx: ProveContextView,
    attempts: Seq<Attempt<S, P, R>>,
)
    requires
        attempts.len() > 10,
        forall|i: int| 0 <= i <= 10 ==> complaint(#[trigger] attempts[i]) is Some,
    ensures
        fetched(ctx, 0, attempts) == RootView::<S, P, R>::Fail(
            "Segment read/decode failed after 10 retries: "@ + complaint(attempts[10])->0,
        ),
{
    lemma_failures(ctx, 0, attempts);
}

proof fn lemma_failures<S, P, R>(
    ctx: ProveContextView,
    retries: nat,
    attempts: Seq<Attempt<S, P, R>>,
)
    requires
        retries <= MAX_RETRIES,
        attempts.len() > MAX_RETRIES - retries,
        forall|i: int|
            0 <= i <= MAX_RETRIES - retries ==> complaint(#[trigger] attempts[i]) is Some,
    ensures
        fetched(ctx, retries, attempts) == RootView::<S, P, R>::Fail(
            "Segment read/decode failed after 10 retries: "@ + complaint(
                attempts[MAX_RETRIES - retries],
            )->0,
        ),
    decreases MAX_RETRIES - retries,
{
    assert(complaint(attempts[0]) is Some);
    if retries < MAX_RETRIES {
        let rest = attempts.skip(1);
        assert forall|i: int| 0 <= i <= MAX_RETRIES - (retries + 1) implies complaint(
            #[trigger] rest[i],
        ) is Some by {
            assert(rest[i] == attempts[i + 1]);
        }
        assert(rest[MAX_RETRIES - (retries + 1)] == attempts[MAX_RETRIES - retries]);
        lemma_failures(ctx, retries + 1, rest);
    }
}

// ---------------------------------------------------------------------------
// What is kept of programs and keys
// ---------------------------------------------------------------------------

/// What comes of reading and making a program.
pub struct ProgramWorld {
    pub elf: Result<Seq<u8>, Seq<char>>,
    pub build: spec_fn(Seq<u8>) -> Result<(), Seq<char>>,
}

/// The message of what goes wrong with a program, if anything does.
pub open spec fn program_complaint(world: ProgramWorld) -> Option<Seq<char>> {
    match world.elf {
        Ok(elf) => match (world.build)(elf) {
            Ok(_) => None,
            Err(message) => Some(message),
        },
        Err(message) => Some(message),
    }
}

/// A state, and what is kept at that point.
#[verifier::ext_equal]
pub struct RootAt<S, P, R> {
    pub state: RootView<S, P, R>,
    pub memory: Memory,
}

/// The next state that has to do with programs and keys, and what is kept. Whether a slot
/// is filled is told as it is, and only the states that say so fill one.
pub open spec fn root_next<S, P, R>(at: RootAt<S, P, R>, world: ProgramWorld) -> RootAt<S, P, R> {
    let memory = at.memory;
    match at.state {
        RootView::AskProgram { job } => RootAt {
            state: RootView::LookProgram {
                job,
                slot: memory.programs.cache.slot_for(job.ctx.program_id),
                let_go: memory.programs.cache.let_go(job.ctx.program_id),
            },
            memory: Memory { programs: memory.programs.asked(job.ctx.program_id), ..memory },
        },
        RootView::LookProgram { job, slot, let_go } => RootAt {
            state: program_looked(job, slot, memory.programs.filled.contains(slot)),
            memory,
        },
        RootView::ReadElf { job, slot } => RootAt {
            state: elf_answered(job, slot, world.elf),
            memory,
        },
        RootView::BuildProgram { job, slot, elf } => RootAt {
            state: build_answered(job, slot, (world.build)(elf)),
            memory,
        },
        RootView::KeepProgram { job, slot } => RootAt {
            state: program_kept(job, slot),
            memory: Memory { programs: memory.programs.with(slot), ..memory },
        },
        RootView::AskKeys { record } => RootAt {
            state: RootView::LookKeys {
                record,
                slot: memory.keys.cache.slot_for(record.ctx.program_id),
                let_go: memory.keys.cache.let_go(record.ctx.program_id),
            },
            memory: Memory { keys: memory.keys.asked(record.ctx.program_id), ..memory },
        },
        RootView::LookKeys { record, slot, let_go } => RootAt {
            state: keys_looked(record, slot, memory.keys.filled.contains(slot)),
            memory,
        },
        RootView::KeepKeys { record, slot } => RootAt {
            state: keys_made(record, slot),
            memory: Memory { keys: memory.keys.with(slot), ..memory },
        },
        _ => at,
    }
}

/// The state after so many steps.
pub open spec fn root_after<S, P, R>(
    at: RootAt<S, P, R>,
    world: ProgramWorld,
    steps: nat,
) -> RootAt<S, P, R>
    decreases steps,
{
    if steps == 0 {
        at
    } else {
        root_after(root_next(at, world), world, (steps - 1) as nat)
    }
}

/// A program that cannot be read or made is not kept: the proof fails with the message,
/// an empty slot is left under the program, and the keys are not even asked for.
pub proof fn law_failed_program_is_not_kept<S, P, R>(
    job: TracingView<S, P>,
    memory: Memory,
    world: ProgramWorld,
)
    requires
        memory.programs.wf(),
        !memory.programs.keeps(job.ctx.program_id),
        program_complaint(world) is Some,
    ensures
        ({
            let end = root_after(
                RootAt::<S, P, R> { state: RootView::AskProgram { job }, memory },
                world,
                4,
            );
            &&& end.state == RootView::<S, P, R>::Fail(program_complaint(world)->0)
            &&& end.memory == (Memory {
                programs: memory.programs.asked(job.ctx.program_id),
                ..memory
            })
            &&& !end.memory.programs.keeps(job.ctx.program_id)
        }),
{
    reveal_with_fuel(root_after, 5);
    law_slot_is_filled_if_kept(memory.programs, job.ctx.program_id);
    law_asking_keeps(memory.programs, job.ctx.program_id);
}

/// A program that is not kept is read and made, and then kept, in the slot that was granted
/// for it, and traced from there; the keys are left alone.
pub proof fn law_program_is_kept_once_made<S, P, R>(
    job: TracingView<S, P>,
    memory: Memory,
    world: ProgramWorld,
)
    requires
        memory.programs.wf(),
        !memory.programs.keeps(job.ctx.program_id),
        program_complaint(world) is None,
    ensures
        ({
            let end = root_after(
                RootAt::<S, P, R> { state: RootView::AskProgram { job }, memory },
                world,
                5,
            );
            &&& end.state == (RootView::<S, P, R>::Trace {
                job,
                slot: memory.programs.cache.slot_for(job.ctx.program_id),
            })
            &&& end.memory.programs.keeps(job.ctx.program_id)
            &&& end.memory.keys == memory.keys
        }),
{
    reveal_with_fuel(root_after, 6);
    law_slot_is_filled_if_kept(memory.programs, job.ctx.program_id);
    law_asking_keeps(memory.programs, job.ctx.program_id);
}

/// A program that is kept is neither read nor made again: its execution is traced at once
/// from the slot that was granted for it, whatever has become of its file, and it stays
/// kept.
pub proof fn law_kept_program_is_not_read_again<S, P, R>(
    job: TracingView<S, P>,
    memory: Memory,
    world: ProgramWorld,
)
    requires
        memory.programs.wf(),
        memory.programs.keeps(job.ctx.program_id),
    ensures
        ({
            let first = RootAt::<S, P, R> { state: RootView::AskProgram { job }, memory };
            let end = root_after(first, world, 2);
            &&& root_after(first, world, 1).state is LookProgram
            &&& end.state == (RootView::<S, P, R>::Trace {
                job,
                slot: memory.programs.cache.slot_for(job.ctx.program_id),
            })
            &&& end.memory.programs.keeps(job.ctx.program_id)
            &&& end.memory.keys == memory.keys
        }),
{
    reveal_with_fuel(root_after, 3);
    law_slot_is_filled_if_kept(memory.programs, job.ctx.program_id);
    law_asking_keeps(memory.programs, job.ctx.program_id);
}

/// A failure does not stick: once the file of a program can be read and the program made,
/// a later proof makes it and keeps it, and the one after that does not read the file.
pub proof fn law_failure_does_not_stick<S, P, R>(
    job: TracingView<S, P>,
    memory: Memory,
    bad: ProgramWorld,
    good: ProgramWorld,
    any: ProgramWorld,
)
    requires
        memory.programs.wf(),
        memory.programs.cache.made + 2 < u64::MAX,
        !memory.programs.keeps(job.ctx.program_id),
        program_complaint(bad) is Some,
        program_complaint(good) is None,
    ensures
        ({
            let ask = RootView::<S, P, R>::AskProgram { job };
            let failed = root_after(RootAt { state: ask, memory }, bad, 4);
            let second = root_after(RootAt { state: ask, memory: failed.memory }, good, 5);
            let third = root_after(RootAt { state: ask, memory: second.memory }, any, 2);
            &&& failed.state is Fail
            &&& second.state == (RootView::<S, P, R>::Trace {
                job,
                slot: memory.programs.cache.slot_for(job.ctx.program_id),
            })
            &&& third.state == second.state
        }),
{
    let id = job.ctx.program_id;
    let ask = RootView::<S, P, R>::AskProgram { job };
    let failed = root_after(RootAt { state: ask, memory }, bad, 4);
    law_failed_program_is_not_kept::<S, P, R>(job, memory, bad);
    lemma_shelf_wf(memory.programs, id);
    law_asking_keeps(memory.programs, id);
    law_program_is_kept_once_made::<S, P, R>(job, failed.memory, good);
    let second = root_after(RootAt { state: ask, memory: failed.memory }, good, 5);
    let shelf = failed.memory.programs;
    law_slot_is_filled_if_kept(shelf, id);
    lemma_shelf_wf(shelf, id);
    assert(second.memory.programs == shelf.asked(id).with(shelf.cache.slot_for(id))) by {
        reveal_with_fuel(root_after, 6);
    }
    law_asking_keeps(shelf, id);
    law_kept_program_is_not_read_again::<S, P, R>(job, second.memory, any);
}

/// The keys of a program are made only where none are kept, and then kept. The record is
/// proved with those in the slot that was granted for the program; programs are left alone.
pub proof fn law_keys_are_made_once<S, P, R>(
    record: ProvingView<P, R>,
    memory: Memory,
    world: ProgramWorld,
)
    requires
        memory.keys.wf(),
    ensures
        ({
            let first = RootAt::<S, P, R> { state: RootView::AskKeys { record }, memory };
            let looked = root_after(first, world, 2);
            let end = root_after(first, world, 3);
            &&& (looked.state is KeepKeys) <==> !memory.keys.keeps(record.ctx.program_id)
            &&& end.state == (RootView::<S, P, R>::Prove {
                record,
                slot: memory.keys.cache.slot_for(record.ctx.program_id),
            })
            &&& end.memory.keys.keeps(record.ctx.program_id)
            &&& end.memory.programs == memory.programs
        }),
{
    reveal_with_fuel(root_after, 4);
    law_slot_is_filled_if_kept(memory.keys, record.ctx.program_id);
    law_asking_keeps(memory.keys, record.ctx.program_id);
}

// ---------------------------------------------------------------------------
// What comes of a segment
// ---------------------------------------------------------------------------

/// An attempt that fails is tried again, one more time each, until ten were tried again; the
/// eleventh that fails fails the proof, and says why. Nothing else changes in between.
pub proof fn law_an_attempt_is_tried_again<S, P, R>(
    ctx: ProveContextView,
    retries: nat,
    complaint: Seq<char>,
)
    ensures
        retries < 10 ==> attempt_failed::<S, P, R>(ctx, retries, complaint) == (RootView::<
            S,
            P,
            R,
        >::Pause { ctx, retries: retries + 1, complaint }),
        retries >= 10 ==> attempt_failed::<S, P, R>(ctx, retries, complaint) == RootView::<
            S,
            P,
            R,
        >::Fail("Segment read/decode failed after 10 retries: "@ + complaint),
        resumed::<S, P, R>(ctx, retries) == (RootView::<S, P, R>::Read { ctx, retries }),
        root_begun::<S, P, R>(ctx) == (RootView::<S, P, R>::Read { ctx, retries: 0 }),
{
}

/// What was read is unpacked, and what was unpacked is decoded, byte for byte; an attempt
/// fails where either does not go well, and says which.
pub proof fn law_what_is_read_is_decoded<S, P, R>(
    ctx: ProveContextView,
    retries: nat,
    frames: Seq<u8>,
    message: Seq<char>,
)
    ensures
        zstd_content(frames) matches Ok(bytes) ==> read_answered::<S, P, R>(
            ctx,
            retries,
            Ok(frames),
        ) == (RootView::<S, P, R>::Decode { ctx, retries, bytes }),
        zstd_content(frames) matches Err(reason) ==> read_answered::<S, P, R>(
            ctx,
            retries,
            Ok(frames),
        ) == attempt_failed::<S, P, R>(ctx, retries, "zstd decode failed: "@ + reason),
        read_answered::<S, P, R>(ctx, retries, Err(message)) == attempt_failed::<S, P, R>(
            ctx,
            retries,
            message,
        ),
        decode_answered::<S, P, R>(ctx, retries, Err(message)) == attempt_failed::<S, P, R>(
            ctx,
            retries,
            "deserialize failed: "@ + message,
        ),
        unpacked::<S, P, R>(ctx, retries, zstd_content(frames)) == read_answered::<S, P, R>(
            ctx,
            retries,
            Ok(frames),
        ),
{
}

/// A segment's proof is handed out as it was made, however long it is; where it could not be
/// made, the reason is.
pub proof fn law_proof_of_a_segment_is_handed_out<S, P, R>(proof: Seq<u8>, message: Seq<char>)
    ensures
        prove_answered::<S, P, R>(Ok(proof)) matches RootView::Done(bytes) && bytes.len()
            == proof.len() && forall|i: int|
            0 <= i < proof.len() ==> #[trigger] bytes[i] == proof[i],
        prove_answered::<S, P, R>(Err(message)) == RootView::<S, P, R>::Fail(message),
{
}

/// What comes of everything that is asked for of a decoded segment.
#[verifier::reject_recursive_types(S)]
#[verifier::reject_recursive_types(P)]
#[verifier::reject_recursive_types(R)]
pub struct SegmentWorld<S, P, R> {
    pub program: ProgramWorld,
    /// The records of an execution.
    pub trace: spec_fn(S) -> Seq<R>,
    /// What comes of proving a record, with the public values that replace its own, if any.
    pub prove: spec_fn(R, Option<P>) -> Result<Seq<u8>, Seq<char>>,
}

/// The next state, in such a world.
pub open spec fn segment_next<S, P, R>(
    at: RootAt<S, P, R>,
    world: SegmentWorld<S, P, R>,
) -> RootAt<S, P, R> {
    match at.state {
        RootView::Trace { job, slot } => RootAt {
            state: traced(job.ctx, job.public_values, (world.trace)(job.state)),
            memory: at.memory,
        },
        RootView::Prove { record, slot } => RootAt {
            state: prove_answered((world.prove)(record.record, record.public_values)),
            memory: at.memory,
        },
        _ => root_next(at, world.program),
    }
}

/// The state after so many steps.
pub open spec fn segment_after<S, P, R>(
    at: RootAt<S, P, R>,
    world: SegmentWorld<S, P, R>,
    steps: nat,
) -> RootAt<S, P, R>
    decreases steps,
{
    if steps == 0 {
        at
    } else {
        segment_after(segment_next(at, world), world, (steps - 1) as nat)
    }
}

proof fn lemma_segment_end_stays<S, P, R>(
    at: RootAt<S, P, R>,
    world: SegmentWorld<S, P, R>,
    steps: nat,
)
    requires
        at.state is Done || at.state is Fail,
    ensures
        segment_after(at, world, steps) == at,
    decreases steps,
{
    if steps > 0 {
        lemma_segment_end_stays(at, world, (steps - 1) as nat);
    }
}

proof fn lemma_segment_in_two<S, P, R>(
    at: RootAt<S, P, R>,
    world: SegmentWorld<S, P, R>,
    first: nat,
    second: nat,
)
    ensures
        segment_after(at, world, first + second) == segment_after(
            segment_after(at, world, first),
            world,
            second,
        ),
    decreases first,
{
    if first > 0 {
        lemma_segment_in_two(segment_next(at, world), world, (first - 1) as nat, second);
    }
}

/// What a proof ends with: its bytes, or the reason why there is none.
pub open spec fn ends_with<S, P, R>(
    state: RootView<S, P, R>,
    outcome: Result<Seq<u8>, Seq<char>>,
) -> bool {
    match outcome {
        Ok(bytes) => state == RootView::<S, P, R>::Done(bytes),
        Err(message) => state == RootView::<S, P, R>::Fail(message),
    }
}

proof fn lemma_record_is_proved<S, P, R>(
    record: ProvingView<P, R>,
    memory: Memory,
    world: SegmentWorld<S, P, R>,
    steps: nat,
)
    requires
        steps >= 4,
    ensures
        ends_with(
            segment_after(
                RootAt::<S, P, R> { state: RootView::AskKeys { record }, memory },
                world,
                steps,
            ).state,
            (world.prove)(record.record, record.public_values),
        ),
{
    let first = RootAt::<S, P, R> { state: RootView::AskKeys { record }, memory };
    reveal_with_fuel(segment_after, 5);
    let slot = memory.keys.cache.slot_for(record.ctx.program_id);
    let n: nat = if memory.keys.filled.contains(slot) {
        3
    } else {
        4
    };
    let end = segment_after(first, world, n);
    assert(end.state is Done || end.state is Fail);
    lemma_segment_in_two(first, world, n, (steps - n) as nat);
    lemma_segment_end_stays(end, world, (steps - n) as nat);
}

/// A segment that is a record is proved as it is. One that is a state is executed from that
/// state on, and the first record of that is proved, with the public values of the segment
/// in place of its own; where its program is not kept and cannot be read or made, there is
/// no proof, for that reason. What comes of proving is what comes of the segment.
pub proof fn law_what_comes_of_a_segment<S, P, R>(
    ctx: ProveContextView,
    retries: nat,
    segment: Segment<S, P, R>,
    memory: Memory,
    world: SegmentWorld<S, P, R>,
)
    requires
        memory.programs.wf(),
    ensures
        ({
            let first = RootAt {
                state: decode_answered::<S, P, R>(ctx, retries, Ok(segment)),
                memory,
            };
            let end = segment_after(first, world, 10).state;
            match segment {
                Segment::Record(record) => ends_with(end, (world.prove)(*record, None)),
                Segment::State(at) => if !memory.programs.keeps(ctx.program_id)
                    && program_complaint(world.program) is Some {
                    end == RootView::<S, P, R>::Fail(program_complaint(world.program)->0)
                } else {
                    ends_with(
                        end,
                        (world.prove)((world.trace)(at.state)[0], Some(at.public_values)),
                    )
                },
            }
        }),
{
    let first = RootAt {
        state: decode_answered::<S, P, R>(ctx, retries, Ok(segment)),
        memory,
    };
    match segment {
        Segment::Record(record) => {
            let job = ProvingView { ctx, record: *record, public_values: None };
            lemma_record_is_proved(job, memory, world, 10);
        },
        Segment::State(at) => {
            law_slot_is_filled_if_kept(memory.programs, ctx.program_id);
            reveal_with_fuel(segment_after, 7);
            let keeps = memory.programs.keeps(ctx.program_id);
            if !keeps && program_complaint(world.program) is Some {
                let n: nat = if world.program.elf is Err {
                    3
                } else {
                    4
                };
                let end = segment_after(first, world, n);
                assert(end.state is Fail);
                lemma_segment_in_two(first, world, n, (10 - n) as nat);
                lemma_segment_end_stays(end, world, (10 - n) as nat);
            } else {
                let n: nat = if keeps {
                    3
                } else {
                    6
                };
                let traced_at = segment_after(first, world, n);
                let job = ProvingView {
                    ctx,
                    record: (world.trace)(at.state)[0],
                    public_values: Some(at.public_values),
                };
                assert(traced_at.state == (RootView::<S, P, R>::AskKeys { record: job }));
                lemma_segment_in_two(first, world, n, (10 - n) as nat);
                lemma_record_is_proved(job, traced_at.memory, world, (10 - n) as nat);
            }
        },
    }
}

} // verus!
