//! What is said about a proof, each in terms of its row, its context and its files.
use crate::layout::law_addresses_of_results;
use crate::protocol::{Build, Status, StatusReplyView, Step};
use crate::service::{
    files_for, known_reply, path_view, unknown_reply, FoundTask, StageServiceSVC, StatusContents,
};
use crate::text::joined;
use crate::worker::{single_node_answered, RunView, SingleNodeReply, StageSnapshot, StageView};
use vstd::prelude::*;
use vstd::utf8::{decode_utf8, encode_utf8, encode_utf8_decode_utf8};

verus! {

/// A proof that is not known is named, and nothing is said about it.
pub proof fn law_nothing_is_said_of_an_unknown_proof(proof_id: Seq<char>)
    ensures
        ({
            let reply = unknown_reply(proof_id);
            &&& reply.proof_id == proof_id
            &&& reply.status == 0 && reply.step == 0
            &&& reply.proving_time == 0 && reply.total_steps == 0
            &&& reply.output_stream.len() == 0 && reply.receipt.len() == 0
            &&& reply.proof_with_public_inputs.len() == 0
            &&& reply.snark_proof_url.len() == 0 && reply.stark_proof_url.len() == 0
            &&& reply.public_values_url.len() == 0
        }),
{
}

/// What the row of a proof says is told as it stands: the numbers of its status and its
/// step, and its time.
pub proof fn law_row_is_told_as_it_stands(
    service: StageServiceSVC,
    proof_id: Seq<char>,
    found: FoundTask,
    contents: StatusContents,
)
    ensures
        ({
            let reply = known_reply(service, proof_id, found, contents);
            &&& reply.proof_id == proof_id
            &&& reply.status == found.task.status.number
            &&& reply.step == found.task.step.number
            &&& reply.proving_time == found.task.check_at as u64
            &&& found.task.check_at >= 0 ==> reply.proving_time == found.task.check_at
        }),
{
}

/// The steps of a proof are those of its first split task, however many there are; without
/// one there are none to tell.
pub proof fn law_steps_are_those_of_the_first_split(
    service: StageServiceSVC,
    proof_id: Seq<char>,
    found: FoundTask,
    contents: StatusContents,
)
    ensures
        ({
            let steps = known_reply(service, proof_id, found, contents).total_steps;
            &&& found.split_steps@.len() >= 1 ==> steps == found.split_steps@[0]
            &&& steps != 0 ==> found.split_steps@.len() >= 1 && found.split_steps@.first() == steps
        }),
{
}

/// The steps that one prover counted for a whole proof are told of it: they are saved as
/// those of its one split task, and that is what a reply holds.
pub proof fn law_steps_of_a_single_node_are_told(
    run: RunView,
    task_id: Seq<char>,
    reply: SingleNodeReply,
    snapshot: StageSnapshot,
    traced: u64,
    service: StageServiceSVC,
    found: FoundTask,
    contents: StatusContents,
)
    requires
        single_node_answered(run, task_id, run.id, Some(reply), snapshot, traced) matches StageView::SaveSingle {
            run: at,
            snapshot: kept,
            result,
            row,
            total_steps,
        } && found.split_steps@ == seq![total_steps],
    ensures
        known_reply(service, run.id, found, contents).total_steps == reply.total_cycles,
{
}

/// Is there an output stream to hand out: is the proof a success whose context names one?
pub open spec fn output_is_named(found: FoundTask) -> bool {
    match found.context {
        Some(context) => found.task.status.meaning == Status::Success
            && context.output_stream_path@.len() >= 1,
        None => false,
    }
}

/// An output stream is read, and handed out as it was read, exactly where a proof succeeded
/// and its context names one; a receipt exactly where that is a composite proof.
pub proof fn law_output_is_handed_out_as_read(
    service: StageServiceSVC,
    proof_id: Seq<char>,
    found: FoundTask,
    contents: StatusContents,
)
    ensures
        ({
            let reply = known_reply(service, proof_id, found, contents);
            let composite = found.context matches Some(context) && context.composite_proof;
            &&& found.has_output() <==> output_is_named(found)
            &&& output_is_named(found) ==> reply.output_stream == contents.output_stream@
            &&& !output_is_named(found) ==> reply.output_stream.len() == 0
            &&& output_is_named(found) && composite ==> reply.receipt == contents.receipt@
            &&& !(output_is_named(found) && composite) ==> reply.receipt.len() == 0
            &&& found.composite() <==> composite
        }),
{
}

/// What a context says a proof stops at, a SNARK where none tells, and whether its results
/// are handed out: those of a split and of a composite proof are not.
pub proof fn law_which_results_are_handed_out(found: FoundTask)
    ensures
        found.context matches Some(context) ==> found.target() == context.target_step,
        found.context is None ==> found.target() == Step::Snark,
        found.published() <==> match found.context {
            Some(context) => context.target_step != Step::Split && !context.composite_proof,
            None => true,
        },
        found.proof_in_file() <==> match found.context {
            Some(context) => context.target_step == Step::Agg && !context.composite_proof
                && found.task.result is Some && found.task.status.number == 0,
            None => false,
        },
        found.context matches Some(context) ==> found.proof_file() == context.snark_path@,
{
}

/// The result of a proof is handed out exactly where it has one and its results are handed
/// out at all: that of an aggregation under the status zero as it was read from its file,
/// every other as its row holds it.
pub proof fn law_result_is_handed_out(
    service: StageServiceSVC,
    proof_id: Seq<char>,
    found: FoundTask,
    contents: StatusContents,
)
    ensures
        ({
            let proof = known_reply(service, proof_id, found, contents).proof_with_public_inputs;
            let hidden = match found.context {
                Some(context) => context.target_step == Step::Split || context.composite_proof,
                None => false,
            };
            let in_file = match found.context {
                Some(context) => context.target_step == Step::Agg && found.task.status.number == 0,
                None => false,
            };
            &&& hidden || found.task.result is None ==> proof.len() == 0
            &&& !hidden && found.task.result is Some && in_file ==> proof == contents.proof@
            &&& !hidden && found.task.result is Some && !in_file ==> decode_utf8(proof)
                == found.task.result->0@ && proof == encode_utf8(found.task.result->0@)
        }),
{
    if found.task.result is Some {
        encode_utf8_decode_utf8(found.task.result->0@);
    }
}

/// Where the results of a proof are is told where there is a file server and they are handed
/// out at all: the public values as long as there are provers, the proofs only of a SNARK
/// and only by the first generation.
pub proof fn law_where_results_are_told(
    service: StageServiceSVC,
    proof_id: Seq<char>,
    found: FoundTask,
    contents: StatusContents,
)
    ensures
        ({
            let reply = known_reply(service, proof_id, found, contents);
            let url = service.config.fileserver_url;
            let target = match found.context {
                Some(context) => context.target_step,
                None => Step::Snark,
            };
            let hidden = target == Step::Split || (found.context matches Some(context)
                && context.composite_proof);
            let first = service.build == Build::Prover || service.build == Build::Both;
            let listed = url is Some && !hidden;
            let snark = listed && first && target == Step::Snark;
            let values = listed && service.build != Build::Neither;
            &&& snark ==> reply.snark_proof_url == url->0@ + "/"@ + proof_id
                + "/snark/proof_with_public_inputs.json"@
            &&& snark ==> reply.stark_proof_url == url->0@ + "/"@ + proof_id
                + "/wrap/proof_with_public_inputs.json"@
            &&& !snark ==> reply.snark_proof_url.len() == 0 && reply.stark_proof_url.len() == 0
            &&& values && service.build == Build::Prover ==> reply.public_values_url == url->0@
                + "/"@ + proof_id + "/wrap/public_values.json"@
            &&& values && service.build != Build::Prover ==> reply.public_values_url == url->0@
                + "/"@ + proof_id + "/wrap/public_values.bin"@
            &&& !values ==> reply.public_values_url.len() == 0
        }),
{
    if service.config.fileserver_url is Some {
        law_addresses_of_results(
            service.config.fileserver_url->0@,
            proof_id,
            service.build,
        );
    }
}

/// A reply about a proof depends on the contents of the files only in what is handed out of
/// them.
pub proof fn law_contents_change_only_what_they_hold(
    service: StageServiceSVC,
    proof_id: Seq<char>,
    found: FoundTask,
    a: StatusContents,
    b: StatusContents,
)
    ensures
        ({
            let x = known_reply(service, proof_id, found, a);
            let y = known_reply(service, proof_id, found, b);
            y == (StatusReplyView {
                output_stream: y.output_stream,
                receipt: y.receipt,
                proof_with_public_inputs: y.proof_with_public_inputs,
                ..x
            })
        }),
{
}

/// A path that is named is the text that names it.
pub proof fn law_path_is_its_text(path: String)
    ensures
        path_view(Some(path)) == Some(path@),
        path_view(None) is None,
{
}

/// Which files are read for a reply: the output stream that the context of a success names;
/// for a composite proof its receipt, beside what its provers made; and for an aggregation
/// with a result, under the status zero, the file of its proof.
pub proof fn law_which_files_are_read(found: FoundTask)
    ensures
        ({
            let files = files_for(found);
            let composite = found.context matches Some(context) && context.composite_proof;
            let aggregated = match found.context {
                Some(context) => context.target_step == Step::Agg && !context.composite_proof
                    && found.task.result is Some && found.task.status.number == 0,
                None => false,
            };
            &&& files.output_stream is Some <==> output_is_named(found)
            &&& output_is_named(found) ==> files.output_stream == Some(
                found.context->0.output_stream_path@,
            )
            &&& files.receipt is Some <==> output_is_named(found) && composite
            &&& files.receipt is Some ==> files.receipt == Some(
                found.context->0.prove_path@ + "/receipt/0"@,
            )
            &&& files.proof is Some <==> aggregated
            &&& aggregated ==> files.proof == Some(found.context->0.snark_path@)
        }),
{
    if output_is_named(found) {
        let dir = found.context->0.prove_path@;
        reveal_strlit("/");
        reveal_strlit("receipt");
        reveal_strlit("0");
        reveal_strlit("/receipt/0");
        assert(joined(joined(dir, "receipt"@), "0"@) =~= dir + "/receipt/0"@);
    }
}

} // verus!
