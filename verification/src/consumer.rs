use vstd::prelude::*;
use vstd::string::StringExecFns;

use crate::decode::spec_decode_response;
use crate::errors::OkError;
use crate::reducer::{
    content_items, lemma_well_formed_stream, spec_run_items, GDelta, ReducerState,
};

verus! {

/// The concatenation of a fragment sequence, in order.
pub open spec fn concat_frags(fs: Seq<Seq<char>>) -> Seq<char>
    decreases fs.len(),
{
    if fs.len() == 0 {
        Seq::empty()
    } else {
        fs[0] + concat_frags(fs.drop_first())
    }
}

/// Appending one fragment appends its text.
pub proof fn lemma_concat_snoc(fs: Seq<Seq<char>>, x: Seq<char>)
    ensures
        concat_frags(fs.push(x)) == concat_frags(fs) + x,
    decreases fs.len(),
{
    if fs.len() == 0 {
        assert(fs.push(x)[0] == x);
        assert(fs.push(x).drop_first() =~= Seq::<Seq<char>>::empty());
        assert(x + concat_frags(Seq::<Seq<char>>::empty()) =~= x);
        assert(concat_frags(fs) + x =~= x);
    } else {
        assert(fs.push(x)[0] == fs[0]);
        assert(fs.push(x).drop_first() =~= fs.drop_first().push(x));
        lemma_concat_snoc(fs.drop_first(), x);
        assert(fs[0] + (concat_frags(fs.drop_first()) + x) =~= (fs[0] + concat_frags(
            fs.drop_first(),
        )) + x);
    }
}

/// Concatenates the emitted fragments, in order, into the answer text.
pub fn concat_fragments(frags: &Vec<String>) -> (r: String)
    ensures
        r@ == concat_frags(frags.deep_view()),
{
    let mut out = String::new();
    let mut idx: usize = 0;
    proof {
        assert(frags.deep_view().take(0) =~= Seq::<Seq<char>>::empty());
    }
    while idx < frags.len()
        invariant
            0 <= idx <= frags@.len(),
            out@ == concat_frags(frags.deep_view().take(idx as int)),
        decreases frags@.len() - idx,
    {
        proof {
            let dv = frags.deep_view();
            assert(dv.take(idx as int + 1) =~= dv.take(idx as int).push(dv[idx as int]));
            lemma_concat_snoc(dv.take(idx as int), dv[idx as int]);
        }
        out.append(frags[idx].as_str());
        idx += 1;
    }
    proof {
        assert(frags.deep_view().take(frags@.len() as int) =~= frags.deep_view());
    }
    out
}

/// Whether streamed or taken whole, the same answer comes out: if the whole
/// (non-streaming) body decodes to the concatenation of the fragments that a
/// well-formed stream carries, then concatenating what the reducer emits for
/// that stream gives exactly the whole body's answer.
pub proof fn lemma_paths_agree(role: Seq<char>, frags: Seq<Seq<char>>, body: Seq<char>)
    requires
        spec_decode_response(body) == Ok::<Seq<char>, OkError>(concat_frags(frags)),
    ensures
        ({
            let o = spec_run_items(
                ReducerState::AwaitingRole,
                seq![Result::<GDelta, OkError>::Ok(GDelta::RoleAnnouncement { role })]
                    + content_items(frags) + seq![Result::<GDelta, OkError>::Ok(GDelta::Terminal)],
            );
            o.result is Ok && concat_frags(o.fragments) == spec_decode_response(body)->Ok_0
        }),
{
    lemma_well_formed_stream(role, frags);
}

/// The outcome of the executed command: its standard output on success, its
/// standard error as an execution failure otherwise.
pub fn command_outcome(success: bool, stdout: String, stderr: String) -> (r: Result<
    String,
    OkError,
>)
    ensures
        success ==> r == Ok::<String, OkError>(stdout),
        !success ==> r == Err::<String, OkError>(OkError::Execution(stderr)),
{
    if success {
        Ok(stdout)
    } else {
        Err(OkError::Execution(stderr))
    }
}

} // verus!
