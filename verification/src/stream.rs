use vstd::prelude::*;

use crate::decode::spec_decode_body;
use crate::errors::OkError;
use crate::msg::{get_first_choice, ChatFmtMsg, GMsg};
use crate::reducer::{spec_run_items, spec_step, Delta, GDelta, GOutcome, Reducer, ReducerState};

verus! {

/// One frame pulled from the event source: a comment frame, a data frame's
/// payload, or a transport failure while pulling.
#[derive(Clone, Debug)]
pub enum StreamEvent {
    Comment(String),
    Data(String),
    Failure,
}

/// Classifies a decoded message as a delta: a role alone announces the
/// turn, content alone is a fragment, an empty shape is the terminal
/// marker, and a message carrying both is no delta the endpoint emits.
pub open spec fn spec_delta_of(m: GMsg) -> Result<GDelta, OkError> {
    match m {
        GMsg::Role { role } => Ok(GDelta::RoleAnnouncement { role }),
        GMsg::Content { content } => Ok(GDelta::ContentFragment { text: content }),
        GMsg::Empty => Ok(GDelta::Terminal),
        GMsg::Both { .. } => Err(OkError::Protocol),
    }
}

/// Decodes one data frame payload into a delta: the first choice's delta of
/// the chunk it holds; zero choices is a protocol error.
pub open spec fn spec_item_of_data(s: Seq<char>) -> Result<GDelta, OkError> {
    match spec_decode_body(s) {
        Err(e) => Err(e),
        Ok(msgs) => {
            if msgs.len() == 0 {
                Err(OkError::Protocol)
            } else {
                spec_delta_of(msgs[0])
            }
        },
    }
}

/// What one frame hands the reducer: nothing for a comment, a decoded delta
/// or a decode failure for a data frame, a network failure for a transport
/// failure.
pub open spec fn spec_item_of_event(e: StreamEvent) -> Option<Result<GDelta, OkError>> {
    match e {
        StreamEvent::Comment(_) => None,
        StreamEvent::Data(s) => Some(spec_item_of_data(s@)),
        StreamEvent::Failure => Some(Err(OkError::Network)),
    }
}

/// The items a frame sequence hands the reducer, in order.
pub open spec fn spec_items_of_events(events: Seq<StreamEvent>) -> Seq<Result<GDelta, OkError>>
    decreases events.len(),
{
    if events.len() == 0 {
        Seq::empty()
    } else {
        match spec_item_of_event(events[0]) {
            None => spec_items_of_events(events.drop_first()),
            Some(it) => seq![it] + spec_items_of_events(events.drop_first()),
        }
    }
}

/// The reduction of a whole frame sequence, the end of which stands for the
/// server closing the connection.
pub open spec fn spec_run_stream(events: Seq<StreamEvent>) -> GOutcome {
    spec_run_items(ReducerState::AwaitingRole, spec_items_of_events(events))
}

/// How an executable delta decode must relate to [`spec_item_of_data`].
pub open spec fn delta_matches(r: Result<Delta, OkError>, g: Result<GDelta, OkError>) -> bool {
    match (r, g) {
        (Ok(d), Ok(gd)) => d@ == gd,
        (Err(e), Err(ge)) => e == ge,
        _ => false,
    }
}

/// Decodes one data frame payload into the delta it carries, exactly as
/// [`spec_item_of_data`] prescribes.
pub fn decode_data_frame(payload: &str) -> (r: Result<Delta, OkError>)
    ensures
        delta_matches(r, spec_item_of_data(payload@)),
{
    match crate::decode::parse_event(payload) {
        Err(e) => Err(e),
        Ok(res) => match get_first_choice(&res) {
            Err(e) => Err(e),
            Ok(m) => match m {
                ChatFmtMsg::Role { role } => Ok(Delta::RoleAnnouncement { role }),
                ChatFmtMsg::Content { content } => Ok(Delta::ContentFragment { text: content }),
                ChatFmtMsg::Empty {} => Ok(Delta::Terminal),
                ChatFmtMsg::Both { .. } => Err(OkError::Protocol),
            },
        },
    }
}

/// What one consumed frame means to the driver: nothing to do, a fragment
/// to deliver, a finished stream, or a terminal failure.
#[derive(Clone, Debug, PartialEq)]
pub enum StepOutcome {
    Silent,
    Emit(String),
    Finished,
    Failed(OkError),
}

/// Consumes one frame: decodes it and steps the reducer. A finished reducer
/// consumes nothing. A failure finishes the reducer, and the stream's
/// outcome is that failure; the driver must stop pulling on `Finished` and
/// `Failed` and close the connection.
pub fn reduce_event(red: &mut Reducer, ev: &StreamEvent) -> (o: StepOutcome)
    ensures
        old(red).state is Done ==> *final(red) == *old(red) && o is Finished,
        !(old(red).state is Done) ==> match spec_item_of_event(*ev) {
            None => *final(red) == *old(red) && o is Silent,
            Some(Err(e)) => final(red).state is Done && (o matches StepOutcome::Failed(e2)
                && e2 == e),
            Some(Ok(d)) => {
                let stp = spec_step(old(red).state, d);
                final(red).state == stp.0 && match stp.1 {
                    Some(t) => o matches StepOutcome::Emit(f) && f@ == t,
                    None => if stp.0 is Done {
                        o is Finished
                    } else {
                        o is Silent
                    },
                }
            },
        },
{
    match red.state {
        ReducerState::Done => StepOutcome::Finished,
        _ => match ev {
            StreamEvent::Comment(_) => StepOutcome::Silent,
            StreamEvent::Data(payload) => match decode_data_frame(payload.as_str()) {
                Err(e) => {
                    red.state = ReducerState::Done;
                    StepOutcome::Failed(e)
                },
                Ok(d) => {
                    let emitted = red.step(d);
                    match emitted {
                        Some(t) => StepOutcome::Emit(t),
                        None => match red.state {
                            ReducerState::Done => StepOutcome::Finished,
                            _ => StepOutcome::Silent,
                        },
                    }
                },
            },
            StreamEvent::Failure => {
                red.state = ReducerState::Done;
                StepOutcome::Failed(OkError::Network)
            },
        },
    }
}

/// The reduced result of one stream: the fragments emitted in order, and
/// whether the stream ended at the terminal marker or in a failure.
#[derive(Debug)]
pub struct StreamOutcome {
    pub fragments: Vec<String>,
    pub result: Result<(), OkError>,
}

/// An outcome with fragments delivered beforehand put in front.
pub open spec fn extend_outcome(pre: Seq<Seq<char>>, o: GOutcome) -> GOutcome {
    GOutcome { fragments: pre + o.fragments, result: o.result }
}

/// Reduces a whole frame sequence, exactly as [`spec_run_stream`]
/// prescribes: the fragments in arrival order, and success only if the
/// terminal marker came before the connection closed.
pub fn run_stream(events: &Vec<StreamEvent>) -> (o: StreamOutcome)
    ensures
        o.fragments.deep_view() == spec_run_stream(events@).fragments,
        o.result == spec_run_stream(events@).result,
{
    let ghost goal = spec_run_stream(events@);
    let mut red = Reducer::new();
    let mut frags: Vec<String> = Vec::new();
    let mut idx: usize = 0;
    proof {
        assert(events@.skip(0) =~= events@);
        assert(frags.deep_view() + goal.fragments =~= goal.fragments);
    }
    while idx < events.len()
        invariant
            0 <= idx <= events@.len(),
            !(red.state is Done),
            goal == spec_run_stream(events@),
            goal == extend_outcome(
                frags.deep_view(),
                spec_run_items(red.state, spec_items_of_events(events@.skip(idx as int))),
            ),
        decreases events@.len() - idx,
    {
        let ghost tail = events@.skip(idx as int);
        let ghost pre = frags.deep_view();
        proof {
            assert(tail[0] == events@[idx as int]);
            assert(tail.drop_first() =~= events@.skip(idx as int + 1));
        }
        match reduce_event(&mut red, &events[idx]) {
            StepOutcome::Silent => {
                proof {
                    let rest = spec_items_of_events(events@.skip(idx as int + 1));
                    match spec_item_of_event(events@[idx as int]) {
                        None => {},
                        Some(it) => {
                            assert((seq![it] + rest).drop_first() =~= rest);
                            assert((seq![it] + rest)[0] == it);
                        },
                    }
                }
            },
            StepOutcome::Emit(t) => {
                proof {
                    let rest = spec_items_of_events(events@.skip(idx as int + 1));
                    let it = spec_item_of_event(events@[idx as int])->Some_0;
                    assert((seq![it] + rest).drop_first() =~= rest);
                    assert((seq![it] + rest)[0] == it);
                }
                let ghost gt = t@;
                frags.push(t);
                proof {
                    assert(frags.deep_view() =~= pre.push(gt));
                    let after = spec_run_items(
                        red.state,
                        spec_items_of_events(events@.skip(idx as int + 1)),
                    );
                    assert(pre + (seq![gt] + after.fragments) =~= pre.push(gt)
                        + after.fragments);
                }
            },
            StepOutcome::Finished => {
                proof {
                    let rest = spec_items_of_events(events@.skip(idx as int + 1));
                    let it = spec_item_of_event(events@[idx as int])->Some_0;
                    assert((seq![it] + rest).drop_first() =~= rest);
                    assert((seq![it] + rest)[0] == it);
                    assert(spec_run_items(ReducerState::Done, rest) == (GOutcome {
                        fragments: Seq::<Seq<char>>::empty(),
                        result: Ok::<(), OkError>(()),
                    }));
                    assert(pre + Seq::<Seq<char>>::empty() =~= pre);
                }
                return StreamOutcome { fragments: frags, result: Ok(()) };
            },
            StepOutcome::Failed(e) => {
                proof {
                    let rest = spec_items_of_events(events@.skip(idx as int + 1));
                    match spec_item_of_event(events@[idx as int]) {
                        None => {},
                        Some(it) => {
                            assert((seq![it] + rest).drop_first() =~= rest);
                            assert((seq![it] + rest)[0] == it);
                        },
                    }
                    assert(pre + Seq::<Seq<char>>::empty() =~= pre);
                }
                return StreamOutcome { fragments: frags, result: Err(e) };
            },
        }
        idx += 1;
    }
    let r = red.close();
    proof {
        assert(events@.skip(events@.len() as int) =~= Seq::<StreamEvent>::empty());
        assert(frags.deep_view() + Seq::<Seq<char>>::empty() =~= frags.deep_view());
    }
    StreamOutcome { fragments: frags, result: r }
}

/// A body with zero completion choices fails with a protocol error on
/// either path: as a streamed data frame, and as a whole response.
pub proof fn lemma_zero_choices(s: Seq<char>)
    requires
        spec_decode_body(s) == Ok::<Seq<GMsg>, OkError>(Seq::<GMsg>::empty()),
    ensures
        spec_item_of_data(s) == Err::<GDelta, OkError>(OkError::Protocol),
        crate::decode::spec_decode_response(s) == Err::<Seq<char>, OkError>(OkError::Protocol),
{
}

/// A comment frame anywhere in the stream is ignored: it changes neither
/// the items the reducer consumes nor the outcome.
pub proof fn lemma_comment_ignored(a: Seq<StreamEvent>, c: StreamEvent, b: Seq<StreamEvent>)
    requires
        c is Comment,
    ensures
        spec_items_of_events(a + seq![c] + b) == spec_items_of_events(a + b),
        spec_run_stream(a + seq![c] + b) == spec_run_stream(a + b),
    decreases a.len(),
{
    if a.len() == 0 {
        assert(a + seq![c] + b =~= seq![c] + b);
        assert((seq![c] + b)[0] == c);
        assert((seq![c] + b).drop_first() =~= b);
        assert(a + b =~= b);
    } else {
        assert((a + seq![c] + b)[0] == a[0]);
        assert((a + b)[0] == a[0]);
        assert((a + seq![c] + b).drop_first() =~= a.drop_first() + seq![c] + b);
        assert((a + b).drop_first() =~= a.drop_first() + b);
        lemma_comment_ignored(a.drop_first(), c, b);
    }
}

} // verus!
