use vstd::prelude::*;

use crate::errors::OkError;

verus! {

/// One decoded unit of a streamed completion response.
///
/// `RoleAnnouncement` opens the assistant's turn and carries no answer text,
/// `ContentFragment` carries one slice of the answer, and `Terminal` closes
/// the turn.
#[derive(Clone, Debug, PartialEq)]
pub enum Delta {
    RoleAnnouncement { role: String },
    ContentFragment { text: String },
    Terminal,
}

/// The mathematical model of a [`Delta`].
pub ghost enum GDelta {
    RoleAnnouncement { role: Seq<char> },
    ContentFragment { text: Seq<char> },
    Terminal,
}

impl View for Delta {
    type V = GDelta;

    open spec fn view(&self) -> GDelta {
        match self {
            Delta::RoleAnnouncement { role } => GDelta::RoleAnnouncement { role: role@ },
            Delta::ContentFragment { text } => GDelta::ContentFragment { text: text@ },
            Delta::Terminal => GDelta::Terminal,
        }
    }
}

/// The reducer's control state: waiting for the opening role announcement,
/// streaming content, or finished.
#[derive(Clone, Copy, Debug, PartialEq, Eq, Structural)]
pub enum ReducerState {
    AwaitingRole,
    Streaming,
    Done,
}

/// One transition of the stream reducer: from a state and a delta to the next
/// state and the fragment emitted, if any.
///
/// Before the role announcement, every delta is discarded. While streaming,
/// content is emitted in order, a terminal marker finishes the stream, and a
/// repeated role announcement is discarded. A finished reducer consumes
/// nothing further.
pub open spec fn spec_step(st: ReducerState, d: GDelta) -> (ReducerState, Option<Seq<char>>) {
    match st {
        ReducerState::AwaitingRole => match d {
            GDelta::RoleAnnouncement { .. } => (ReducerState::Streaming, None),
            GDelta::ContentFragment { .. } => (ReducerState::AwaitingRole, None),
            GDelta::Terminal => (ReducerState::AwaitingRole, None),
        },
        ReducerState::Streaming => match d {
            GDelta::RoleAnnouncement { .. } => (ReducerState::Streaming, None),
            GDelta::ContentFragment { text } => (ReducerState::Streaming, Some(text)),
            GDelta::Terminal => (ReducerState::Done, None),
        },
        ReducerState::Done => (ReducerState::Done, None),
    }
}

/// The reduced result of one stream: the emitted fragments in order, and
/// whether the stream ended at the terminal marker or in a failure.
pub ghost struct GOutcome {
    pub fragments: Seq<Seq<char>>,
    pub result: Result<(), OkError>,
}

/// Reduces a finite sequence of decoded items (deltas or decode failures),
/// starting from `st`. A failure item ends the stream with that failure; the
/// end of the sequence stands for the server closing the connection, which is
/// a failure unless the terminal marker was already consumed.
pub open spec fn spec_run_items(
    st: ReducerState,
    items: Seq<Result<GDelta, OkError>>,
) -> GOutcome
    decreases items.len(),
{
    if st is Done {
        GOutcome { fragments: Seq::empty(), result: Ok(()) }
    } else if items.len() == 0 {
        GOutcome { fragments: Seq::empty(), result: Err(OkError::Network) }
    } else {
        match items[0] {
            Err(e) => GOutcome { fragments: Seq::empty(), result: Err(e) },
            Ok(d) => {
                let stp = spec_step(st, d);
                let rest = spec_run_items(stp.0, items.drop_first());
                GOutcome {
                    fragments: match stp.1 {
                        Some(t) => seq![t] + rest.fragments,
                        None => rest.fragments,
                    },
                    result: rest.result,
                }
            },
        }
    }
}

/// The items standing for a run of content fragments, in order.
pub open spec fn content_items(frags: Seq<Seq<char>>) -> Seq<Result<GDelta, OkError>> {
    frags.map_values(
        |t: Seq<char>| Result::<GDelta, OkError>::Ok(GDelta::ContentFragment { text: t }),
    )
}

/// While streaming, a run of content fragments is emitted in order, before
/// whatever the rest of the items yield.
proof fn lemma_streaming_emits(frags: Seq<Seq<char>>, tail: Seq<Result<GDelta, OkError>>)
    ensures
        spec_run_items(ReducerState::Streaming, content_items(frags) + tail).fragments == frags
            + spec_run_items(ReducerState::Streaming, tail).fragments,
        spec_run_items(ReducerState::Streaming, content_items(frags) + tail).result
            == spec_run_items(ReducerState::Streaming, tail).result,
    decreases frags.len(),
{
    let items = content_items(frags) + tail;
    let rest = spec_run_items(ReducerState::Streaming, tail);
    if frags.len() == 0 {
        assert(items =~= tail);
        assert(frags + rest.fragments =~= rest.fragments);
    } else {
        assert(items[0] == Result::<GDelta, OkError>::Ok(
            GDelta::ContentFragment { text: frags[0] },
        ));
        assert(items.drop_first() =~= content_items(frags.drop_first()) + tail);
        lemma_streaming_emits(frags.drop_first(), tail);
        assert(seq![frags[0]] + (frags.drop_first() + rest.fragments) =~= frags
            + rest.fragments);
    }
}

/// Before the role announcement, a delta that is not a role announcement is
/// discarded: it changes neither the output nor the outcome.
pub proof fn lemma_preroll_item_dropped(d: GDelta, items: Seq<Result<GDelta, OkError>>)
    requires
        !(d is RoleAnnouncement),
    ensures
        spec_run_items(ReducerState::AwaitingRole, seq![Result::<GDelta, OkError>::Ok(d)] + items)
            == spec_run_items(ReducerState::AwaitingRole, items),
{
    let all = seq![Result::<GDelta, OkError>::Ok(d)] + items;
    assert(all[0] == Result::<GDelta, OkError>::Ok(d));
    assert(all.drop_first() =~= items);
}

/// Content fragments arriving before any role announcement are dropped: they
/// produce no output and no error, whatever follows them.
pub proof fn lemma_preroll_content_dropped(
    noise: Seq<Seq<char>>,
    items: Seq<Result<GDelta, OkError>>,
)
    ensures
        spec_run_items(ReducerState::AwaitingRole, content_items(noise) + items)
            == spec_run_items(ReducerState::AwaitingRole, items),
    decreases noise.len(),
{
    if noise.len() == 0 {
        assert(content_items(noise) + items =~= items);
    } else {
        let d = GDelta::ContentFragment { text: noise[0] };
        let shorter = content_items(noise.drop_first()) + items;
        assert(content_items(noise) + items =~= seq![Result::<GDelta, OkError>::Ok(d)]
            + shorter);
        lemma_preroll_item_dropped(d, shorter);
        lemma_preroll_content_dropped(noise.drop_first(), items);
    }
}

/// A well-formed stream — role announcement, content fragments, terminal
/// marker — reduces to exactly those fragments, in order, with success.
pub proof fn lemma_well_formed_stream(role: Seq<char>, frags: Seq<Seq<char>>)
    ensures
        ({
            let o = spec_run_items(
                ReducerState::AwaitingRole,
                seq![Result::<GDelta, OkError>::Ok(GDelta::RoleAnnouncement { role })]
                    + content_items(frags) + seq![Result::<GDelta, OkError>::Ok(GDelta::Terminal)],
            );
            o.fragments == frags && o.result == Ok::<(), OkError>(())
        }),
{
    let items = seq![Result::<GDelta, OkError>::Ok(GDelta::RoleAnnouncement { role })]
        + content_items(frags) + seq![Result::<GDelta, OkError>::Ok(GDelta::Terminal)];
    let term = seq![Result::<GDelta, OkError>::Ok(GDelta::Terminal)];
    assert(items[0] == Result::<GDelta, OkError>::Ok(GDelta::RoleAnnouncement { role }));
    assert(items.drop_first() =~= content_items(frags) + term);
    lemma_streaming_emits(frags, term);
    assert(term.drop_first() =~= Seq::<Result<GDelta, OkError>>::empty());
    assert(spec_run_items(ReducerState::Streaming, term).fragments =~= Seq::<Seq<char>>::empty())
        by {
        reveal_with_fuel(spec_run_items, 3);
    }
    assert(spec_run_items(ReducerState::Streaming, term).result == Ok::<(), OkError>(())) by {
        reveal_with_fuel(spec_run_items, 3);
    }
    assert(frags + Seq::<Seq<char>>::empty() =~= frags);
}

/// A stream whose terminal marker is missing when the connection closes
/// reduces to the fragments that did arrive, and reports a failure.
pub proof fn lemma_missing_terminal(role: Seq<char>, frags: Seq<Seq<char>>)
    ensures
        ({
            let o = spec_run_items(
                ReducerState::AwaitingRole,
                seq![Result::<GDelta, OkError>::Ok(GDelta::RoleAnnouncement { role })]
                    + content_items(frags),
            );
            o.fragments == frags && o.result == Err::<(), OkError>(OkError::Network)
        }),
{
    let items = seq![Result::<GDelta, OkError>::Ok(GDelta::RoleAnnouncement { role })]
        + content_items(frags);
    assert(items[0] == Result::<GDelta, OkError>::Ok(GDelta::RoleAnnouncement { role }));
    assert(items.drop_first() =~= content_items(frags) + Seq::<Result<GDelta, OkError>>::empty());
    lemma_streaming_emits(frags, Seq::<Result<GDelta, OkError>>::empty());
    assert(frags + Seq::<Seq<char>>::empty() =~= frags);
}

/// The stream reducer: consumes decoded deltas one at a time, in arrival
/// order, and yields the assistant's content fragments.
pub struct Reducer {
    pub state: ReducerState,
}

impl Reducer {
    /// A fresh reducer, waiting for the role announcement.
    pub fn new() -> (r: Reducer)
        ensures
            r.state == ReducerState::AwaitingRole,
    {
        Reducer { state: ReducerState::AwaitingRole }
    }

    /// Consumes one delta and returns the fragment to deliver, if any,
    /// exactly as [`spec_step`] prescribes.
    pub fn step(&mut self, d: Delta) -> (emit: Option<String>)
        ensures
            final(self).state == spec_step(old(self).state, d@).0,
            emit.deep_view() == spec_step(old(self).state, d@).1,
    {
        match self.state {
            ReducerState::AwaitingRole => {
                match d {
                    Delta::RoleAnnouncement { .. } => {
                        self.state = ReducerState::Streaming;
                        None
                    },
                    Delta::ContentFragment { .. } => None,
                    Delta::Terminal => None,
                }
            },
            ReducerState::Streaming => {
                match d {
                    Delta::RoleAnnouncement { .. } => None,
                    Delta::ContentFragment { text } => Some(text),
                    Delta::Terminal => {
                        self.state = ReducerState::Done;
                        None
                    },
                }
            },
            ReducerState::Done => None,
        }
    }

    /// The server closed the connection: success if the terminal marker was
    /// already consumed, a failure otherwise, exactly as [`spec_run_items`]
    /// prescribes for the end of the item sequence.
    pub fn close(&mut self) -> (r: Result<(), OkError>)
        ensures
            final(self).state == ReducerState::Done,
            r == spec_run_items(old(self).state, Seq::<Result<GDelta, OkError>>::empty()).result,
    {
        let r: Result<(), OkError> = match self.state {
            ReducerState::Done => Ok(()),
            _ => Err(OkError::Network),
        };
        self.state = ReducerState::Done;
        r
    }
}

} // verus!
