use vstd::prelude::*;

use crate::chars::{chars_to_string, eq_str, to_chars};
use crate::errors::OkError;
use crate::json::{
    parse_string_at, skip_value, skip_ws, spec_lookup, spec_parse_items, spec_parse_json,
    spec_parse_pairs, spec_parse_value, JVal,
};
use crate::msg::{get_first_choice, ChatFmtMsg, Choice, GMsg, GPTRes};

verus! {

/// Classifies a decoded member pair: the role and content members must hold
/// strings if they are present at all.
pub open spec fn spec_classify(rv: Option<JVal>, cv: Option<JVal>) -> Result<GMsg, OkError> {
    match (rv, cv) {
        (Some(JVal::Str(r)), Some(JVal::Str(c))) => Ok(GMsg::Both { role: r, content: c }),
        (Some(JVal::Str(r)), None) => Ok(GMsg::Role { role: r }),
        (None, Some(JVal::Str(c))) => Ok(GMsg::Content { content: c }),
        (None, None) => Ok(GMsg::Empty),
        _ => Err(OkError::Protocol),
    }
}

/// Decodes a message (or delta) object: its `role` and `content` members
/// decide the shape; anything but an object is a protocol error.
pub open spec fn spec_message_of(v: JVal) -> Result<GMsg, OkError> {
    match v {
        JVal::Obj(ps) => spec_classify(spec_lookup(ps, "role"@), spec_lookup(ps, "content"@)),
        _ => Err(OkError::Protocol),
    }
}

/// Decodes one choice object: the message under its `message` member, or,
/// failing that, under its `delta` member.
pub open spec fn spec_choice_of(v: JVal) -> Result<GMsg, OkError> {
    match v {
        JVal::Obj(ps) => match spec_lookup(ps, "message"@) {
            Some(mv) => spec_message_of(mv),
            None => match spec_lookup(ps, "delta"@) {
                Some(mv) => spec_message_of(mv),
                None => Err(OkError::Protocol),
            },
        },
        _ => Err(OkError::Protocol),
    }
}

/// Decodes a run of choice objects, in order; the first failure wins.
pub open spec fn spec_msgs_of(elems: Seq<JVal>) -> Result<Seq<GMsg>, OkError>
    decreases elems.len(),
{
    if elems.len() == 0 {
        Ok(Seq::empty())
    } else {
        match spec_choice_of(elems[0]) {
            Err(e) => Err(e),
            Ok(m) => match spec_msgs_of(elems.drop_first()) {
                Err(e) => Err(e),
                Ok(ms) => Ok(seq![m] + ms),
            },
        }
    }
}

/// Decodes the value of the `choices` member: it must be an array.
pub open spec fn spec_choices_of(v: JVal) -> Result<Seq<GMsg>, OkError> {
    match v {
        JVal::Arr(elems) => spec_msgs_of(elems),
        _ => Err(OkError::Protocol),
    }
}

/// Decodes a completion body: an object whose `choices` member holds the
/// choice objects.
pub open spec fn spec_chunk_of(v: JVal) -> Result<Seq<GMsg>, OkError> {
    match v {
        JVal::Obj(ps) => match spec_lookup(ps, "choices"@) {
            Some(cv) => spec_choices_of(cv),
            None => Err(OkError::Protocol),
        },
        _ => Err(OkError::Protocol),
    }
}

/// Decodes one payload: a parse failure is a parse error; a well-formed
/// document of the wrong shape is a protocol error; otherwise the messages
/// of its choices, in order.
pub open spec fn spec_decode_body(s: Seq<char>) -> Result<Seq<GMsg>, OkError> {
    match spec_parse_json(s) {
        None => Err(OkError::Parse),
        Some(v) => spec_chunk_of(v),
    }
}

/// How an executable string-member slot must relate to a member lookup.
pub open spec fn slot_matches(e: Option<Option<Vec<char>>>, g: Option<JVal>) -> bool {
    match (e, g) {
        (None, None) => true,
        (Some(None), Some(v)) => !(v is Str),
        (Some(Some(cs)), Some(JVal::Str(t))) => cs@ == t,
        _ => false,
    }
}

/// How an executable message decode must relate to the grammar's.
pub open spec fn msg_matches(r: Result<ChatFmtMsg, OkError>, g: Result<GMsg, OkError>) -> bool {
    match (r, g) {
        (Ok(m), Ok(gm)) => m@ == gm,
        (Err(e), Err(ge)) => e == ge,
        _ => false,
    }
}

/// Walks the members of a message object, recording whether (and as what)
/// its first `role` and `content` members are strings, exactly as a lookup
/// in [`spec_parse_pairs`]'s members would.
#[verifier::rlimit(100)]
fn msg_pairs(s: &Vec<char>, i: usize, fuel: usize) -> (r: Option<
    ((Option<Option<Vec<char>>>, Option<Option<Vec<char>>>), usize),
>)
    ensures
        match spec_parse_pairs(s@, i as int, fuel as nat) {
            None => r is None,
            Some(g) => r matches Some(t) && t.1 as int == g.1 && slot_matches(
                t.0.0,
                spec_lookup(g.0, "role"@),
            ) && slot_matches(t.0.1, spec_lookup(g.0, "content"@)),
        },
        r matches Some(t) ==> i <= t.1 <= s@.len(),
    decreases fuel, 3int,
{
    proof {
        reveal_strlit("role");
        reveal_strlit("content");
        assert("role"@.len() == 4);
        assert("content"@.len() == 7);
        assert("role"@ != "content"@);
    }
    let n = s.len();
    if !(i < n && s[i] == '"') {
        return None;
    }
    let kj = match parse_string_at(s, i + 1) {
        None => return None,
        Some(p) => p,
    };
    let (key, j) = kj;
    let k = skip_ws(s, j);
    if !(k < n && s[k] == ':') {
        return None;
    }
    let v0 = skip_ws(s, k + 1);
    let is_role = eq_str(&key, "role");
    let is_content = eq_str(&key, "content");
    let ghost gv = spec_parse_value(s@, v0 as int, fuel as nat);
    let mine: (Option<Option<Vec<char>>>, usize) = if is_role || is_content {
        if v0 < n && s[v0] == '"' {
            match parse_string_at(s, v0 + 1) {
                None => return None,
                Some((cs, m)) => (Some(Some(cs)), m),
            }
        } else {
            match skip_value(s, v0, fuel) {
                None => return None,
                Some(m) => (Some(None), m),
            }
        }
    } else {
        match skip_value(s, v0, fuel) {
            None => return None,
            Some(m) => (None, m),
        }
    };
    let (myslot, m) = mine;
    let p = skip_ws(s, m);
    if p < n && s[p] == ',' {
        if fuel == 0 {
            return None;
        }
        let q0 = skip_ws(s, p + 1);
        match msg_pairs(s, q0, fuel - 1) {
            None => None,
            Some(((r_rest, c_rest), q)) => {
                let slots: (Option<Option<Vec<char>>>, Option<Option<Vec<char>>>) = if is_role {
                    (myslot, c_rest)
                } else if is_content {
                    (r_rest, myslot)
                } else {
                    (r_rest, c_rest)
                };
                proof {
                    let v = gv->Some_0.0;
                    let grest = spec_parse_pairs(s@, q0 as int, (fuel - 1) as nat);
                    let gall = spec_parse_pairs(s@, i as int, fuel as nat);
                    assert(grest is Some);
                    let ps_rest = grest->Some_0.0;
                    assert(gall is Some);
                    assert(gall->Some_0.0 == seq![(key@, v)] + ps_rest);
                    assert((seq![(key@, v)] + ps_rest).drop_first() =~= ps_rest);
                    assert((seq![(key@, v)] + ps_rest)[0] == (key@, v));
                    assert(slot_matches(slots.0, spec_lookup(gall->Some_0.0, "role"@)));
                    assert(slot_matches(slots.1, spec_lookup(gall->Some_0.0, "content"@)));
                }
                Some((slots, q))
            },
        }
    } else if p < n && s[p] == '}' {
        let slots: (Option<Option<Vec<char>>>, Option<Option<Vec<char>>>) = if is_role {
            (myslot, None)
        } else if is_content {
            (None, myslot)
        } else {
            (None, None)
        };
        proof {
            let v = gv->Some_0.0;
            let gall = spec_parse_pairs(s@, i as int, fuel as nat);
            reveal_with_fuel(spec_lookup, 3);
            assert(gall is Some);
            assert(gall->Some_0.0 == seq![(key@, v)]);
            assert(seq![(key@, v)].drop_first() =~= Seq::<(Seq<char>, JVal)>::empty());
            assert(seq![(key@, v)][0] == (key@, v));
            assert(slot_matches(slots.0, spec_lookup(gall->Some_0.0, "role"@)));
            assert(slot_matches(slots.1, spec_lookup(gall->Some_0.0, "content"@)));
        }
        Some((slots, p + 1))
    } else {
        None
    }
}

/// Decodes the message value at `i`: the object shape that
/// [`spec_message_of`] reads out of the value found there.
fn msg_value(s: &Vec<char>, i: usize, fuel: usize) -> (r: Option<
    (Result<ChatFmtMsg, OkError>, usize),
>)
    ensures
        match spec_parse_value(s@, i as int, fuel as nat) {
            None => r is None,
            Some(g) => r matches Some(t) && t.1 as int == g.1 && msg_matches(
                t.0,
                spec_message_of(g.0),
            ),
        },
        r matches Some(t) ==> i <= t.1 <= s@.len(),
{
    let n = s.len();
    if i < n && s[i] == '{' {
        if fuel == 0 {
            return None;
        }
        let jw = skip_ws(s, i + 1);
        if jw < n && s[jw] == '}' {
            proof {
                reveal_with_fuel(spec_lookup, 2);
                assert(spec_lookup(Seq::<(Seq<char>, JVal)>::empty(), "role"@) is None);
                assert(spec_lookup(Seq::<(Seq<char>, JVal)>::empty(), "content"@) is None);
            }
            Some((Ok(ChatFmtMsg::Empty {  }), jw + 1))
        } else {
            match msg_pairs(s, jw, fuel - 1) {
                None => None,
                Some(((rs, cs), end)) => {
                    let res: Result<ChatFmtMsg, OkError> = match (rs, cs) {
                        (Some(Some(rv)), Some(Some(cv))) => Ok(
                            ChatFmtMsg::Both {
                                role: chars_to_string(&rv),
                                content: chars_to_string(&cv),
                            },
                        ),
                        (Some(Some(rv)), None) => Ok(
                            ChatFmtMsg::Role { role: chars_to_string(&rv) },
                        ),
                        (None, Some(Some(cv))) => Ok(
                            ChatFmtMsg::Content { content: chars_to_string(&cv) },
                        ),
                        (None, None) => Ok(ChatFmtMsg::Empty {  }),
                        _ => Err(OkError::Protocol),
                    };
                    Some((res, end))
                },
            }
        }
    } else {
        match skip_value(s, i, fuel) {
            None => None,
            Some(j) => Some((Err(OkError::Protocol), j)),
        }
    }
}

/// How an executable member slot holding a decoded message must relate to a
/// member lookup.
pub open spec fn choice_slot_matches(
    e: Option<Result<ChatFmtMsg, OkError>>,
    g: Option<JVal>,
) -> bool {
    match (e, g) {
        (None, None) => true,
        (Some(r), Some(v)) => msg_matches(r, spec_message_of(v)),
        _ => false,
    }
}

/// Walks the members of a choice object, decoding its first `message` and
/// `delta` members.
#[verifier::rlimit(100)]
fn choice_pairs(s: &Vec<char>, i: usize, fuel: usize) -> (r: Option<
    ((Option<Result<ChatFmtMsg, OkError>>, Option<Result<ChatFmtMsg, OkError>>), usize),
>)
    ensures
        match spec_parse_pairs(s@, i as int, fuel as nat) {
            None => r is None,
            Some(g) => r matches Some(t) && t.1 as int == g.1 && choice_slot_matches(
                t.0.0,
                spec_lookup(g.0, "message"@),
            ) && choice_slot_matches(t.0.1, spec_lookup(g.0, "delta"@)),
        },
        r matches Some(t) ==> i <= t.1 <= s@.len(),
    decreases fuel, 3int,
{
    proof {
        reveal_strlit("message");
        reveal_strlit("delta");
        assert("message"@.len() == 7);
        assert("delta"@.len() == 5);
        assert("message"@ != "delta"@);
    }
    let n = s.len();
    if !(i < n && s[i] == '"') {
        return None;
    }
    let kj = match parse_string_at(s, i + 1) {
        None => return None,
        Some(p) => p,
    };
    let (key, j) = kj;
    let k = skip_ws(s, j);
    if !(k < n && s[k] == ':') {
        return None;
    }
    let v0 = skip_ws(s, k + 1);
    let is_message = eq_str(&key, "message");
    let is_delta = eq_str(&key, "delta");
    let ghost gv = spec_parse_value(s@, v0 as int, fuel as nat);
    let mine: (Option<Result<ChatFmtMsg, OkError>>, usize) = if is_message || is_delta {
        match msg_value(s, v0, fuel) {
            None => return None,
            Some((res, m)) => (Some(res), m),
        }
    } else {
        match skip_value(s, v0, fuel) {
            None => return None,
            Some(m) => (None, m),
        }
    };
    let (myslot, m) = mine;
    let p = skip_ws(s, m);
    if p < n && s[p] == ',' {
        if fuel == 0 {
            return None;
        }
        let q0 = skip_ws(s, p + 1);
        match choice_pairs(s, q0, fuel - 1) {
            None => None,
            Some(((m_rest, d_rest), q)) => {
                let slots: (
                    Option<Result<ChatFmtMsg, OkError>>,
                    Option<Result<ChatFmtMsg, OkError>>,
                ) = if is_message {
                    (myslot, d_rest)
                } else if is_delta {
                    (m_rest, myslot)
                } else {
                    (m_rest, d_rest)
                };
                proof {
                    let v = gv->Some_0.0;
                    let grest = spec_parse_pairs(s@, q0 as int, (fuel - 1) as nat);
                    let gall = spec_parse_pairs(s@, i as int, fuel as nat);
                    assert(grest is Some);
                    let ps_rest = grest->Some_0.0;
                    assert(gall is Some);
                    assert(gall->Some_0.0 == seq![(key@, v)] + ps_rest);
                    assert((seq![(key@, v)] + ps_rest).drop_first() =~= ps_rest);
                    assert((seq![(key@, v)] + ps_rest)[0] == (key@, v));
                    assert(choice_slot_matches(slots.0, spec_lookup(gall->Some_0.0, "message"@)));
                    assert(choice_slot_matches(slots.1, spec_lookup(gall->Some_0.0, "delta"@)));
                }
                Some((slots, q))
            },
        }
    } else if p < n && s[p] == '}' {
        let slots: (Option<Result<ChatFmtMsg, OkError>>, Option<Result<ChatFmtMsg, OkError>>) =
            if is_message {
            (myslot, None)
        } else if is_delta {
            (None, myslot)
        } else {
            (None, None)
        };
        proof {
            let v = gv->Some_0.0;
            let gall = spec_parse_pairs(s@, i as int, fuel as nat);
            reveal_with_fuel(spec_lookup, 3);
            assert(gall is Some);
            assert(gall->Some_0.0 == seq![(key@, v)]);
            assert(seq![(key@, v)].drop_first() =~= Seq::<(Seq<char>, JVal)>::empty());
            assert(seq![(key@, v)][0] == (key@, v));
            assert(choice_slot_matches(slots.0, spec_lookup(gall->Some_0.0, "message"@)));
            assert(choice_slot_matches(slots.1, spec_lookup(gall->Some_0.0, "delta"@)));
        }
        Some((slots, p + 1))
    } else {
        None
    }
}

/// Decodes the choice value at `i`: the message that [`spec_choice_of`]
/// reads out of the value found there.
fn choice_value(s: &Vec<char>, i: usize, fuel: usize) -> (r: Option<
    (Result<ChatFmtMsg, OkError>, usize),
>)
    ensures
        match spec_parse_value(s@, i as int, fuel as nat) {
            None => r is None,
            Some(g) => r matches Some(t) && t.1 as int == g.1 && msg_matches(
                t.0,
                spec_choice_of(g.0),
            ),
        },
        r matches Some(t) ==> i <= t.1 <= s@.len(),
{
    let n = s.len();
    if i < n && s[i] == '{' {
        if fuel == 0 {
            return None;
        }
        let jw = skip_ws(s, i + 1);
        if jw < n && s[jw] == '}' {
            proof {
                reveal_with_fuel(spec_lookup, 2);
                assert(spec_lookup(Seq::<(Seq<char>, JVal)>::empty(), "message"@) is None);
                assert(spec_lookup(Seq::<(Seq<char>, JVal)>::empty(), "delta"@) is None);
            }
            Some((Err(OkError::Protocol), jw + 1))
        } else {
            match choice_pairs(s, jw, fuel - 1) {
                None => None,
                Some(((ms, ds), end)) => {
                    let res: Result<ChatFmtMsg, OkError> = match ms {
                        Some(r) => r,
                        None => match ds {
                            Some(r) => r,
                            None => Err(OkError::Protocol),
                        },
                    };
                    Some((res, end))
                },
            }
        }
    } else {
        match skip_value(s, i, fuel) {
            None => None,
            Some(j) => Some((Err(OkError::Protocol), j)),
        }
    }
}

/// How an executable choices decode must relate to the grammar's.
pub open spec fn choices_matches(
    r: Result<Vec<Choice>, OkError>,
    g: Result<Seq<GMsg>, OkError>,
) -> bool {
    match (r, g) {
        (Ok(cs), Ok(gms)) => cs@.map_values(|c: Choice| c@) == gms,
        (Err(e), Err(ge)) => e == ge,
        _ => false,
    }
}

/// Decodes a non-empty comma-separated run of choice objects.
#[verifier::rlimit(100)]
fn choice_items(s: &Vec<char>, i: usize, fuel: usize) -> (r: Option<
    (Result<Vec<Choice>, OkError>, usize),
>)
    ensures
        match spec_parse_items(s@, i as int, fuel as nat) {
            None => r is None,
            Some(g) => r matches Some(t) && t.1 as int == g.1 && choices_matches(
                t.0,
                spec_msgs_of(g.0),
            ),
        },
        r matches Some(t) ==> i <= t.1 <= s@.len(),
    decreases fuel, 3int,
{
    let n = s.len();
    let ghost gv = spec_parse_value(s@, i as int, fuel as nat);
    match choice_value(s, i, fuel) {
        None => None,
        Some((res0, j)) => {
            let k = skip_ws(s, j);
            if k < n && s[k] == ',' {
                if fuel == 0 {
                    return None;
                }
                let q0 = skip_ws(s, k + 1);
                match choice_items(s, q0, fuel - 1) {
                    None => None,
                    Some((rest, q)) => {
                        let ghost v = gv->Some_0.0;
                        let ghost vs_rest = spec_parse_items(
                            s@,
                            q0 as int,
                            (fuel - 1) as nat,
                        )->Some_0.0;
                        proof {
                            assert((seq![v] + vs_rest).drop_first() =~= vs_rest);
                            assert((seq![v] + vs_rest)[0] == v);
                        }
                        let combined: Result<Vec<Choice>, OkError> = match res0 {
                            Err(e) => Err(e),
                            Ok(m0) => match rest {
                                Err(e) => Err(e),
                                Ok(cs) => {
                                    let mut out: Vec<Choice> = Vec::new();
                                    out.push(Choice { message: m0 });
                                    let mut tail = cs;
                                    out.append(&mut tail);
                                    proof {
                                        let gm = spec_choice_of(v)->Ok_0;
                                        let gms = spec_msgs_of(vs_rest)->Ok_0;
                                        assert(out@.map_values(|c: Choice| c@) =~= seq![gm]
                                            + gms);
                                    }
                                    Ok(out)
                                },
                            },
                        };
                        Some((combined, q))
                    },
                }
            } else if k < n && s[k] == ']' {
                let ghost v = gv->Some_0.0;
                proof {
                    reveal_with_fuel(spec_msgs_of, 2);
                    assert(seq![v].drop_first() =~= Seq::<JVal>::empty());
                    assert(seq![v][0] == v);
                }
                let combined: Result<Vec<Choice>, OkError> = match res0 {
                    Err(e) => Err(e),
                    Ok(m0) => {
                        let mut out: Vec<Choice> = Vec::new();
                        out.push(Choice { message: m0 });
                        proof {
                            let gm = spec_choice_of(v)->Ok_0;
                            assert(out@.map_values(|c: Choice| c@) =~= seq![gm]
                                + Seq::<GMsg>::empty());
                        }
                        Ok(out)
                    },
                };
                Some((combined, k + 1))
            } else {
                None
            }
        },
    }
}

/// Decodes the choice value at `i`: the choices array that
/// [`spec_choices_of`] reads out of the value found there.
fn choices_value(s: &Vec<char>, i: usize, fuel: usize) -> (r: Option<
    (Result<Vec<Choice>, OkError>, usize),
>)
    ensures
        match spec_parse_value(s@, i as int, fuel as nat) {
            None => r is None,
            Some(g) => r matches Some(t) && t.1 as int == g.1 && choices_matches(
                t.0,
                spec_choices_of(g.0),
            ),
        },
        r matches Some(t) ==> i <= t.1 <= s@.len(),
{
    let n = s.len();
    if i < n && s[i] == '[' {
        if fuel == 0 {
            return None;
        }
        let jw = skip_ws(s, i + 1);
        if jw < n && s[jw] == ']' {
            let out: Vec<Choice> = Vec::new();
            proof {
                assert(out@.map_values(|c: Choice| c@) =~= Seq::<GMsg>::empty());
            }
            Some((Ok(out), jw + 1))
        } else {
            match choice_items(s, jw, fuel - 1) {
                None => None,
                Some((res, end)) => Some((res, end)),
            }
        }
    } else {
        match skip_value(s, i, fuel) {
            None => None,
            Some(j) => Some((Err(OkError::Protocol), j)),
        }
    }
}

/// How an executable chunk slot must relate to a `choices` member lookup.
pub open spec fn chunk_slot_matches(
    e: Option<Result<Vec<Choice>, OkError>>,
    g: Option<JVal>,
) -> bool {
    match (e, g) {
        (None, None) => true,
        (Some(r), Some(v)) => choices_matches(r, spec_choices_of(v)),
        _ => false,
    }
}

/// Walks the members of a completion body, decoding its first `choices`
/// member.
#[verifier::rlimit(100)]
fn chunk_pairs(s: &Vec<char>, i: usize, fuel: usize) -> (r: Option<
    (Option<Result<Vec<Choice>, OkError>>, usize),
>)
    ensures
        match spec_parse_pairs(s@, i as int, fuel as nat) {
            None => r is None,
            Some(g) => r matches Some(t) && t.1 as int == g.1 && chunk_slot_matches(
                t.0,
                spec_lookup(g.0, "choices"@),
            ),
        },
        r matches Some(t) ==> i <= t.1 <= s@.len(),
    decreases fuel, 3int,
{
    proof {
        reveal_strlit("choices");
        assert("choices"@.len() == 7);
    }
    let n = s.len();
    if !(i < n && s[i] == '"') {
        return None;
    }
    let kj = match parse_string_at(s, i + 1) {
        None => return None,
        Some(p) => p,
    };
    let (key, j) = kj;
    let k = skip_ws(s, j);
    if !(k < n && s[k] == ':') {
        return None;
    }
    let v0 = skip_ws(s, k + 1);
    let is_choices = eq_str(&key, "choices");
    let ghost gv = spec_parse_value(s@, v0 as int, fuel as nat);
    let mine: (Option<Result<Vec<Choice>, OkError>>, usize) = if is_choices {
        match choices_value(s, v0, fuel) {
            None => return None,
            Some((res, m)) => (Some(res), m),
        }
    } else {
        match skip_value(s, v0, fuel) {
            None => return None,
            Some(m) => (None, m),
        }
    };
    let (myslot, m) = mine;
    let p = skip_ws(s, m);
    if p < n && s[p] == ',' {
        if fuel == 0 {
            return None;
        }
        let q0 = skip_ws(s, p + 1);
        match chunk_pairs(s, q0, fuel - 1) {
            None => None,
            Some((c_rest, q)) => {
                let slot: Option<Result<Vec<Choice>, OkError>> = if is_choices {
                    myslot
                } else {
                    c_rest
                };
                proof {
                    let v = gv->Some_0.0;
                    let grest = spec_parse_pairs(s@, q0 as int, (fuel - 1) as nat);
                    let gall = spec_parse_pairs(s@, i as int, fuel as nat);
                    assert(grest is Some);
                    let ps_rest = grest->Some_0.0;
                    assert(gall is Some);
                    assert(gall->Some_0.0 == seq![(key@, v)] + ps_rest);
                    assert((seq![(key@, v)] + ps_rest).drop_first() =~= ps_rest);
                    assert((seq![(key@, v)] + ps_rest)[0] == (key@, v));
                    assert(chunk_slot_matches(slot, spec_lookup(gall->Some_0.0, "choices"@)));
                }
                Some((slot, q))
            },
        }
    } else if p < n && s[p] == '}' {
        let slot: Option<Result<Vec<Choice>, OkError>> = if is_choices {
            myslot
        } else {
            None
        };
        proof {
            let v = gv->Some_0.0;
            let gall = spec_parse_pairs(s@, i as int, fuel as nat);
            reveal_with_fuel(spec_lookup, 3);
            assert(gall is Some);
            assert(gall->Some_0.0 == seq![(key@, v)]);
            assert(seq![(key@, v)].drop_first() =~= Seq::<(Seq<char>, JVal)>::empty());
            assert(seq![(key@, v)][0] == (key@, v));
            assert(chunk_slot_matches(slot, spec_lookup(gall->Some_0.0, "choices"@)));
        }
        Some((slot, p + 1))
    } else {
        None
    }
}

/// How an executable body decode must relate to the grammar's.
pub open spec fn gptres_matches(r: Result<GPTRes, OkError>, g: Result<Seq<GMsg>, OkError>) -> bool {
    match (r, g) {
        (Ok(res), Ok(gms)) => res@ == gms,
        (Err(e), Err(ge)) => e == ge,
        _ => false,
    }
}

/// Parses one event payload (or one whole response body) as a completion
/// object and decodes its choices, exactly as [`spec_decode_body`]
/// prescribes: a parse error on text that is not one JSON document, a
/// protocol error on a document of the wrong shape.
pub fn parse_event(event: &str) -> (r: Result<GPTRes, OkError>)
    ensures
        gptres_matches(r, spec_decode_body(event@)),
{
    let v = to_chars(event);
    let n = v.len();
    let i0 = skip_ws(&v, 0);
    if i0 < n && v[i0] == '{' {
        let jw = skip_ws(&v, i0 + 1);
        if jw < n && v[jw] == '}' {
            let t = skip_ws(&v, jw + 1);
            if t != n {
                return Err(OkError::Parse);
            }
            proof {
                reveal_with_fuel(spec_lookup, 2);
                assert(spec_lookup(Seq::<(Seq<char>, JVal)>::empty(), "choices"@) is None);
            }
            Err(OkError::Protocol)
        } else {
            match chunk_pairs(&v, jw, n - 1) {
                None => Err(OkError::Parse),
                Some((slot, end)) => {
                    let t = skip_ws(&v, end);
                    if t != n {
                        return Err(OkError::Parse);
                    }
                    match slot {
                        None => Err(OkError::Protocol),
                        Some(Err(e)) => Err(e),
                        Some(Ok(choices)) => Ok(GPTRes { choices }),
                    }
                },
            }
        }
    } else {
        match skip_value(&v, i0, n) {
            None => Err(OkError::Parse),
            Some(j) => {
                let t = skip_ws(&v, j);
                if t == n {
                    Err(OkError::Protocol)
                } else {
                    Err(OkError::Parse)
                }
            },
        }
    }
}

/// Reads the assistant's answer out of a whole (non-streaming) response
/// body: the content of the first choice's message, which must carry both a
/// role and content. A body with zero choices is a protocol error.
pub open spec fn spec_decode_response(s: Seq<char>) -> Result<Seq<char>, OkError> {
    match spec_decode_body(s) {
        Err(e) => Err(e),
        Ok(msgs) => {
            if msgs.len() == 0 {
                Err(OkError::Protocol)
            } else {
                match msgs[0] {
                    GMsg::Both { role, content } => Ok(content),
                    _ => Err(OkError::Protocol),
                }
            }
        },
    }
}

/// How an executable answer decode must relate to the grammar's.
pub open spec fn str_result_matches(r: Result<String, OkError>, g: Result<Seq<char>, OkError>) -> bool {
    match (r, g) {
        (Ok(t), Ok(gt)) => t@ == gt,
        (Err(e), Err(ge)) => e == ge,
        _ => false,
    }
}

/// Decodes a non-streaming response body into the assistant's answer,
/// exactly as [`spec_decode_response`] prescribes.
pub fn decode_response(body: &str) -> (r: Result<String, OkError>)
    ensures
        str_result_matches(r, spec_decode_response(body@)),
{
    match parse_event(body) {
        Err(e) => Err(e),
        Ok(res) => match get_first_choice(&res) {
            Err(e) => Err(e),
            Ok(m) => match m {
                ChatFmtMsg::Both { role: _, content } => Ok(content),
                _ => Err(OkError::Protocol),
            },
        },
    }
}

/// Reduces one non-streaming exchange: a non-200 status is a transport
/// error carrying that status; a 200 body is decoded into the answer.
pub fn single_response(status: u16, body: &str) -> (r: Result<String, OkError>)
    ensures
        status != 200 ==> r == Err::<String, OkError>(OkError::Transport(status)),
        status == 200 ==> str_result_matches(r, spec_decode_response(body@)),
{
    if status != 200 {
        Err(OkError::Transport(status))
    } else {
        decode_response(body)
    }
}

} // verus!
