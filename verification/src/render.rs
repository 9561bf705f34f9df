use vstd::prelude::*;

use crate::chars::{chars_to_string, to_chars};
use crate::msg::{ChatFmtMsg, GMsg};

verus! {

/// The hexadecimal digit for a value below sixteen.
pub open spec fn spec_hex_digit(n: int) -> char {
    if n == 0 {
        '0'
    } else if n == 1 {
        '1'
    } else if n == 2 {
        '2'
    } else if n == 3 {
        '3'
    } else if n == 4 {
        '4'
    } else if n == 5 {
        '5'
    } else if n == 6 {
        '6'
    } else if n == 7 {
        '7'
    } else if n == 8 {
        '8'
    } else if n == 9 {
        '9'
    } else if n == 10 {
        'a'
    } else if n == 11 {
        'b'
    } else if n == 12 {
        'c'
    } else if n == 13 {
        'd'
    } else if n == 14 {
        'e'
    } else {
        'f'
    }
}

/// The rendering of one character inside a JSON string: quote and backslash
/// are escaped, the common control characters get their short escapes, the
/// rest of the control range a `\u00..` escape, and every other character
/// stands as itself.
pub open spec fn spec_escaped(c: char) -> Seq<char> {
    if c == '"' {
        seq!['\\', '"']
    } else if c == '\\' {
        seq!['\\', '\\']
    } else if c == '\u{0008}' {
        seq!['\\', 'b']
    } else if c == '\u{000C}' {
        seq!['\\', 'f']
    } else if c == '\n' {
        seq!['\\', 'n']
    } else if c == '\r' {
        seq!['\\', 'r']
    } else if c == '\t' {
        seq!['\\', 't']
    } else if (c as u32) < 0x20 {
        seq![
            '\\',
            'u',
            '0',
            '0',
            spec_hex_digit((c as u32 / 16) as int),
            spec_hex_digit((c as u32 % 16) as int),
        ]
    } else {
        seq![c]
    }
}

/// The rendering of a whole string body, character by character.
pub open spec fn spec_escaped_str(s: Seq<char>) -> Seq<char>
    decreases s.len(),
{
    if s.len() == 0 {
        Seq::empty()
    } else {
        spec_escaped_str(s.drop_last()) + spec_escaped(s.last())
    }
}

/// A quoted, escaped JSON string.
pub open spec fn spec_quoted(s: Seq<char>) -> Seq<char> {
    seq!['"'] + spec_escaped_str(s) + seq!['"']
}

/// The rendering of one message object, with its members in the order the
/// endpoint reads them.
pub open spec fn spec_rendered_msg(m: GMsg) -> Seq<char> {
    match m {
        GMsg::Both { role, content } => "{\"role\":"@ + spec_quoted(role) + ",\"content\":"@
            + spec_quoted(content) + "}"@,
        GMsg::Role { role } => "{\"role\":"@ + spec_quoted(role) + "}"@,
        GMsg::Content { content } => "{\"content\":"@ + spec_quoted(content) + "}"@,
        GMsg::Empty => "{}"@,
    }
}

/// The rendering of every message after the first, each behind a comma.
pub open spec fn spec_rendered_tail(ms: Seq<GMsg>) -> Seq<char>
    decreases ms.len(),
{
    if ms.len() == 0 {
        Seq::empty()
    } else {
        ","@ + spec_rendered_msg(ms[0]) + spec_rendered_tail(ms.drop_first())
    }
}

/// The comma-separated rendering of a message list.
pub open spec fn spec_rendered_msgs(ms: Seq<GMsg>) -> Seq<char> {
    if ms.len() == 0 {
        Seq::empty()
    } else {
        spec_rendered_msg(ms[0]) + spec_rendered_tail(ms.drop_first())
    }
}

/// The request body sent to the endpoint: the model, the message list, and
/// the streaming flag.
pub open spec fn spec_rendered_request(model: Seq<char>, ms: Seq<GMsg>, stream: bool) -> Seq<
    char,
> {
    "{\"model\":"@ + spec_quoted(model) + ",\"messages\":["@ + spec_rendered_msgs(ms)
        + "],\"stream\":"@ + (if stream {
        "true"@
    } else {
        "false"@
    }) + "}"@
}

fn hex_digit_of(n: u32) -> (r: char)
    requires
        n < 16,
    ensures
        r == spec_hex_digit(n as int),
{
    if n == 0 {
        '0'
    } else if n == 1 {
        '1'
    } else if n == 2 {
        '2'
    } else if n == 3 {
        '3'
    } else if n == 4 {
        '4'
    } else if n == 5 {
        '5'
    } else if n == 6 {
        '6'
    } else if n == 7 {
        '7'
    } else if n == 8 {
        '8'
    } else if n == 9 {
        '9'
    } else if n == 10 {
        'a'
    } else if n == 11 {
        'b'
    } else if n == 12 {
        'c'
    } else if n == 13 {
        'd'
    } else if n == 14 {
        'e'
    } else {
        'f'
    }
}

fn push_lit(out: &mut Vec<char>, lit: &str)
    ensures
        final(out)@ == old(out)@ + lit@,
{
    let mut cs = to_chars(lit);
    out.append(&mut cs);
}

fn push_escaped(out: &mut Vec<char>, s: &str)
    ensures
        final(out)@ == old(out)@ + spec_escaped_str(s@),
{
    let cs = to_chars(s);
    let ghost base = out@;
    let mut idx: usize = 0;
    proof {
        assert(cs@.take(0) =~= Seq::<char>::empty());
        assert(base + Seq::<char>::empty() =~= base);
    }
    while idx < cs.len()
        invariant
            0 <= idx <= cs@.len(),
            cs@ == s@,
            out@ == base + spec_escaped_str(cs@.take(idx as int)),
        decreases cs@.len() - idx,
    {
        let ghost before = out@;
        let c = cs[idx];
        proof {
            assert(cs@.take(idx as int + 1).drop_last() =~= cs@.take(idx as int));
            assert(cs@.take(idx as int + 1).last() == cs@[idx as int]);
        }
        if c == '"' {
            out.push('\\');
            out.push('"');
        } else if c == '\\' {
            out.push('\\');
            out.push('\\');
        } else if c == '\u{0008}' {
            out.push('\\');
            out.push('b');
        } else if c == '\u{000C}' {
            out.push('\\');
            out.push('f');
        } else if c == '\n' {
            out.push('\\');
            out.push('n');
        } else if c == '\r' {
            out.push('\\');
            out.push('r');
        } else if c == '\t' {
            out.push('\\');
            out.push('t');
        } else if (c as u32) < 0x20 {
            out.push('\\');
            out.push('u');
            out.push('0');
            out.push('0');
            out.push(hex_digit_of((c as u32) / 16));
            out.push(hex_digit_of((c as u32) % 16));
        } else {
            out.push(c);
        }
        proof {
            assert(out@ =~= before + spec_escaped(c));
            assert(before + spec_escaped(c) =~= base + spec_escaped_str(
                cs@.take(idx as int + 1),
            ));
        }
        idx += 1;
    }
    proof {
        assert(cs@.take(cs@.len() as int) =~= cs@);
    }
}

fn push_quoted(out: &mut Vec<char>, s: &str)
    ensures
        final(out)@ == old(out)@ + spec_quoted(s@),
{
    let ghost base = out@;
    out.push('"');
    proof {
        assert(out@ =~= base + seq!['"']);
    }
    push_escaped(out, s);
    out.push('"');
    proof {
        assert(out@ =~= base + spec_quoted(s@));
    }
}

fn push_msg(out: &mut Vec<char>, m: &ChatFmtMsg)
    ensures
        final(out)@ == old(out)@ + spec_rendered_msg(m@),
{
    let ghost base = out@;
    match m {
        ChatFmtMsg::Both { role, content } => {
            push_lit(out, "{\"role\":");
            push_quoted(out, role.as_str());
            push_lit(out, ",\"content\":");
            push_quoted(out, content.as_str());
            push_lit(out, "}");
            proof {
                assert(out@ =~= base + spec_rendered_msg(m@));
            }
        },
        ChatFmtMsg::Role { role } => {
            push_lit(out, "{\"role\":");
            push_quoted(out, role.as_str());
            push_lit(out, "}");
            proof {
                assert(out@ =~= base + spec_rendered_msg(m@));
            }
        },
        ChatFmtMsg::Content { content } => {
            push_lit(out, "{\"content\":");
            push_quoted(out, content.as_str());
            push_lit(out, "}");
            proof {
                assert(out@ =~= base + spec_rendered_msg(m@));
            }
        },
        ChatFmtMsg::Empty {} => {
            push_lit(out, "{}");
            proof {
                assert(out@ =~= base + spec_rendered_msg(m@));
            }
        },
    }
}

/// Renders the whole request body, exactly as [`spec_rendered_request`]
/// prescribes.
pub fn render_request(model: &str, msgs: &Vec<ChatFmtMsg>, stream: bool) -> (r: String)
    ensures
        r@ == spec_rendered_request(model@, msgs@.map_values(|m: ChatFmtMsg| m@), stream),
{
    let ghost gms = msgs@.map_values(|m: ChatFmtMsg| m@);
    let mut out: Vec<char> = Vec::new();
    push_lit(&mut out, "{\"model\":");
    push_quoted(&mut out, model);
    push_lit(&mut out, ",\"messages\":[");
    let ghost pre = out@;
    if msgs.len() > 0 {
        push_msg(&mut out, &msgs[0]);
        proof {
            assert(gms.drop_first() =~= gms.skip(1));
        }
        let mut idx: usize = 1;
        while idx < msgs.len()
            invariant
                1 <= idx <= msgs@.len(),
                msgs@.len() == gms.len(),
                gms == msgs@.map_values(|m: ChatFmtMsg| m@),
                out@ + spec_rendered_tail(gms.skip(idx as int)) == pre + spec_rendered_msgs(gms),
            decreases msgs@.len() - idx,
        {
            let ghost before = out@;
            proof {
                let tail = gms.skip(idx as int);
                assert(tail[0] == gms[idx as int]);
                assert(tail.drop_first() =~= gms.skip(idx as int + 1));
            }
            push_lit(&mut out, ",");
            push_msg(&mut out, &msgs[idx]);
            proof {
                assert(out@ =~= before + (","@ + spec_rendered_msg(gms[idx as int])));
                assert(out@ + spec_rendered_tail(gms.skip(idx as int + 1)) =~= before
                    + spec_rendered_tail(gms.skip(idx as int)));
            }
            idx += 1;
        }
        proof {
            assert(gms.skip(gms.len() as int) =~= Seq::<GMsg>::empty());
            assert(out@ + Seq::<char>::empty() =~= out@);
            assert(out@ == pre + spec_rendered_msgs(gms));
        }
    } else {
        proof {
            assert(out@ =~= pre + spec_rendered_msgs(gms));
        }
    }
    push_lit(&mut out, "],\"stream\":");
    if stream {
        push_lit(&mut out, "true");
    } else {
        push_lit(&mut out, "false");
    }
    push_lit(&mut out, "}");
    proof {
        assert(out@ =~= spec_rendered_request(model@, gms, stream));
    }
    chars_to_string(&out)
}

} // verus!
