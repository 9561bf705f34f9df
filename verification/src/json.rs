use vstd::prelude::*;

use crate::chars::{char_from_u32, scalar_value};

verus! {

/// A JSON document, as the grammar below sees it. A number is kept as its
/// unevaluated lexeme; a string as its decoded characters; an object as its
/// members in source order, duplicates included.
pub ghost enum JVal {
    Null,
    Bool(bool),
    Num(Seq<char>),
    Str(Seq<char>),
    Arr(Seq<JVal>),
    Obj(Seq<(Seq<char>, JVal)>),
}

/// JSON insignificant whitespace.
pub open spec fn is_ws(c: char) -> bool {
    c == ' ' || c == '\n' || c == '\r' || c == '\t'
}

/// An ASCII decimal digit.
pub open spec fn is_digit(c: char) -> bool {
    48 <= c as u32 && c as u32 <= 57
}

/// An ASCII hexadecimal digit.
pub open spec fn is_hex(c: char) -> bool {
    is_digit(c) || (97 <= c as u32 && c as u32 <= 102) || (65 <= c as u32 && c as u32 <= 70)
}

/// The value of an ASCII hexadecimal digit.
pub open spec fn hex_val(c: char) -> int {
    if is_digit(c) {
        c as u32 - 48
    } else if 97 <= c as u32 && c as u32 <= 102 {
        c as u32 - 87
    } else {
        c as u32 - 55
    }
}

/// The value of the four hexadecimal digits at `i`.
pub open spec fn hex4(s: Seq<char>, i: int) -> int {
    hex_val(s[i]) * 0x1000 + hex_val(s[i + 1]) * 0x100 + hex_val(s[i + 2]) * 16 + hex_val(
        s[i + 3],
    )
}

/// The first index at or after `i` that does not hold whitespace.
pub open spec fn spec_skip_ws(s: Seq<char>, i: int) -> int
    decreases s.len() - i,
    when 0 <= i <= s.len()
{
    if i < s.len() && is_ws(s[i]) {
        spec_skip_ws(s, i + 1)
    } else {
        i
    }
}

/// The first index at or after `i` that does not hold a digit.
pub open spec fn spec_scan_digits(s: Seq<char>, i: int) -> int
    decreases s.len() - i,
    when 0 <= i <= s.len()
{
    if i < s.len() && is_digit(s[i]) {
        spec_scan_digits(s, i + 1)
    } else {
        i
    }
}

/// The character that a single-character escape stands for.
pub open spec fn spec_escape_char(e: char) -> Option<char> {
    if e == '"' {
        Some('"')
    } else if e == '\\' {
        Some('\\')
    } else if e == '/' {
        Some('/')
    } else if e == 'b' {
        Some('\u{0008}')
    } else if e == 'f' {
        Some('\u{000C}')
    } else if e == 'n' {
        Some('\n')
    } else if e == 'r' {
        Some('\r')
    } else if e == 't' {
        Some('\t')
    } else {
        None
    }
}

/// Parses a string body starting just after the opening quote: the decoded
/// characters and the index just after the closing quote. Escapes are
/// decoded; a `\u` escape in the high surrogate range must be followed by one
/// in the low surrogate range, and the pair decodes to one character; raw
/// control characters are not allowed.
pub open spec fn spec_parse_string(s: Seq<char>, i: int) -> Option<(Seq<char>, int)>
    decreases s.len() - i,
    when 0 <= i <= s.len()
{
    if i >= s.len() {
        None
    } else {
        let c = s[i];
        if c == '"' {
            Some((Seq::empty(), i + 1))
        } else if c == '\\' {
            if i + 1 >= s.len() {
                None
            } else {
                let e = s[i + 1];
                if e == 'u' {
                    if s.len() - i < 6 {
                        None
                    } else if !(is_hex(s[i + 2]) && is_hex(s[i + 3]) && is_hex(s[i + 4]) && is_hex(
                        s[i + 5],
                    )) {
                        None
                    } else {
                        let n1 = hex4(s, i + 2);
                        if 0xD800 <= n1 && n1 < 0xDC00 {
                            if s.len() - i < 12 {
                                None
                            } else if !(s[i + 6] == '\\' && s[i + 7] == 'u' && is_hex(s[i + 8])
                                && is_hex(s[i + 9]) && is_hex(s[i + 10]) && is_hex(s[i + 11])) {
                                None
                            } else {
                                let n2 = hex4(s, i + 8);
                                if !(0xDC00 <= n2 && n2 < 0xE000) {
                                    None
                                } else {
                                    let code = 0x10000 + (n1 - 0xD800) * 0x400 + (n2 - 0xDC00);
                                    match spec_parse_string(s, i + 12) {
                                        None => None,
                                        Some((rest, j)) => Some(
                                            (seq![(code as u32) as char] + rest, j),
                                        ),
                                    }
                                }
                            }
                        } else if 0xDC00 <= n1 && n1 < 0xE000 {
                            None
                        } else {
                            match spec_parse_string(s, i + 6) {
                                None => None,
                                Some((rest, j)) => Some((seq![(n1 as u32) as char] + rest, j)),
                            }
                        }
                    }
                } else {
                    match spec_escape_char(e) {
                        None => None,
                        Some(d) => match spec_parse_string(s, i + 2) {
                            None => None,
                            Some((rest, j)) => Some((seq![d] + rest, j)),
                        },
                    }
                }
            }
        } else if (c as u32) < 0x20 {
            None
        } else {
            match spec_parse_string(s, i + 1) {
                None => None,
                Some((rest, j)) => Some((seq![c] + rest, j)),
            }
        }
    }
}

/// Finishes a number after its digits end at `j`: an optional exponent part.
/// On success, the lexeme from `start` and the index just after it.
pub open spec fn spec_number_exp(s: Seq<char>, start: int, j: int) -> Option<(Seq<char>, int)> {
    if j < s.len() && (s[j] == 'e' || s[j] == 'E') {
        let k = if j + 1 < s.len() && (s[j + 1] == '+' || s[j + 1] == '-') {
            j + 2
        } else {
            j + 1
        };
        if !(k < s.len() && is_digit(s[k])) {
            None
        } else {
            let m = spec_scan_digits(s, k);
            Some((s.subrange(start, m), m))
        }
    } else {
        Some((s.subrange(start, j), j))
    }
}

/// Parses a number at `i`: optional minus, an integer part without leading
/// zeros, an optional fraction, an optional exponent.
pub open spec fn spec_parse_number(s: Seq<char>, i: int) -> Option<(Seq<char>, int)> {
    let j0 = if i < s.len() && s[i] == '-' {
        i + 1
    } else {
        i
    };
    if !(j0 < s.len() && is_digit(s[j0])) {
        None
    } else {
        let j1 = if s[j0] == '0' {
            j0 + 1
        } else {
            spec_scan_digits(s, j0)
        };
        if j1 < s.len() && s[j1] == '.' {
            let j2 = spec_scan_digits(s, j1 + 1);
            if j2 == j1 + 1 {
                None
            } else {
                spec_number_exp(s, i, j2)
            }
        } else {
            spec_number_exp(s, i, j1)
        }
    }
}

/// Parses one value at `i` (no leading whitespace): the value and the index
/// just after it. The fuel only bounds the recursion: one unit is spent for
/// each opening bracket or brace and each separating comma, always together
/// with at least one consumed character, so any fuel that covers the rest of
/// the text reads the same value ([`lemma_parse_value_fuel`]).
pub open spec fn spec_parse_value(s: Seq<char>, i: int, fuel: nat) -> Option<(JVal, int)>
    decreases fuel, 2int,
{
    if !(0 <= i && i < s.len()) {
        None
    } else {
        let c = s[i];
        if c == '"' {
            match spec_parse_string(s, i + 1) {
                None => None,
                Some((cs, j)) => Some((JVal::Str(cs), j)),
            }
        } else if c == '[' {
            if fuel == 0 {
                None
            } else {
                match spec_parse_elements(s, i + 1, (fuel - 1) as nat) {
                    None => None,
                    Some((vs, j)) => Some((JVal::Arr(vs), j)),
                }
            }
        } else if c == '{' {
            if fuel == 0 {
                None
            } else {
                match spec_parse_members(s, i + 1, (fuel - 1) as nat) {
                    None => None,
                    Some((ps, j)) => Some((JVal::Obj(ps), j)),
                }
            }
        } else if c == 't' {
            if i + 4 <= s.len() && s[i + 1] == 'r' && s[i + 2] == 'u' && s[i + 3] == 'e' {
                Some((JVal::Bool(true), i + 4))
            } else {
                None
            }
        } else if c == 'f' {
            if i + 5 <= s.len() && s[i + 1] == 'a' && s[i + 2] == 'l' && s[i + 3] == 's' && s[i
                + 4] == 'e' {
                Some((JVal::Bool(false), i + 5))
            } else {
                None
            }
        } else if c == 'n' {
            if i + 4 <= s.len() && s[i + 1] == 'u' && s[i + 2] == 'l' && s[i + 3] == 'l' {
                Some((JVal::Null, i + 4))
            } else {
                None
            }
        } else {
            match spec_parse_number(s, i) {
                None => None,
                Some((cs, j)) => Some((JVal::Num(cs), j)),
            }
        }
    }
}

/// Parses the elements of an array, starting just after the `[`.
pub open spec fn spec_parse_elements(s: Seq<char>, i: int, fuel: nat) -> Option<(Seq<JVal>, int)>
    decreases fuel, 4int,
    when 0 <= i <= s.len()
{
    let j = spec_skip_ws(s, i);
    if j < s.len() && s[j] == ']' {
        Some((Seq::empty(), j + 1))
    } else {
        spec_parse_items(s, j, fuel)
    }
}

/// Parses a non-empty comma-separated run of array elements, starting at the
/// first element.
pub open spec fn spec_parse_items(s: Seq<char>, i: int, fuel: nat) -> Option<(Seq<JVal>, int)>
    decreases fuel, 3int,
{
    match spec_parse_value(s, i, fuel) {
        None => None,
        Some((v, j)) => {
            let k = spec_skip_ws(s, j);
            if k < s.len() && s[k] == ',' {
                if fuel == 0 {
                    None
                } else {
                    match spec_parse_items(s, spec_skip_ws(s, k + 1), (fuel - 1) as nat) {
                        None => None,
                        Some((vs, m)) => Some((seq![v] + vs, m)),
                    }
                }
            } else if k < s.len() && s[k] == ']' {
                Some((seq![v], k + 1))
            } else {
                None
            }
        },
    }
}

/// Parses the members of an object, starting just after the `{`.
pub open spec fn spec_parse_members(
    s: Seq<char>,
    i: int,
    fuel: nat,
) -> Option<(Seq<(Seq<char>, JVal)>, int)>
    decreases fuel, 4int,
    when 0 <= i <= s.len()
{
    let j = spec_skip_ws(s, i);
    if j < s.len() && s[j] == '}' {
        Some((Seq::empty(), j + 1))
    } else {
        spec_parse_pairs(s, j, fuel)
    }
}

/// Parses a non-empty comma-separated run of object members, starting at the
/// opening quote of the first key.
pub open spec fn spec_parse_pairs(
    s: Seq<char>,
    i: int,
    fuel: nat,
) -> Option<(Seq<(Seq<char>, JVal)>, int)>
    decreases fuel, 3int,
{
    if !(0 <= i && i < s.len() && s[i] == '"') {
        None
    } else {
        match spec_parse_string(s, i + 1) {
            None => None,
            Some((key, j)) => {
                let k = spec_skip_ws(s, j);
                if !(k < s.len() && s[k] == ':') {
                    None
                } else {
                    match spec_parse_value(s, spec_skip_ws(s, k + 1), fuel) {
                        None => None,
                        Some((v, m)) => {
                            let p = spec_skip_ws(s, m);
                            if p < s.len() && s[p] == ',' {
                                if fuel == 0 {
                                    None
                                } else {
                                    match spec_parse_pairs(
                                        s,
                                        spec_skip_ws(s, p + 1),
                                        (fuel - 1) as nat,
                                    ) {
                                        None => None,
                                        Some((ps, q)) => Some((seq![(key, v)] + ps, q)),
                                    }
                                }
                            } else if p < s.len() && s[p] == '}' {
                                Some((seq![(key, v)], p + 1))
                            } else {
                                None
                            }
                        },
                    }
                }
            },
        }
    }
}

/// Parses a whole document: one value, surrounded by whitespace only.
pub open spec fn spec_parse_json(s: Seq<char>) -> Option<JVal> {
    match spec_parse_value(s, spec_skip_ws(s, 0), s.len() as nat) {
        None => None,
        Some((v, j)) => {
            if 0 <= j <= s.len() && spec_skip_ws(s, j) == s.len() {
                Some(v)
            } else {
                None
            }
        },
    }
}

fn char_is_ws(c: char) -> (b: bool)
    ensures
        b == is_ws(c),
{
    c == ' ' || c == '\n' || c == '\r' || c == '\t'
}

fn char_is_digit(c: char) -> (b: bool)
    ensures
        b == is_digit(c),
{
    let n = c as u32;
    48 <= n && n <= 57
}

fn char_is_hex(c: char) -> (b: bool)
    ensures
        b == is_hex(c),
{
    let n = c as u32;
    (48 <= n && n <= 57) || (97 <= n && n <= 102) || (65 <= n && n <= 70)
}

fn hex_val_of(c: char) -> (r: u32)
    requires
        is_hex(c),
    ensures
        r as int == hex_val(c),
        r <= 15,
{
    let n = c as u32;
    if 48 <= n && n <= 57 {
        n - 48
    } else if 97 <= n && n <= 102 {
        n - 87
    } else {
        n - 55
    }
}

fn hex4_of(s: &Vec<char>, i: usize) -> (r: u32)
    requires
        i + 4 <= s.len(),
        is_hex(s@[i as int]),
        is_hex(s@[i + 1]),
        is_hex(s@[i + 2]),
        is_hex(s@[i + 3]),
    ensures
        r as int == hex4(s@, i as int),
        r <= 0xFFFF,
{
    let h0 = hex_val_of(s[i]);
    let h1 = hex_val_of(s[i + 1]);
    let h2 = hex_val_of(s[i + 2]);
    let h3 = hex_val_of(s[i + 3]);
    h0 * 0x1000 + h1 * 0x100 + h2 * 16 + h3
}

/// The first index at or after `i` that does not hold whitespace.
pub(crate) fn skip_ws(s: &Vec<char>, i: usize) -> (r: usize)
    requires
        i <= s@.len(),
    ensures
        r as int == spec_skip_ws(s@, i as int),
        i <= r <= s@.len(),
{
    let mut j = i;
    while j < s.len() && char_is_ws(s[j])
        invariant
            i <= j <= s@.len(),
            spec_skip_ws(s@, i as int) == spec_skip_ws(s@, j as int),
        decreases s@.len() - j,
    {
        j += 1;
    }
    j
}

/// The first index at or after `i` that does not hold a digit.
fn scan_digits(s: &Vec<char>, i: usize) -> (r: usize)
    requires
        i <= s@.len(),
    ensures
        r as int == spec_scan_digits(s@, i as int),
        i <= r <= s@.len(),
{
    let mut j = i;
    while j < s.len() && char_is_digit(s[j])
        invariant
            i <= j <= s@.len(),
            spec_scan_digits(s@, i as int) == spec_scan_digits(s@, j as int),
        decreases s@.len() - j,
    {
        j += 1;
    }
    j
}

/// How an executable string-parse result must relate to the grammar's.
pub open spec fn str_res_matches(
    r: Option<(Vec<char>, usize)>,
    g: Option<(Seq<char>, int)>,
) -> bool {
    match (r, g) {
        (Some(p), Some(q)) => p.0@ == q.0 && p.1 as int == q.1,
        (None, None) => true,
        _ => false,
    }
}

/// A parse of the rest of a string body, prefixed with already-decoded text.
pub open spec fn compose_str(pre: Seq<char>, g: Option<(Seq<char>, int)>) -> Option<
    (Seq<char>, int),
> {
    match g {
        None => None,
        Some((rest, j)) => Some((pre + rest, j)),
    }
}

proof fn lemma_compose_cons(
    pre: Seq<char>,
    ch: char,
    g: Option<(Seq<char>, int)>,
    g2: Option<(Seq<char>, int)>,
)
    requires
        g == (match g2 {
            None => None::<(Seq<char>, int)>,
            Some((rest, j)) => Some((seq![ch] + rest, j)),
        }),
    ensures
        compose_str(pre, g) == compose_str(pre.push(ch), g2),
{
    match g2 {
        Some((rest, j)) => {
            assert(pre + (seq![ch] + rest) =~= pre.push(ch) + rest);
        },
        None => {},
    }
}

/// Parses a string body starting just after the opening quote, decoding
/// escapes, exactly as [`spec_parse_string`] prescribes.
pub(crate) fn parse_string_at(s: &Vec<char>, i: usize) -> (r: Option<(Vec<char>, usize)>)
    requires
        i <= s@.len(),
    ensures
        str_res_matches(r, spec_parse_string(s@, i as int)),
        r matches Some(p) ==> i <= p.1 <= s@.len(),
{
    let ghost target = spec_parse_string(s@, i as int);
    let mut out: Vec<char> = Vec::new();
    let mut j = i;
    loop
        invariant
            i <= j <= s@.len(),
            target == spec_parse_string(s@, i as int),
            target == compose_str(out@, spec_parse_string(s@, j as int)),
        decreases s@.len() - j,
    {
        if j >= s.len() {
            return None;
        }
        let c = s[j];
        if c == '"' {
            proof {
                assert(out@ + Seq::<char>::empty() =~= out@);
            }
            return Some((out, j + 1));
        } else if c == '\\' {
            if j + 1 >= s.len() {
                return None;
            }
            let e = s[j + 1];
            if e == 'u' {
                if s.len() - j < 6 {
                    return None;
                }
                if !(char_is_hex(s[j + 2]) && char_is_hex(s[j + 3]) && char_is_hex(s[j + 4])
                    && char_is_hex(s[j + 5])) {
                    return None;
                }
                let n1 = hex4_of(s, j + 2);
                if 0xD800 <= n1 && n1 < 0xDC00 {
                    if s.len() - j < 12 {
                        return None;
                    }
                    if !(s[j + 6] == '\\' && s[j + 7] == 'u') {
                        return None;
                    }
                    if !(char_is_hex(s[j + 8]) && char_is_hex(s[j + 9]) && char_is_hex(s[j + 10])
                        && char_is_hex(s[j + 11])) {
                        return None;
                    }
                    let n2 = hex4_of(s, j + 8);
                    if !(0xDC00 <= n2 && n2 < 0xE000) {
                        return None;
                    }
                    let code: u32 = 0x10000 + (n1 - 0xD800) * 0x400 + (n2 - 0xDC00);
                    match char_from_u32(code) {
                        Some(ch) => {
                            proof {
                                lemma_compose_cons(
                                    out@,
                                    ch,
                                    spec_parse_string(s@, j as int),
                                    spec_parse_string(s@, j + 12),
                                );
                            }
                            out.push(ch);
                            j += 12;
                        },
                        None => {
                            proof {
                                assert(false);
                            }
                            return None;
                        },
                    }
                } else if 0xDC00 <= n1 && n1 < 0xE000 {
                    return None;
                } else {
                    match char_from_u32(n1) {
                        Some(ch) => {
                            proof {
                                lemma_compose_cons(
                                    out@,
                                    ch,
                                    spec_parse_string(s@, j as int),
                                    spec_parse_string(s@, j + 6),
                                );
                            }
                            out.push(ch);
                            j += 6;
                        },
                        None => {
                            proof {
                                assert(false);
                            }
                            return None;
                        },
                    }
                }
            } else {
                let d: char = if e == '"' {
                    '"'
                } else if e == '\\' {
                    '\\'
                } else if e == '/' {
                    '/'
                } else if e == 'b' {
                    '\u{0008}'
                } else if e == 'f' {
                    '\u{000C}'
                } else if e == 'n' {
                    '\n'
                } else if e == 'r' {
                    '\r'
                } else if e == 't' {
                    '\t'
                } else {
                    return None;
                };
                proof {
                    lemma_compose_cons(
                        out@,
                        d,
                        spec_parse_string(s@, j as int),
                        spec_parse_string(s@, j + 2),
                    );
                }
                out.push(d);
                j += 2;
            }
        } else if (c as u32) < 0x20 {
            return None;
        } else {
            proof {
                lemma_compose_cons(
                    out@,
                    c,
                    spec_parse_string(s@, j as int),
                    spec_parse_string(s@, j + 1),
                );
            }
            out.push(c);
            j += 1;
        }
    }
}

/// How an executable end-position result must relate to the grammar's.
pub open spec fn pos_matches<A>(r: Option<usize>, g: Option<(A, int)>) -> bool {
    match (r, g) {
        (Some(j), Some(q)) => j as int == q.1,
        (None, None) => true,
        _ => false,
    }
}

fn number_exp_end(s: &Vec<char>, start: usize, j: usize) -> (r: Option<usize>)
    requires
        start <= j <= s@.len(),
    ensures
        pos_matches(r, spec_number_exp(s@, start as int, j as int)),
        r matches Some(m) ==> j <= m <= s@.len(),
{
    let n = s.len();
    if j < n && (s[j] == 'e' || s[j] == 'E') {
        let k = if j + 1 < n && (s[j + 1] == '+' || s[j + 1] == '-') {
            j + 2
        } else {
            j + 1
        };
        if !(k < n && char_is_digit(s[k])) {
            return None;
        }
        let m = scan_digits(s, k);
        Some(m)
    } else {
        Some(j)
    }
}

/// Finds the end of a number at `i`, exactly where [`spec_parse_number`]
/// ends it.
pub(crate) fn parse_number_end(s: &Vec<char>, i: usize) -> (r: Option<usize>)
    requires
        i <= s@.len(),
    ensures
        pos_matches(r, spec_parse_number(s@, i as int)),
        r matches Some(m) ==> i <= m <= s@.len(),
{
    let n = s.len();
    let j0 = if i < n && s[i] == '-' {
        i + 1
    } else {
        i
    };
    if !(j0 < n && char_is_digit(s[j0])) {
        return None;
    }
    let j1 = if s[j0] == '0' {
        j0 + 1
    } else {
        scan_digits(s, j0)
    };
    if j1 < n && s[j1] == '.' {
        let j2 = scan_digits(s, j1 + 1);
        if j2 == j1 + 1 {
            None
        } else {
            number_exp_end(s, i, j2)
        }
    } else {
        number_exp_end(s, i, j1)
    }
}

/// Finds the end of one value at `i`, exactly where [`spec_parse_value`]
/// ends it.
pub(crate) fn skip_value(s: &Vec<char>, i: usize, fuel: usize) -> (r: Option<usize>)
    ensures
        pos_matches(r, spec_parse_value(s@, i as int, fuel as nat)),
        r matches Some(j) ==> i <= j <= s@.len(),
    decreases fuel, 2int,
{
    let n = s.len();
    if !(i < n) {
        return None;
    }
    let c = s[i];
    if c == '"' {
        match parse_string_at(s, i + 1) {
            None => None,
            Some((_, j)) => Some(j),
        }
    } else if c == '[' {
        if fuel == 0 {
            None
        } else {
            skip_elements(s, i + 1, fuel - 1)
        }
    } else if c == '{' {
        if fuel == 0 {
            None
        } else {
            skip_members(s, i + 1, fuel - 1)
        }
    } else if c == 't' {
        if n - i >= 4 && s[i + 1] == 'r' && s[i + 2] == 'u' && s[i + 3] == 'e' {
            Some(i + 4)
        } else {
            None
        }
    } else if c == 'f' {
        if n - i >= 5 && s[i + 1] == 'a' && s[i + 2] == 'l' && s[i + 3] == 's' && s[i + 4]
            == 'e' {
            Some(i + 5)
        } else {
            None
        }
    } else if c == 'n' {
        if n - i >= 4 && s[i + 1] == 'u' && s[i + 2] == 'l' && s[i + 3] == 'l' {
            Some(i + 4)
        } else {
            None
        }
    } else {
        parse_number_end(s, i)
    }
}

fn skip_elements(s: &Vec<char>, i: usize, fuel: usize) -> (r: Option<usize>)
    requires
        i <= s.len(),
    ensures
        pos_matches(r, spec_parse_elements(s@, i as int, fuel as nat)),
        r matches Some(j) ==> i <= j <= s@.len(),
    decreases fuel, 4int,
{
    let j = skip_ws(s, i);
    if j < s.len() && s[j] == ']' {
        Some(j + 1)
    } else {
        skip_items(s, j, fuel)
    }
}

fn skip_items(s: &Vec<char>, i: usize, fuel: usize) -> (r: Option<usize>)
    requires
        i <= s.len(),
    ensures
        pos_matches(r, spec_parse_items(s@, i as int, fuel as nat)),
        r matches Some(j) ==> i <= j <= s@.len(),
    decreases fuel, 3int,
{
    match skip_value(s, i, fuel) {
        None => None,
        Some(j) => {
            let k = skip_ws(s, j);
            if k < s.len() && s[k] == ',' {
                if fuel == 0 {
                    None
                } else {
                    let m = skip_ws(s, k + 1);
                    skip_items(s, m, fuel - 1)
                }
            } else if k < s.len() && s[k] == ']' {
                Some(k + 1)
            } else {
                None
            }
        },
    }
}

fn skip_members(s: &Vec<char>, i: usize, fuel: usize) -> (r: Option<usize>)
    requires
        i <= s.len(),
    ensures
        pos_matches(r, spec_parse_members(s@, i as int, fuel as nat)),
        r matches Some(j) ==> i <= j <= s@.len(),
    decreases fuel, 4int,
{
    let j = skip_ws(s, i);
    if j < s.len() && s[j] == '}' {
        Some(j + 1)
    } else {
        skip_pairs(s, j, fuel)
    }
}

fn skip_pairs(s: &Vec<char>, i: usize, fuel: usize) -> (r: Option<usize>)
    ensures
        pos_matches(r, spec_parse_pairs(s@, i as int, fuel as nat)),
        r matches Some(j) ==> i <= j <= s@.len(),
    decreases fuel, 3int,
{
    let n = s.len();
    if !(i < n && s[i] == '"') {
        return None;
    }
    match parse_string_at(s, i + 1) {
        None => None,
        Some((_, j)) => {
            let k = skip_ws(s, j);
            if !(k < n && s[k] == ':') {
                return None;
            }
            let v0 = skip_ws(s, k + 1);
            match skip_value(s, v0, fuel) {
                None => None,
                Some(m) => {
                    let p = skip_ws(s, m);
                    if p < n && s[p] == ',' {
                        if fuel == 0 {
                            None
                        } else {
                            let q0 = skip_ws(s, p + 1);
                            skip_pairs(s, q0, fuel - 1)
                        }
                    } else if p < n && s[p] == '}' {
                        Some(p + 1)
                    } else {
                        None
                    }
                },
            }
        },
    }
}

/// The value of the first member with the given key, if any.
pub open spec fn spec_lookup(pairs: Seq<(Seq<char>, JVal)>, key: Seq<char>) -> Option<JVal>
    decreases pairs.len(),
{
    if pairs.len() == 0 {
        None
    } else if pairs[0].0 == key {
        Some(pairs[0].1)
    } else {
        spec_lookup(pairs.drop_first(), key)
    }
}

/// The first non-whitespace index lies between `i` and the end.
pub proof fn lemma_skip_ws_bounds(s: Seq<char>, i: int)
    requires
        0 <= i <= s.len(),
    ensures
        i <= spec_skip_ws(s, i) <= s.len(),
    decreases s.len() - i,
{
    if i < s.len() && is_ws(s[i]) {
        lemma_skip_ws_bounds(s, i + 1);
    }
}

/// The first non-digit index lies between `i` and the end.
pub proof fn lemma_scan_digits_bounds(s: Seq<char>, i: int)
    requires
        0 <= i <= s.len(),
    ensures
        i <= spec_scan_digits(s, i) <= s.len(),
    decreases s.len() - i,
{
    if i < s.len() && is_digit(s[i]) {
        lemma_scan_digits_bounds(s, i + 1);
    }
}

/// A parsed string body ends after `i` and within the text.
proof fn lemma_parse_string_bounds(s: Seq<char>, i: int)
    requires
        0 <= i <= s.len(),
    ensures
        spec_parse_string(s, i) matches Some(p) ==> i < p.1 <= s.len(),
    decreases s.len() - i,
{
    if i < s.len() {
        let c = s[i];
        if c == '"' {
        } else if c == '\\' {
            if i + 1 < s.len() {
                let e = s[i + 1];
                if e == 'u' {
                    if s.len() - i >= 6 {
                        let n1 = hex4(s, i + 2);
                        if 0xD800 <= n1 && n1 < 0xDC00 {
                            if s.len() - i >= 12 {
                                lemma_parse_string_bounds(s, i + 12);
                            }
                        } else {
                            lemma_parse_string_bounds(s, i + 6);
                        }
                    }
                } else {
                    lemma_parse_string_bounds(s, i + 2);
                }
            }
        } else {
            lemma_parse_string_bounds(s, i + 1);
        }
    }
}

/// A parsed exponent part ends at or after `j` and within the text.
proof fn lemma_number_exp_bounds(s: Seq<char>, start: int, j: int)
    requires
        0 <= start <= j <= s.len(),
    ensures
        spec_number_exp(s, start, j) matches Some(p) ==> j <= p.1 <= s.len(),
{
    if j < s.len() && (s[j] == 'e' || s[j] == 'E') {
        let k = if j + 1 < s.len() && (s[j + 1] == '+' || s[j + 1] == '-') {
            j + 2
        } else {
            j + 1
        };
        if k < s.len() && is_digit(s[k]) {
            lemma_scan_digits_bounds(s, k);
        }
    }
}

/// A parsed number ends after `i` and within the text.
proof fn lemma_parse_number_bounds(s: Seq<char>, i: int)
    requires
        0 <= i <= s.len(),
    ensures
        spec_parse_number(s, i) matches Some(p) ==> i < p.1 <= s.len(),
{
    let j0 = if i < s.len() && s[i] == '-' {
        i + 1
    } else {
        i
    };
    if j0 < s.len() && is_digit(s[j0]) {
        let j1 = if s[j0] == '0' {
            j0 + 1
        } else {
            spec_scan_digits(s, j0)
        };
        lemma_scan_digits_bounds(s, j0 + 1);
        assert(s[j0] != '0' ==> j1 == spec_scan_digits(s, j0 + 1));
        if j1 < s.len() && s[j1] == '.' {
            lemma_scan_digits_bounds(s, j1 + 1);
            let j2 = spec_scan_digits(s, j1 + 1);
            if j2 != j1 + 1 {
                lemma_number_exp_bounds(s, i, j2);
            }
        } else {
            lemma_number_exp_bounds(s, i, j1);
        }
    }
}

/// A parsed value ends after `i` and within the text.
pub proof fn lemma_parse_value_bounds(s: Seq<char>, i: int, fuel: nat)
    ensures
        spec_parse_value(s, i, fuel) matches Some(p) ==> 0 <= i < p.1 <= s.len(),
    decreases fuel, 2int,
{
    if 0 <= i && i < s.len() {
        let c = s[i];
        if c == '"' {
            lemma_parse_string_bounds(s, i + 1);
        } else if c == '[' {
            if fuel > 0 {
                lemma_parse_elements_bounds(s, i + 1, (fuel - 1) as nat);
            }
        } else if c == '{' {
            if fuel > 0 {
                lemma_parse_members_bounds(s, i + 1, (fuel - 1) as nat);
            }
        } else if c == 't' || c == 'f' || c == 'n' {
        } else {
            lemma_parse_number_bounds(s, i);
        }
    }
}

/// Parsed array elements end after `i` and within the text.
proof fn lemma_parse_elements_bounds(s: Seq<char>, i: int, fuel: nat)
    requires
        0 <= i <= s.len(),
    ensures
        spec_parse_elements(s, i, fuel) matches Some(p) ==> i < p.1 <= s.len(),
    decreases fuel, 4int,
{
    lemma_skip_ws_bounds(s, i);
    let j = spec_skip_ws(s, i);
    if !(j < s.len() && s[j] == ']') {
        lemma_parse_items_bounds(s, j, fuel);
    }
}

/// A parsed element run ends after `i` and within the text.
proof fn lemma_parse_items_bounds(s: Seq<char>, i: int, fuel: nat)
    ensures
        spec_parse_items(s, i, fuel) matches Some(p) ==> i < p.1 <= s.len(),
    decreases fuel, 3int,
{
    lemma_parse_value_bounds(s, i, fuel);
    match spec_parse_value(s, i, fuel) {
        None => {},
        Some((v, j)) => {
            lemma_skip_ws_bounds(s, j);
            let k = spec_skip_ws(s, j);
            if k < s.len() && s[k] == ',' {
                if fuel > 0 {
                    lemma_skip_ws_bounds(s, k + 1);
                    lemma_parse_items_bounds(s, spec_skip_ws(s, k + 1), (fuel - 1) as nat);
                }
            }
        },
    }
}

/// Parsed object members end after `i` and within the text.
proof fn lemma_parse_members_bounds(s: Seq<char>, i: int, fuel: nat)
    requires
        0 <= i <= s.len(),
    ensures
        spec_parse_members(s, i, fuel) matches Some(p) ==> i < p.1 <= s.len(),
    decreases fuel, 4int,
{
    lemma_skip_ws_bounds(s, i);
    let j = spec_skip_ws(s, i);
    if !(j < s.len() && s[j] == '}') {
        lemma_parse_pairs_bounds(s, j, fuel);
    }
}

/// A parsed member run ends after `i` and within the text.
proof fn lemma_parse_pairs_bounds(s: Seq<char>, i: int, fuel: nat)
    ensures
        spec_parse_pairs(s, i, fuel) matches Some(p) ==> i < p.1 <= s.len(),
    decreases fuel, 3int,
{
    if 0 <= i && i < s.len() && s[i] == '"' {
        lemma_parse_string_bounds(s, i + 1);
        match spec_parse_string(s, i + 1) {
            None => {},
            Some((key, j)) => {
                lemma_skip_ws_bounds(s, j);
                let k = spec_skip_ws(s, j);
                if k < s.len() && s[k] == ':' {
                    lemma_skip_ws_bounds(s, k + 1);
                    let v0 = spec_skip_ws(s, k + 1);
                    lemma_parse_value_bounds(s, v0, fuel);
                    match spec_parse_value(s, v0, fuel) {
                        None => {},
                        Some((v, m)) => {
                            lemma_skip_ws_bounds(s, m);
                            let p = spec_skip_ws(s, m);
                            if p < s.len() && s[p] == ',' {
                                if fuel > 0 {
                                    lemma_skip_ws_bounds(s, p + 1);
                                    lemma_parse_pairs_bounds(
                                        s,
                                        spec_skip_ws(s, p + 1),
                                        (fuel - 1) as nat,
                                    );
                                }
                            }
                        },
                    }
                }
            },
        }
    }
}

/// The parse of a value does not depend on the fuel, as long as the fuel
/// covers the rest of the text: one unit is spent only together with at
/// least one consumed character.
pub proof fn lemma_parse_value_fuel(s: Seq<char>, i: int, f1: nat, f2: nat)
    requires
        f1 >= s.len() - i,
        f2 >= s.len() - i,
    ensures
        spec_parse_value(s, i, f1) == spec_parse_value(s, i, f2),
    decreases f1, 2int,
{
    if 0 <= i && i < s.len() {
        let c = s[i];
        if c == '[' || c == '{' {
            assert(f1 >= 1);
            assert(f2 >= 1);
            if c == '[' {
                lemma_parse_elements_fuel(s, i + 1, (f1 - 1) as nat, (f2 - 1) as nat);
            } else {
                lemma_parse_members_fuel(s, i + 1, (f1 - 1) as nat, (f2 - 1) as nat);
            }
        }
    }
}

proof fn lemma_parse_elements_fuel(s: Seq<char>, i: int, f1: nat, f2: nat)
    requires
        0 <= i <= s.len(),
        f1 >= s.len() - i,
        f2 >= s.len() - i,
    ensures
        spec_parse_elements(s, i, f1) == spec_parse_elements(s, i, f2),
    decreases f1, 4int,
{
    lemma_skip_ws_bounds(s, i);
    let j = spec_skip_ws(s, i);
    if !(j < s.len() && s[j] == ']') {
        lemma_parse_items_fuel(s, j, f1, f2);
    }
}

proof fn lemma_parse_items_fuel(s: Seq<char>, i: int, f1: nat, f2: nat)
    requires
        f1 >= s.len() - i,
        f2 >= s.len() - i,
    ensures
        spec_parse_items(s, i, f1) == spec_parse_items(s, i, f2),
    decreases f1, 3int,
{
    lemma_parse_value_fuel(s, i, f1, f2);
    lemma_parse_value_bounds(s, i, f1);
    match spec_parse_value(s, i, f1) {
        None => {},
        Some((v, j)) => {
            lemma_skip_ws_bounds(s, j);
            let k = spec_skip_ws(s, j);
            if k < s.len() && s[k] == ',' {
                assert(f1 >= 1);
                assert(f2 >= 1);
                lemma_skip_ws_bounds(s, k + 1);
                let q0 = spec_skip_ws(s, k + 1);
                lemma_parse_items_fuel(s, q0, (f1 - 1) as nat, (f2 - 1) as nat);
            }
        },
    }
}

proof fn lemma_parse_members_fuel(s: Seq<char>, i: int, f1: nat, f2: nat)
    requires
        0 <= i <= s.len(),
        f1 >= s.len() - i,
        f2 >= s.len() - i,
    ensures
        spec_parse_members(s, i, f1) == spec_parse_members(s, i, f2),
    decreases f1, 4int,
{
    lemma_skip_ws_bounds(s, i);
    let j = spec_skip_ws(s, i);
    if !(j < s.len() && s[j] == '}') {
        lemma_parse_pairs_fuel(s, j, f1, f2);
    }
}

proof fn lemma_parse_pairs_fuel(s: Seq<char>, i: int, f1: nat, f2: nat)
    requires
        f1 >= s.len() - i,
        f2 >= s.len() - i,
    ensures
        spec_parse_pairs(s, i, f1) == spec_parse_pairs(s, i, f2),
    decreases f1, 3int,
{
    if 0 <= i && i < s.len() && s[i] == '"' {
        lemma_parse_string_bounds(s, i + 1);
        match spec_parse_string(s, i + 1) {
            None => {},
            Some((key, j)) => {
                lemma_skip_ws_bounds(s, j);
                let k = spec_skip_ws(s, j);
                if k < s.len() && s[k] == ':' {
                    lemma_skip_ws_bounds(s, k + 1);
                    let v0 = spec_skip_ws(s, k + 1);
                    lemma_parse_value_fuel(s, v0, f1, f2);
                    lemma_parse_value_bounds(s, v0, f1);
                    match spec_parse_value(s, v0, f1) {
                        None => {},
                        Some((v, m)) => {
                            lemma_skip_ws_bounds(s, m);
                            let p = spec_skip_ws(s, m);
                            if p < s.len() && s[p] == ',' {
                                assert(f1 >= 1);
                                assert(f2 >= 1);
                                lemma_skip_ws_bounds(s, p + 1);
                                let q0 = spec_skip_ws(s, p + 1);
                                lemma_parse_pairs_fuel(s, q0, (f1 - 1) as nat, (f2 - 1) as nat);
                            }
                        },
                    }
                }
            },
        }
    }
}

/// The parse of a whole document does not depend on the fuel once the fuel
/// covers the text: with any fuel at least the text's length, the value
/// grammar reads exactly the document that [`spec_parse_json`] defines.
pub proof fn lemma_parse_json_fuel(s: Seq<char>, f: nat)
    requires
        f >= s.len(),
    ensures
        spec_parse_value(s, spec_skip_ws(s, 0), f) == spec_parse_value(
            s,
            spec_skip_ws(s, 0),
            s.len() as nat,
        ),
{
    lemma_skip_ws_bounds(s, 0);
    lemma_parse_value_fuel(s, spec_skip_ws(s, 0), f, s.len() as nat);
}

} // verus!
