use vstd::prelude::*;

use crate::chars::{chars_to_string, to_chars};
use crate::decode::str_result_matches;
use crate::errors::OkError;

verus! {

/// Whether a fence (three backticks) stands at `i`.
pub open spec fn fence_at(s: Seq<char>, i: int) -> bool {
    i + 3 <= s.len() && s[i] == '`' && s[i + 1] == '`' && s[i + 2] == '`'
}

/// The first index at or after `i` where a fence stands, if any.
pub open spec fn spec_find_fence(s: Seq<char>, i: int) -> Option<int>
    decreases s.len() - i,
    when 0 <= i <= s.len()
{
    if fence_at(s, i) {
        Some(i)
    } else if i < s.len() {
        spec_find_fence(s, i + 1)
    } else {
        None
    }
}

/// A character a language tag may hold: an ASCII letter, digit or
/// underscore.
pub open spec fn word_char(c: char) -> bool {
    (48 <= c as u32 && c as u32 <= 57) || (65 <= c as u32 && c as u32 <= 90) || (97 <= c as u32
        && c as u32 <= 122) || c == '_'
}

/// The first index at or after `i` that does not hold a word character.
pub open spec fn spec_scan_word(s: Seq<char>, i: int) -> int
    decreases s.len() - i,
    when 0 <= i <= s.len()
{
    if i < s.len() && word_char(s[i]) {
        spec_scan_word(s, i + 1)
    } else {
        i
    }
}

/// The first fenced code block of the text: after the opening fence comes an
/// optional language tag and an optional newline; the block's content runs
/// to the next fence, less one newline just before it; without both fences
/// there is no command.
pub open spec fn spec_extract(s: Seq<char>) -> Result<Seq<char>, OkError> {
    match spec_find_fence(s, 0) {
        None => Err(OkError::NoCommandFound),
        Some(q) => {
            let t = spec_scan_word(s, q + 3);
            let start = if t < s.len() && s[t] == '\n' {
                t + 1
            } else {
                t
            };
            match spec_find_fence(s, start) {
                None => Err(OkError::NoCommandFound),
                Some(p) => {
                    let end = if p > start && s[p - 1] == '\n' {
                        p - 1
                    } else {
                        p
                    };
                    Ok(s.subrange(start, end))
                },
            }
        },
    }
}

fn find_fence(s: &Vec<char>, i: usize) -> (r: Option<usize>)
    requires
        i <= s.len(),
    ensures
        match (r, spec_find_fence(s@, i as int)) {
            (Some(p), Some(gp)) => p as int == gp && i <= p && p + 3 <= s@.len(),
            (None, None) => true,
            _ => false,
        },
{
    let n = s.len();
    let mut j = i;
    while !(n - j >= 3 && s[j] == '`' && s[j + 1] == '`' && s[j + 2] == '`') && j < n
        invariant
            i <= j <= n,
            n == s@.len(),
            spec_find_fence(s@, i as int) == spec_find_fence(s@, j as int),
        decreases s@.len() - j,
    {
        j += 1;
    }
    if j < n {
        Some(j)
    } else {
        None
    }
}

fn char_is_word(c: char) -> (b: bool)
    ensures
        b == word_char(c),
{
    let n = c as u32;
    (48 <= n && n <= 57) || (65 <= n && n <= 90) || (97 <= n && n <= 122) || c == '_'
}

fn scan_word(s: &Vec<char>, i: usize) -> (r: usize)
    requires
        i <= s.len(),
    ensures
        r as int == spec_scan_word(s@, i as int),
        i <= r <= s@.len(),
{
    let n = s.len();
    let mut j = i;
    while j < n && char_is_word(s[j])
        invariant
            i <= j <= n,
            n == s@.len(),
            spec_scan_word(s@, i as int) == spec_scan_word(s@, j as int),
        decreases s@.len() - j,
    {
        j += 1;
    }
    j
}

/// Extracts the first fenced code block, exactly as [`spec_extract`]
/// prescribes; without one the operation fails with `NoCommandFound`.
pub fn extract_code_block(input: &str) -> (r: Result<String, OkError>)
    ensures
        str_result_matches(r, spec_extract(input@)),
{
    let s = to_chars(input);
    let n = s.len();
    let q = match find_fence(&s, 0) {
        None => {
            return Err(OkError::NoCommandFound);
        },
        Some(q) => q,
    };
    let t = scan_word(&s, q + 3);
    let start = if t < n && s[t] == '\n' {
        t + 1
    } else {
        t
    };
    let p = match find_fence(&s, start) {
        None => {
            return Err(OkError::NoCommandFound);
        },
        Some(p) => p,
    };
    let end = if p > start && s[p - 1] == '\n' {
        p - 1
    } else {
        p
    };
    let mut out: Vec<char> = Vec::new();
    let mut k = start;
    while k < end
        invariant
            start <= k <= end,
            end <= s@.len(),
            out@ =~= s@.subrange(start as int, k as int),
        decreases end - k,
    {
        out.push(s[k]);
        proof {
            assert(out@ =~= s@.subrange(start as int, k as int + 1));
        }
        k += 1;
    }
    proof {
        assert(out@ =~= s@.subrange(start as int, end as int));
    }
    Ok(chars_to_string(&out))
}

} // verus!
