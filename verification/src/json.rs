//! The members of a JSON object, as they are written.

use crate::text::chars_of;
use vstd::prelude::*;

verus! {

/// Where the string ends that the place `i` lies in: behind its closing quote, or
/// at the end of the text.
pub open spec fn string_end(s: Seq<char>, i: int) -> int
    decreases s.len() + 2 - i,
{
    if i >= s.len() {
        s.len() as int
    } else if s[i] == '"' {
        i + 1
    } else if s[i] == '\\' {
        string_end(s, i + 2)
    } else {
        string_end(s, i + 1)
    }
}

/// The value of a hexadecimal digit, or sixteen for any other character.
pub open spec fn hex_value(c: char) -> int {
    if '0' <= c <= '9' {
        c as int - '0' as int
    } else if 'a' <= c <= 'f' {
        c as int - 'a' as int + 10
    } else if 'A' <= c <= 'F' {
        c as int - 'A' as int + 10
    } else {
        16
    }
}

/// How many characters at place `i` of a string stand for `c`, a character below
/// 128 that needs no escape: one for itself, six for its number behind `\u`, or
/// none.
pub open spec fn spelled(s: Seq<char>, i: int, c: char) -> int {
    if i < s.len() && s[i] == c {
        1
    } else if i + 6 <= s.len() && s[i] == '\\' && s[i + 1] == 'u' && s[i + 2] == '0' && s[i + 3]
        == '0' && hex_value(s[i + 4]) < 8 && hex_value(s[i + 5]) < 16 && hex_value(s[i + 4]) * 16
        + hex_value(s[i + 5]) == c as int {
        6
    } else {
        0
    }
}

/// What stands at place `i` of a string up to its closing quote is the word from
/// its letter `k` on.
pub open spec fn spells(s: Seq<char>, i: int, word: Seq<char>, k: int) -> bool
    decreases word.len() - k,
{
    if k >= word.len() {
        i < s.len() && s[i] == '"'
    } else {
        spelled(s, i, word[k]) > 0 && spells(s, i + spelled(s, i, word[k]), word, k + 1)
    }
}

/// How often the members of an object have the name, from place `i` of its text
/// on. The place lies inside so many brackets, and outside strings; a string next
/// to it is the name of a member of the object or not.
pub open spec fn named(s: Seq<char>, i: int, depth: int, key: bool, word: Seq<char>) -> nat
    decreases s.len() - i,
{
    if i >= s.len() {
        0
    } else if s[i] == '"' {
        proof {
            lemma_string_end(s, i + 1);
        }
        (if depth == 1 && key && spells(s, i + 1, word, 0) {
            1nat
        } else {
            0nat
        }) + named(s, string_end(s, i + 1), depth, key, word)
    } else if s[i] == '{' || s[i] == '[' {
        named(s, i + 1, depth + 1, depth == 0, word)
    } else if s[i] == '}' || s[i] == ']' {
        named(s, i + 1, depth - 1, key, word)
    } else if s[i] == ',' {
        named(s, i + 1, depth, depth == 1, word)
    } else if s[i] == ':' {
        named(s, i + 1, depth, false, word)
    } else {
        named(s, i + 1, depth, key, word)
    }
}

/// The text of an object has more than one member of the name.
pub open spec fn repeated(s: Seq<char>, word: Seq<char>) -> bool {
    named(s, 0, 0, false, word) > 1
}

/// The end of a string lies behind its start, and within the text where the start
/// does.
pub proof fn lemma_string_end(s: Seq<char>, i: int)
    ensures
        i <= s.len() ==> i <= string_end(s, i) <= s.len(),
        i > s.len() ==> string_end(s, i) == s.len(),
    decreases s.len() + 2 - i,
{
    if i < s.len() && s[i] != '"' {
        if s[i] == '\\' {
            lemma_string_end(s, i + 2);
        } else {
            lemma_string_end(s, i + 1);
        }
    }
}

fn end_of_string(s: &Vec<char>, from: usize) -> (r: usize)
    requires
        from <= s@.len(),
    ensures
        r == string_end(s@, from as int),
        from <= r <= s@.len(),
{
    let n: usize = s.len();
    let mut i: usize = from;
    while i < n
        invariant
            from <= i <= n == s@.len(),
            string_end(s@, i as int) == string_end(s@, from as int),
        decreases n - i,
    {
        let c: char = s[i];
        if c == '"' {
            return i + 1;
        }
        if c == '\\' {
            if i + 1 >= n {
                proof {
                    assert(string_end(s@, i + 2) == n);
                }
                return n;
            }
            i = i + 2;
        } else {
            i = i + 1;
        }
    }
    n
}

fn digit_value(c: char) -> (r: u32)
    ensures
        r == hex_value(c),
{
    if '0' <= c && c <= '9' {
        c as u32 - '0' as u32
    } else if 'a' <= c && c <= 'f' {
        c as u32 - 'a' as u32 + 10
    } else if 'A' <= c && c <= 'F' {
        c as u32 - 'A' as u32 + 10
    } else {
        16
    }
}

fn spelled_at(s: &Vec<char>, i: usize, c: char) -> (r: usize)
    requires
        i <= s@.len(),
    ensures
        r == spelled(s@, i as int, c),
        i + r <= s@.len(),
{
    let n: usize = s.len();
    if i < n && s[i] == c {
        return 1;
    }
    if n - i >= 6 && s[i] == '\\' && s[i + 1] == 'u' && s[i + 2] == '0' && s[i + 3] == '0' {
        let high: u32 = digit_value(s[i + 4]);
        let low: u32 = digit_value(s[i + 5]);
        if high < 8 && low < 16 && high * 16 + low == c as u32 {
            return 6;
        }
    }
    0
}

fn spells_at(s: &Vec<char>, from: usize, word: &Vec<char>) -> (r: bool)
    requires
        from <= s@.len(),
    ensures
        r == spells(s@, from as int, word@, 0),
{
    let len: usize = s.len();
    let mut i: usize = from;
    let mut k: usize = 0;
    while k < word.len()
        invariant
            i <= len == s@.len(),
            k <= word@.len(),
            spells(s@, i as int, word@, k as int) == spells(s@, from as int, word@, 0),
        decreases word@.len() - k,
    {
        let n: usize = spelled_at(s, i, word[k]);
        if n == 0 {
            return false;
        }
        i = i + n;
        k = k + 1;
    }
    i < len && s[i] == '"'
}

/// Whether the text of an object has more than one member of the name.
pub fn repeats(text: &str, name: &str) -> (r: bool)
    ensures
        r == repeated(text@, name@),
{
    let s: Vec<char> = chars_of(text);
    let word: Vec<char> = chars_of(name);
    let n: usize = s.len();
    let mut i: usize = 0;
    let mut depth: i128 = 0;
    let mut key: bool = false;
    let mut found: usize = 0;
    while i < n
        invariant
            i <= n == s@.len(),
            -(i as int) <= depth <= i,
            found <= i,
            found + named(s@, i as int, depth as int, key, word@) == named(
                s@,
                0,
                0,
                false,
                word@,
            ),
        decreases n - i,
    {
        let c: char = s[i];
        if c == '"' {
            let end: usize = end_of_string(&s, i + 1);
            if depth == 1 && key && spells_at(&s, i + 1, &word) {
                found = found + 1;
            }
            i = end;
        } else {
            if c == '{' || c == '[' {
                key = depth == 0;
                depth = depth + 1;
            } else if c == '}' || c == ']' {
                depth = depth - 1;
            } else if c == ',' {
                key = depth == 1;
            } else if c == ':' {
                key = false;
            }
            i = i + 1;
        }
    }
    found > 1
}

} // verus!
