use vstd::prelude::*;

use crate::text::chars_of;

verus! {

/// A character that separates a command word from what follows it.
pub open spec fn is_blank(c: char) -> bool {
    c == ' ' || c == '\t'
}

/// The first position at or after `i` that holds no blank.
pub open spec fn skip_blanks(s: Seq<char>, i: int) -> int
    decreases s.len() - i,
{
    if 0 <= i < s.len() && is_blank(s[i]) {
        skip_blanks(s, i + 1)
    } else {
        i
    }
}

/// The first position at or after `i` that holds a blank.
pub open spec fn word_end(s: Seq<char>, i: int) -> int
    decreases s.len() - i,
{
    if 0 <= i < s.len() && !is_blank(s[i]) {
        word_end(s, i + 1)
    } else {
        i
    }
}

/// The first word of a line.
pub open spec fn command_word(s: Seq<char>) -> Seq<char> {
    let a = skip_blanks(s, 0);
    s.subrange(a, word_end(s, a))
}

/// What follows the first word of a line and the blanks after it.
pub open spec fn command_rest(s: Seq<char>) -> Seq<char> {
    s.subrange(skip_blanks(s, word_end(s, skip_blanks(s, 0))), s.len() as int)
}

proof fn lemma_skip_blanks_bounds(s: Seq<char>, i: int)
    requires
        0 <= i <= s.len(),
    ensures
        i <= skip_blanks(s, i) <= s.len(),
    decreases s.len() - i,
{
    if i < s.len() && is_blank(s[i]) {
        lemma_skip_blanks_bounds(s, i + 1);
    }
}

proof fn lemma_word_end_bounds(s: Seq<char>, i: int)
    requires
        0 <= i <= s.len(),
    ensures
        i <= word_end(s, i) <= s.len(),
    decreases s.len() - i,
{
    if i < s.len() && !is_blank(s[i]) {
        lemma_word_end_bounds(s, i + 1);
    }
}

fn skip_blanks_exec(v: &Vec<char>, start: usize) -> (r: usize)
    requires
        start <= v@.len(),
    ensures
        r as int == skip_blanks(v@, start as int),
{
    let mut i = start;
    while i < v.len() && (v[i] == ' ' || v[i] == '\t')
        invariant
            start <= i <= v@.len(),
            skip_blanks(v@, i as int) == skip_blanks(v@, start as int),
        decreases v@.len() - i,
    {
        i = i + 1;
    }
    i
}

fn word_end_exec(v: &Vec<char>, start: usize) -> (r: usize)
    requires
        start <= v@.len(),
    ensures
        r as int == word_end(v@, start as int),
{
    let mut i = start;
    while i < v.len() && !(v[i] == ' ' || v[i] == '\t')
        invariant
            start <= i <= v@.len(),
            word_end(v@, i as int) == word_end(v@, start as int),
        decreases v@.len() - i,
    {
        i = i + 1;
    }
    i
}

/// Splits a line into its command word and the text that follows it.
pub fn split_command(line: &str) -> (r: (String, String))
    ensures
        r.0@ == command_word(line@),
        r.1@ == command_rest(line@),
{
    let v = chars_of(line);
    let a = skip_blanks_exec(&v, 0);
    proof {
        lemma_skip_blanks_bounds(v@, 0);
    }
    let b = word_end_exec(&v, a);
    proof {
        lemma_word_end_bounds(v@, a as int);
    }
    let c = skip_blanks_exec(&v, b);
    proof {
        lemma_skip_blanks_bounds(v@, b as int);
    }
    let word = line.substring_char(a, b);
    let rest = line.substring_char(c, v.len());
    (word.to_string(), rest.to_string())
}

} // verus!
