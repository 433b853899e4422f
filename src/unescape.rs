use vstd::prelude::*;

use crate::text::push_char;
use crate::quote::{is_quote, pending_escape, scan_from, step, toggles, QuoteState};

verus! {

/// The text that `s` denotes: an unescaped backslash is dropped and makes the
/// next character literal; an unescaped quote that opens or closes a quote is
/// dropped; every other character is kept, in order.
pub open spec fn unescaped(s: Seq<char>) -> Seq<char>
    decreases s.len(),
{
    if s.len() == 0 {
        Seq::empty()
    } else {
        let prev = s.drop_last();
        let c = s.last();
        if pending_escape(prev) {
            unescaped(prev).push(c)
        } else if c == '\\' || toggles(scan_from(prev, QuoteState::Unquoted), c) {
            unescaped(prev)
        } else {
            unescaped(prev).push(c)
        }
    }
}

/// `s` holds neither a quote character nor a backslash.
pub open spec fn is_plain(s: Seq<char>) -> bool {
    forall|i: int| 0 <= i < s.len() ==> !is_quote(#[trigger] s[i]) && s[i] != '\\'
}

/// Removes quote delimiters and escape markers from a complete buffer.
pub fn skip_quotes(input: &str) -> (r: String)
    ensures
        r@ == unescaped(input@),
{
    let mut result = String::new();
    let mut state = QuoteState::Unquoted;
    let mut escaped = false;
    for c in it: input.chars()
        invariant
            it.seq() == input@,
            0 <= it.index() <= input@.len(),
            state == scan_from(input@.take(it.index() as int), QuoteState::Unquoted),
            escaped == pending_escape(input@.take(it.index() as int)),
            result@ == unescaped(input@.take(it.index() as int)),
    {
        let ghost i = it.index() as int;
        assert(input@.take(i + 1).drop_last() == input@.take(i));
        if escaped {
            escaped = false;
            push_char(&mut result, c);
        } else if c == '\\' {
            escaped = true;
        } else {
            let next = crate::quote::step_exec(state, c);
            let consumed = (c == '"' || c == '\'') && (state == QuoteState::Unquoted || next
                == QuoteState::Unquoted);
            assert(consumed == toggles(state, c));
            if !consumed {
                push_char(&mut result, c);
            }
            state = next;
        }
    }
    assert(input@.take(input@.len() as int) == input@);
    result
}

/// Text with no quote or backslash characters is its own unescaped form.
pub proof fn lemma_plain_unchanged(s: Seq<char>)
    requires
        is_plain(s),
    ensures
        unescaped(s) == s,
        scan_from(s, QuoteState::Unquoted) == QuoteState::Unquoted,
        !pending_escape(s),
    decreases s.len(),
{
    if s.len() > 0 {
        let prev = s.drop_last();
        assert(is_plain(prev));
        assert(!is_quote(s[s.len() - 1]) && s[s.len() - 1] != '\\');
        lemma_plain_unchanged(prev);
        assert(prev.push(s.last()) == s);
    }
}

} // verus!
