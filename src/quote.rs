use vstd::prelude::*;

verus! {

/// Which quote character, if any, is open at a point of the input.
#[derive(Clone, Copy, Debug, PartialEq, Eq, Structural)]
pub enum QuoteState {
    Unquoted,
    InSingle,
    InDouble,
}

pub open spec fn is_quote(c: char) -> bool {
    c == '\'' || c == '"'
}

/// The state that an unescaped quote character opens.
pub open spec fn opened_by(c: char) -> QuoteState {
    if c == '"' {
        QuoteState::InDouble
    } else {
        QuoteState::InSingle
    }
}

/// An unescaped `c` opens or closes a quote in state `st`; the other kind of
/// quote inside an open one is inert.
pub open spec fn toggles(st: QuoteState, c: char) -> bool {
    is_quote(c) && (st == QuoteState::Unquoted || st == opened_by(c))
}

/// The state after an unescaped character `c`.
pub open spec fn step(st: QuoteState, c: char) -> QuoteState {
    if toggles(st, c) {
        if st == QuoteState::Unquoted {
            opened_by(c)
        } else {
            QuoteState::Unquoted
        }
    } else {
        st
    }
}

/// `s` ends with a backslash that is not itself escaped, so the character
/// that follows `s` is escaped.
pub open spec fn pending_escape(s: Seq<char>) -> bool
    decreases s.len(),
{
    if s.len() == 0 {
        false
    } else {
        s.last() == '\\' && !pending_escape(s.drop_last())
    }
}

/// The quote state after scanning `s` from state `init`.
pub open spec fn scan_from(s: Seq<char>, init: QuoteState) -> QuoteState
    decreases s.len(),
{
    if s.len() == 0 {
        init
    } else {
        let prev = s.drop_last();
        if pending_escape(prev) {
            scan_from(prev, init)
        } else {
            step(scan_from(prev, init), s.last())
        }
    }
}

pub(crate) fn step_exec(st: QuoteState, c: char) -> (r: QuoteState)
    ensures
        r == step(st, c),
{
    if c == '"' {
        match st {
            QuoteState::Unquoted => QuoteState::InDouble,
            QuoteState::InDouble => QuoteState::Unquoted,
            QuoteState::InSingle => QuoteState::InSingle,
        }
    } else if c == '\'' {
        match st {
            QuoteState::Unquoted => QuoteState::InSingle,
            QuoteState::InSingle => QuoteState::Unquoted,
            QuoteState::InDouble => QuoteState::InDouble,
        }
    } else {
        st
    }
}

/// Scans `fragment` from `initial`: the final quote state, and whether the
/// fragment ends with an unescaped backslash.
pub(crate) fn scan_fragment(fragment: &str, initial: QuoteState) -> (r: (QuoteState, bool))
    ensures
        r.0 == scan_from(fragment@, initial),
        r.1 == pending_escape(fragment@),
{
    let mut state = initial;
    let mut escaped = false;
    for c in it: fragment.chars()
        invariant
            it.seq() == fragment@,
            0 <= it.index() <= fragment@.len(),
            state == scan_from(fragment@.take(it.index() as int), initial),
            escaped == pending_escape(fragment@.take(it.index() as int)),
    {
        let ghost i = it.index() as int;
        assert(fragment@.take(i + 1).drop_last() == fragment@.take(i));
        if escaped {
            escaped = false;
        } else if c == '\\' {
            escaped = true;
        } else {
            state = step_exec(state, c);
        }
    }
    assert(fragment@.take(fragment@.len() as int) == fragment@);
    (state, escaped)
}

/// The character that stands for `st`: the open quote, or a space when none is open.
pub open spec fn quote_char(st: QuoteState) -> char {
    match st {
        QuoteState::Unquoted => ' ',
        QuoteState::InSingle => '\'',
        QuoteState::InDouble => '"',
    }
}

/// The state that a character stands for, if any (see `quote_char`).
pub open spec fn state_of_char(c: char) -> Option<QuoteState> {
    if c == ' ' {
        Some(QuoteState::Unquoted)
    } else if c == '\'' {
        Some(QuoteState::InSingle)
    } else if c == '"' {
        Some(QuoteState::InDouble)
    } else {
        None
    }
}

/// The quote state after scanning `fragment`, starting from `initial`.
pub fn scan(fragment: &str, initial: QuoteState) -> (r: QuoteState)
    ensures
        r == scan_from(fragment@, initial),
{
    scan_fragment(fragment, initial).0
}

/// The quote left open at the end of `input`, as a character (a space when
/// every quote is closed).
pub fn which_quotes(input: &str) -> (r: char)
    ensures
        r == quote_char(scan_from(input@, QuoteState::Unquoted)),
{
    match scan(input, QuoteState::Unquoted) {
        QuoteState::Unquoted => ' ',
        QuoteState::InSingle => '\'',
        QuoteState::InDouble => '"',
    }
}

/// Whether `input`, read with the quote `qt` already open (a space for none),
/// leaves every quote closed. A `qt` that stands for no state is never closed.
pub fn normal(input: &str, qt: char) -> (r: bool)
    ensures
        r == match state_of_char(qt) {
            Some(st) => scan_from(input@, st) == QuoteState::Unquoted,
            None => false,
        },
{
    let initial = if qt == ' ' {
        QuoteState::Unquoted
    } else if qt == '\'' {
        QuoteState::InSingle
    } else if qt == '"' {
        QuoteState::InDouble
    } else {
        return false;
    };
    match scan(input, initial) {
        QuoteState::Unquoted => true,
        _ => false,
    }
}

/// Scanning `a` then `b` is scanning `b` from where `a` left off, when `a`
/// leaves no escape pending.
pub proof fn lemma_scan_concat(a: Seq<char>, b: Seq<char>, init: QuoteState)
    requires
        !pending_escape(a),
    ensures
        scan_from(a + b, init) == scan_from(b, scan_from(a, init)),
        pending_escape(a + b) == pending_escape(b),
    decreases b.len(),
{
    if b.len() == 0 {
        assert(a + b =~= a);
    } else {
        lemma_scan_concat(a, b.drop_last(), init);
        assert((a + b).drop_last() =~= a + b.drop_last());
        assert((a + b).last() == b.last());
    }
}

/// A newline changes no quote state and leaves no escape pending.
pub proof fn lemma_scan_newline(a: Seq<char>, init: QuoteState)
    ensures
        scan_from(a.push('\n'), init) == scan_from(a, init),
        !pending_escape(a.push('\n')),
{
    assert(a.push('\n').drop_last() =~= a);
}

} // verus!
