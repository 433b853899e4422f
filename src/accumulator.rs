use vstd::prelude::*;

use crate::quote::{
    lemma_scan_concat, lemma_scan_newline, pending_escape, scan_fragment, scan_from, QuoteState,
};
use crate::unescape::{skip_quotes, unescaped};

verus! {

/// What a logical command still waits for.
#[derive(Clone, Copy, Debug, PartialEq, Eq, Structural)]
pub enum Continuation {
    /// The last line ended with an unescaped backslash.
    Backslash,
    /// A quote is open; the state says which.
    Quote(QuoteState),
    /// Nothing: the buffer is ready to be unescaped.
    Complete,
}

/// What the first fragment asks for: a trailing unescaped backslash outside
/// quotes asks for a continued line, an open quote for its closing line.
pub open spec fn start_mode(first: Seq<char>) -> Continuation {
    let st = scan_from(first, QuoteState::Unquoted);
    if st != QuoteState::Unquoted {
        Continuation::Quote(st)
    } else if pending_escape(first) {
        Continuation::Backslash
    } else {
        Continuation::Complete
    }
}

/// The buffer for the first fragment: a continuation backslash is dropped.
pub open spec fn start_text(first: Seq<char>) -> Seq<char> {
    if start_mode(first) == Continuation::Backslash {
        first.drop_last()
    } else {
        first
    }
}

/// The buffer after one more line has been read in `mode`.
pub open spec fn next_text(text: Seq<char>, mode: Continuation, line: Seq<char>) -> Seq<char> {
    match mode {
        Continuation::Backslash => if pending_escape(line) {
            text + line.drop_last()
        } else {
            text + line
        },
        Continuation::Quote(_) => text.push('\n') + line,
        Continuation::Complete => text,
    }
}

/// What is waited for after one more line has been read in `mode`.
pub open spec fn next_mode(mode: Continuation, line: Seq<char>) -> Continuation {
    match mode {
        Continuation::Backslash => if pending_escape(line) {
            Continuation::Backslash
        } else {
            Continuation::Complete
        },
        Continuation::Quote(st) => {
            let n = scan_from(line, st);
            if n == QuoteState::Unquoted {
                Continuation::Complete
            } else {
                Continuation::Quote(n)
            }
        },
        Continuation::Complete => Continuation::Complete,
    }
}

/// Collects the lines of one logical command until its quotes are balanced
/// and no continuation backslash is pending.
pub struct LineAccumulator {
    buffer: String,
    mode: Continuation,
}

impl LineAccumulator {
    /// The raw text accumulated so far.
    pub closed spec fn text(&self) -> Seq<char> {
        self.buffer@
    }

    /// What the command still waits for.
    pub closed spec fn mode(&self) -> Continuation {
        self.mode
    }

    /// In quote mode the recorded state is that of the whole buffer, and open.
    pub closed spec fn wf(&self) -> bool {
        match self.mode {
            Continuation::Quote(st) => st != QuoteState::Unquoted && st == scan_from(
                self.buffer@,
                QuoteState::Unquoted,
            ),
            _ => true,
        }
    }

    /// Begins a logical command with its first fragment.
    pub fn new(first: &str) -> (r: Self)
        ensures
            r.wf(),
            r.text() == start_text(first@),
            r.mode() == start_mode(first@),
    {
        let (st, escaped) = scan_fragment(first, QuoteState::Unquoted);
        match st {
            QuoteState::Unquoted => {
                if escaped {
                    let n = first.unicode_len();
                    let kept = first.substring_char(0, n - 1);
                    assert(kept@ =~= first@.drop_last());
                    LineAccumulator { buffer: kept.to_string(), mode: Continuation::Backslash }
                } else {
                    LineAccumulator { buffer: first.to_string(), mode: Continuation::Complete }
                }
            },
            _ => LineAccumulator { buffer: first.to_string(), mode: Continuation::Quote(st) },
        }
    }

    /// Whether the command waits for nothing more.
    pub fn is_complete(&self) -> (r: bool)
        ensures
            r == (self.mode() == Continuation::Complete),
    {
        match self.mode {
            Continuation::Complete => true,
            _ => false,
        }
    }

    /// Takes one more line (without its line terminator). A complete command
    /// is left as it is.
    pub fn push_line(&mut self, line: &str)
        requires
            old(self).wf(),
        ensures
            final(self).wf(),
            final(self).text() == next_text(old(self).text(), old(self).mode(), line@),
            final(self).mode() == next_mode(old(self).mode(), line@),
    {
        match self.mode {
            Continuation::Backslash => {
                let (_, escaped) = scan_fragment(line, QuoteState::Unquoted);
                if escaped {
                    let n = line.unicode_len();
                    let kept = line.substring_char(0, n - 1);
                    assert(kept@ =~= line@.drop_last());
                    self.buffer.append(kept);
                } else {
                    self.buffer.append(line);
                    self.mode = Continuation::Complete;
                }
            },
            Continuation::Quote(st) => {
                let ghost before = self.buffer@;
                let newline = "\n";
                proof {
                    reveal_strlit("\n");
                }
                assert(newline@ =~= seq!['\n']);
                self.buffer.append(newline);
                assert(self.buffer@ =~= before.push('\n'));
                self.buffer.append(line);
                let (next, _) = scan_fragment(line, st);
                proof {
                    lemma_scan_newline(before, QuoteState::Unquoted);
                    lemma_scan_concat(before.push('\n'), line@, QuoteState::Unquoted);
                }
                match next {
                    QuoteState::Unquoted => {
                        self.mode = Continuation::Complete;
                    },
                    _ => {
                        self.mode = Continuation::Quote(next);
                    },
                }
            },
            Continuation::Complete => {},
        }
    }

    /// Ends the command, complete or cut short by the end of input, and
    /// unescapes everything accumulated. It consumes the accumulator, so the
    /// buffer is unescaped exactly once.
    pub fn finish(self) -> (r: String)
        ensures
            r@ == unescaped(self.text()),
    {
        skip_quotes(self.buffer.as_str())
    }
}

/// A first fragment whose quotes are balanced and which ends with no
/// unescaped backslash is complete at once: no further line is read, and the
/// buffer is the fragment itself.
pub proof fn lemma_balanced_first_line_complete(first: Seq<char>)
    requires
        scan_from(first, QuoteState::Unquoted) == QuoteState::Unquoted,
        !pending_escape(first),
    ensures
        start_mode(first) == Continuation::Complete,
        start_text(first) == first,
{
}

/// A command that was completed by closing its quote holds a buffer whose
/// quotes are all balanced.
pub proof fn lemma_quote_completion_balanced(acc: LineAccumulator, line: Seq<char>)
    requires
        acc.wf(),
        acc.mode() is Quote,
        next_mode(acc.mode(), line) == Continuation::Complete,
    ensures
        scan_from(next_text(acc.text(), acc.mode(), line), QuoteState::Unquoted)
            == QuoteState::Unquoted,
{
    let t = acc.text();
    lemma_scan_newline(t, QuoteState::Unquoted);
    lemma_scan_concat(t.push('\n'), line, QuoteState::Unquoted);
}

} // verus!
