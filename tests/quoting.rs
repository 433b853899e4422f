use shell::accumulator::LineAccumulator;
use shell::command::split_command;
use shell::quote::{normal, scan, which_quotes, QuoteState};
use shell::unescape::skip_quotes;

#[test]
fn balanced_line_needs_no_continuation() {
    let (cmd, rest) = split_command("echo \"hello world\"");
    assert_eq!(cmd, "echo");
    let acc = LineAccumulator::new(&rest);
    assert!(acc.is_complete());
    assert_eq!(acc.finish(), "hello world");
}

#[test]
fn open_double_quote_continues_with_newline() {
    let (_, rest) = split_command("echo \"hello");
    let mut acc = LineAccumulator::new(&rest);
    let mut prompts = 0;
    for line in ["world\""] {
        assert!(!acc.is_complete());
        prompts += 1;
        acc.push_line(line);
    }
    assert!(acc.is_complete());
    assert_eq!(prompts, 1);
    assert_eq!(acc.finish(), "hello\nworld");
}

#[test]
fn trailing_backslash_joins_without_separator() {
    let (_, rest) = split_command("echo hello\\");
    let mut acc = LineAccumulator::new(&rest);
    assert!(!acc.is_complete());
    acc.push_line("world");
    assert!(acc.is_complete());
    assert_eq!(acc.finish(), "helloworld");
}

#[test]
fn escaped_quotes_are_literal() {
    let (_, rest) = split_command("echo \\\"quoted\\\"");
    assert_eq!(rest, "\\\"quoted\\\"");
    let acc = LineAccumulator::new(&rest);
    assert!(acc.is_complete());
    assert_eq!(acc.finish(), "\"quoted\"");
}

#[test]
fn finish_unescapes_exactly_once() {
    let acc = LineAccumulator::new("\\\"quoted\\\"");
    let once = acc.finish();
    assert_eq!(once, "\"quoted\"");
    // a second pass would read the literal quotes as delimiters
    assert_eq!(skip_quotes(&once), "quoted");
    assert_ne!(skip_quotes(&once), once);
}

#[test]
fn empty_fragment_is_complete_at_once() {
    let (cmd, rest) = split_command("echo");
    assert_eq!(cmd, "echo");
    assert_eq!(rest, "");
    let acc = LineAccumulator::new(&rest);
    assert!(acc.is_complete());
    assert_eq!(acc.finish(), "");
}

#[test]
fn plain_text_is_unchanged() {
    assert_eq!(skip_quotes("hello world 123 -_=+"), "hello world 123 -_=+");
    assert_eq!(skip_quotes(""), "");
    assert_eq!(skip_quotes("ünïcödé ok"), "ünïcödé ok");
}

#[test]
fn balanced_first_line_is_complete() {
    for s in ["a 'b' \"c\"", "\"it's\"", "x\\\\", "'a\"b'", "\\'"] {
        assert_eq!(scan(s, QuoteState::Unquoted), QuoteState::Unquoted);
        assert!(LineAccumulator::new(s).is_complete(), "{}", s);
    }
}

#[test]
fn scan_tracks_open_quotes() {
    assert_eq!(scan("'abc", QuoteState::Unquoted), QuoteState::InSingle);
    assert_eq!(scan("\"abc", QuoteState::Unquoted), QuoteState::InDouble);
    assert_eq!(scan("a'b", QuoteState::InDouble), QuoteState::InDouble);
    assert_eq!(scan("a\"b", QuoteState::InDouble), QuoteState::Unquoted);
    assert_eq!(scan("\\\"", QuoteState::InDouble), QuoteState::InDouble);
    assert_eq!(scan("\\\\\"", QuoteState::InDouble), QuoteState::Unquoted);
}

#[test]
fn which_quotes_names_the_open_quote() {
    assert_eq!(which_quotes("say 'hi"), '\'');
    assert_eq!(which_quotes("say \"hi"), '"');
    assert_eq!(which_quotes("say \"hi\""), ' ');
    assert_eq!(which_quotes("mid\"dle"), '"');
}

#[test]
fn normal_closes_from_a_given_quote() {
    assert!(normal("world\"", '"'));
    assert!(!normal("world'", '"'));
    assert!(normal("plain", ' '));
    assert!(!normal("'open", ' '));
    assert!(!normal("anything", 'x'));
}

#[test]
fn escaped_backslash_is_kept() {
    assert_eq!(skip_quotes("a\\\\b"), "a\\b");
    assert_eq!(skip_quotes("a\\nb"), "anb");
    assert_eq!(skip_quotes("'single \"inner\"'"), "single \"inner\"");
    assert_eq!(skip_quotes("\"it's\""), "it's");
}

#[test]
fn backslash_inside_quotes_is_no_continuation() {
    let mut acc = LineAccumulator::new("\"abc\\");
    assert!(!acc.is_complete());
    acc.push_line("def\"");
    assert!(acc.is_complete());
    assert_eq!(acc.finish(), "abc\ndef");
}

#[test]
fn escaped_quote_does_not_close() {
    let mut acc = LineAccumulator::new("\"a\\\"");
    assert!(!acc.is_complete());
    acc.push_line("b\\\"");
    assert!(!acc.is_complete());
    acc.push_line("c\"");
    assert!(acc.is_complete());
    assert_eq!(acc.finish(), "a\"\nb\"\nc");
}

#[test]
fn backslash_continuation_repeats() {
    let mut acc = LineAccumulator::new("a\\");
    acc.push_line("b\\");
    assert!(!acc.is_complete());
    acc.push_line("c");
    assert!(acc.is_complete());
    assert_eq!(acc.finish(), "abc");
}

#[test]
fn backslash_continuation_ignores_quotes() {
    let mut acc = LineAccumulator::new("a\\");
    acc.push_line("\"b");
    assert!(acc.is_complete());
    assert_eq!(acc.finish(), "ab");
}

#[test]
fn end_of_input_finishes_what_is_there() {
    let acc = LineAccumulator::new("'abc");
    assert!(!acc.is_complete());
    assert_eq!(acc.finish(), "abc");
    let acc = LineAccumulator::new("abc\\");
    assert_eq!(acc.finish(), "abc");
}

#[test]
fn complete_accumulator_ignores_more_lines() {
    let mut acc = LineAccumulator::new("done");
    acc.push_line("more");
    assert_eq!(acc.finish(), "done");
}

#[test]
fn split_command_skips_blanks() {
    let (cmd, rest) = split_command("  \techo   a  b ");
    assert_eq!(cmd, "echo");
    assert_eq!(rest, "a  b ");
    let (cmd, rest) = split_command("");
    assert_eq!(cmd, "");
    assert_eq!(rest, "");
}
