//! Splits one logical command line into argument tokens.
//!
//! The scanner walks the input character by character, tracking whether it
//! stands inside a single- or double-quoted span. A logical command may span
//! several physical lines: when a quote is still open at the end of the
//! buffered input, the command is incomplete and the caller feeds the next
//! physical line into the same accumulator.

use vstd::prelude::*;

verus! {

/// Whether the scanner stands inside a quoted span, and of which kind.
#[derive(Clone, Copy, PartialEq, Eq, Structural, Debug)]
pub enum QuoteState {
    Unquoted,
    InSingleQuote,
    InDoubleQuote,
}

/// Mathematical model of the accumulator built while scanning one logical
/// command: the tokens completed so far, the partial token under
/// construction, the quote state, and whether the command is complete.
#[verifier::ext_equal]
pub ghost struct ScanState {
    pub tokens: Seq<Seq<char>>,
    pub partial: Seq<char>,
    pub quote: QuoteState,
    pub completed: bool,
}

impl ScanState {
    /// The accumulator before any input has been scanned.
    pub open spec fn initial() -> ScanState {
        ScanState {
            tokens: Seq::empty(),
            partial: Seq::empty(),
            quote: QuoteState::Unquoted,
            completed: false,
        }
    }
}

/// The partial token is flushed onto the completed list (even when empty)
/// and a fresh one is started.
pub open spec fn flush_partial(st: ScanState) -> ScanState {
    ScanState {
        tokens: st.tokens.push(st.partial),
        partial: Seq::empty(),
        quote: st.quote,
        completed: st.completed,
    }
}

/// The character is appended to the partial token as literal content.
pub open spec fn append_char(st: ScanState, c: char) -> ScanState {
    ScanState {
        tokens: st.tokens,
        partial: st.partial.push(c),
        quote: st.quote,
        completed: st.completed,
    }
}

/// How one character changes the quote state alone: a quote character toggles
/// its own span, is literal inside the other span, and everything else leaves
/// the state as it is.
pub open spec fn quote_step(q: QuoteState, c: char) -> QuoteState {
    match q {
        QuoteState::Unquoted => if c == '\'' {
            QuoteState::InSingleQuote
        } else if c == '"' {
            QuoteState::InDoubleQuote
        } else {
            QuoteState::Unquoted
        },
        QuoteState::InSingleQuote => if c == '\'' {
            QuoteState::Unquoted
        } else {
            QuoteState::InSingleQuote
        },
        QuoteState::InDoubleQuote => if c == '"' {
            QuoteState::Unquoted
        } else {
            QuoteState::InDoubleQuote
        },
    }
}

/// How one character changes the whole accumulator. `next` is the character
/// that follows in the same physical chunk of input, or `None` at its end:
/// a closing quote flushes the partial token only when a space follows, and
/// a newline is dropped only when it is the last buffered character.
pub open spec fn scan_step(st: ScanState, c: char, next: Option<char>) -> ScanState {
    if c == '\'' {
        match st.quote {
            QuoteState::InSingleQuote => {
                let closed = ScanState {
                    tokens: st.tokens,
                    partial: st.partial,
                    quote: QuoteState::Unquoted,
                    completed: st.completed,
                };
                if next == Some(' ') {
                    flush_partial(closed)
                } else {
                    closed
                }
            },
            QuoteState::Unquoted => ScanState {
                tokens: st.tokens,
                partial: st.partial,
                quote: QuoteState::InSingleQuote,
                completed: st.completed,
            },
            QuoteState::InDoubleQuote => append_char(st, c),
        }
    } else if c == '"' {
        match st.quote {
            QuoteState::InDoubleQuote => {
                let closed = ScanState {
                    tokens: st.tokens,
                    partial: st.partial,
                    quote: QuoteState::Unquoted,
                    completed: st.completed,
                };
                if next == Some(' ') {
                    flush_partial(closed)
                } else {
                    closed
                }
            },
            QuoteState::Unquoted => ScanState {
                tokens: st.tokens,
                partial: st.partial,
                quote: QuoteState::InDoubleQuote,
                completed: st.completed,
            },
            QuoteState::InSingleQuote => append_char(st, c),
        }
    } else if c == ' ' {
        if st.quote == QuoteState::Unquoted {
            flush_partial(st)
        } else {
            append_char(st, c)
        }
    } else if c == '\n' {
        if st.quote == QuoteState::Unquoted {
            if next is Some {
                append_char(st, c)
            } else {
                st
            }
        } else {
            append_char(st, c)
        }
    } else {
        append_char(st, c)
    }
}

/// The accumulator after scanning `s` from position `i` onward.
pub open spec fn scan_from(st: ScanState, s: Seq<char>, i: int) -> ScanState
    decreases s.len() - i,
{
    if i < 0 || i >= s.len() {
        st
    } else {
        let next = if i + 1 < s.len() {
            Some(s[i + 1])
        } else {
            None::<char>
        };
        scan_from(scan_step(st, s[i], next), s, i + 1)
    }
}

/// The quote state after scanning `s` from position `i` onward.
pub open spec fn quote_from(q: QuoteState, s: Seq<char>, i: int) -> QuoteState
    decreases s.len() - i,
{
    if i < 0 || i >= s.len() {
        q
    } else {
        quote_from(quote_step(q, s[i]), s, i + 1)
    }
}

/// A line whose quotes are balanced: scanning it leaves the scanner outside
/// any quoted span.
pub open spec fn balanced(s: Seq<char>) -> bool {
    quote_from(QuoteState::Unquoted, s, 0) == QuoteState::Unquoted
}

/// What happens once the buffered input is exhausted: outside any quote the
/// command is complete and a non-empty partial token is flushed; inside a
/// quote the accumulator is left as it is, awaiting a continuation line.
pub open spec fn finish_chunk(st: ScanState) -> ScanState {
    if st.quote == QuoteState::Unquoted {
        ScanState {
            tokens: if st.partial.len() > 0 {
                st.tokens.push(st.partial)
            } else {
                st.tokens
            },
            partial: st.partial,
            quote: st.quote,
            completed: true,
        }
    } else {
        st
    }
}

/// One call of the scanner on one physical chunk of input.
pub open spec fn feed(st: ScanState, s: Seq<char>) -> ScanState {
    finish_chunk(scan_from(st, s, 0))
}

/// The completed tokens with the zero-length ones dropped.
pub open spec fn keep_nonempty(tokens: Seq<Seq<char>>) -> Seq<Seq<char>>
    decreases tokens.len(),
{
    if tokens.len() == 0 {
        Seq::empty()
    } else {
        let rest = keep_nonempty(tokens.drop_last());
        if tokens.last().len() > 0 {
            rest.push(tokens.last())
        } else {
            rest
        }
    }
}

/// The argument tokens of one balanced logical line: the tokens the scanner
/// completes on it, with zero-length tokens filtered out.
pub open spec fn tokenize(s: Seq<char>) -> Seq<Seq<char>> {
    keep_nonempty(feed(ScanState::initial(), s).tokens)
}

/// The accumulator built while one logical command is tokenized. It lives
/// until the completion flag is set; a command left incomplete by an
/// unterminated quote is resumed by feeding the next physical line into it.
pub struct ParseResult {
    pub result: Vec<String>,
    pub completed: bool,
    pub build_string: String,
    pub build_type: QuoteState,
}

impl View for ParseResult {
    type V = ScanState;

    open spec fn view(&self) -> ScanState {
        ScanState {
            tokens: self.result.deep_view(),
            partial: self.build_string@,
            quote: self.build_type,
            completed: self.completed,
        }
    }
}

impl ParseResult {
    /// A fresh accumulator, ready for the first physical line.
    pub fn new() -> (r: ParseResult)
        ensures
            r@ == ScanState::initial(),
    {
        let r = ParseResult {
            result: Vec::new(),
            completed: false,
            build_string: String::new(),
            build_type: QuoteState::Unquoted,
        };
        proof {
            assert(r@ =~= ScanState::initial());
        }
        r
    }
}

/// Relies on String::push: appends exactly the one given character.
#[verifier::external_body]
pub(crate) fn push_char(s: &mut String, c: char)
    ensures
        final(s)@ == old(s)@.push(c),
{
    s.push(c)
}

/// Scans one physical chunk of input into the accumulator: every character
/// is classified against the current quote state, and when the chunk ends
/// outside any quote the command is marked complete.
pub fn parse_string_into_vec(string: &String, parse_result: &mut ParseResult)
    ensures
        final(parse_result)@ == feed(old(parse_result)@, string@),
{
    let ghost st0 = parse_result@;
    let text = string.as_str();
    let n = text.unicode_len();
    let mut i: usize = 0;
    while i < n
        invariant
            i <= n,
            n == string@.len(),
            text@ == string@,
            scan_from(parse_result@, string@, i as int) == scan_from(st0, string@, 0),
        decreases n - i,
    {
        let c = text.get_char(i);
        let has_next = i + 1 < n;
        let ghost pre = parse_result@;
        let ghost next_spec = if i + 1 < string@.len() {
            Some(string@[i as int + 1])
        } else {
            None::<char>
        };
        if c == '\'' {
            if parse_result.build_type == QuoteState::InSingleQuote {
                parse_result.build_type = QuoteState::Unquoted;
                if has_next && text.get_char(i + 1) == ' ' {
                    let token = parse_result.build_string.clone();
                    parse_result.result.push(token);
                    parse_result.build_string = String::new();
                }
            } else if parse_result.build_type == QuoteState::Unquoted {
                parse_result.build_type = QuoteState::InSingleQuote;
            } else {
                push_char(&mut parse_result.build_string, c);
            }
        } else if c == '"' {
            if parse_result.build_type == QuoteState::InDoubleQuote {
                parse_result.build_type = QuoteState::Unquoted;
                if has_next && text.get_char(i + 1) == ' ' {
                    let token = parse_result.build_string.clone();
                    parse_result.result.push(token);
                    parse_result.build_string = String::new();
                }
            } else if parse_result.build_type == QuoteState::Unquoted {
                parse_result.build_type = QuoteState::InDoubleQuote;
            } else {
                push_char(&mut parse_result.build_string, c);
            }
        } else if c == ' ' {
            if parse_result.build_type == QuoteState::Unquoted {
                let token = parse_result.build_string.clone();
                parse_result.result.push(token);
                parse_result.build_string = String::new();
            } else {
                push_char(&mut parse_result.build_string, c);
            }
        } else if c == '\n' {
            if parse_result.build_type == QuoteState::Unquoted {
                if has_next {
                    push_char(&mut parse_result.build_string, c);
                }
            } else {
                push_char(&mut parse_result.build_string, c);
            }
        } else {
            push_char(&mut parse_result.build_string, c);
        }
        proof {
            assert(parse_result@ =~= scan_step(pre, string@[i as int], next_spec));
        }
        i = i + 1;
    }
    if parse_result.build_type == QuoteState::Unquoted {
        parse_result.completed = true;
        if !parse_result.build_string.as_str().is_empty() {
            let token = parse_result.build_string.clone();
            parse_result.result.push(token);
        }
    }
    proof {
        assert(parse_result@ =~= finish_chunk(scan_from(st0, string@, 0)));
    }
}

/// Keeps exactly the non-empty tokens, in order.
pub fn filter_nonempty(tokens: Vec<String>) -> (kept: Vec<String>)
    ensures
        kept.deep_view() == keep_nonempty(tokens.deep_view()),
{
    let mut kept: Vec<String> = Vec::new();
    let n = tokens.len();
    let mut i: usize = 0;
    proof {
        assert(kept.deep_view() =~= keep_nonempty(tokens.deep_view().take(0)));
    }
    while i < n
        invariant
            i <= n,
            n == tokens.len(),
            kept.deep_view() == keep_nonempty(tokens.deep_view().take(i as int)),
        decreases n - i,
    {
        if !tokens[i].as_str().is_empty() {
            let token = tokens[i].clone();
            kept.push(token);
        }
        proof {
            let dv = tokens.deep_view();
            assert(dv.take(i as int + 1).drop_last() =~= dv.take(i as int));
            assert(dv.take(i as int + 1).last() == dv[i as int]);
            assert(kept.deep_view() =~= keep_nonempty(dv.take(i as int + 1)));
        }
        i = i + 1;
    }
    proof {
        assert(tokens.deep_view().take(n as int) =~= tokens.deep_view());
    }
    kept
}

/// Tokenizes one balanced logical line in a single pass: the line's argument
/// strings, quote delimiters removed and zero-length tokens dropped.
pub fn parse_args(args: &String) -> (argv: Vec<String>)
    requires
        balanced(args@),
    ensures
        argv.deep_view() == tokenize(args@),
        feed(ScanState::initial(), args@).completed,
{
    proof {
        lemma_single_pass(args@);
    }
    if args.as_str().unicode_len() == 0 {
        let argv: Vec<String> = Vec::new();
        proof {
            assert(argv.deep_view() =~= tokenize(args@));
        }
        return argv;
    }
    let mut pr = ParseResult::new();
    parse_string_into_vec(args, &mut pr);
    filter_nonempty(pr.result)
}

proof fn lemma_scan_from_quote(st: ScanState, s: Seq<char>, i: int)
    ensures
        scan_from(st, s, i).quote == quote_from(st.quote, s, i),
        scan_from(st, s, i).completed == st.completed,
    decreases s.len() - i,
{
    if 0 <= i < s.len() {
        let next = if i + 1 < s.len() {
            Some(s[i + 1])
        } else {
            None::<char>
        };
        lemma_scan_from_quote(scan_step(st, s[i], next), s, i + 1);
    }
}

/// A logical line with balanced quotes is consumed in a single pass: the
/// scanner marks the command complete exactly when no quote is left open,
/// so a continuation line is requested exactly for an unterminated quote.
pub proof fn lemma_single_pass(s: Seq<char>)
    ensures
        feed(ScanState::initial(), s).completed <==> balanced(s),
{
    lemma_scan_from_quote(ScanState::initial(), s, 0);
}

proof fn lemma_scan_from_extends(st: ScanState, s: Seq<char>, i: int)
    ensures
        scan_from(st, s, i).tokens.len() >= st.tokens.len(),
        forall|k: int|
            0 <= k < st.tokens.len() ==> scan_from(st, s, i).tokens[k] == st.tokens[k],
    decreases s.len() - i,
{
    if 0 <= i < s.len() {
        let next = if i + 1 < s.len() {
            Some(s[i + 1])
        } else {
            None::<char>
        };
        let st1 = scan_step(st, s[i], next);
        lemma_scan_from_extends(st1, s, i + 1);
        assert(st1.tokens.len() >= st.tokens.len());
        assert(forall|k: int| 0 <= k < st.tokens.len() ==> st1.tokens[k] == st.tokens[k]);
        assert(forall|k: int|
            0 <= k < st.tokens.len() ==> scan_from(st, s, i).tokens[k] == st1.tokens[k]);
    }
}

/// Tokens completed before a continuation line arrives are never reset:
/// feeding more input onto the same accumulator only appends to them.
pub proof fn lemma_feed_preserves_tokens(st: ScanState, s: Seq<char>)
    ensures
        feed(st, s).tokens.len() >= st.tokens.len(),
        forall|k: int| 0 <= k < st.tokens.len() ==> feed(st, s).tokens[k] == st.tokens[k],
{
    lemma_scan_from_extends(st, s, 0);
}

} // verus!
