//! Splitting one line of text into argument tokens, shell style: spaces
//! separate tokens except inside double quotes, and the quotes themselves
//! are dropped.

use vstd::prelude::*;
use crate::text::texts;

verus! {

/// What the scanner remembers between two characters.
pub struct ScanState {
    /// The tokens completed so far.
    pub tokens: Seq<Seq<char>>,
    /// The characters gathered for the token under way.
    pub current: Seq<char>,
    /// Whether an opening quote is waiting for its partner.
    pub in_quotes: bool,
}

/// The scanner before the first character.
pub open spec fn scan_start() -> ScanState {
    ScanState { tokens: Seq::empty(), current: Seq::empty(), in_quotes: false }
}

/// The scanner after one more character.
pub open spec fn scan_step(st: ScanState, ch: char) -> ScanState {
    if ch == '"' {
        ScanState { in_quotes: !st.in_quotes, ..st }
    } else if ch == ' ' && !st.in_quotes {
        if st.current.len() > 0 {
            ScanState { tokens: st.tokens.push(st.current), current: Seq::empty(), ..st }
        } else {
            st
        }
    } else {
        ScanState { current: st.current.push(ch), ..st }
    }
}

/// The scanner after the characters of `s`, read left to right from `st`.
pub open spec fn scan_from(st: ScanState, s: Seq<char>) -> ScanState
    decreases s.len(),
{
    if s.len() == 0 {
        st
    } else {
        scan_step(scan_from(st, s.drop_last()), s.last())
    }
}

/// The tokens a scanner holds once its input has ended: the completed ones,
/// then the one under way unless it is empty.
pub open spec fn finish(st: ScanState) -> Seq<Seq<char>> {
    if st.current.len() > 0 {
        st.tokens.push(st.current)
    } else {
        st.tokens
    }
}

/// The tokens of a line.
pub open spec fn tokenize(line: Seq<char>) -> Seq<Seq<char>> {
    finish(scan_from(scan_start(), line))
}

/// Splits `input` into its tokens.
pub fn parse_command_with_quotes(input: &str) -> (parts: Vec<String>)
    ensures
        texts(parts@) == tokenize(input@),
{
    let mut parts: Vec<String> = Vec::new();
    let mut current_part = String::new();
    let mut in_quotes = false;
    let ghost mut seen: Seq<char> = Seq::empty();
    assert(texts(parts@) =~= Seq::empty());
    for ch in it: input.chars()
        invariant
            seen == input@.take(it.index()),
            it.seq() == input@,
            scan_from(scan_start(), seen) == (ScanState {
                tokens: texts(parts@),
                current: current_part@,
                in_quotes,
            }),
    {
        proof {
            let next = input@.take(it.index() + 1);
            assert(next.drop_last() == seen);
            seen = next;
        }
        if ch == '"' {
            in_quotes = !in_quotes;
        } else if ch == ' ' && !in_quotes {
            if !current_part.as_str().is_empty() {
                let ghost before = texts(parts@);
                parts.push(current_part);
                current_part = String::new();
                assert(texts(parts@) == before.push(parts@.last()@));
            }
        } else {
            current_part.push(ch);
        }
    }
    assert(seen == input@);
    if !current_part.as_str().is_empty() {
        parts.push(current_part);
    }
    parts
}

/// Whether `token` can come out of the tokenizer: it is not empty and
/// holds no double quote.
pub open spec fn is_token(token: Seq<char>) -> bool {
    token.len() > 0 && !token.contains('"')
}

/// A token as it is written into a line: between double quotes where it
/// holds a space, as it is otherwise.
pub open spec fn quoted(token: Seq<char>) -> Seq<char> {
    if token.contains(' ') {
        seq!['"'] + token + seq!['"']
    } else {
        token
    }
}

/// The line that holds `tokens`, each written as `quoted` says, with one
/// space between two of them.
pub open spec fn joined(tokens: Seq<Seq<char>>) -> Seq<char>
    decreases tokens.len(),
{
    if tokens.len() == 0 {
        Seq::empty()
    } else if tokens.len() == 1 {
        quoted(tokens[0])
    } else {
        joined(tokens.drop_last()) + seq![' '] + quoted(tokens.last())
    }
}

/// Reading two pieces of text one after the other is reading them as one.
pub proof fn lemma_scan_concat(st: ScanState, a: Seq<char>, b: Seq<char>)
    ensures
        scan_from(st, a + b) == scan_from(scan_from(st, a), b),
    decreases b.len(),
{
    if b.len() > 0 {
        lemma_scan_concat(st, a, b.drop_last());
        assert((a + b).drop_last() =~= a + b.drop_last());
    }
}

/// Text without a double quote that is read inside quotes, or that holds
/// no space either, goes to the token under way as it is.
pub proof fn lemma_scan_gathers(st: ScanState, text: Seq<char>)
    requires
        !text.contains('"'),
        st.in_quotes || !text.contains(' '),
    ensures
        scan_from(st, text) == (ScanState { current: st.current + text, ..st }),
    decreases text.len(),
{
    if text.len() > 0 {
        let init = text.drop_last();
        assert forall|c: char| init.contains(c) implies text.contains(c) by {
            let i = choose|i: int| 0 <= i < init.len() && init[i] == c;
            assert(text[i] == c);
        }
        lemma_scan_gathers(st, init);
        assert(st.current + text =~= (st.current + init).push(text.last()));
    }
}

/// A token that is written into a line and read back outside quotes goes
/// to the token under way as it is, and leaves the scanner outside quotes.
pub proof fn lemma_scan_quoted(st: ScanState, token: Seq<char>)
    requires
        !st.in_quotes,
        !token.contains('"'),
    ensures
        scan_from(st, quoted(token)) == (ScanState { current: st.current + token, ..st }),
{
    if token.contains(' ') {
        let open = seq!['"'];
        let inside = ScanState { in_quotes: true, ..st };
        assert(scan_from(st, open) == inside) by {
            assert(scan_from(st, open.drop_last()) == st);
        }
        lemma_scan_concat(st, open, token);
        lemma_scan_gathers(inside, token);
        lemma_scan_concat(st, open + token, open);
        let gathered = ScanState { current: st.current + token, ..inside };
        assert(scan_from(gathered, open) == (ScanState { in_quotes: false, ..gathered })) by {
            assert(scan_from(gathered, open.drop_last()) == gathered);
        }
    } else {
        lemma_scan_gathers(st, token);
    }
}

/// Reading a line that was written from tokens leaves the last of them
/// under way and the others completed.
pub proof fn lemma_scan_joined(tokens: Seq<Seq<char>>)
    requires
        tokens.len() > 0,
        forall|i: int| 0 <= i < tokens.len() ==> is_token(#[trigger] tokens[i]),
    ensures
        scan_from(scan_start(), joined(tokens)) == (ScanState {
            tokens: tokens.drop_last(),
            current: tokens.last(),
            in_quotes: false,
        }),
    decreases tokens.len(),
{
    if tokens.len() == 1 {
        lemma_scan_quoted(scan_start(), tokens[0]);
        assert(tokens.drop_last() =~= Seq::<Seq<char>>::empty());
    } else {
        let init = tokens.drop_last();
        let space = seq![' '];
        lemma_scan_joined(init);
        let before = ScanState { tokens: init.drop_last(), current: init.last(), in_quotes: false };
        let between = ScanState { tokens: init, current: Seq::empty(), in_quotes: false };
        lemma_scan_concat(scan_start(), joined(init), space);
        assert(scan_from(before, space) == between) by {
            assert(scan_from(before, space.drop_last()) == before);
            assert(init.drop_last().push(init.last()) =~= init);
        }
        lemma_scan_concat(scan_start(), joined(init) + space, quoted(tokens.last()));
        lemma_scan_quoted(between, tokens.last());
    }
}

/// Tokens that are written into a line come back from it: the tokenizer
/// undoes `joined` on every list of tokens.
pub proof fn lemma_tokenize_joined(tokens: Seq<Seq<char>>)
    requires
        forall|i: int| 0 <= i < tokens.len() ==> is_token(#[trigger] tokens[i]),
    ensures
        tokenize(joined(tokens)) == tokens,
{
    if tokens.len() > 0 {
        lemma_scan_joined(tokens);
    }
}

/// Whatever a scanner holds after reading from the start can come out of
/// the tokenizer: the completed tokens are tokens, and the one under way
/// holds no double quote.
pub proof fn lemma_scan_holds_tokens(line: Seq<char>)
    ensures
        forall|i: int|
            0 <= i < scan_from(scan_start(), line).tokens.len() ==> is_token(
                #[trigger] scan_from(scan_start(), line).tokens[i],
            ),
        !scan_from(scan_start(), line).current.contains('"'),
    decreases line.len(),
{
    if line.len() > 0 {
        lemma_scan_holds_tokens(line.drop_last());
        let before = scan_from(scan_start(), line.drop_last());
        let after = scan_from(scan_start(), line);
        if after.current.contains('"') {
            let i = choose|i: int| 0 <= i < after.current.len() && after.current[i] == '"';
            assert(before.current.contains('"')) by {
                assert(before.current[i] == '"');
            }
        }
    }
}

/// Every token of a line is not empty and holds no double quote.
pub proof fn lemma_tokens_are_tokens(line: Seq<char>)
    ensures
        forall|i: int| 0 <= i < tokenize(line).len() ==> is_token(#[trigger] tokenize(line)[i]),
{
    lemma_scan_holds_tokens(line);
}

/// Tokenizing is idempotent: the tokens of a line, written into a line
/// again with single spaces between them and quotes around those that
/// hold a space, are the tokens of that line.
pub proof fn lemma_tokenize_idempotent(line: Seq<char>)
    ensures
        tokenize(joined(tokenize(line))) == tokenize(line),
{
    lemma_tokens_are_tokens(line);
    lemma_tokenize_joined(tokenize(line));
}

} // verus!
