//! Splits TL schema text into tokens.
use vstd::prelude::*;
use crate::text::{chars_of, push_char, views};

verus! {

/// What the tokenizer is in the middle of.
#[derive(Clone, Copy, PartialEq, Eq, Structural, Debug)]
pub enum State {
    STRING,
    SPECIAL,
    WHITESPACE,
}

/// A character that forms a token of its own; the schema compiler also
/// splits at braces.
pub open spec fn is_special(c: char, braces: bool) -> bool {
    c == '#' || c == '=' || c == ';' || c == '<' || c == '>' || c == ':' || (braces && (c == '{'
        || c == '}'))
}

/// The tokenizer's state: where it is, the token being built, the tokens so far.
pub struct TokState {
    pub state: State,
    pub buffer: Seq<char>,
    pub tokens: Seq<Seq<char>>,
}

/// One step over the character `c`, given the character after it.  A
/// character is kept unless whitespace precedes it; the next character
/// decides whether the token ends here.
pub open spec fn tok_step(st: TokState, c: char, next: Option<char>, braces: bool) -> TokState {
    let buf = if st.state != State::WHITESPACE {
        st.buffer.push(c)
    } else {
        st.buffer
    };
    if next matches Some(n) && is_special(n, braces) {
        if st.state != State::WHITESPACE {
            TokState { state: State::SPECIAL, buffer: Seq::empty(), tokens: st.tokens.push(buf) }
        } else {
            TokState { state: State::SPECIAL, buffer: buf, tokens: st.tokens }
        }
    } else if next matches Some(n) && (n == ' ' || n == '\n') {
        TokState { state: State::WHITESPACE, buffer: Seq::empty(), tokens: st.tokens.push(buf) }
    } else if st.state != State::STRING && st.state != State::WHITESPACE {
        TokState { state: State::STRING, buffer: Seq::empty(), tokens: st.tokens.push(buf) }
    } else {
        TokState { state: State::STRING, buffer: buf, tokens: st.tokens }
    }
}

/// The character after position `i`, if any.
pub open spec fn next_char(chars: Seq<char>, i: int) -> Option<char> {
    if i + 1 < chars.len() {
        Some(chars[i + 1])
    } else {
        None
    }
}

/// The tokenizer's state after its first `steps` steps.
pub open spec fn tok_run(chars: Seq<char>, steps: nat, braces: bool) -> TokState
    decreases steps,
{
    if steps == 0 {
        TokState { state: State::STRING, buffer: Seq::empty(), tokens: Seq::empty() }
    } else {
        let i = steps - 1;
        tok_step(tok_run(chars, (steps - 1) as nat, braces), chars[i], next_char(chars, i), braces)
    }
}

/// The tokens, with a last unfinished non-empty token added.
pub open spec fn tok_finish(st: TokState) -> Seq<Seq<char>> {
    if st.buffer.len() > 0 {
        st.tokens.push(st.buffer)
    } else {
        st.tokens
    }
}

/// The tokens of `chars`: the schema compiler steps over every character but
/// the last one.
pub open spec fn tokenize_spec(chars: Seq<char>) -> Seq<Seq<char>> {
    tok_finish(tok_run(chars, (chars.len() - 1) as nat, true))
}

/// Runs the tokenizer over the first `steps` characters.
pub fn tokenize_chars(chars: &Vec<char>, steps: usize, braces: bool) -> (r: Vec<String>)
    requires
        steps <= chars@.len(),
    ensures
        views(r@) == tok_finish(tok_run(chars@, steps as nat, braces)),
{
    let mut tokens: Vec<String> = Vec::new();
    let mut string_buffer = String::new();
    let mut state = State::STRING;
    let mut i: usize = 0;
    assert(views(tokens@) =~= Seq::<Seq<char>>::empty());
    while i < steps
        invariant
            steps <= chars@.len(),
            i <= steps,
            tok_run(chars@, i as nat, braces) == (TokState {
                state: state,
                buffer: string_buffer@,
                tokens: views(tokens@),
            }),
        decreases steps - i,
    {
        let ghost st = tok_run(chars@, i as nat, braces);
        let c = chars[i];
        if state != State::WHITESPACE {
            push_char(&mut string_buffer, c);
        }
        let next: Option<char> = if i + 1 < chars.len() {
            Some(chars[i + 1])
        } else {
            None
        };
        let special = match next {
            Some(n) => n == '#' || n == '=' || n == ';' || n == '<' || n == '>' || n == ':' || (
            braces && (n == '{' || n == '}')),
            None => false,
        };
        let blank = match next {
            Some(n) => n == ' ' || n == '\n',
            None => false,
        };
        if special {
            if state != State::WHITESPACE {
                let mut done = String::new();
                std::mem::swap(&mut done, &mut string_buffer);
                tokens.push(done);
            }
            state = State::SPECIAL;
        } else if blank {
            state = State::WHITESPACE;
            let mut done = String::new();
            std::mem::swap(&mut done, &mut string_buffer);
            tokens.push(done);
        } else {
            if state != State::STRING && state != State::WHITESPACE {
                let mut done = String::new();
                std::mem::swap(&mut done, &mut string_buffer);
                tokens.push(done);
            }
            state = State::STRING;
        }
        i = i + 1;
        assert(views(tokens@) =~= tok_run(chars@, i as nat, braces).tokens);
        assert(string_buffer@ =~= tok_run(chars@, i as nat, braces).buffer);
    }
    if string_buffer.unicode_len() > 0 {
        tokens.push(string_buffer);
    }
    assert(views(tokens@) =~= tok_finish(tok_run(chars@, steps as nat, braces)));
    tokens
}

/// Splits schema text into tokens: names, the special characters
/// `# = ; < > : { }` each on their own, with spaces and newlines between
/// tokens dropped.  The last character of the text is never read.
pub fn tokenize(source: String) -> (r: Vec<String>)
    requires
        source@.len() >= 1,
    ensures
        views(r@) == tokenize_spec(source@),
{
    let source_chars = chars_of(source.as_str());
    tokenize_chars(&source_chars, source_chars.len() - 1, true)
}


/// A space or a newline.
pub open spec fn is_blank(c: char) -> bool {
    c == ' ' || c == '\n'
}

/// No character of `t` is blank.
pub open spec fn blank_free(t: Seq<char>) -> bool {
    forall|j: int| 0 <= j < t.len() ==> !is_blank(#[trigger] t[j])
}

/// What holds after every step: the pieces are blank-free, and the
/// tokenizer skips the next character exactly when it is blank.
pub open spec fn run_good(chars: Seq<char>, steps: nat, st: TokState) -> bool {
    &&& blank_free(st.buffer)
    &&& forall|k: int| 0 <= k < st.tokens.len() ==> blank_free(#[trigger] st.tokens[k])
    &&& (steps == 0 ==> st.state == State::STRING)
    &&& (0 < steps < chars.len() ==> ((st.state == State::WHITESPACE) == is_blank(chars[steps as int])))
    &&& (steps >= chars.len() && steps > 0 ==> st.state != State::WHITESPACE)
}

/// The tokenizer keeps its pieces blank-free step by step.
proof fn lemma_run_good(chars: Seq<char>, steps: nat, braces: bool)
    requires
        steps <= chars.len(),
        chars.len() > 0 ==> !is_blank(chars[0]),
    ensures
        run_good(chars, steps, tok_run(chars, steps, braces)),
    decreases steps,
{
    if steps > 0 {
        let i = steps - 1;
        lemma_run_good(chars, (steps - 1) as nat, braces);
        let st = tok_run(chars, (steps - 1) as nat, braces);
        let c = chars[i];
        let buf = if st.state != State::WHITESPACE {
            st.buffer.push(c)
        } else {
            st.buffer
        };
        assert(st.state != State::WHITESPACE ==> !is_blank(c));
        assert(blank_free(buf)) by {
            assert forall|j: int| 0 <= j < buf.len() implies !is_blank(#[trigger] buf[j]) by {
                if j < st.buffer.len() {
                    assert(buf[j] == st.buffer[j]);
                }
            }
        }
        let st2 = tok_run(chars, steps, braces);
        assert forall|k: int| 0 <= k < st2.tokens.len() implies blank_free(#[trigger] st2.tokens[k]) by {
            if k < st.tokens.len() {
                assert(st2.tokens[k] == st.tokens[k]);
            } else {
                assert(st2.tokens[k] == buf);
            }
        }
    }
}

/// No token holds a space or a newline, when the text does not start with one.
pub proof fn law_tokens_blank_free(chars: Seq<char>, steps: nat, braces: bool)
    requires
        steps <= chars.len(),
        chars.len() > 0 ==> !is_blank(chars[0]),
    ensures
        forall|k: int|
            0 <= k < tok_finish(tok_run(chars, steps, braces)).len() ==> blank_free(
                #[trigger] tok_finish(tok_run(chars, steps, braces))[k],
            ),
{
    lemma_run_good(chars, steps, braces);
    let st = tok_run(chars, steps, braces);
    let out = tok_finish(st);
    assert forall|k: int| 0 <= k < out.len() implies blank_free(#[trigger] out[k]) by {
        if k < st.tokens.len() {
            assert(out[k] == st.tokens[k]);
        } else {
            assert(out[k] == st.buffer);
        }
    }
}

} // verus!
