//! Classifying what the operator typed at the prompt.
use crate::text::{chars_of, text_of, trim, trimmed};
use vstd::prelude::*;

verus! {

/// What a line typed by the operator asks for.
#[derive(Debug)]
pub enum Input {
    /// End the session.
    Quit,
    /// Nothing: the line is blank.
    Blank,
    /// Start a turn with this request.
    Request { text: String },
}

/// An input with its text as a character sequence.
pub enum InputView {
    Quit,
    Blank,
    Request { text: Seq<char> },
}

impl View for Input {
    type V = InputView;

    open spec fn view(&self) -> InputView {
        match self {
            Input::Quit => InputView::Quit,
            Input::Blank => InputView::Blank,
            Input::Request { text } => InputView::Request { text: text@ },
        }
    }
}

/// What the line `line` asks for: `quit` and `exit` end the session, a blank
/// line asks nothing, and any other line, trimmed, is a request.
pub open spec fn classify(line: Seq<char>) -> InputView {
    let t = trim(line);
    if t == "quit"@ || t == "exit"@ {
        InputView::Quit
    } else if t.len() == 0 {
        InputView::Blank
    } else {
        InputView::Request { text: t }
    }
}

/// What the line `line` asks for.
pub fn classify_input(line: &str) -> (r: Input)
    ensures
        r@ == classify(line@),
{
    let cs = chars_of(line);
    let t = trimmed(&cs, false);
    let text = text_of(&t);
    let quit = "quit".to_owned();
    let exit = "exit".to_owned();
    if text == quit || text == exit {
        Input::Quit
    } else if t.len() == 0 {
        Input::Blank
    } else {
        Input::Request { text }
    }
}

} // verus!
