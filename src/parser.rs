//! Decoding a model reply into directives.
//!
//! The protocol uses two case-sensitive markers, `EXECUTE:` and `FINAL:`.
//! A reply holding both is malformed as a whole. A reply holding `FINAL:`
//! ends the turn with the text that follows it. A reply holding `EXECUTE:`
//! is read line by line, one command per line. A reply holding neither is
//! malformed.
use crate::text::{
    after_first, chars_of, contains, find, slice, text_of, trim, trim_with, trimmed,
};
use vstd::prelude::*;

verus! {

/// Why a reply, or one line of it, breaks the protocol.
#[derive(Clone, Copy, Debug, PartialEq, Eq, Structural)]
pub enum Malformation {
    /// The reply holds both markers.
    MixedMarkers,
    /// A non-blank line of a command reply holds no `EXECUTE:` marker.
    StrayLine,
    /// An `EXECUTE:` marker is followed by no command.
    EmptyCommand,
    /// The reply holds neither marker.
    NoMarker,
}

/// The text that explains a malformation.
pub open spec fn reason_text(m: Malformation) -> Seq<char> {
    match m {
        Malformation::MixedMarkers => "mixed FINAL and EXECUTE"@,
        Malformation::StrayLine => "line must start with EXECUTE"@,
        Malformation::EmptyCommand => "EXECUTE must be followed by a command"@,
        Malformation::NoMarker => "response contained neither EXECUTE nor FINAL"@,
    }
}

impl Malformation {
    /// The text that explains this malformation.
    pub fn reason(&self) -> (r: &'static str)
        ensures
            r@ == reason_text(*self),
    {
        match self {
            Malformation::MixedMarkers => "mixed FINAL and EXECUTE",
            Malformation::StrayLine => "line must start with EXECUTE",
            Malformation::EmptyCommand => "EXECUTE must be followed by a command",
            Malformation::NoMarker => "response contained neither EXECUTE nor FINAL",
        }
    }
}

/// One instruction decoded from a model reply.
#[derive(Clone, Debug)]
pub enum Directive {
    /// Run this shell command.
    Execute { command: String },
    /// The task is done; show this message.
    Final { message: String },
    /// The reply (or the line `raw` of it) breaks the protocol.
    Malformed { raw: String, reason: Malformation },
}

/// A directive with its texts as character sequences.
pub enum DirectiveView {
    Execute { command: Seq<char> },
    Final { message: Seq<char> },
    Malformed { raw: Seq<char>, reason: Malformation },
}

impl View for Directive {
    type V = DirectiveView;

    open spec fn view(&self) -> DirectiveView {
        match self {
            Directive::Execute { command } => DirectiveView::Execute { command: command@ },
            Directive::Final { message } => DirectiveView::Final { message: message@ },
            Directive::Malformed { raw, reason } => DirectiveView::Malformed {
                raw: raw@,
                reason: *reason,
            },
        }
    }
}

/// The views of a sequence of directives.
pub open spec fn views(ds: Seq<Directive>) -> Seq<DirectiveView> {
    ds.map_values(|d: Directive| d@)
}

/// The marker that introduces a command.
pub open spec fn execute_marker() -> Seq<char> {
    "EXECUTE:"@
}

/// The marker that introduces the final message.
pub open spec fn final_marker() -> Seq<char> {
    "FINAL:"@
}

/// The lines of `s`: the pieces between line breaks, in order. A text
/// without a line break is one line; a text ending in a line break has an
/// empty last line.
pub open spec fn lines(s: Seq<char>) -> Seq<Seq<char>>
    decreases s.len(),
{
    if s.len() == 0 {
        seq![Seq::empty()]
    } else {
        let init = lines(s.drop_last());
        if s.last() == '\n' {
            init.push(Seq::empty())
        } else {
            init.drop_last().push(init.last().push(s.last()))
        }
    }
}

/// What one line of a command reply yields: nothing when it is blank, a
/// command when it holds the marker and a command after it, else a
/// malformation.
pub open spec fn line_directive(line: Seq<char>) -> Seq<DirectiveView> {
    if trim(line).len() == 0 {
        Seq::empty()
    } else if contains(line, execute_marker()) {
        let command = trim_with(after_first(line, execute_marker()), true);
        if command.len() == 0 {
            seq![DirectiveView::Malformed { raw: trim(line), reason: Malformation::EmptyCommand }]
        } else {
            seq![DirectiveView::Execute { command }]
        }
    } else {
        seq![DirectiveView::Malformed { raw: trim(line), reason: Malformation::StrayLine }]
    }
}

/// What the lines `ls` yield, in order.
pub open spec fn directives_of_lines(ls: Seq<Seq<char>>) -> Seq<DirectiveView>
    decreases ls.len(),
{
    if ls.len() == 0 {
        Seq::empty()
    } else {
        directives_of_lines(ls.drop_last()) + line_directive(ls.last())
    }
}

/// The directives that a reply yields.
pub open spec fn parse_reply(reply: Seq<char>) -> Seq<DirectiveView> {
    let has_execute = contains(reply, execute_marker());
    let has_final = contains(reply, final_marker());
    if has_execute && has_final {
        seq![DirectiveView::Malformed { raw: reply, reason: Malformation::MixedMarkers }]
    } else if has_final {
        let message = trim(after_first(reply, final_marker()));
        if message.len() > 0 {
            seq![DirectiveView::Final { message }]
        } else {
            Seq::empty()
        }
    } else if has_execute {
        directives_of_lines(lines(reply))
    } else {
        seq![DirectiveView::Malformed { raw: reply, reason: Malformation::NoMarker }]
    }
}

proof fn lemma_lines_nonempty(s: Seq<char>)
    ensures
        lines(s).len() >= 1,
    decreases s.len(),
{
    if s.len() > 0 {
        lemma_lines_nonempty(s.drop_last());
    }
}

proof fn lemma_views_push(ds: Seq<Directive>, d: Directive)
    ensures
        views(ds.push(d)) == views(ds) + seq![d@],
{
    assert(views(ds.push(d)) =~= views(ds) + seq![d@]);
}

/// Appends to `out` what the line `line` yields.
fn push_line_directive(line: &Vec<char>, marker: &Vec<char>, out: &mut Vec<Directive>)
    requires
        marker@ == execute_marker(),
    ensures
        views(final(out)@) == views(old(out)@) + line_directive(line@),
{
    let bare = trimmed(line, false);
    if bare.len() == 0 {
        assert(views(out@) + line_directive(line@) =~= views(out@));
        return ;
    }
    let n = line.len();
    let d = match find(line, marker) {
        Some(k) => {
            let rest = slice(line, k + marker.len(), n);
            let command = trimmed(&rest, true);
            if command.len() == 0 {
                Directive::Malformed { raw: text_of(&bare), reason: Malformation::EmptyCommand }
            } else {
                Directive::Execute { command: text_of(&command) }
            }
        },
        None => Directive::Malformed { raw: text_of(&bare), reason: Malformation::StrayLine },
    };
    proof {
        lemma_views_push(out@, d);
    }
    out.push(d);
}

/// The directives that the reply `s` yields, as characters.
pub fn parse_chars(s: &Vec<char>) -> (r: Vec<Directive>)
    ensures
        views(r@) == parse_reply(s@),
{
    let execute = chars_of("EXECUTE:");
    let fin = chars_of("FINAL:");
    let at_execute = find(s, &execute);
    let at_final = find(s, &fin);
    let mut out: Vec<Directive> = Vec::new();
    match (at_execute, at_final) {
        (Some(_), Some(_)) => {
            let d = Directive::Malformed { raw: text_of(s), reason: Malformation::MixedMarkers };
            proof {
                lemma_views_push(out@, d);
            }
            out.push(d);
        },
        (None, Some(k)) => {
            let n = s.len();
            let rest = slice(s, k + fin.len(), n);
            let message = trimmed(&rest, false);
            if message.len() > 0 {
                let d = Directive::Final { message: text_of(&message) };
                proof {
                    lemma_views_push(out@, d);
                }
                out.push(d);
            }
        },
        (Some(_), None) => {
            let n = s.len();
            let mut cur: Vec<char> = Vec::new();
            let mut i: usize = 0;
            while i < n
                invariant
                    n == s@.len(),
                    i <= n,
                    execute@ == execute_marker(),
                    lines(s@.take(i as int)).len() >= 1,
                    views(out@) == directives_of_lines(lines(s@.take(i as int)).drop_last()),
                    cur@ == lines(s@.take(i as int)).last(),
                decreases n - i,
            {
                proof {
                    assert(s@.take(i + 1).drop_last() =~= s@.take(i as int));
                    lemma_lines_nonempty(s@.take(i + 1));
                }
                if s[i] == '\n' {
                    push_line_directive(&cur, &execute, &mut out);
                    cur = Vec::new();
                    proof {
                        let ls = lines(s@.take(i as int));
                        assert(lines(s@.take(i + 1)).drop_last() =~= ls);
                        assert(cur@ =~= lines(s@.take(i + 1)).last());
                    }
                } else {
                    cur.push(s[i]);
                    proof {
                        let ls = lines(s@.take(i as int));
                        assert(lines(s@.take(i + 1)).drop_last() =~= ls.drop_last());
                    }
                }
                i = i + 1;
            }
            assert(s@.take(n as int) =~= s@);
            push_line_directive(&cur, &execute, &mut out);
            proof {
                lemma_lines_nonempty(s@);
            }
        },
        (None, None) => {
            let d = Directive::Malformed { raw: text_of(s), reason: Malformation::NoMarker };
            proof {
                lemma_views_push(out@, d);
            }
            out.push(d);
        },
    }
    out
}

/// The directives that a model reply yields.
pub fn parse(reply: &str) -> (r: Vec<Directive>)
    ensures
        views(r@) == parse_reply(reply@),
{
    let s = chars_of(reply);
    parse_chars(&s)
}

} // verus!
