//! The quoting state machine: classifies each input character against the
//! current quote context and decides whether it is literal data, a quote
//! delimiter, or an escape trigger, and which context follows it.

use vstd::prelude::*;

verus! {

/// The three characters that open a quoted or escaped region when they are
/// met outside of any quote.
#[derive(Debug, PartialEq, Eq, Structural, Copy, Clone)]
pub enum Quoting {
    Quote,
    DoubleQuote,
    Escape,
}

/// The classification of a character as a quote trigger, if it is one.
pub open spec fn spec_quote_class(c: char) -> Option<Quoting> {
    if c == '\'' {
        Some(Quoting::Quote)
    } else if c == '"' {
        Some(Quoting::DoubleQuote)
    } else if c == '\\' {
        Some(Quoting::Escape)
    } else {
        None
    }
}

impl Quoting {
    /// The character that triggers this kind of quoting.
    pub open spec fn trigger_char(self) -> char {
        match self {
            Quoting::Quote => '\'',
            Quoting::DoubleQuote => '"',
            Quoting::Escape => '\\',
        }
    }

    pub fn parse(c: char) -> (q: Option<Quoting>)
        ensures
            q == spec_quote_class(c),
    {
        match c {
            '\'' => Some(Quoting::Quote),
            '"' => Some(Quoting::DoubleQuote),
            '\\' => Some(Quoting::Escape),
            _ => None,
        }
    }

    pub fn as_str(&self) -> (r: &str)
        ensures
            r@ == seq![self.trigger_char()],
    {
        proof {
            reveal_strlit("\'");
            reveal_strlit("\"");
            reveal_strlit("\\");
        }
        let r = match self {
            Quoting::Quote => "\'",
            Quoting::DoubleQuote => "\"",
            Quoting::Escape => "\\",
        };
        proof {
            assert(r@ =~= seq![self.trigger_char()]);
        }
        r
    }
}

/// The quoting context at one position of the scan.  An escaped position
/// remembers the context it must return to: the escape that a backslash
/// starts inside double quotes ends back inside them.
#[derive(Debug, PartialEq, Eq, Structural, Copy, Clone)]
pub enum QuoteState {
    Unquoted,
    SingleQuoted,
    DoubleQuoted,
    EscapedUnquoted,
    EscapedDouble,
}

/// Whether the state machine consumes this character itself.  Every
/// character inside a quote or an escape is the machine's; outside of any
/// quote only the three trigger characters are, and the rest is left to the
/// tokenizer's syntax rules.
pub open spec fn quote_handles(qs: QuoteState, c: char) -> bool {
    match qs {
        QuoteState::Unquoted => spec_quote_class(c) is Some,
        _ => true,
    }
}

/// The context that follows the character.
pub open spec fn quote_next(qs: QuoteState, c: char) -> QuoteState
    recommends
        quote_handles(qs, c),
{
    match qs {
        QuoteState::Unquoted => match spec_quote_class(c) {
            Some(Quoting::Quote) => QuoteState::SingleQuoted,
            Some(Quoting::DoubleQuote) => QuoteState::DoubleQuoted,
            Some(Quoting::Escape) => QuoteState::EscapedUnquoted,
            None => QuoteState::Unquoted,
        },
        QuoteState::SingleQuoted => if c == '\'' {
            QuoteState::Unquoted
        } else {
            QuoteState::SingleQuoted
        },
        QuoteState::DoubleQuoted => if c == '"' {
            QuoteState::Unquoted
        } else if c == '\\' {
            QuoteState::EscapedDouble
        } else {
            QuoteState::DoubleQuoted
        },
        QuoteState::EscapedUnquoted => QuoteState::Unquoted,
        QuoteState::EscapedDouble => QuoteState::DoubleQuoted,
    }
}

/// What the character contributes to the literal under construction.
/// Quote delimiters and escape triggers contribute nothing; an escaped
/// character contributes itself, except that inside double quotes only
/// `$`, `\` and `"` shed their backslash and every other escaped character
/// keeps it.
pub open spec fn quote_emit(qs: QuoteState, c: char) -> Seq<char>
    recommends
        quote_handles(qs, c),
{
    match qs {
        QuoteState::Unquoted => Seq::empty(),
        QuoteState::SingleQuoted => if c == '\'' {
            Seq::empty()
        } else {
            seq![c]
        },
        QuoteState::DoubleQuoted => if c == '"' || c == '\\' {
            Seq::empty()
        } else {
            seq![c]
        },
        QuoteState::EscapedUnquoted => seq![c],
        QuoteState::EscapedDouble => if c == '$' || c == '\\' || c == '"' {
            seq![c]
        } else {
            seq!['\\', c]
        },
    }
}

/// One step of the state machine.  When the character belongs to the
/// machine, its contribution is appended to `buf` and the next context is
/// returned; otherwise nothing changes and the tokenizer must treat the
/// character as syntax.
pub fn quote_step(qs: QuoteState, c: char, buf: &mut Vec<char>) -> (next: Option<QuoteState>)
    ensures
        match next {
            Some(n) => quote_handles(qs, c) && n == quote_next(qs, c) && final(buf)@ == old(buf)@
                + quote_emit(qs, c),
            None => !quote_handles(qs, c) && final(buf)@ == old(buf)@,
        },
{
    let next = match qs {
        QuoteState::Unquoted => match Quoting::parse(c) {
            Some(Quoting::Quote) => Some(QuoteState::SingleQuoted),
            Some(Quoting::DoubleQuote) => Some(QuoteState::DoubleQuoted),
            Some(Quoting::Escape) => Some(QuoteState::EscapedUnquoted),
            None => None,
        },
        QuoteState::SingleQuoted => {
            if c == '\'' {
                Some(QuoteState::Unquoted)
            } else {
                buf.push(c);
                Some(QuoteState::SingleQuoted)
            }
        },
        QuoteState::DoubleQuoted => {
            if c == '"' {
                Some(QuoteState::Unquoted)
            } else if c == '\\' {
                Some(QuoteState::EscapedDouble)
            } else {
                buf.push(c);
                Some(QuoteState::DoubleQuoted)
            }
        },
        QuoteState::EscapedUnquoted => {
            buf.push(c);
            Some(QuoteState::Unquoted)
        },
        QuoteState::EscapedDouble => {
            if c == '$' || c == '\\' || c == '"' {
                buf.push(c);
            } else {
                buf.push('\\');
                buf.push(c);
            }
            Some(QuoteState::DoubleQuoted)
        },
    };
    proof {
        if quote_handles(qs, c) {
            assert(buf@ =~= old(buf)@ + quote_emit(qs, c));
        }
    }
    next
}

} // verus!
