//! The tokens that the tokenizer produces: literal words, and redirection
//! markers carrying a direction and an append/overwrite mode.

use vstd::prelude::*;

use crate::textops::push_char;
use vstd::string::StringExecFns;

verus! {

/// Which stream a redirection token routes to a file.
#[derive(Debug, PartialEq, Eq, Structural, Copy, Clone)]
pub enum RedirectFrom {
    Stdout,
    Stderr,
}

/// Whether a redirection target file is truncated or appended to.
#[derive(Debug, PartialEq, Eq, Structural, Copy, Clone)]
pub enum WriteType {
    Append,
    Overwrite,
}

/// One token of an input line.  A literal accumulates quote-resolved text
/// across a whole run; a redirection marker carries its direction and mode,
/// fixed at creation, and never carries text.
#[derive(Debug)]
pub enum Token {
    Literal(String),
    Redirect(RedirectFrom, WriteType),
}

/// The mathematical shape of a token: its text as a sequence of characters.
pub enum TokenView {
    Literal(Seq<char>),
    Redirect(RedirectFrom, WriteType),
}

impl View for Token {
    type V = TokenView;

    open spec fn view(&self) -> TokenView {
        match self {
            Token::Literal(s) => TokenView::Literal(s@),
            Token::Redirect(d, m) => TokenView::Redirect(*d, *m),
        }
    }
}

impl DeepView for Token {
    type V = TokenView;

    open spec fn deep_view(&self) -> TokenView {
        self.view()
    }
}

/// The operator spelling of a redirection, as it stands in an input line.
pub open spec fn spec_redirect_str(d: RedirectFrom, m: WriteType) -> Seq<char> {
    match (d, m) {
        (RedirectFrom::Stdout, WriteType::Overwrite) => "1>"@,
        (RedirectFrom::Stdout, WriteType::Append) => "1>>"@,
        (RedirectFrom::Stderr, WriteType::Overwrite) => "2>"@,
        (RedirectFrom::Stderr, WriteType::Append) => "2>>"@,
    }
}

impl Token {
    /// A fresh, still empty literal.
    pub fn new() -> (t: Token)
        ensures
            t@ == TokenView::Literal(Seq::<char>::empty()),
    {
        Token::Literal(String::new())
    }

    /// Appends one character to a literal.  Only literals grow text.
    pub fn push(&mut self, c: char)
        requires
            old(self)@ matches TokenView::Literal(_),
        ensures
            final(self)@ == TokenView::Literal(old(self)@->Literal_0.push(c)),
    {
        match self {
            Token::Literal(s) => push_char(s, c),
            Token::Redirect(_, _) => {},
        }
    }

    /// Appends a run of text to a literal.  Only literals grow text.
    pub fn append_token(&mut self, other: &str)
        requires
            old(self)@ matches TokenView::Literal(_),
        ensures
            final(self)@ == TokenView::Literal(old(self)@->Literal_0 + other@),
    {
        match self {
            Token::Literal(s) => s.append(other),
            Token::Redirect(_, _) => {},
        }
    }

    /// Whether this is a literal with no text yet.  A redirection marker is
    /// never counted as empty.
    pub fn is_empty(&self) -> (r: bool)
        ensures
            r == (self@ matches TokenView::Literal(s) && s.len() == 0),
    {
        match self {
            Token::Literal(s) => s.as_str().is_empty(),
            Token::Redirect(_, _) => false,
        }
    }

    /// The token's text: the accumulated word of a literal, or the operator
    /// spelling of a redirection marker.
    pub fn as_str(&self) -> (r: &str)
        ensures
            match self@ {
                TokenView::Literal(s) => r@ == s,
                TokenView::Redirect(d, m) => r@ == spec_redirect_str(d, m),
            },
    {
        match self {
            Token::Literal(s) => s.as_str(),
            Token::Redirect(RedirectFrom::Stdout, WriteType::Overwrite) => "1>",
            Token::Redirect(RedirectFrom::Stdout, WriteType::Append) => "1>>",
            Token::Redirect(RedirectFrom::Stderr, WriteType::Overwrite) => "2>",
            Token::Redirect(RedirectFrom::Stderr, WriteType::Append) => "2>>",
        }
    }
}

} // verus!
