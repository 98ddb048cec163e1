//! The tokenizer: consumes an input line left to right through the quoting
//! state machine and produces the ordered sequence of tokens.
//!
//! A character the machine claims is appended to the literal under
//! construction.  Unquoted space or tab closes the literal; an unquoted `>`
//! run becomes a redirection marker, as does `1` or `2` standing at a token
//! boundary directly before a `>` run; everything else is ordinary text.
//! At the end of the input a pending literal is flushed, and a line ending
//! mid-quote or mid-escape keeps whatever was accumulated.

use vstd::prelude::*;

use crate::quoting::{quote_emit, quote_handles, quote_next, quote_step, QuoteState};
use crate::textops::chars_to_string;
use crate::token::{RedirectFrom, Token, TokenView, WriteType};

verus! {

/// The pending literal flushed onto the token list: a non-empty literal
/// becomes a token, an empty one leaves no trace.
pub open spec fn spec_flush(lit: Seq<char>, acc: Seq<TokenView>) -> Seq<TokenView> {
    if lit.len() > 0 {
        acc.push(TokenView::Literal(lit))
    } else {
        acc
    }
}

/// The tokens of the remaining input `s`, scanned in quoting context `qs`,
/// with `lit` the literal accumulated so far and `acc` the tokens already
/// produced.
pub open spec fn spec_tokenize_from(
    s: Seq<char>,
    qs: QuoteState,
    lit: Seq<char>,
    acc: Seq<TokenView>,
) -> Seq<TokenView>
    decreases s.len(),
{
    if s.len() == 0 {
        spec_flush(lit, acc)
    } else {
        let c = s[0];
        if quote_handles(qs, c) {
            spec_tokenize_from(s.skip(1), quote_next(qs, c), lit + quote_emit(qs, c), acc)
        } else if c == ' ' || c == '\t' {
            spec_tokenize_from(s.skip(1), qs, Seq::empty(), spec_flush(lit, acc))
        } else if c == '>' {
            if s.len() >= 2 && s[1] == '>' {
                spec_tokenize_from(
                    s.skip(2),
                    qs,
                    Seq::empty(),
                    spec_flush(lit, acc).push(
                        TokenView::Redirect(RedirectFrom::Stdout, WriteType::Append),
                    ),
                )
            } else {
                spec_tokenize_from(
                    s.skip(1),
                    qs,
                    Seq::empty(),
                    spec_flush(lit, acc).push(
                        TokenView::Redirect(RedirectFrom::Stdout, WriteType::Overwrite),
                    ),
                )
            }
        } else if (c == '1' || c == '2') && lit.len() == 0 && s.len() >= 2 && s[1] == '>' {
            let dir = if c == '1' {
                RedirectFrom::Stdout
            } else {
                RedirectFrom::Stderr
            };
            if s.len() >= 3 && s[2] == '>' {
                spec_tokenize_from(
                    s.skip(3),
                    qs,
                    Seq::empty(),
                    acc.push(TokenView::Redirect(dir, WriteType::Append)),
                )
            } else {
                spec_tokenize_from(
                    s.skip(2),
                    qs,
                    Seq::empty(),
                    acc.push(TokenView::Redirect(dir, WriteType::Overwrite)),
                )
            }
        } else {
            spec_tokenize_from(s.skip(1), qs, lit.push(c), acc)
        }
    }
}

/// The tokens of an input line.
pub open spec fn spec_tokenize(s: Seq<char>) -> Seq<TokenView> {
    spec_tokenize_from(s, QuoteState::Unquoted, Seq::empty(), Seq::empty())
}

/// Closes the literal under construction: a non-empty buffer becomes a
/// literal token and the buffer is cleared.
fn flush(buf: &mut Vec<char>, toks: &mut Vec<Token>)
    ensures
        final(buf)@ == Seq::<char>::empty(),
        final(toks).deep_view() == spec_flush(old(buf)@, old(toks).deep_view()),
{
    if buf.len() > 0 {
        let text = chars_to_string(buf);
        toks.push(Token::Literal(text));
        buf.clear();
        proof {
            assert(toks.deep_view() =~= spec_flush(old(buf)@, old(toks).deep_view()));
        }
    }
}

/// Scans the characters of an input line into its tokens.
pub fn tokenize(chars: &Vec<char>) -> (toks: Vec<Token>)
    ensures
        toks.deep_view() == spec_tokenize(chars@),
{
    let mut toks: Vec<Token> = Vec::new();
    let mut buf: Vec<char> = Vec::new();
    let mut qs = QuoteState::Unquoted;
    let mut i: usize = 0;
    proof {
        assert(chars@.skip(0) =~= chars@);
        assert(toks.deep_view() =~= Seq::<TokenView>::empty());
    }
    while i < chars.len()
        invariant
            i <= chars@.len(),
            spec_tokenize(chars@) == spec_tokenize_from(
                chars@.skip(i as int),
                qs,
                buf@,
                toks.deep_view(),
            ),
        decreases chars@.len() - i,
    {
        let ghost s = chars@.skip(i as int);
        let ghost qs0 = qs;
        let ghost buf0 = buf@;
        let ghost dv0 = toks.deep_view();
        let c = chars[i];
        proof {
            assert(s[0] == chars@[i as int]);
            assert(s.skip(1) =~= chars@.skip(i + 1 as int));
        }
        match quote_step(qs, c, &mut buf) {
            Some(n) => {
                qs = n;
                i += 1;
                proof {
                    assert(spec_tokenize_from(s, qs0, buf0, dv0) == spec_tokenize_from(
                        chars@.skip(i as int),
                        qs,
                        buf@,
                        toks.deep_view(),
                    ));
                }
            },
            None => {
                if c == ' ' || c == '\t' {
                    flush(&mut buf, &mut toks);
                    i += 1;
                    proof {
                        assert(spec_tokenize_from(s, qs0, buf0, dv0) == spec_tokenize_from(
                            chars@.skip(i as int),
                            qs,
                            buf@,
                            toks.deep_view(),
                        ));
                    }
                } else if c == '>' {
                    flush(&mut buf, &mut toks);
                    let ghost dv = toks.deep_view();
                    if i + 1 < chars.len() && chars[i + 1] == '>' {
                        proof {
                            assert(s[1] == chars@[i + 1 as int]);
                            assert(s.skip(2) =~= chars@.skip(i + 2 as int));
                        }
                        let t = Token::Redirect(RedirectFrom::Stdout, WriteType::Append);
                        toks.push(t);
                        proof {
                            assert(toks.deep_view() =~= dv.push(t@));
                        }
                        i += 2;
                    } else {
                        let t = Token::Redirect(RedirectFrom::Stdout, WriteType::Overwrite);
                        toks.push(t);
                        proof {
                            assert(toks.deep_view() =~= dv.push(t@));
                        }
                        i += 1;
                    }
                    proof {
                        assert(spec_tokenize_from(s, qs0, buf0, dv0) == spec_tokenize_from(
                            chars@.skip(i as int),
                            qs,
                            buf@,
                            toks.deep_view(),
                        ));
                    }
                } else if (c == '1' || c == '2') && buf.len() == 0 && i + 1 < chars.len() && chars[i
                    + 1] == '>' {
                    proof {
                        assert(s[1] == chars@[i + 1 as int]);
                        assert(buf@ =~= Seq::<char>::empty());
                    }
                    let ghost dv = toks.deep_view();
                    let dir = if c == '1' {
                        RedirectFrom::Stdout
                    } else {
                        RedirectFrom::Stderr
                    };
                    if i + 2 < chars.len() && chars[i + 2] == '>' {
                        proof {
                            assert(s[2] == chars@[i + 2 as int]);
                            assert(s.skip(3) =~= chars@.skip(i + 3 as int));
                        }
                        let t = Token::Redirect(dir, WriteType::Append);
                        toks.push(t);
                        proof {
                            assert(toks.deep_view() =~= dv.push(t@));
                        }
                        i += 3;
                    } else {
                        proof {
                            assert(s.skip(2) =~= chars@.skip(i + 2 as int));
                        }
                        let t = Token::Redirect(dir, WriteType::Overwrite);
                        toks.push(t);
                        proof {
                            assert(toks.deep_view() =~= dv.push(t@));
                        }
                        i += 2;
                    }
                    proof {
                        assert(spec_tokenize_from(s, qs0, buf0, dv0) == spec_tokenize_from(
                            chars@.skip(i as int),
                            qs,
                            buf@,
                            toks.deep_view(),
                        ));
                    }
                } else {
                    buf.push(c);
                    i += 1;
                    proof {
                        assert(spec_tokenize_from(s, qs0, buf0, dv0) == spec_tokenize_from(
                            chars@.skip(i as int),
                            qs,
                            buf@,
                            toks.deep_view(),
                        ));
                    }
                }
            },
        }
    }
    proof {
        assert(chars@.skip(chars@.len() as int) =~= Seq::<char>::empty());
    }
    flush(&mut buf, &mut toks);
    toks
}

} // verus!
