//! Laws of the tokenizer: re-joining the literal tokens of a line with
//! single spaces reconstructs a whitespace-normalized, quote-resolved word
//! sequence, and tokenizing that reconstruction is a no-op as long as no
//! resolved word carries a character with a syntactic role.

use vstd::prelude::*;

use crate::quoting::{quote_emit, quote_handles, quote_next, QuoteState};
use crate::textops::join_words;
use crate::token::{RedirectFrom, TokenView, WriteType};
use crate::tokenizer::{spec_flush, spec_tokenize, spec_tokenize_from};

verus! {

/// A character without any syntactic role for the tokenizer: not
/// whitespace, not a quote or escape trigger, and not a redirection
/// character.
pub open spec fn plain_char(c: char) -> bool {
    c != ' ' && c != '\t' && c != '\'' && c != '"' && c != '\\' && c != '>'
}

/// Text all of whose characters are plain.
pub open spec fn plain_chars(w: Seq<char>) -> bool {
    forall|i: int| 0 <= i < w.len() ==> plain_char(#[trigger] w[i])
}

/// A word that survives tokenization untouched: non-empty, plain text.
pub open spec fn plain_word(w: Seq<char>) -> bool {
    w.len() > 0 && plain_chars(w)
}

/// The texts of the literal tokens, in order, redirection markers ignored.
pub open spec fn literal_texts(toks: Seq<TokenView>) -> Seq<Seq<char>>
    decreases toks.len(),
{
    if toks.len() == 0 {
        Seq::empty()
    } else {
        match toks[0] {
            TokenView::Literal(w) => seq![w] + literal_texts(toks.skip(1)),
            TokenView::Redirect(_, _) => literal_texts(toks.skip(1)),
        }
    }
}

/// Whether every literal token of the sequence carries text.
pub open spec fn literals_nonempty(toks: Seq<TokenView>) -> bool {
    forall|i: int|
        0 <= i < toks.len() ==> (#[trigger] toks[i] matches TokenView::Literal(w) ==> w.len() > 0)
}

/// Scanning a plain word appends it, whole, to the literal under
/// construction: none of its characters closes the literal or starts a
/// quote or a redirection, and the word is followed by a space or by the
/// end of the line, so no redirection operator can form across its edge.
proof fn lemma_scan_plain_word(w: Seq<char>, rest: Seq<char>, lit: Seq<char>, acc: Seq<TokenView>)
    requires
        plain_chars(w),
        rest.len() == 0 || rest[0] == ' ',
    ensures
        spec_tokenize_from(w + rest, QuoteState::Unquoted, lit, acc) == spec_tokenize_from(
            rest,
            QuoteState::Unquoted,
            lit + w,
            acc,
        ),
    decreases w.len(),
{
    if w.len() == 0 {
        assert(w + rest =~= rest);
        assert(lit + w =~= lit);
    } else {
        let s = w + rest;
        let c = s[0];
        assert(c == w[0]);
        assert(plain_char(c));
        assert(!quote_handles(QuoteState::Unquoted, c));
        if (c == '1' || c == '2') && lit.len() == 0 && s.len() >= 2 {
            if w.len() >= 2 {
                assert(s[1] == w[1]);
                assert(plain_char(w[1]));
            } else {
                assert(s[1] == rest[0]);
            }
            assert(s[1] != '>');
        }
        assert(s.skip(1) =~= w.skip(1) + rest);
        lemma_scan_plain_word(w.skip(1), rest, lit.push(c), acc);
        assert(lit.push(c) + w.skip(1) =~= lit + w);
    }
}

/// Tokenizing plain words joined by single spaces yields exactly those
/// words, as literal tokens, after whatever was already produced.
proof fn lemma_tokenize_plain_words(ws: Seq<Seq<char>>, acc: Seq<TokenView>)
    requires
        forall|i: int| 0 <= i < ws.len() ==> plain_word(#[trigger] ws[i]),
    ensures
        spec_tokenize_from(join_words(ws), QuoteState::Unquoted, Seq::empty(), acc) == acc
            + ws.map_values(|w: Seq<char>| TokenView::Literal(w)),
    decreases ws.len(),
{
    let m = |w: Seq<char>| TokenView::Literal(w);
    if ws.len() == 0 {
        assert(acc + ws.map_values(m) =~= acc);
    } else if ws.len() == 1 {
        assert(join_words(ws) == ws[0]);
        assert(ws[0] + Seq::<char>::empty() =~= ws[0]);
        lemma_scan_plain_word(ws[0], Seq::empty(), Seq::empty(), acc);
        assert(Seq::<char>::empty() + ws[0] =~= ws[0]);
        assert(acc + ws.map_values(m) =~= acc.push(TokenView::Literal(ws[0])));
    } else {
        let rest = seq![' '] + join_words(ws.skip(1));
        assert(join_words(ws) =~= ws[0] + rest);
        assert(rest[0] == ' ');
        lemma_scan_plain_word(ws[0], rest, Seq::empty(), acc);
        assert(Seq::<char>::empty() + ws[0] =~= ws[0]);
        assert(!quote_handles(QuoteState::Unquoted, ' '));
        assert(rest.skip(1) =~= join_words(ws.skip(1)));
        let acc1 = acc.push(TokenView::Literal(ws[0]));
        assert(ws[0].len() > 0);
        assert(spec_tokenize_from(rest, QuoteState::Unquoted, ws[0], acc) == spec_tokenize_from(
            join_words(ws.skip(1)),
            QuoteState::Unquoted,
            Seq::empty(),
            acc1,
        ));
        lemma_tokenize_plain_words(ws.skip(1), acc1);
        assert(acc1 + ws.skip(1).map_values(m) =~= acc + ws.map_values(m));
    }
}

/// Joining plain words with single spaces and tokenizing the result gives
/// back exactly those words, each as one literal token, and no redirection
/// token.
pub proof fn lemma_join_then_tokenize(ws: Seq<Seq<char>>)
    requires
        forall|i: int| 0 <= i < ws.len() ==> plain_word(#[trigger] ws[i]),
    ensures
        spec_tokenize(join_words(ws)) == ws.map_values(|w: Seq<char>| TokenView::Literal(w)),
        literal_texts(spec_tokenize(join_words(ws))) == ws,
{
    let m = |w: Seq<char>| TokenView::Literal(w);
    lemma_tokenize_plain_words(ws, Seq::empty());
    assert(Seq::<TokenView>::empty() + ws.map_values(m) =~= ws.map_values(m));
    lemma_literal_texts_of_literals(ws);
}

/// The literal texts of a sequence of literal tokens are its words.
proof fn lemma_literal_texts_of_literals(ws: Seq<Seq<char>>)
    ensures
        literal_texts(ws.map_values(|w: Seq<char>| TokenView::Literal(w))) == ws,
    decreases ws.len(),
{
    let m = |w: Seq<char>| TokenView::Literal(w);
    let toks = ws.map_values(m);
    if ws.len() == 0 {
        assert(literal_texts(toks) =~= ws);
    } else {
        assert(toks[0] == m(ws[0]));
        assert(toks.skip(1) =~= ws.skip(1).map_values(m));
        lemma_literal_texts_of_literals(ws.skip(1));
        assert(seq![ws[0]] + ws.skip(1) =~= ws);
    }
}

/// The tokenizer flushes only non-empty literals: every literal token it
/// produces carries text.
proof fn lemma_tokenize_from_literals_nonempty(
    s: Seq<char>,
    qs: QuoteState,
    lit: Seq<char>,
    acc: Seq<TokenView>,
)
    requires
        literals_nonempty(acc),
    ensures
        literals_nonempty(spec_tokenize_from(s, qs, lit, acc)),
    decreases s.len(),
{
    if s.len() == 0 {
    } else {
        let c = s[0];
        if quote_handles(qs, c) {
            lemma_tokenize_from_literals_nonempty(
                s.skip(1),
                quote_next(qs, c),
                lit + quote_emit(qs, c),
                acc,
            );
        } else if c == ' ' || c == '\t' {
            lemma_tokenize_from_literals_nonempty(
                s.skip(1),
                qs,
                Seq::empty(),
                spec_flush(lit, acc),
            );
        } else if c == '>' {
            if s.len() >= 2 && s[1] == '>' {
                lemma_tokenize_from_literals_nonempty(
                    s.skip(2),
                    qs,
                    Seq::empty(),
                    spec_tokenize_step_redirect(lit, acc, true),
                );
            } else {
                lemma_tokenize_from_literals_nonempty(
                    s.skip(1),
                    qs,
                    Seq::empty(),
                    spec_tokenize_step_redirect(lit, acc, false),
                );
            }
        } else if (c == '1' || c == '2') && lit.len() == 0 && s.len() >= 2 && s[1] == '>' {
            if s.len() >= 3 && s[2] == '>' {
                lemma_tokenize_from_literals_nonempty(s.skip(3), qs, Seq::empty(), acc.push(
                    spec_tokenize_digit_redirect(c, true),
                ));
            } else {
                lemma_tokenize_from_literals_nonempty(s.skip(2), qs, Seq::empty(), acc.push(
                    spec_tokenize_digit_redirect(c, false),
                ));
            }
        } else {
            lemma_tokenize_from_literals_nonempty(s.skip(1), qs, lit.push(c), acc);
        }
    }
}

/// The token list after a flush and a stdout redirection marker.
spec fn spec_tokenize_step_redirect(lit: Seq<char>, acc: Seq<TokenView>, append: bool) -> Seq<
    TokenView,
> {
    spec_flush(lit, acc).push(
        TokenView::Redirect(
            RedirectFrom::Stdout,
            if append {
                WriteType::Append
            } else {
                WriteType::Overwrite
            },
        ),
    )
}

/// The redirection marker a file-descriptor digit selects.
spec fn spec_tokenize_digit_redirect(c: char, append: bool) -> TokenView {
    TokenView::Redirect(
        if c == '1' {
            RedirectFrom::Stdout
        } else {
            RedirectFrom::Stderr
        },
        if append {
            WriteType::Append
        } else {
            WriteType::Overwrite
        },
    )
}

/// Every literal token of a tokenized line carries text.
pub proof fn lemma_tokenize_literals_nonempty(s: Seq<char>)
    ensures
        literals_nonempty(spec_tokenize(s)),
{
    lemma_tokenize_from_literals_nonempty(
        s,
        QuoteState::Unquoted,
        Seq::empty(),
        Seq::empty(),
    );
}

/// Every text among the literal texts of such a token sequence is
/// non-empty.
proof fn lemma_literal_texts_nonempty(toks: Seq<TokenView>)
    requires
        literals_nonempty(toks),
    ensures
        forall|i: int| 0 <= i < literal_texts(toks).len() ==> #[trigger] literal_texts(
            toks,
        )[i].len() > 0,
    decreases toks.len(),
{
    if toks.len() > 0 {
        assert(forall|j: int|
            0 <= j < toks.skip(1).len() ==> #[trigger] toks.skip(1)[j] == toks[j + 1]);
        assert(literals_nonempty(toks.skip(1)));
        lemma_literal_texts_nonempty(toks.skip(1));
        let rest = literal_texts(toks.skip(1));
        match toks[0] {
            TokenView::Literal(w) => {
                assert(toks[0] matches TokenView::Literal(v) ==> v.len() > 0);
                assert(literal_texts(toks) == seq![w] + rest);
                assert(forall|i: int|
                    1 <= i < literal_texts(toks).len() ==> #[trigger] literal_texts(toks)[i]
                        == rest[i - 1]);
            },
            TokenView::Redirect(_, _) => {
                assert(literal_texts(toks) == rest);
            },
        }
    }
}

/// Tokenizing, then re-joining the literal tokens with single spaces while
/// ignoring the redirection tokens, reconstructs a whitespace-normalized,
/// quote-resolved word sequence; when none of the resolved words carries a
/// character with a syntactic role, tokenizing the reconstruction is a
/// no-op: it returns exactly those words again, each as one literal token.
pub proof fn lemma_retokenize_noop(s: Seq<char>)
    requires
        forall|i: int|
            0 <= i < literal_texts(spec_tokenize(s)).len() ==> plain_chars(
                #[trigger] literal_texts(spec_tokenize(s))[i],
            ),
    ensures
        spec_tokenize(join_words(literal_texts(spec_tokenize(s)))) == literal_texts(
            spec_tokenize(s),
        ).map_values(|w: Seq<char>| TokenView::Literal(w)),
        literal_texts(spec_tokenize(join_words(literal_texts(spec_tokenize(s))))) == literal_texts(
            spec_tokenize(s),
        ),
{
    let ws = literal_texts(spec_tokenize(s));
    lemma_tokenize_literals_nonempty(s);
    lemma_literal_texts_nonempty(spec_tokenize(s));
    lemma_join_then_tokenize(ws);
}

} // verus!
