//! The command builder: folds the token sequence of one input line into a
//! structured command — the program name, its arguments, and at most one
//! output-stream and one error-stream redirection target.

use vstd::prelude::*;

use crate::textops::{chars_of, trim, trim_chars};
use crate::token::{RedirectFrom, Token, TokenView, WriteType};
use crate::tokenizer::{spec_tokenize, tokenize};

verus! {

/// Where one stream of a command's output goes: to the terminal, or to a
/// file under the given path, truncated or appended to.
#[derive(Debug)]
pub enum OutputTarget {
    Terminal,
    File(String, WriteType),
}

/// The mathematical shape of an output target.
pub enum OutputTargetView {
    Terminal,
    File(Seq<char>, WriteType),
}

impl View for OutputTarget {
    type V = OutputTargetView;

    open spec fn view(&self) -> OutputTargetView {
        match self {
            OutputTarget::Terminal => OutputTargetView::Terminal,
            OutputTarget::File(p, m) => OutputTargetView::File(p@, *m),
        }
    }
}

/// One input line as a structured command.  Created fresh per line and
/// discarded after its output is delivered.
#[derive(Debug)]
pub struct ParsedCommand {
    pub name: String,
    pub args: Vec<String>,
    pub stdout_target: OutputTarget,
    pub stderr_target: OutputTarget,
}

/// The mathematical shape of a parsed command.
pub struct ParsedCommandView {
    pub name: Seq<char>,
    pub args: Seq<Seq<char>>,
    pub stdout_target: OutputTargetView,
    pub stderr_target: OutputTargetView,
}

impl View for ParsedCommand {
    type V = ParsedCommandView;

    open spec fn view(&self) -> ParsedCommandView {
        ParsedCommandView {
            name: self.name@,
            args: self.args.deep_view(),
            stdout_target: self.stdout_target@,
            stderr_target: self.stderr_target@,
        }
    }
}

/// The command assembled from what the scan of the tokens found: a missing
/// name is left empty, and a stream without a redirection goes to the
/// terminal.
pub open spec fn spec_assemble(
    name: Option<Seq<char>>,
    args: Seq<Seq<char>>,
    stdout_target: OutputTargetView,
    stderr_target: OutputTargetView,
) -> ParsedCommandView {
    ParsedCommandView {
        name: match name {
            Some(n) => n,
            None => Seq::empty(),
        },
        args,
        stdout_target,
        stderr_target,
    }
}

/// The scan of the remaining tokens.  The first literal becomes the name
/// and later literals become arguments.  A redirection marker claims the
/// token after it: if that is a literal, it becomes the file target of the
/// marker's stream and the scan stops — one redirection pair is all a
/// command takes here; if it is another marker, both are dropped and the
/// scan goes on; if there is none, the scan ends.
pub open spec fn spec_build_from(
    toks: Seq<TokenView>,
    name: Option<Seq<char>>,
    args: Seq<Seq<char>>,
    stdout_target: OutputTargetView,
    stderr_target: OutputTargetView,
) -> ParsedCommandView
    decreases toks.len(),
{
    if toks.len() == 0 {
        spec_assemble(name, args, stdout_target, stderr_target)
    } else {
        match toks[0] {
            TokenView::Literal(w) => {
                if name is None {
                    spec_build_from(toks.skip(1), Some(w), args, stdout_target, stderr_target)
                } else {
                    spec_build_from(toks.skip(1), name, args.push(w), stdout_target, stderr_target)
                }
            },
            TokenView::Redirect(dir, mode) => {
                if toks.len() == 1 {
                    spec_assemble(name, args, stdout_target, stderr_target)
                } else {
                    match toks[1] {
                        TokenView::Literal(p) => {
                            match dir {
                                RedirectFrom::Stdout => spec_assemble(
                                    name,
                                    args,
                                    OutputTargetView::File(p, mode),
                                    stderr_target,
                                ),
                                RedirectFrom::Stderr => spec_assemble(
                                    name,
                                    args,
                                    stdout_target,
                                    OutputTargetView::File(p, mode),
                                ),
                            }
                        },
                        TokenView::Redirect(_, _) => spec_build_from(
                            toks.skip(2),
                            name,
                            args,
                            stdout_target,
                            stderr_target,
                        ),
                    }
                }
            },
        }
    }
}

/// The name seen so far, as a sequence of characters.
pub open spec fn opt_text_view(o: Option<String>) -> Option<Seq<char>> {
    match o {
        Some(n) => Some(n@),
        None => None,
    }
}

/// The structured command of a token sequence.
pub open spec fn spec_build(toks: Seq<TokenView>) -> ParsedCommandView {
    spec_build_from(
        toks,
        None,
        Seq::empty(),
        OutputTargetView::Terminal,
        OutputTargetView::Terminal,
    )
}

/// The structured command of one input line: its characters are trimmed of
/// surrounding whitespace, tokenized, and folded.
pub open spec fn spec_parse(line: Seq<char>) -> ParsedCommandView {
    spec_build(spec_tokenize(trim(line)))
}

/// Folds a token sequence into a structured command.
pub fn build(toks: Vec<Token>) -> (cmd: ParsedCommand)
    ensures
        cmd@ == spec_build(toks.deep_view()),
{
    let mut name: Option<String> = None;
    let mut args: Vec<String> = Vec::new();
    let mut stdout_target = OutputTarget::Terminal;
    let mut stderr_target = OutputTarget::Terminal;
    let ghost all = toks.deep_view();
    let mut i: usize = 0;
    proof {
        assert(all.skip(0) =~= all);
        assert(args.deep_view() =~= Seq::<Seq<char>>::empty());
    }
    let mut stopped = false;
    while i < toks.len() && !stopped
        invariant
            i <= toks@.len(),
            all == toks.deep_view(),
            all.len() == toks@.len(),
            !stopped ==> spec_build(all) == spec_build_from(
                all.skip(i as int),
                opt_text_view(name),
                args.deep_view(),
                stdout_target@,
                stderr_target@,
            ),
            stopped ==> spec_build(all) == spec_assemble(
                opt_text_view(name),
                args.deep_view(),
                stdout_target@,
                stderr_target@,
            ),
        decreases toks@.len() - i + if stopped {
            0int
        } else {
            1int
        },
    {
        let ghost s = all.skip(i as int);
        let ghost name0: Option<Seq<char>> = opt_text_view(name);
        let ghost args0 = args.deep_view();
        proof {
            assert(s[0] == all[i as int]);
            assert(s.skip(1) =~= all.skip(i + 1 as int));
        }
        let tok = &toks[i];
        match tok {
            Token::Literal(w) => {
                if name.is_none() {
                    name = Some(w.clone());
                } else {
                    args.push(w.clone());
                    proof {
                        assert(args.deep_view() =~= args0.push(w@));
                    }
                }
                i += 1;
                proof {
                    assert(spec_build_from(s, name0, args0, stdout_target@, stderr_target@)
                        == spec_build_from(
                        all.skip(i as int),
                        opt_text_view(name),
                        args.deep_view(),
                        stdout_target@,
                        stderr_target@,
                    ));
                }
            },
            Token::Redirect(dir, mode) => {
                if i + 1 < toks.len() {
                    proof {
                        assert(s[1] == all[i + 1 as int]);
                        assert(s.skip(2) =~= all.skip(i + 2 as int));
                    }
                    let next = &toks[i + 1];
                    match next {
                        Token::Literal(p) => {
                            let target = OutputTarget::File(p.clone(), *mode);
                            match dir {
                                RedirectFrom::Stdout => {
                                    stdout_target = target;
                                },
                                RedirectFrom::Stderr => {
                                    stderr_target = target;
                                },
                            }
                            stopped = true;
                        },
                        Token::Redirect(_, _) => {
                            i += 2;
                        },
                    }
                } else {
                    i += 1;
                    stopped = true;
                }
            },
        }
    }
    proof {
        if !stopped {
            assert(all.skip(toks@.len() as int) =~= Seq::<TokenView>::empty());
        }
    }
    let cmd = ParsedCommand {
        name: match name {
            Some(n) => n,
            None => String::new(),
        },
        args,
        stdout_target,
        stderr_target,
    };
    proof {
        assert(cmd@ == spec_build(all));
    }
    cmd
}

/// Parses one raw input line into a structured command.
pub fn parse(line: &str) -> (cmd: ParsedCommand)
    ensures
        cmd@ == spec_parse(line@),
{
    let chars = chars_of(line);
    let trimmed = trim_chars(&chars);
    let toks = tokenize(&trimmed);
    build(toks)
}

} // verus!
