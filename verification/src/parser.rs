//! Tokenizer and recursive-descent parser for the command language.
//!
//! The grammar: a command is top-level options followed by stages; a
//! stage is a name and its options; a value option's text is a literal
//! token or a bracketed sub-pipeline `[ seed stage... ]`. A raw token
//! that begins with `[` (and is not `[` itself) acts as `[` followed by
//! the rest; one that ends with `]` (and is not `]`) acts as its prefix
//! followed by `]`; so shell words like `[seed` or `codec]` need no
//! surrounding spaces. The spec parser (`sp_parse_*`) is the reference
//! the executable parser is proved against, token for token.

use vstd::prelude::*;

use crate::bytes::{upper_first, upper_first_exec, copy_bytes, sub_bytes, bytes_eq, B_MINUS,
    B_OPEN_BRACKET, B_CLOSE_BRACKET};
use crate::commands::{Command, CommandOption, Stage, Text, CommandV, OptV, StageV, TextV,
    opts_view, stages_view, opt_view, stage_view, text_view, lemma_opts_view, lemma_stages_view};
use crate::errors::{CodecError, ErrModel};

verus! {

/// How one raw token splits into logical tokens.
pub open spec fn sp_split_one(t: Seq<u8>) -> Seq<Seq<u8>> {
    if t.len() > 1 && t[0] == B_OPEN_BRACKET {
        seq![seq![B_OPEN_BRACKET], t.subrange(1, t.len() as int)]
    } else if t.len() > 1 && t[t.len() - 1] == B_CLOSE_BRACKET {
        seq![t.subrange(0, t.len() - 1), seq![B_CLOSE_BRACKET]]
    } else {
        seq![t]
    }
}

/// The logical token stream of a raw argument list.
pub open spec fn sp_split_tokens(raw: Seq<Seq<u8>>) -> Seq<Seq<u8>>
    decreases raw.len(),
{
    if raw.len() == 0 {
        Seq::empty()
    } else {
        sp_split_one(raw[0]) + sp_split_tokens(raw.subrange(1, raw.len() as int))
    }
}

/// Single-lookahead cursor over the logical tokens.
pub struct Tokenizer {
    toks: Vec<Vec<u8>>,
    pos: usize,
}

impl Tokenizer {
    /// The logical tokens.
    pub closed spec fn tok_seq(&self) -> Seq<Seq<u8>> {
        self.toks.deep_view()
    }

    /// The cursor.
    pub closed spec fn at(&self) -> int {
        self.pos as int
    }

    pub open spec fn wf(&self) -> bool {
        0 <= self.at() <= self.tok_seq().len()
    }

    /// Builds the cursor, splitting each raw token once as the grammar
    /// asks.
    pub fn new(text: Vec<Vec<u8>>) -> (r: Tokenizer)
        ensures
            r.tok_seq() == sp_split_tokens(text.deep_view()),
            r.at() == 0,
            r.wf(),
    {
        let mut toks: Vec<Vec<u8>> = Vec::new();
        let mut i: usize = 0;
        while i < text.len()
            invariant
                0 <= i <= text@.len(),
                toks.deep_view() =~~= sp_split_tokens(text.deep_view().take(i as int)),
            decreases text@.len() - i,
        {
            let ghost pre = toks.deep_view();
            let t = &text[i];
            let ghost tv = text.deep_view()[i as int];
            proof {
                assert(tv == t@);
            }
            if t.len() > 1 && t[0] == B_OPEN_BRACKET {
                let mut open: Vec<u8> = Vec::new();
                open.push(B_OPEN_BRACKET);
                let rest = sub_bytes(t.as_slice(), 1, t.len());
                toks.push(open);
                toks.push(rest);
                proof {
                    assert(open@ =~= seq![B_OPEN_BRACKET]);
                    assert(toks.deep_view() =~~= pre + sp_split_one(tv));
                }
            } else if t.len() > 1 && t[t.len() - 1] == B_CLOSE_BRACKET {
                let prefix = sub_bytes(t.as_slice(), 0, t.len() - 1);
                let mut close: Vec<u8> = Vec::new();
                close.push(B_CLOSE_BRACKET);
                toks.push(prefix);
                toks.push(close);
                proof {
                    assert(close@ =~= seq![B_CLOSE_BRACKET]);
                    assert(toks.deep_view() =~~= pre + sp_split_one(tv));
                }
            } else {
                toks.push(copy_bytes(t.as_slice()));
                proof {
                    assert(toks.deep_view() =~~= pre + sp_split_one(tv));
                }
            }
            proof {
                lemma_split_tokens_snoc(text.deep_view(), i as int);
            }
            i += 1;
        }
        proof {
            assert(text.deep_view().take(text@.len() as int) =~= text.deep_view());
            assert(toks.deep_view() =~~= sp_split_tokens(text.deep_view()));
        }
        Tokenizer { toks, pos: 0 }
    }

    /// The token under the cursor, without consuming it.
    fn peek(&self) -> (r: Option<Vec<u8>>)
        requires
            self.wf(),
        ensures
            match r {
                Some(v) => self.at() < self.tok_seq().len() && v@ == self.tok_seq()[self.at()],
                None => self.at() == self.tok_seq().len(),
            },
    {
        if self.pos < self.toks.len() {
            Some(copy_bytes(self.toks[self.pos].as_slice()))
        } else {
            None
        }
    }

    /// Consumes and returns the token under the cursor.
    fn next(&mut self) -> (r: Option<Vec<u8>>)
        requires
            old(self).wf(),
        ensures
            final(self).wf(),
            final(self).tok_seq() == old(self).tok_seq(),
            match r {
                Some(v) => old(self).at() < old(self).tok_seq().len() && v@ == old(
                    self,
                ).tok_seq()[old(self).at()] && final(self).at() == old(self).at() + 1,
                None => old(self).at() == old(self).tok_seq().len() && final(self).at() == old(
                    self,
                ).at(),
            },
    {
        if self.pos < self.toks.len() {
            let v = copy_bytes(self.toks[self.pos].as_slice());
            self.pos = self.pos + 1;
            Some(v)
        } else {
            None
        }
    }
}

proof fn lemma_split_tokens_snoc(raw: Seq<Seq<u8>>, i: int)
    requires
        0 <= i < raw.len(),
    ensures
        sp_split_tokens(raw.take(i + 1)) == sp_split_tokens(raw.take(i)) + sp_split_one(raw[i]),
    decreases i,
{
    let a = raw.take(i + 1);
    let b = raw.take(i);
    if i == 0 {
        assert(a.subrange(1, a.len() as int) =~= Seq::<Seq<u8>>::empty());
        assert(a[0] == raw[0]);
        assert(sp_split_tokens(b) =~= Seq::<Seq<u8>>::empty());
        assert(sp_split_tokens(a) == sp_split_one(a[0]) + sp_split_tokens(
            a.subrange(1, a.len() as int),
        ));
        assert(sp_split_tokens(a) =~~= sp_split_tokens(b) + sp_split_one(raw[i]));
    } else {
        let raw1 = raw.subrange(1, raw.len() as int);
        lemma_split_tokens_snoc(raw1, i - 1);
        assert(a.subrange(1, a.len() as int) =~= raw1.take(i));
        assert(b.subrange(1, b.len() as int) =~= raw1.take(i - 1));
        assert(raw1[i - 1] == raw[i]);
        assert(sp_split_tokens(a) == sp_split_one(a[0]) + sp_split_tokens(raw1.take(i)));
        assert(a[0] == raw[0] && b[0] == raw[0]);
        assert(sp_split_tokens(b) == sp_split_one(b[0]) + sp_split_tokens(b.subrange(1, b.len() as int)));
        assert(sp_split_tokens(a) =~~= sp_split_tokens(b) + sp_split_one(raw[i]));
    }
}

/// A position clamped into `[min(lo, hi), hi]`; keeps the spec parser's
/// recursion measure well founded. Wherever the parser actually recurses
/// the clamp is the identity.
pub open spec fn clampi(p: int, lo: int, hi: int) -> int {
    let l = if lo > hi {
        hi
    } else {
        lo
    };
    if p < l {
        l
    } else if p > hi {
        hi
    } else {
        p
    }
}

/// Whether the stage list ends at this token: end of tokens, an empty
/// token, or a bracket.
pub open spec fn sp_stage_end(toks: Seq<Seq<u8>>, pos: int) -> bool {
    pos >= toks.len() || toks[pos].len() == 0 || toks[pos] == seq![B_OPEN_BRACKET] || toks[pos]
        == seq![B_CLOSE_BRACKET]
}

/// Parses an option list from `pos`. `Err` carries the offending token.
pub open spec fn sp_parse_options(toks: Seq<Seq<u8>>, pos: int) -> Result<
    (Seq<OptV>, int),
    Seq<u8>,
>
    decreases toks.len() - pos, 1int,
{
    if pos < 0 || pos >= toks.len() {
        Ok((Seq::empty(), pos))
    } else {
        let t = toks[pos];
        if !(t.len() > 0 && t[0] == B_MINUS) {
            Ok((Seq::empty(), pos))
        } else {
            let name = t.subrange(1, t.len() as int);
            if name.len() == 0 {
                Err(t)
            } else if upper_first(name) {
                match sp_parse_text(toks, pos + 1) {
                    Err(e) => Err(e),
                    Ok((tv, p2)) => {
                        let p2c = clampi(p2, pos + 2, toks.len() as int);
                        match sp_parse_options(toks, p2c) {
                            Err(e) => Err(e),
                            Ok((rest, p3)) => Ok((seq![OptV::Value(name, tv)] + rest, p3)),
                        }
                    },
                }
            } else {
                match sp_parse_options(toks, pos + 1) {
                    Err(e) => Err(e),
                    Ok((rest, p3)) => Ok((seq![OptV::Switch(name)] + rest, p3)),
                }
            }
        }
    }
}

/// Parses one text value from `pos`: a bracketed sub-pipeline or one
/// literal token.
pub open spec fn sp_parse_text(toks: Seq<Seq<u8>>, pos: int) -> Result<(TextV, int), Seq<u8>>
    decreases toks.len() - pos, 0int,
{
    if pos < 0 || pos >= toks.len() {
        Err(Seq::empty())
    } else {
        let t = toks[pos];
        if t == seq![B_OPEN_BRACKET] {
            let seed: Seq<u8> = if pos + 1 < toks.len() {
                toks[pos + 1]
            } else {
                Seq::empty()
            };
            match sp_parse_stages(toks, clampi(pos + 2, pos + 2, toks.len() as int)) {
                Err(e) => Err(e),
                Ok((cs, p2)) => {
                    let p2c = clampi(p2, pos + 2, toks.len() as int);
                    let close: Seq<u8> = if p2c < toks.len() {
                        toks[p2c]
                    } else {
                        Seq::empty()
                    };
                    if close == seq![B_CLOSE_BRACKET] {
                        Ok((TextV::Sub(seed, cs), p2c + 1))
                    } else {
                        Err(close)
                    }
                },
            }
        } else {
            Ok((TextV::Lit(t), pos + 1))
        }
    }
}

/// Parses stages until an end token.
pub open spec fn sp_parse_stages(toks: Seq<Seq<u8>>, pos: int) -> Result<
    (Seq<StageV>, int),
    Seq<u8>,
>
    decreases toks.len() - pos, 2int,
{
    if sp_stage_end(toks, pos) || pos < 0 {
        Ok((Seq::empty(), pos))
    } else {
        let name = toks[pos];
        match sp_parse_options(toks, pos + 1) {
            Err(e) => Err(e),
            Ok((opts, p2)) => {
                let p2c = clampi(p2, pos + 1, toks.len() as int);
                match sp_parse_stages(toks, p2c) {
                    Err(e) => Err(e),
                    Ok((rest, p3)) => Ok(
                        (seq![StageV { name, options: opts }] + rest, p3),
                    ),
                }
            },
        }
    }
}

/// Parses a whole command: leading options, then stages. Tokens after
/// the stage list (a stray `]`, an empty token) are ignored, as the
/// single-pass reader leaves them unread.
pub open spec fn sp_parse_command(toks: Seq<Seq<u8>>) -> Result<CommandV, Seq<u8>> {
    match sp_parse_options(toks, 0) {
        Err(e) => Err(e),
        Ok((opts, p1)) => {
            let p1c = clampi(p1, 0, toks.len() as int);
            match sp_parse_stages(toks, p1c) {
                Err(e) => Err(e),
                Ok((cs, _)) => Ok(CommandV { options: opts, codecs: cs }),
            }
        },
    }
}

/// Whatever the option parser accepts respects the name-case rule.
pub proof fn lemma_sp_parse_options_wf(toks: Seq<Seq<u8>>, pos: int)
    ensures
        sp_parse_options(toks, pos) matches Ok(p) ==> crate::commands::optsv_wf(p.0),
    decreases toks.len() - pos, 1int,
{
    if pos < 0 || pos >= toks.len() {
        assert(crate::commands::optsv_wf(Seq::empty()));
    } else {
        let t = toks[pos];
        if !(t.len() > 0 && t[0] == B_MINUS) {
            assert(crate::commands::optsv_wf(Seq::empty()));
        } else {
            let name = t.subrange(1, t.len() as int);
            if name.len() == 0 {
            } else if upper_first(name) {
                lemma_sp_parse_text_wf(toks, pos + 1);
                if let Ok((tv, p2)) = sp_parse_text(toks, pos + 1) {
                    let p2c = clampi(p2, pos + 2, toks.len() as int);
                    lemma_sp_parse_options_wf(toks, p2c);
                    if let Ok((rest, _)) = sp_parse_options(toks, p2c) {
                        crate::commands::lemma_optsv_wf_cons(OptV::Value(name, tv), rest);
                    }
                }
            } else {
                lemma_sp_parse_options_wf(toks, pos + 1);
                if let Ok((rest, _)) = sp_parse_options(toks, pos + 1) {
                    crate::commands::lemma_optsv_wf_cons(OptV::Switch(name), rest);
                }
            }
        }
    }
}

/// Whatever the text parser accepts is well formed.
pub proof fn lemma_sp_parse_text_wf(toks: Seq<Seq<u8>>, pos: int)
    ensures
        sp_parse_text(toks, pos) matches Ok(p) ==> crate::commands::textv_wf(p.0),
    decreases toks.len() - pos, 0int,
{
    if 0 <= pos < toks.len() {
        let t = toks[pos];
        if t == seq![B_OPEN_BRACKET] {
            lemma_sp_parse_stages_wf(toks, clampi(pos + 2, pos + 2, toks.len() as int));
        }
    }
}

/// Whatever the stage parser accepts is well formed.
pub proof fn lemma_sp_parse_stages_wf(toks: Seq<Seq<u8>>, pos: int)
    ensures
        sp_parse_stages(toks, pos) matches Ok(p) ==> crate::commands::stagesv_wf(p.0),
    decreases toks.len() - pos, 2int,
{
    if sp_stage_end(toks, pos) || pos < 0 {
        assert(crate::commands::stagesv_wf(Seq::empty()));
    } else {
        let name = toks[pos];
        lemma_sp_parse_options_wf(toks, pos + 1);
        if let Ok((opts, p2)) = sp_parse_options(toks, pos + 1) {
            let p2c = clampi(p2, pos + 1, toks.len() as int);
            lemma_sp_parse_stages_wf(toks, p2c);
            if let Ok((rest, _)) = sp_parse_stages(toks, p2c) {
                crate::commands::lemma_stagesv_wf_cons(StageV { name, options: opts }, rest);
            }
        }
    }
}

/// Whatever the command parser accepts is well formed: every option
/// kind in the tree agrees with its name's first character.
pub proof fn lemma_sp_parse_command_wf(toks: Seq<Seq<u8>>)
    ensures
        sp_parse_command(toks) matches Ok(c) ==> crate::commands::cmdv_wf(c),
{
    lemma_sp_parse_options_wf(toks, 0);
    if let Ok((opts, p1)) = sp_parse_options(toks, 0) {
        lemma_sp_parse_stages_wf(toks, clampi(p1, 0, toks.len() as int));
    }
}

/// Parses the option list under the cursor.
fn parse_options(t: &mut Tokenizer) -> (r: Result<Vec<CommandOption>, CodecError>)
    requires
        old(t).wf(),
    ensures
        final(t).wf(),
        final(t).tok_seq() == old(t).tok_seq(),
        old(t).at() <= final(t).at(),
        match r {
            Ok(v) => sp_parse_options(old(t).tok_seq(), old(t).at()) == Ok::<_, Seq<u8>>(
                (opts_view(v@), final(t).at()),
            ),
            Err(e) => ({
                &&& sp_parse_options(old(t).tok_seq(), old(t).at()) matches Err(d)
                &&& e@ == ErrModel::Parse(d)
            }),
        },
    decreases old(t).tok_seq().len() - old(t).at(), 1int,
{
    let ghost toks = old(t).tok_seq();
    let ghost pos = old(t).at();
    let tok = match t.peek() {
        None => {
            return Ok(Vec::new());
        },
        Some(v) => v,
    };
    if !(tok.len() > 0 && tok[0] == B_MINUS) {
        proof {
            lemma_opts_view(Seq::<CommandOption>::empty());
        }
        return Ok(Vec::new());
    }
    if tok.len() == 1 {
        return Err(CodecError::Parse(tok));
    }
    let name = sub_bytes(tok.as_slice(), 1, tok.len());
    t.next();
    if upper_first_exec(name.as_slice()) {
        let text = match parse_text(t) {
            Err(e) => {
                return Err(e);
            },
            Ok(tv) => tv,
        };
        let mut rest = match parse_options(t) {
            Err(e) => {
                return Err(e);
            },
            Ok(v) => v,
        };
        let opt = CommandOption::Value { name, text };
        let ghost rest0 = rest@;
        let mut v: Vec<CommandOption> = Vec::new();
        v.push(opt);
        v.append(&mut rest);
        proof {
            assert(v@ =~= seq![opt] + rest0);
            lemma_opts_view_cons(opt, rest0);
        }
        Ok(v)
    } else {
        let mut rest = match parse_options(t) {
            Err(e) => {
                return Err(e);
            },
            Ok(v) => v,
        };
        let opt = CommandOption::Switch(name);
        let ghost rest0 = rest@;
        let mut v: Vec<CommandOption> = Vec::new();
        v.push(opt);
        v.append(&mut rest);
        proof {
            assert(v@ =~= seq![opt] + rest0);
            lemma_opts_view_cons(opt, rest0);
        }
        Ok(v)
    }
}

/// `opts_view` distributes over cons.
proof fn lemma_opts_view_cons(a: CommandOption, r: Seq<CommandOption>)
    ensures
        opts_view(seq![a] + r) == seq![opt_view(a)] + opts_view(r),
{
    let s = seq![a] + r;
    assert(s.len() > 0 && s[0] == a);
    assert(s.subrange(1, s.len() as int) =~= r);
}

/// `stages_view` distributes over cons.
proof fn lemma_stages_view_cons(a: Stage, r: Seq<Stage>)
    ensures
        stages_view(seq![a] + r) == seq![stage_view(a)] + stages_view(r),
{
    let s = seq![a] + r;
    assert(s.len() > 0 && s[0] == a);
    assert(s.subrange(1, s.len() as int) =~= r);
}

/// Parses one text value under the cursor.
fn parse_text(t: &mut Tokenizer) -> (r: Result<Text, CodecError>)
    requires
        old(t).wf(),
    ensures
        final(t).wf(),
        final(t).tok_seq() == old(t).tok_seq(),
        old(t).at() <= final(t).at(),
        match r {
            Ok(v) => old(t).at() + 1 <= final(t).at() && sp_parse_text(
                old(t).tok_seq(),
                old(t).at(),
            ) == Ok::<_, Seq<u8>>((text_view(v), final(t).at())),
            Err(e) => ({
                &&& sp_parse_text(old(t).tok_seq(), old(t).at()) matches Err(d)
                &&& e@ == ErrModel::Parse(d)
            }),
        },
    decreases old(t).tok_seq().len() - old(t).at(), 0int,
{
    let ghost toks = old(t).tok_seq();
    let ghost pos = old(t).at();
    let tok = match t.next() {
        None => {
            return Err(CodecError::Parse(Vec::new()));
        },
        Some(v) => v,
    };
    let mut open_tok: Vec<u8> = Vec::new();
    open_tok.push(B_OPEN_BRACKET);
    proof {
        assert(open_tok@ =~= seq![B_OPEN_BRACKET]);
    }
    if bytes_eq(tok.as_slice(), open_tok.as_slice()) {
        let seed = match t.next() {
            None => Vec::new(),
            Some(v) => v,
        };
        let codecs = match parse_codecs(t) {
            Err(e) => {
                return Err(e);
            },
            Ok(v) => v,
        };
        let close = match t.next() {
            None => Vec::new(),
            Some(v) => v,
        };
        let mut close_tok: Vec<u8> = Vec::new();
        close_tok.push(B_CLOSE_BRACKET);
        proof {
            assert(close_tok@ =~= seq![B_CLOSE_BRACKET]);
        }
        if bytes_eq(close.as_slice(), close_tok.as_slice()) {
            let r = Text::Codecs { input: seed, codecs };
            proof {
                lemma_stages_view(r->codecs@);
            }
            Ok(r)
        } else {
            Err(CodecError::Parse(close))
        }
    } else {
        Ok(Text::String(tok))
    }
}

/// Parses one stage, or reports that the list ends here.
fn parse_codec(t: &mut Tokenizer) -> (r: Result<Option<Stage>, CodecError>)
    requires
        old(t).wf(),
    ensures
        final(t).wf(),
        final(t).tok_seq() == old(t).tok_seq(),
        old(t).at() <= final(t).at(),
        match r {
            Ok(None) => sp_stage_end(old(t).tok_seq(), old(t).at()) && final(t).at() == old(
                t,
            ).at(),
            Ok(Some(st)) => ({
                &&& !sp_stage_end(old(t).tok_seq(), old(t).at())
                &&& st@.name == old(t).tok_seq()[old(t).at()]
                &&& sp_parse_options(old(t).tok_seq(), old(t).at() + 1) == Ok::<_, Seq<u8>>(
                    (st@.options, final(t).at()),
                )
                &&& old(t).at() < final(t).at()
            }),
            Err(e) => ({
                &&& !sp_stage_end(old(t).tok_seq(), old(t).at())
                &&& sp_parse_options(old(t).tok_seq(), old(t).at() + 1) matches Err(d)
                &&& e@ == ErrModel::Parse(d)
            }),
        },
    decreases old(t).tok_seq().len() - old(t).at(), 2int,
{
    let name = match t.peek() {
        None => {
            return Ok(None);
        },
        Some(v) => v,
    };
    let mut open_tok: Vec<u8> = Vec::new();
    open_tok.push(B_OPEN_BRACKET);
    let mut close_tok: Vec<u8> = Vec::new();
    close_tok.push(B_CLOSE_BRACKET);
    proof {
        assert(open_tok@ =~= seq![B_OPEN_BRACKET]);
        assert(close_tok@ =~= seq![B_CLOSE_BRACKET]);
    }
    if name.len() == 0 || bytes_eq(name.as_slice(), open_tok.as_slice()) || bytes_eq(
        name.as_slice(),
        close_tok.as_slice(),
    ) {
        return Ok(None);
    }
    t.next();
    let options = match parse_options(t) {
        Err(e) => {
            return Err(e);
        },
        Ok(v) => v,
    };
    let st = Stage { name, options };
    proof {
        lemma_opts_view(st.options@);
    }
    Ok(Some(st))
}

/// Parses the stage list under the cursor.
fn parse_codecs(t: &mut Tokenizer) -> (r: Result<Vec<Stage>, CodecError>)
    requires
        old(t).wf(),
    ensures
        final(t).wf(),
        final(t).tok_seq() == old(t).tok_seq(),
        old(t).at() <= final(t).at(),
        match r {
            Ok(v) => sp_parse_stages(old(t).tok_seq(), old(t).at()) == Ok::<_, Seq<u8>>(
                (stages_view(v@), final(t).at()),
            ),
            Err(e) => ({
                &&& sp_parse_stages(old(t).tok_seq(), old(t).at()) matches Err(d)
                &&& e@ == ErrModel::Parse(d)
            }),
        },
    decreases old(t).tok_seq().len() - old(t).at(), 3int,
{
    let first = match parse_codec(t) {
        Err(e) => {
            return Err(e);
        },
        Ok(None) => {
            return Ok(Vec::new());
        },
        Ok(Some(st)) => st,
    };
    let mut rest = match parse_codecs(t) {
        Err(e) => {
            return Err(e);
        },
        Ok(v) => v,
    };
    let ghost rest0 = rest@;
    let mut v: Vec<Stage> = Vec::new();
    v.push(first);
    v.append(&mut rest);
    proof {
        assert(v@ =~= seq![first] + rest0);
        lemma_stages_view_cons(first, rest0);
    }
    Ok(v)
}

/// Parses a whole command line.
pub fn parse_command(tokenizer: &mut Tokenizer) -> (r: Result<Command, CodecError>)
    requires
        old(tokenizer).wf(),
        old(tokenizer).at() == 0,
    ensures
        match r {
            Ok(c) => sp_parse_command(old(tokenizer).tok_seq()) == Ok::<CommandV, Seq<u8>>(c@),
            Err(e) => ({
                &&& sp_parse_command(old(tokenizer).tok_seq()) matches Err(d)
                &&& e@ == ErrModel::Parse(d)
            }),
        },
{
    let options = match parse_options(tokenizer) {
        Err(e) => {
            return Err(e);
        },
        Ok(v) => v,
    };
    let codecs = match parse_codecs(tokenizer) {
        Err(e) => {
            return Err(e);
        },
        Ok(v) => v,
    };
    Ok(Command { options, codecs })
}

} // verus!
