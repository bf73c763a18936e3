//! The pipeline executor.
//!
//! Desugaring rewrites top-level options into synthetic stages — a pure
//! AST rewrite — and fixes the ambient direction. Running then feeds the
//! input through the stages in order: each stage resolves its option
//! map, evaluating any sub-pipeline value to bytes first by running it
//! through this same machinery with its seed as input, applies its own
//! `e`/`d` override, looks its transform up by name and runs it. An
//! unknown name surfaces only when its stage is reached, as the
//! single-pass runner leaves later stages untouched until then.

use vstd::prelude::*;

use crate::CodecMode;
use crate::bytes::{byte_name, copy_bytes};
use crate::commands::{
    Command, CommandOption, Stage, Text, CommandV, OptV, StageV, TextV, opt_view, opts_view,
    stage_view, stages_view, text_view, size_opt, size_opts, size_stage, size_stages, size_text,
    optv_wf, optsv_wf, stagev_wf, stagesv_wf, textv_wf, cmdv_wf, lemma_opts_view,
    lemma_stages_view, lemma_size_opt_le, lemma_size_stage_le, lemma_size_opts_pos,
    lemma_optsv_wf_index, lemma_stagesv_wf_index, lemma_optsv_wf_cons,
    lemma_stagesv_wf_cons, lemma_stagesv_wf_push,
};
use crate::errors::{CodecError, ErrModel};
use crate::filestore::FileStore;
use crate::options::Options;
use crate::registry::{CodecKind, CodecMetaInfo, listing_of, sp_lookup};

verus! {

// Byte values of the top-level option names and the per-stage
// direction switches.
pub const N_LOWER_E: u8 = 101;

pub const N_LOWER_D: u8 = 100;

pub const N_LOWER_N: u8 = 110;

pub const N_LOWER_H: u8 = 104;

pub const N_LOWER_C: u8 = 99;

pub const N_UPPER_I: u8 = 73;

pub const N_UPPER_F: u8 = 70;

pub const N_UPPER_O: u8 = 79;

pub const N_UPPER_C: u8 = 67;

/// The names of the synthetic stages desugaring creates.
pub open spec fn nm_newline() -> Seq<u8> {
    seq![110u8, 101u8, 119u8, 108u8, 105u8, 110u8, 101u8]
}

pub open spec fn nm_usage() -> Seq<u8> {
    seq![117u8, 115u8, 97u8, 103u8, 101u8]
}

pub open spec fn nm_const() -> Seq<u8> {
    seq![99u8, 111u8, 110u8, 115u8, 116u8]
}

pub open spec fn nm_cat() -> Seq<u8> {
    seq![99u8, 97u8, 116u8]
}

pub open spec fn nm_redirect() -> Seq<u8> {
    seq![114u8, 101u8, 100u8, 105u8, 114u8, 101u8, 99u8, 116u8]
}

fn mk_newline() -> (r: Vec<u8>)
    ensures
        r@ == nm_newline(),
{
    let mut r: Vec<u8> = Vec::new();
    r.push(110);
    r.push(101);
    r.push(119);
    r.push(108);
    r.push(105);
    r.push(110);
    r.push(101);
    proof {
        assert(r@ =~= nm_newline());
    }
    r
}

fn mk_usage() -> (r: Vec<u8>)
    ensures
        r@ == nm_usage(),
{
    let mut r: Vec<u8> = Vec::new();
    r.push(117);
    r.push(115);
    r.push(97);
    r.push(103);
    r.push(101);
    proof {
        assert(r@ =~= nm_usage());
    }
    r
}

fn mk_const() -> (r: Vec<u8>)
    ensures
        r@ == nm_const(),
{
    let mut r: Vec<u8> = Vec::new();
    r.push(99);
    r.push(111);
    r.push(110);
    r.push(115);
    r.push(116);
    proof {
        assert(r@ =~= nm_const());
    }
    r
}

fn mk_cat() -> (r: Vec<u8>)
    ensures
        r@ == nm_cat(),
{
    let mut r: Vec<u8> = Vec::new();
    r.push(99);
    r.push(97);
    r.push(116);
    proof {
        assert(r@ =~= nm_cat());
    }
    r
}

fn mk_redirect() -> (r: Vec<u8>)
    ensures
        r@ == nm_redirect(),
{
    let mut r: Vec<u8> = Vec::new();
    r.push(114);
    r.push(101);
    r.push(100);
    r.push(105);
    r.push(114);
    r.push(101);
    r.push(99);
    r.push(116);
    proof {
        assert(r@ =~= nm_redirect());
    }
    r
}

/// The direction a stage runs in: its own `d` beats its own `e`, which
/// beats the inherited one.
pub open spec fn sp_mode_of(opts: Map<Seq<u8>, Option<Seq<u8>>>, inherited: CodecMode) -> CodecMode {
    if opts.contains_key(seq![N_LOWER_D]) {
        CodecMode::Decoding
    } else if opts.contains_key(seq![N_LOWER_E]) {
        CodecMode::Encoding
    } else {
        inherited
    }
}

/// Desugaring one top-level option after another, left to right: `e` and
/// `d` set the ambient direction; `n` appends a newline stage; `h`
/// replaces the stage list with the usage stage; `I` and `F` prepend a
/// constant or file-reading stage; `O` appends a redirect stage. An
/// unknown name is a parse-class error carrying that name.
pub open spec fn sp_desugar_opts(opts: Seq<OptV>, mode: CodecMode, stages: Seq<StageV>) -> Result<
    (CodecMode, Seq<StageV>),
    ErrModel,
>
    decreases opts.len(),
{
    if opts.len() == 0 {
        Ok((mode, stages))
    } else {
        let rest = opts.subrange(1, opts.len() as int);
        match opts[0] {
            OptV::Switch(n) => {
                if n == seq![N_LOWER_E] {
                    sp_desugar_opts(rest, CodecMode::Encoding, stages)
                } else if n == seq![N_LOWER_D] {
                    sp_desugar_opts(rest, CodecMode::Decoding, stages)
                } else if n == seq![N_LOWER_N] {
                    sp_desugar_opts(
                        rest,
                        mode,
                        stages.push(StageV { name: nm_newline(), options: Seq::empty() }),
                    )
                } else if n == seq![N_LOWER_H] {
                    sp_desugar_opts(
                        rest,
                        mode,
                        seq![StageV { name: nm_usage(), options: Seq::empty() }],
                    )
                } else {
                    Err(ErrModel::Parse(n))
                }
            },
            OptV::Value(n, t) => {
                if n == seq![N_UPPER_I] {
                    sp_desugar_opts(
                        rest,
                        mode,
                        seq![
                            StageV {
                                name: nm_const(),
                                options: seq![OptV::Value(seq![N_UPPER_C], t)],
                            },
                        ] + stages,
                    )
                } else if n == seq![N_UPPER_F] {
                    sp_desugar_opts(
                        rest,
                        mode,
                        seq![
                            StageV {
                                name: nm_cat(),
                                options: seq![
                                    OptV::Switch(seq![N_LOWER_C]),
                                    OptV::Value(seq![N_UPPER_F], t),
                                ],
                            },
                        ] + stages,
                    )
                } else if n == seq![N_UPPER_O] {
                    sp_desugar_opts(
                        rest,
                        mode,
                        stages.push(
                            StageV {
                                name: nm_redirect(),
                                options: seq![OptV::Value(seq![N_UPPER_O], t)],
                            },
                        ),
                    )
                } else {
                    Err(ErrModel::Parse(n))
                }
            },
        }
    }
}

/// What desugaring a whole command yields, starting from the encoding
/// direction and the parsed stage list.
pub open spec fn sp_desugar(cmd: CommandV) -> Result<(CodecMode, Seq<StageV>), ErrModel> {
    sp_desugar_opts(cmd.options, CodecMode::Encoding, cmd.codecs)
}

/// Resolving a stage's parsed options into its map, in order: a switch
/// marks presence, a literal keeps its bytes, and a sub-pipeline runs
/// on its seed — always in the encoding direction, whatever the outer
/// run does — with its full output becoming the value.
pub open spec fn sp_resolve_options(
    opts: Seq<OptV>,
    reg: Seq<(Seq<u8>, CodecKind)>,
    store: Map<Seq<u8>, Seq<u8>>,
    acc: Map<Seq<u8>, Option<Seq<u8>>>,
) -> Result<(Map<Seq<u8>, Option<Seq<u8>>>, Map<Seq<u8>, Seq<u8>>), ErrModel>
    decreases size_opts(opts),
    via sp_resolve_options_decreases
{
    if opts.len() == 0 {
        Ok((acc, store))
    } else {
        let rest = opts.subrange(1, opts.len() as int);
        match opts[0] {
            OptV::Switch(n) => sp_resolve_options(rest, reg, store, acc.insert(n, None)),
            OptV::Value(n, t) => match t {
                TextV::Lit(b) => sp_resolve_options(rest, reg, store, acc.insert(n, Some(b))),
                TextV::Sub(seed, cs) => match sp_run_codecs(
                    seed,
                    cs,
                    CodecMode::Encoding,
                    reg,
                    store,
                ) {
                    Err(e) => Err(e),
                    Ok(p) => sp_resolve_options(rest, reg, p.1, acc.insert(n, Some(p.0))),
                },
            },
        }
    }
}

#[via_fn]
proof fn sp_resolve_options_decreases(
    opts: Seq<OptV>,
    reg: Seq<(Seq<u8>, CodecKind)>,
    store: Map<Seq<u8>, Seq<u8>>,
    acc: Map<Seq<u8>, Option<Seq<u8>>>,
) {
    if opts.len() > 0 {
        let rest = opts.subrange(1, opts.len() as int);
        lemma_size_opt_le(opts, 0);
        lemma_size_opts_pos(rest);
        assert(size_opts(opts) == size_opt(opts[0]) + size_opts(rest));
        match opts[0] {
            OptV::Switch(_) => {},
            OptV::Value(n, t) => match t {
                TextV::Lit(_) => {},
                TextV::Sub(seed, cs) => {
                    assert(size_opt(opts[0]) == 1 + size_text(t));
                    assert(size_text(t) == 1 + size_stages(cs));
                },
            },
        }
    }
}

/// Running one stage: resolve its options, apply its own direction
/// override, look its transform up, run it. A name the registry lacks
/// is a lookup error carrying that name.
pub open spec fn sp_run_stage(
    input: Seq<u8>,
    st: StageV,
    mode: CodecMode,
    reg: Seq<(Seq<u8>, CodecKind)>,
    store: Map<Seq<u8>, Seq<u8>>,
) -> Result<(Seq<u8>, Map<Seq<u8>, Seq<u8>>), ErrModel>
    decreases size_stage(st),
    via sp_run_stage_decreases
{
    match sp_resolve_options(st.options, reg, store, Map::empty()) {
        Err(e) => Err(e),
        Ok(p) => {
            let m = sp_mode_of(p.0, mode);
            match sp_lookup(reg, st.name) {
                None => Err(ErrModel::Lookup(st.name)),
                Some(kind) => kind.spec_run_kind(input, m, p.0, listing_of(reg), p.1),
            }
        },
    }
}

#[via_fn]
proof fn sp_run_stage_decreases(
    input: Seq<u8>,
    st: StageV,
    mode: CodecMode,
    reg: Seq<(Seq<u8>, CodecKind)>,
    store: Map<Seq<u8>, Seq<u8>>,
) {
    assert(size_stage(st) == 1 + size_opts(st.options));
}

/// Running a stage list in order, each stage's output the next one's
/// input; an empty list passes the input through.
pub open spec fn sp_run_codecs(
    input: Seq<u8>,
    stages: Seq<StageV>,
    mode: CodecMode,
    reg: Seq<(Seq<u8>, CodecKind)>,
    store: Map<Seq<u8>, Seq<u8>>,
) -> Result<(Seq<u8>, Map<Seq<u8>, Seq<u8>>), ErrModel>
    decreases size_stages(stages),
    via sp_run_codecs_decreases
{
    if stages.len() == 0 {
        Ok((input, store))
    } else {
        match sp_run_stage(input, stages[0], mode, reg, store) {
            Err(e) => Err(e),
            Ok(p) => sp_run_codecs(p.0, stages.subrange(1, stages.len() as int), mode, reg, p.1),
        }
    }
}

#[via_fn]
proof fn sp_run_codecs_decreases(
    input: Seq<u8>,
    stages: Seq<StageV>,
    mode: CodecMode,
    reg: Seq<(Seq<u8>, CodecKind)>,
    store: Map<Seq<u8>, Seq<u8>>,
) {
    if stages.len() > 0 {
        let rest = stages.subrange(1, stages.len() as int);
        lemma_size_stage_le(stages, 0);
        assert(size_stages(stages) == size_stage(stages[0]) + size_stages(rest));
        assert(size_stage(stages[0]) == 1 + size_opts(stages[0].options));
    }
}

/// What executing a whole command yields: desugar, then run.
pub open spec fn sp_execute(
    cmd: CommandV,
    input: Seq<u8>,
    reg: Seq<(Seq<u8>, CodecKind)>,
    store: Map<Seq<u8>, Seq<u8>>,
) -> Result<(Seq<u8>, Map<Seq<u8>, Seq<u8>>), ErrModel> {
    match sp_desugar(cmd) {
        Err(e) => Err(e),
        Ok(p) => sp_run_codecs(input, p.1, p.0, reg, store),
    }
}

/// A run that succeeds knew every stage name: whenever the whole list
/// runs to completion, each stage's name was in the registry.
pub proof fn lemma_run_ok_names_known(
    input: Seq<u8>,
    stages: Seq<StageV>,
    mode: CodecMode,
    reg: Seq<(Seq<u8>, CodecKind)>,
    store: Map<Seq<u8>, Seq<u8>>,
)
    requires
        sp_run_codecs(input, stages, mode, reg, store) is Ok,
    ensures
        forall|i: int|
            0 <= i < stages.len() ==> sp_lookup(reg, (#[trigger] stages[i]).name) is Some,
    decreases stages.len(),
{
    if stages.len() > 0 {
        let rest = stages.subrange(1, stages.len() as int);
        match sp_run_stage(input, stages[0], mode, reg, store) {
            Err(_) => {},
            Ok(p) => {
                lemma_run_ok_names_known(p.0, rest, mode, reg, p.1);
                assert forall|i: int|
                    0 <= i < stages.len() implies sp_lookup(
                    reg,
                    (#[trigger] stages[i]).name,
                ) is Some by {
                    if i > 0 {
                        assert(rest[i - 1] == stages[i]);
                    }
                }
            },
        }
    }
}

/// Desugaring keeps the stage list well formed.
pub proof fn lemma_sp_desugar_wf(opts: Seq<OptV>, mode: CodecMode, stages: Seq<StageV>)
    requires
        optsv_wf(opts),
        stagesv_wf(stages),
    ensures
        sp_desugar_opts(opts, mode, stages) matches Ok(p) ==> stagesv_wf(p.1),
    decreases opts.len(),
{
    if opts.len() > 0 {
        let rest = opts.subrange(1, opts.len() as int);
        lemma_optsv_wf_index(opts, 0);
        match opts[0] {
            OptV::Switch(n) => {
                if n == seq![N_LOWER_E] || n == seq![N_LOWER_D] {
                    lemma_sp_desugar_wf(rest, if n == seq![N_LOWER_E] {
                        CodecMode::Encoding
                    } else {
                        CodecMode::Decoding
                    }, stages);
                } else if n == seq![N_LOWER_N] {
                    let st = StageV { name: nm_newline(), options: Seq::empty() };
                    assert(stagev_wf(st));
                    lemma_stagesv_wf_push(stages, st);
                    lemma_sp_desugar_wf(rest, mode, stages.push(st));
                } else if n == seq![N_LOWER_H] {
                    let st = StageV { name: nm_usage(), options: Seq::empty() };
                    assert(stagev_wf(st));
                    lemma_stagesv_wf_cons(st, Seq::empty());
                    lemma_sp_desugar_wf(rest, mode, seq![st]);
                }
            },
            OptV::Value(n, t) => {
                if n == seq![N_UPPER_I] {
                    let st = StageV {
                        name: nm_const(),
                        options: seq![OptV::Value(seq![N_UPPER_C], t)],
                    };
                    assert(optv_wf(OptV::Value(seq![N_UPPER_C], t)));
                    lemma_optsv_wf_cons(OptV::Value(seq![N_UPPER_C], t), Seq::empty());
                    assert(seq![OptV::Value(seq![N_UPPER_C], t)] + Seq::<OptV>::empty() =~= seq![
                        OptV::Value(seq![N_UPPER_C], t),
                    ]);
                    assert(stagev_wf(st));
                    lemma_stagesv_wf_cons(st, stages);
                    lemma_sp_desugar_wf(rest, mode, seq![st] + stages);
                } else if n == seq![N_UPPER_F] {
                    let o1 = OptV::Switch(seq![N_LOWER_C]);
                    let o2 = OptV::Value(seq![N_UPPER_F], t);
                    let st = StageV { name: nm_cat(), options: seq![o1, o2] };
                    assert(optv_wf(o1));
                    assert(optv_wf(o2));
                    lemma_optsv_wf_cons(o2, Seq::empty());
                    assert(seq![o2] + Seq::<OptV>::empty() =~= seq![o2]);
                    lemma_optsv_wf_cons(o1, seq![o2]);
                    assert(seq![o1] + seq![o2] =~= seq![o1, o2]);
                    assert(stagev_wf(st));
                    lemma_stagesv_wf_cons(st, stages);
                    lemma_sp_desugar_wf(rest, mode, seq![st] + stages);
                } else if n == seq![N_UPPER_O] {
                    let o1 = OptV::Value(seq![N_UPPER_O], t);
                    let st = StageV { name: nm_redirect(), options: seq![o1] };
                    assert(optv_wf(o1));
                    lemma_optsv_wf_cons(o1, Seq::empty());
                    assert(seq![o1] + Seq::<OptV>::empty() =~= seq![o1]);
                    assert(stagev_wf(st));
                    lemma_stagesv_wf_push(stages, st);
                    lemma_sp_desugar_wf(rest, mode, stages.push(st));
                }
            },
        }
    }
}

/// `stages_view` distributes over push.
proof fn lemma_stages_view_push(s: Seq<Stage>, a: Stage)
    ensures
        stages_view(s.push(a)) == stages_view(s).push(stage_view(a)),
    decreases s.len(),
{
    lemma_stages_view(s);
    lemma_stages_view(s.push(a));
    assert forall|i: int| 0 <= i < s.len() + 1 implies stages_view(s.push(a))[i] == stages_view(
        s,
    ).push(stage_view(a))[i] by {
        if i < s.len() {
            assert(s.push(a)[i] == s[i]);
        } else {
            assert(s.push(a)[i] == a);
        }
    }
    assert(stages_view(s.push(a)) =~= stages_view(s).push(stage_view(a)));
}

/// `stages_view` distributes over cons.
proof fn lemma_stages_view_cons2(a: Stage, r: Seq<Stage>)
    ensures
        stages_view(seq![a] + r) == seq![stage_view(a)] + stages_view(r),
{
    let s = seq![a] + r;
    assert(s.len() > 0 && s[0] == a);
    assert(s.subrange(1, s.len() as int) =~= r);
}

/// The view of a list's tail is the tail of its view.
proof fn lemma_opts_view_tail(s: Seq<CommandOption>)
    requires
        s.len() > 0,
    ensures
        opts_view(s.subrange(1, s.len() as int)) == opts_view(s).subrange(
            1,
            opts_view(s).len() as int,
        ),
{
    lemma_opts_view(s);
    assert(opts_view(s) == seq![opt_view(s[0])] + opts_view(s.subrange(1, s.len() as int)));
    assert(opts_view(s.subrange(1, s.len() as int)) =~= opts_view(s).subrange(
        1,
        opts_view(s).len() as int,
    ));
}

/// Desugars the top-level options into synthetic stages and the ambient
/// direction; the pure first half of `execute`, usable on its own by a
/// driver that runs the stages itself.
pub fn desugar(command: Command) -> (r: Result<(CodecMode, Vec<Stage>), CodecError>)
    requires
        cmdv_wf(command@),
    ensures
        match r {
            Ok(p) => ({
                &&& sp_desugar(command@) == Ok::<_, ErrModel>((p.0, stages_view(p.1@)))
                &&& stagesv_wf(stages_view(p.1@))
            }),
            Err(e) => ({
                &&& sp_desugar(command@) matches Err(d)
                &&& e@ == d
            }),
        },
{
    let Command { mut options, mut codecs } = command;
    let mut mode = CodecMode::Encoding;
    let ghost full_opts = opts_view(options@);
    let ghost full_codecs = stages_view(codecs@);
    while options.len() > 0
        invariant
            optsv_wf(opts_view(options@)),
            stagesv_wf(stages_view(codecs@)),
            full_opts == command@.options,
            full_codecs == command@.codecs,
            sp_desugar_opts(full_opts, CodecMode::Encoding, full_codecs) == sp_desugar_opts(
                opts_view(options@),
                mode,
                stages_view(codecs@),
            ),
        decreases options@.len(),
    {
        let ghost opts_pre = opts_view(options@);
        let ghost codecs_pre = stages_view(codecs@);
        let ghost mode_pre = mode;
        let ghost options_pre = options@;
        let o = options.remove(0);
        proof {
            lemma_opts_view(options_pre);
            assert(options@ =~= options_pre.subrange(1, options_pre.len() as int));
            lemma_opts_view_tail(options_pre);
            assert(opts_pre[0] == opt_view(o));
            assert(opts_view(options@) == opts_pre.subrange(1, opts_pre.len() as int));
            lemma_optsv_wf_index(opts_pre, 0);
        }
        let ghost rest = opts_pre.subrange(1, opts_pre.len() as int);
        match o {
            CommandOption::Switch(n) => {
                proof {
                    assert(opts_pre[0] == OptV::Switch(n@));
                }
                if n.len() == 1 && n[0] == N_LOWER_E {
                    proof {
                        assert(n@ =~= seq![N_LOWER_E]);
                    }
                    mode = CodecMode::Encoding;
                } else if n.len() == 1 && n[0] == N_LOWER_D {
                    proof {
                        assert(n@ =~= seq![N_LOWER_D]);
                    }
                    mode = CodecMode::Decoding;
                } else if n.len() == 1 && n[0] == N_LOWER_N {
                    proof {
                        assert(n@ =~= seq![N_LOWER_N]);
                    }
                    let st = Stage { name: mk_newline(), options: Vec::new() };
                    proof {
                        lemma_stages_view_push(codecs@, st);
                        assert(opts_view(st.options@) =~= Seq::<OptV>::empty());
                        assert(stagev_wf(stage_view(st)));
                        lemma_stagesv_wf_push(codecs_pre, stage_view(st));
                    }
                    codecs.push(st);
                } else if n.len() == 1 && n[0] == N_LOWER_H {
                    proof {
                        assert(n@ =~= seq![N_LOWER_H]);
                    }
                    let st = Stage { name: mk_usage(), options: Vec::new() };
                    let mut only: Vec<Stage> = Vec::new();
                    only.push(st);
                    proof {
                        assert(opts_view(st.options@) =~= Seq::<OptV>::empty());
                        assert(only@ =~= seq![st]);
                        lemma_stages_view(only@);
                        assert(stages_view(only@) =~= seq![stage_view(st)]);
                        assert(stagev_wf(stage_view(st)));
                        crate::commands::lemma_stagesv_wf_cons(
                            stage_view(st),
                            Seq::<StageV>::empty(),
                        );
                        assert(seq![stage_view(st)] + Seq::<StageV>::empty() =~= seq![
                            stage_view(st),
                        ]);
                    }
                    codecs = only;
                } else {
                    proof {
                        assert(n@ != seq![N_LOWER_E]);
                        assert(n@ != seq![N_LOWER_D]);
                        assert(n@ != seq![N_LOWER_N]);
                        assert(n@ != seq![N_LOWER_H]);
                    }
                    return Err(CodecError::Parse(n));
                }
            },
            CommandOption::Value { name: n, text } => {
                proof {
                    assert(opts_pre[0] == OptV::Value(n@, text_view(text)));
                }
                if n.len() == 1 && n[0] == N_UPPER_I {
                    proof {
                        assert(n@ =~= seq![N_UPPER_I]);
                    }
                    let ghost tv = text_view(text);
                    let mut opts_v: Vec<CommandOption> = Vec::new();
                    let co = CommandOption::Value { name: byte_name(N_UPPER_C), text };
                    proof {
                        assert(opt_view(co) == OptV::Value(seq![N_UPPER_C], tv));
                    }
                    opts_v.push(co);
                    let st = Stage { name: mk_const(), options: opts_v };
                    proof {
                        assert(st.options@ =~= seq![co]);
                        lemma_opts_view(st.options@);
                        assert(opts_view(st.options@) =~= seq![OptV::Value(seq![N_UPPER_C], tv)]);
                        assert(optv_wf(OptV::Value(seq![N_UPPER_C], tv)));
                        lemma_optsv_wf_cons(OptV::Value(seq![N_UPPER_C], tv), Seq::empty());
                        assert(seq![OptV::Value(seq![N_UPPER_C], tv)] + Seq::<OptV>::empty() =~= seq![
                            OptV::Value(seq![N_UPPER_C], tv),
                        ]);
                        assert(stagev_wf(stage_view(st)));
                        lemma_stages_view_cons2(st, codecs@);
                        lemma_stagesv_wf_cons(stage_view(st), codecs_pre);
                        assert(codecs@.insert(0, st) =~= seq![st] + codecs@);
                    }
                    codecs.insert(0, st);
                } else if n.len() == 1 && n[0] == N_UPPER_F {
                    proof {
                        assert(n@ =~= seq![N_UPPER_F]);
                    }
                    let ghost tv = text_view(text);
                    let mut opts_v: Vec<CommandOption> = Vec::new();
                    let c1 = CommandOption::Switch(byte_name(N_LOWER_C));
                    let c2 = CommandOption::Value { name: byte_name(N_UPPER_F), text };
                    proof {
                        assert(opt_view(c1) == OptV::Switch(seq![N_LOWER_C]));
                        assert(opt_view(c2) == OptV::Value(seq![N_UPPER_F], tv));
                    }
                    opts_v.push(c1);
                    opts_v.push(c2);
                    let st = Stage { name: mk_cat(), options: opts_v };
                    proof {
                        let o1 = OptV::Switch(seq![N_LOWER_C]);
                        let o2 = OptV::Value(seq![N_UPPER_F], tv);
                        assert(st.options@ =~= seq![c1, c2]);
                        lemma_opts_view(st.options@);
                        assert(opts_view(st.options@) =~= seq![o1, o2]);
                        assert(optv_wf(o1));
                        assert(optv_wf(o2));
                        lemma_optsv_wf_cons(o2, Seq::empty());
                        assert(seq![o2] + Seq::<OptV>::empty() =~= seq![o2]);
                        lemma_optsv_wf_cons(o1, seq![o2]);
                        assert(seq![o1] + seq![o2] =~= seq![o1, o2]);
                        assert(stagev_wf(stage_view(st)));
                        lemma_stages_view_cons2(st, codecs@);
                        lemma_stagesv_wf_cons(stage_view(st), codecs_pre);
                        assert(codecs@.insert(0, st) =~= seq![st] + codecs@);
                    }
                    codecs.insert(0, st);
                } else if n.len() == 1 && n[0] == N_UPPER_O {
                    proof {
                        assert(n@ =~= seq![N_UPPER_O]);
                    }
                    let ghost tv = text_view(text);
                    let mut opts_v: Vec<CommandOption> = Vec::new();
                    let co = CommandOption::Value { name: byte_name(N_UPPER_O), text };
                    proof {
                        assert(opt_view(co) == OptV::Value(seq![N_UPPER_O], tv));
                    }
                    opts_v.push(co);
                    let st = Stage { name: mk_redirect(), options: opts_v };
                    proof {
                        let o1 = OptV::Value(seq![N_UPPER_O], tv);
                        assert(st.options@ =~= seq![co]);
                        lemma_opts_view(st.options@);
                        assert(opts_view(st.options@) =~= seq![o1]);
                        assert(optv_wf(o1));
                        lemma_optsv_wf_cons(o1, Seq::empty());
                        assert(seq![o1] + Seq::<OptV>::empty() =~= seq![o1]);
                        assert(stagev_wf(stage_view(st)));
                        lemma_stages_view_push(codecs@, st);
                        lemma_stagesv_wf_push(codecs_pre, stage_view(st));
                    }
                    codecs.push(st);
                } else {
                    proof {
                        assert(n@ != seq![N_UPPER_I]);
                        assert(n@ != seq![N_UPPER_F]);
                        assert(n@ != seq![N_UPPER_O]);
                    }
                    return Err(CodecError::Parse(n));
                }
            },
        }
    }
    proof {
        assert(opts_view(options@) =~= Seq::<OptV>::empty());
    }
    Ok((mode, codecs))
}

/// Resolves a stage's parsed options into its run-time option map,
/// evaluating sub-pipeline values through the executor itself.
fn make_codec_options(codec: &Stage, info: &CodecMetaInfo, store: &mut FileStore) -> (r: Result<
    Options,
    CodecError,
>)
    requires
        stagev_wf(stage_view(*codec)),
    ensures
        match r {
            Ok(o) => ({
                &&& sp_resolve_options(
                    stage_view(*codec).options,
                    info.kinds(),
                    old(store)@,
                    Map::empty(),
                ) == Ok::<_, ErrModel>((o@, final(store)@))
                &&& o.wf()
            }),
            Err(e) => ({
                &&& sp_resolve_options(
                    stage_view(*codec).options,
                    info.kinds(),
                    old(store)@,
                    Map::empty(),
                ) matches Err(d)
                &&& e@ == d
            }),
        },
    decreases size_stage(stage_view(*codec)), 0nat,
{
    let ghost ov = stage_view(*codec).options;
    let ghost store0 = old(store)@;
    proof {
        lemma_opts_view(codec.options@);
    }
    let mut options = Options::new();
    let mut j: usize = 0;
    proof {
        assert(ov.subrange(0, ov.len() as int) =~= ov);
    }
    while j < codec.options.len()
        invariant
            stagev_wf(stage_view(*codec)),
            ov == stage_view(*codec).options,
            0 <= j <= codec.options@.len(),
            ov.len() == codec.options@.len(),
            forall|i: int| 0 <= i < ov.len() ==> ov[i] == opt_view(#[trigger] codec.options@[i]),
            options.wf(),
            store0 == old(store)@,
            sp_resolve_options(ov, info.kinds(), store0, Map::empty()) == sp_resolve_options(
                ov.subrange(j as int, ov.len() as int),
                info.kinds(),
                store@,
                options@,
            ),
        decreases codec.options@.len() - j,
    {
        let ghost tail = ov.subrange(j as int, ov.len() as int);
        proof {
            assert(tail[0] == ov[j as int]);
            assert(tail.subrange(1, tail.len() as int) =~= ov.subrange(
                j as int + 1,
                ov.len() as int,
            ));
            lemma_optsv_wf_at(ov, j as int);
        }
        match &codec.options[j] {
            CommandOption::Switch(n) => {
                options.insert_switch(n.as_slice());
            },
            CommandOption::Value { name, text } => {
                match text {
                    Text::String(v) => {
                        options.insert_text(name.as_slice(), v.as_slice());
                    },
                    Text::Codecs { input: seed, codecs } => {
                        proof {
                            lemma_size_opt_le(ov, j as int);
                            assert(opt_view(codec.options@[j as int]) == OptV::Value(
                                name@,
                                text_view(*text),
                            ));
                            assert(size_opt(ov[j as int]) == 1 + size_text(text_view(*text)));
                            assert(size_text(text_view(*text)) == 1 + size_stages(
                                stages_view(codecs@),
                            ));
                            assert(size_stage(stage_view(*codec)) == 1 + size_opts(ov));
                        }
                        let sub = match run_codecs(seed, codecs, CodecMode::Encoding, info, store) {
                            Ok(v) => v,
                            Err(e) => {
                                return Err(e);
                            },
                        };
                        options.insert_text(name.as_slice(), sub.as_slice());
                    },
                }
            },
        }
        j += 1;
    }
    proof {
        assert(ov.subrange(ov.len() as int, ov.len() as int) =~= Seq::<OptV>::empty());
    }
    Ok(options)
}

/// List well-formedness gives each member's, by position.
proof fn lemma_optsv_wf_at(s: Seq<OptV>, j: int)
    requires
        optsv_wf(s),
        0 <= j < s.len(),
    ensures
        optv_wf(s[j]),
        forall|i: int| j <= i < s.len() ==> optsv_wf(s.subrange(i, s.len() as int)),
    decreases j + s.len(),
{
    assert forall|i: int| 0 <= i < s.len() implies optsv_wf(
        s.subrange(i, s.len() as int),
    ) by {
        lemma_optsv_wf_suffix(s, i);
    }
    lemma_optsv_wf_index(s, j);
}

proof fn lemma_optsv_wf_suffix(s: Seq<OptV>, i: int)
    requires
        optsv_wf(s),
        0 <= i <= s.len(),
    ensures
        optsv_wf(s.subrange(i, s.len() as int)),
    decreases i,
{
    if i == 0 {
        assert(s.subrange(0, s.len() as int) =~= s);
    } else {
        let rest = s.subrange(1, s.len() as int);
        lemma_optsv_wf_suffix(rest, i - 1);
        assert(rest.subrange(i - 1, rest.len() as int) =~= s.subrange(i, s.len() as int));
    }
}

/// Runs one stage: options, direction override, lookup, transform.
fn run_codec(
    input: &Vec<u8>,
    codec: &Stage,
    mode: CodecMode,
    info: &CodecMetaInfo,
    store: &mut FileStore,
) -> (r: Result<Vec<u8>, CodecError>)
    requires
        stagev_wf(stage_view(*codec)),
    ensures
        match r {
            Ok(v) => sp_run_stage(input@, stage_view(*codec), mode, info.kinds(), old(store)@)
                == Ok::<_, ErrModel>((v@, final(store)@)),
            Err(e) => ({
                &&& sp_run_stage(input@, stage_view(*codec), mode, info.kinds(), old(store)@)
                    matches Err(d)
                &&& e@ == d
            }),
        },
    decreases size_stage(stage_view(*codec)), 1nat,
{
    let options = match make_codec_options(codec, info, store) {
        Ok(o) => o,
        Err(e) => {
            return Err(e);
        },
    };
    let mut m = mode;
    let e_name = byte_name(N_LOWER_E);
    let d_name = byte_name(N_LOWER_D);
    if options.get_switch(e_name.as_slice()) {
        m = CodecMode::Encoding;
    }
    if options.get_switch(d_name.as_slice()) {
        m = CodecMode::Decoding;
    }
    proof {
        assert(m == sp_mode_of(options@, mode));
    }
    let kind = match info.lookup(codec.name.as_slice()) {
        Some(k) => k,
        None => {
            return Err(CodecError::Lookup(copy_bytes(codec.name.as_slice())));
        },
    };
    kind.run_kind(input, m, &options, info, store)
}

/// Runs the stages in order over in-memory buffers; each stage's output
/// becomes the next stage's input.
fn run_codecs(
    input: &Vec<u8>,
    codec_list: &Vec<Stage>,
    mode: CodecMode,
    info: &CodecMetaInfo,
    store: &mut FileStore,
) -> (r: Result<Vec<u8>, CodecError>)
    requires
        stagesv_wf(stages_view(codec_list@)),
    ensures
        match r {
            Ok(v) => sp_run_codecs(input@, stages_view(codec_list@), mode, info.kinds(), old(
                store,
            )@) == Ok::<_, ErrModel>((v@, final(store)@)),
            Err(e) => ({
                &&& sp_run_codecs(input@, stages_view(codec_list@), mode, info.kinds(), old(
                    store,
                )@) matches Err(d)
                &&& e@ == d
            }),
        },
    decreases size_stages(stages_view(codec_list@)), 2nat,
{
    let ghost sv = stages_view(codec_list@);
    let ghost store0 = old(store)@;
    proof {
        lemma_stages_view(codec_list@);
    }
    let mut cur = copy_bytes(input.as_slice());
    let mut i: usize = 0;
    proof {
        assert(sv.subrange(0, sv.len() as int) =~= sv);
    }
    while i < codec_list.len()
        invariant
            stagesv_wf(sv),
            sv == stages_view(codec_list@),
            0 <= i <= codec_list@.len(),
            sv.len() == codec_list@.len(),
            forall|k: int|
                0 <= k < sv.len() ==> sv[k] == stage_view(#[trigger] codec_list@[k]),
            store0 == old(store)@,
            sp_run_codecs(input@, sv, mode, info.kinds(), store0) == sp_run_codecs(
                cur@,
                sv.subrange(i as int, sv.len() as int),
                mode,
                info.kinds(),
                store@,
            ),
        decreases codec_list@.len() - i,
    {
        let ghost tail = sv.subrange(i as int, sv.len() as int);
        proof {
            assert(tail[0] == sv[i as int]);
            assert(tail.subrange(1, tail.len() as int) =~= sv.subrange(
                i as int + 1,
                sv.len() as int,
            ));
            lemma_stagesv_wf_at(sv, i as int);
            lemma_size_stage_le(sv, i as int);
        }
        let st = &codec_list[i];
        cur = match run_codec(&cur, st, mode, info, store) {
            Ok(v) => v,
            Err(e) => {
                return Err(e);
            },
        };
        i += 1;
    }
    proof {
        assert(sv.subrange(sv.len() as int, sv.len() as int) =~= Seq::<StageV>::empty());
    }
    Ok(cur)
}

/// List well-formedness gives each stage's, by position.
proof fn lemma_stagesv_wf_at(s: Seq<StageV>, j: int)
    requires
        stagesv_wf(s),
        0 <= j < s.len(),
    ensures
        stagev_wf(s[j]),
{
    lemma_stagesv_wf_index(s, j);
}

/// Parses nothing, runs everything: desugars the command's top-level
/// options and feeds the input through the resulting stage chain.
pub fn execute(
    command: Command,
    input: &Vec<u8>,
    info: &CodecMetaInfo,
    store: &mut FileStore,
) -> (r: Result<Vec<u8>, CodecError>)
    requires
        cmdv_wf(command@),
    ensures
        match r {
            Ok(v) => sp_execute(command@, input@, info.kinds(), old(store)@) == Ok::<_, ErrModel>(
                (v@, final(store)@),
            ),
            Err(e) => ({
                &&& sp_execute(command@, input@, info.kinds(), old(store)@) matches Err(d)
                &&& e@ == d
            }),
        },
{
    let (mode, codecs) = match desugar(command) {
        Ok(p) => p,
        Err(e) => {
            return Err(e);
        },
    };
    run_codecs(input, &codecs, mode, info, store)
}

} // verus!
