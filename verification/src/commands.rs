//! The pipeline AST the parser produces and the executor reads.
//!
//! A command is a list of top-level options followed by a list of stages;
//! a stage is a name with its own options; a value option's text is either
//! literal bytes or a bracketed sub-pipeline, whose output becomes the
//! value at run time. Each executable node has a ghost mirror (`…V`) over
//! sequences, which the contracts speak of.

use vstd::prelude::*;

verus! {

/// A whole command line: top-level options, then the stage chain.
pub struct Command {
    pub options: Vec<CommandOption>,
    pub codecs: Vec<Stage>,
}

/// One stage of the pipeline: a transform name and its options.
pub struct Stage {
    pub name: Vec<u8>,
    pub options: Vec<CommandOption>,
}

/// One option as parsed: a bare switch or a name with a text value.
pub enum CommandOption {
    Switch(Vec<u8>),
    Value { name: Vec<u8>, text: Text },
}

/// A value option's text: literal bytes, or a sub-pipeline applied to a
/// literal seed.
pub enum Text {
    String(Vec<u8>),
    Codecs { input: Vec<u8>, codecs: Vec<Stage> },
}

/// Ghost mirror of `Command`.
pub struct CommandV {
    pub options: Seq<OptV>,
    pub codecs: Seq<StageV>,
}

/// Ghost mirror of `Stage`.
pub struct StageV {
    pub name: Seq<u8>,
    pub options: Seq<OptV>,
}

/// Ghost mirror of `CommandOption`.
pub enum OptV {
    Switch(Seq<u8>),
    Value(Seq<u8>, TextV),
}

/// Ghost mirror of `Text`.
pub enum TextV {
    Lit(Seq<u8>),
    Sub(Seq<u8>, Seq<StageV>),
}

pub open spec fn text_view(t: Text) -> TextV
    decreases t,
    via text_view_decreases
{
    if t is String {
        TextV::Lit(t->0@)
    } else {
        TextV::Sub(t->input@, stages_view(t->codecs@))
    }
}

#[via_fn]
proof fn text_view_decreases(t: Text) {
    if !(t is String) {
        assert(decreases_to!(t => t->codecs));
        assert(decreases_to!(t->codecs => t->codecs@));
    }
}

pub open spec fn opt_view(o: CommandOption) -> OptV
    decreases o,
{
    if o is Switch {
        OptV::Switch(o->Switch_0@)
    } else {
        OptV::Value(o->name@, text_view(o->text))
    }
}

pub open spec fn opts_view(s: Seq<CommandOption>) -> Seq<OptV>
    decreases s,
{
    if s.len() == 0 {
        Seq::empty()
    } else {
        seq![opt_view(s[0])] + opts_view(s.subrange(1, s.len() as int))
    }
}

pub open spec fn stage_view(s: Stage) -> StageV
    decreases s,
    via stage_view_decreases
{
    StageV { name: s.name@, options: opts_view(s.options@) }
}

#[via_fn]
proof fn stage_view_decreases(s: Stage) {
    assert(decreases_to!(s => s.options));
    assert(decreases_to!(s.options => s.options@));
}

pub open spec fn stages_view(s: Seq<Stage>) -> Seq<StageV>
    decreases s,
{
    if s.len() == 0 {
        Seq::empty()
    } else {
        seq![stage_view(s[0])] + stages_view(s.subrange(1, s.len() as int))
    }
}

/// A stage list's view has the element-wise views.
pub proof fn lemma_stages_view(s: Seq<Stage>)
    ensures
        stages_view(s).len() == s.len(),
        forall|i: int| 0 <= i < s.len() ==> stages_view(s)[i] == stage_view(#[trigger] s[i]),
    decreases s.len(),
{
    if s.len() > 0 {
        let rest = s.subrange(1, s.len() as int);
        lemma_stages_view(rest);
        assert forall|i: int| 0 <= i < s.len() implies stages_view(s)[i] == stage_view(
            #[trigger] s[i],
        ) by {
            if i > 0 {
                assert(rest[i - 1] == s[i]);
            }
        }
    }
}

/// An option list's view has the element-wise views.
pub proof fn lemma_opts_view(s: Seq<CommandOption>)
    ensures
        opts_view(s).len() == s.len(),
        forall|i: int| 0 <= i < s.len() ==> opts_view(s)[i] == opt_view(#[trigger] s[i]),
    decreases s.len(),
{
    if s.len() > 0 {
        let rest = s.subrange(1, s.len() as int);
        lemma_opts_view(rest);
        assert forall|i: int| 0 <= i < s.len() implies opts_view(s)[i] == opt_view(
            #[trigger] s[i],
        ) by {
            if i > 0 {
                assert(rest[i - 1] == s[i]);
            }
        }
    }
}

impl View for Text {
    type V = TextV;

    open spec fn view(&self) -> TextV {
        text_view(*self)
    }
}

impl View for CommandOption {
    type V = OptV;

    open spec fn view(&self) -> OptV {
        opt_view(*self)
    }
}

impl View for Stage {
    type V = StageV;

    open spec fn view(&self) -> StageV {
        stage_view(*self)
    }
}

impl View for Command {
    type V = CommandV;

    open spec fn view(&self) -> CommandV {
        CommandV { options: opts_view(self.options@), codecs: stages_view(self.codecs@) }
    }
}

/// Structural size of a stage list; the executor's recursion measure. A
/// sub-pipeline inside any option of any stage weighs strictly less than
/// the list holding it.
pub open spec fn size_stages(s: Seq<StageV>) -> nat
    decreases s,
{
    if s.len() == 0 {
        1
    } else {
        size_stage(s[0]) + size_stages(s.subrange(1, s.len() as int))
    }
}

pub open spec fn size_stage(s: StageV) -> nat
    decreases s,
{
    1 + size_opts(s.options)
}

pub open spec fn size_opts(s: Seq<OptV>) -> nat
    decreases s,
{
    if s.len() == 0 {
        1
    } else {
        size_opt(s[0]) + size_opts(s.subrange(1, s.len() as int))
    }
}

pub open spec fn size_opt(o: OptV) -> nat
    decreases o,
{
    match o {
        OptV::Switch(_) => 1,
        OptV::Value(_, t) => 1 + size_text(t),
    }
}

pub open spec fn size_text(t: TextV) -> nat
    decreases t,
{
    match t {
        TextV::Lit(_) => 1,
        TextV::Sub(_, cs) => 1 + size_stages(cs),
    }
}

/// The name-case rule on a parsed option: a switch never starts with a
/// capital, a value option always does, and names are never empty.
pub open spec fn optv_wf(o: OptV) -> bool
    decreases o,
{
    match o {
        OptV::Switch(n) => n.len() > 0 && !crate::bytes::upper_first(n),
        OptV::Value(n, t) => n.len() > 0 && crate::bytes::upper_first(n) && textv_wf(t),
    }
}

pub open spec fn optsv_wf(s: Seq<OptV>) -> bool
    decreases s,
{
    if s.len() == 0 {
        true
    } else {
        optv_wf(s[0]) && optsv_wf(s.subrange(1, s.len() as int))
    }
}

pub open spec fn textv_wf(t: TextV) -> bool
    decreases t,
{
    match t {
        TextV::Lit(_) => true,
        TextV::Sub(_, cs) => stagesv_wf(cs),
    }
}

pub open spec fn stagev_wf(s: StageV) -> bool
    decreases s,
{
    optsv_wf(s.options)
}

pub open spec fn stagesv_wf(s: Seq<StageV>) -> bool
    decreases s,
{
    if s.len() == 0 {
        true
    } else {
        stagev_wf(s[0]) && stagesv_wf(s.subrange(1, s.len() as int))
    }
}

pub open spec fn cmdv_wf(c: CommandV) -> bool {
    optsv_wf(c.options) && stagesv_wf(c.codecs)
}

/// Well-formedness of a list is well-formedness of each member.
pub proof fn lemma_optsv_wf_index(s: Seq<OptV>, i: int)
    requires
        optsv_wf(s),
        0 <= i < s.len(),
    ensures
        optv_wf(s[i]),
    decreases i,
{
    if i > 0 {
        lemma_optsv_wf_index(s.subrange(1, s.len() as int), i - 1);
        assert(s.subrange(1, s.len() as int)[i - 1] == s[i]);
    }
}

/// Well-formedness of a stage list is well-formedness of each stage.
pub proof fn lemma_stagesv_wf_index(s: Seq<StageV>, i: int)
    requires
        stagesv_wf(s),
        0 <= i < s.len(),
    ensures
        stagev_wf(s[i]),
    decreases i,
{
    if i > 0 {
        lemma_stagesv_wf_index(s.subrange(1, s.len() as int), i - 1);
        assert(s.subrange(1, s.len() as int)[i - 1] == s[i]);
    }
}

/// A cons of well-formed pieces is well formed.
pub proof fn lemma_optsv_wf_cons(a: OptV, r: Seq<OptV>)
    requires
        optv_wf(a),
        optsv_wf(r),
    ensures
        optsv_wf(seq![a] + r),
{
    let s = seq![a] + r;
    assert(s[0] == a);
    assert(s.subrange(1, s.len() as int) =~= r);
}

/// A cons of well-formed pieces is well formed.
pub proof fn lemma_stagesv_wf_cons(a: StageV, r: Seq<StageV>)
    requires
        stagev_wf(a),
        stagesv_wf(r),
    ensures
        stagesv_wf(seq![a] + r),
{
    let s = seq![a] + r;
    assert(s[0] == a);
    assert(s.subrange(1, s.len() as int) =~= r);
}

/// A snoc of well-formed pieces is well formed.
pub proof fn lemma_stagesv_wf_push(s: Seq<StageV>, a: StageV)
    requires
        stagesv_wf(s),
        stagev_wf(a),
    ensures
        stagesv_wf(s.push(a)),
    decreases s.len(),
{
    if s.len() == 0 {
        assert(s.push(a)[0] == a);
        assert(s.push(a).subrange(1, 1) =~= Seq::<StageV>::empty());
        assert(stagesv_wf(Seq::<StageV>::empty()));
        assert(stagesv_wf(s.push(a)));
    } else {
        lemma_stagesv_wf_push(s.subrange(1, s.len() as int), a);
        assert(s.push(a)[0] == s[0]);
        assert(stagev_wf(s[0]));
        assert(s.push(a).subrange(1, s.len() as int + 1) =~= s.subrange(1, s.len() as int).push(a));
        assert(stagesv_wf(s.push(a)));
    }
}

pub proof fn lemma_size_stages_pos(s: Seq<StageV>)
    ensures
        size_stages(s) >= 1,
{
    if s.len() > 0 {
        assert(size_stage(s[0]) == 1 + size_opts(s[0].options));
    }
}

pub proof fn lemma_size_opts_pos(s: Seq<OptV>)
    ensures
        size_opts(s) >= 1,
{
    if s.len() > 0 {
        assert(size_opt(s[0]) >= 1) by {
            if s[0] is Switch {
            } else {
            }
        }
    }
}

/// Every stage in a list weighs strictly less than the whole list.
pub proof fn lemma_size_stage_le(s: Seq<StageV>, i: int)
    requires
        0 <= i < s.len(),
    ensures
        size_stage(s[i]) < size_stages(s),
    decreases s.len(),
{
    if i == 0 {
        lemma_size_stages_pos(s.subrange(1, s.len() as int));
    } else {
        lemma_size_stage_le(s.subrange(1, s.len() as int), i - 1);
        assert(s.subrange(1, s.len() as int)[i - 1] == s[i]);
    }
}

/// Every option in a list weighs strictly less than the whole list.
pub proof fn lemma_size_opt_le(s: Seq<OptV>, i: int)
    requires
        0 <= i < s.len(),
    ensures
        size_opt(s[i]) < size_opts(s),
    decreases s.len(),
{
    if i == 0 {
        lemma_size_opts_pos(s.subrange(1, s.len() as int));
    } else {
        lemma_size_opt_le(s.subrange(1, s.len() as int), i - 1);
        assert(s.subrange(1, s.len() as int)[i - 1] == s[i]);
    }
}

} // verus!
