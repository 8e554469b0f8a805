//! The render engine: builds an in-memory plan from the entries of a template
//! tree (substituting variables into paths and contents), then decides, under
//! the configured conflict policy, which planned entries may be committed.
//!
//! The engine itself never touches the filesystem; a caller walks the
//! template tree, hands the entries in, checks which planned destinations
//! already exist, and writes the selected entries out.

use vstd::prelude::*;

use crate::error::Error;
use crate::strutil::{
    concat3, contains_str, leading_char_count, seq_contains_str, strip_prefix_rep,
    strip_prefix_rep_seq, strip_leading_char, strs_view, to_owned_string,
};
use crate::template::{render_of, render_text, Context, ValueV};

verus! {

/// What a template tree entry carries: a regular file's text, or a symbolic
/// link's target (which is never substituted into).
#[derive(Debug, Clone)]
pub enum Payload {
    File(String),
    Symlink(String),
}

/// The mathematical shape of a `Payload`.
pub enum PayloadV {
    File(Seq<char>),
    Symlink(Seq<char>),
}

impl View for Payload {
    type V = PayloadV;

    open spec fn view(&self) -> PayloadV {
        match self {
            Payload::File(s) => PayloadV::File(s@),
            Payload::Symlink(s) => PayloadV::Symlink(s@),
        }
    }
}

/// One entry of the template tree, as the caller's tree walk found it:
/// the absolute source path and what the entry holds.
#[derive(Debug)]
pub struct TemplateEntry {
    pub path: String,
    pub payload: Payload,
}

/// The mathematical shape of a `TemplateEntry`.
pub struct TemplateEntryV {
    pub path: Seq<char>,
    pub payload: PayloadV,
}

impl View for TemplateEntry {
    type V = TemplateEntryV;

    open spec fn view(&self) -> TemplateEntryV {
        TemplateEntryV { path: self.path@, payload: self.payload@ }
    }
}

/// One planned destination: the final path and the final payload to place
/// there.
#[derive(Debug)]
pub struct PlanEntry {
    pub dest_path: String,
    pub payload: Payload,
}

/// The mathematical shape of a `PlanEntry`.
pub struct PlanEntryV {
    pub dest_path: Seq<char>,
    pub payload: PayloadV,
}

impl View for PlanEntry {
    type V = PlanEntryV;

    open spec fn view(&self) -> PlanEntryV {
        PlanEntryV { dest_path: self.dest_path@, payload: self.payload@ }
    }
}

/// The fully-computed mapping from destination path to final payload. It is
/// built completely before any destination path is touched, so that conflict
/// checking and committing are two separate phases over the same plan.
#[derive(Debug)]
pub struct RenderPlan {
    pub entries: Vec<PlanEntry>,
}

/// A templating failure, with the offending relative path inside the template
/// and the substitution engine's report.
pub struct PlanErr {
    pub path: Seq<char>,
    pub detail: Seq<char>,
}

pub open spec fn entries_view(v: Seq<TemplateEntry>) -> Seq<TemplateEntryV> {
    v.map_values(|e: TemplateEntry| e@)
}

pub open spec fn plan_view(v: Seq<PlanEntry>) -> Seq<PlanEntryV> {
    v.map_values(|e: PlanEntry| e@)
}

/// True when `p` is the destination of the first plan entry whose
/// destination already exists.
pub open spec fn first_collision(pv: Seq<PlanEntryV>, ex: Seq<bool>, p: Seq<char>) -> bool {
    exists|k: int|
        0 <= k < ex.len() && ex[k] && p == pv[k].dest_path && (forall|j: int|
            0 <= j < k ==> !ex[j])
}

/// An entry's path relative to the template root: the root prefix is removed,
/// then any leading path separators.
pub open spec fn strip_rel_seq(path: Seq<char>, root: Seq<char>) -> Seq<char> {
    let a = strip_prefix_rep_seq(path, root);
    let b = a.subrange(leading_char_count(a, '/') as int, a.len() as int);
    b.subrange(leading_char_count(b, '\\') as int, b.len() as int)
}

/// Joins a base directory and a relative path with a single separator.
pub open spec fn join_path_seq(base: Seq<char>, rel: Seq<char>) -> Seq<char> {
    if base.len() == 0 {
        rel
    } else if base.last() == '/' {
        base + rel
    } else {
        base + seq!['/'] + rel
    }
}

/// Computes an entry's path relative to the template root.
pub fn strip_rel(path: &str, root: &str) -> (r: String)
    ensures
        r@ == strip_rel_seq(path@, root@),
{
    let a = strip_prefix_rep(path, root);
    let b = strip_leading_char(a.as_str(), '/');
    let c = strip_leading_char(b.as_str(), '\\');
    c
}

/// Joins a base directory and a relative path.
pub fn join_path(base: &str, rel: &str) -> (r: String)
    ensures
        r@ == join_path_seq(base@, rel@),
{
    let blen = base.unicode_len();
    if blen == 0 {
        to_owned_string(rel)
    } else if base.get_char(blen - 1) == '/' {
        crate::strutil::concat2(base, rel)
    } else {
        let r = concat3(base, "/", rel);
        proof {
            reveal_strlit("/");
            assert("/"@ =~= seq!['/']);
        }
        r
    }
}

/// What the plan holds for one template entry: its relative path is rendered;
/// a symlink's target is carried over verbatim; a file's content is rendered
/// unless the rendered relative path is excluded, in which case the content
/// is carried over verbatim.
pub open spec fn entry_result(
    e: TemplateEntryV,
    tpl: Seq<char>,
    out: Seq<char>,
    ctx: Map<Seq<char>, ValueV>,
    excl: Seq<Seq<char>>,
) -> Result<PlanEntryV, PlanErr> {
    let rel = strip_rel_seq(e.path, tpl);
    match render_of(rel, ctx) {
        Err(d) => Err(PlanErr { path: rel, detail: d }),
        Ok(rendered) => {
            let dest = join_path_seq(out, rendered);
            match e.payload {
                PayloadV::Symlink(t) => Ok(PlanEntryV { dest_path: dest, payload: PayloadV::Symlink(t) }),
                PayloadV::File(content) => if seq_contains_str(excl, rendered) {
                    Ok(PlanEntryV { dest_path: dest, payload: PayloadV::File(content) })
                } else {
                    match render_of(content, ctx) {
                        Err(d) => Err(PlanErr { path: rel, detail: d }),
                        Ok(rc) => Ok(PlanEntryV { dest_path: dest, payload: PayloadV::File(rc) }),
                    }
                },
            }
        },
    }
}

/// The plan for a whole sequence of template entries: the entries' planned
/// forms in order, or the first templating failure.
pub open spec fn plan_result(
    es: Seq<TemplateEntryV>,
    tpl: Seq<char>,
    out: Seq<char>,
    ctx: Map<Seq<char>, ValueV>,
    excl: Seq<Seq<char>>,
) -> Result<Seq<PlanEntryV>, PlanErr>
    decreases es.len(),
{
    if es.len() == 0 {
        Ok(Seq::empty())
    } else {
        match plan_result(es.drop_last(), tpl, out, ctx, excl) {
            Err(pe) => Err(pe),
            Ok(pre) => match entry_result(es.last(), tpl, out, ctx, excl) {
                Err(pe) => Err(pe),
                Ok(p) => Ok(pre.push(p)),
            },
        }
    }
}

/// The exclusion patterns joined under the entry directory and rendered, in
/// order, or the first failure.
pub open spec fn exclusion_result(
    entry_dir: Seq<char>,
    pats: Seq<Seq<char>>,
    ctx: Map<Seq<char>, ValueV>,
) -> Result<Seq<Seq<char>>, PlanErr>
    decreases pats.len(),
{
    if pats.len() == 0 {
        Ok(Seq::empty())
    } else {
        match exclusion_result(entry_dir, pats.drop_last(), ctx) {
            Err(pe) => Err(pe),
            Ok(pre) => {
                let text = entry_dir + seq!['/'] + pats.last();
                match render_of(text, ctx) {
                    Err(d) => Err(PlanErr { path: text, detail: d }),
                    Ok(r) => Ok(pre.push(r)),
                }
            },
        }
    }
}

/// The subset of a plan that a commit may write, given which destinations
/// already exist: everything under overwrite, otherwise only the entries
/// whose destination does not exist yet.
pub open spec fn commit_set(plan: Seq<PlanEntryV>, ex: Seq<bool>, overwrite: bool) -> Seq<
    PlanEntryV,
>
    decreases plan.len(),
{
    if plan.len() == 0 {
        Seq::empty()
    } else {
        let pre = commit_set(plan.drop_last(), ex.drop_last(), overwrite);
        if overwrite || !ex.last() {
            pre.push(plan.last())
        } else {
            pre
        }
    }
}

/// The render engine for one invocation: where the template lives, where the
/// output goes, the substitution context, the conflict policy, and the
/// already-rendered exclusion paths.
pub struct Render {
    template_path: String,
    entry_dir_name: String,
    output_path: String,
    context: Context,
    overwrite_if_exists: bool,
    skip_if_exists: bool,
    exclude_render_paths: Vec<String>,
}

impl Render {
    pub closed spec fn spec_template_path(&self) -> Seq<char> {
        self.template_path@
    }

    pub closed spec fn spec_entry_dir_name(&self) -> Seq<char> {
        self.entry_dir_name@
    }

    pub closed spec fn spec_output_path(&self) -> Seq<char> {
        self.output_path@
    }

    pub closed spec fn spec_context(&self) -> Map<Seq<char>, ValueV> {
        self.context@
    }

    pub closed spec fn spec_overwrite(&self) -> bool {
        self.overwrite_if_exists
    }

    pub closed spec fn spec_skip(&self) -> bool {
        self.skip_if_exists
    }

    pub closed spec fn spec_exclusions(&self) -> Seq<Seq<char>> {
        strs_view(self.exclude_render_paths@)
    }

    /// Sets an engine up. Each exclusion pattern is joined under the entry
    /// directory name and rendered once, so that later exclusion checks
    /// compare rendered paths; a pattern that fails to render aborts with a
    /// templating error.
    pub fn new(
        template_path: String,
        entry_dir_name: &str,
        output_path: String,
        context: Context,
        overwrite_if_exists: bool,
        skip_if_exists: bool,
        exclude_render_paths: Vec<String>,
    ) -> (r: Result<Render, Error>)
        ensures
            ({
                let res = exclusion_result(entry_dir_name@, strs_view(exclude_render_paths@), context@);
                match r {
                    Ok(rd) => res is Ok && rd.spec_template_path() == template_path@
                        && rd.spec_entry_dir_name() == entry_dir_name@
                        && rd.spec_output_path() == output_path@
                        && rd.spec_context() == context@
                        && rd.spec_overwrite() == overwrite_if_exists
                        && rd.spec_skip() == skip_if_exists
                        && rd.spec_exclusions() == res->Ok_0,
                    Err(e) => res is Err && (e matches Error::TemplatingFailed { path, detail }
                        && path@ == res->Err_0.path && detail@ == res->Err_0.detail),
                }
            }),
    {
        let ghost pats = strs_view(exclude_render_paths@);
        let n = exclude_render_paths.len();
        let mut rendered: Vec<String> = Vec::new();
        let mut i: usize = 0;
        proof {
            assert(pats.subrange(0, 0) =~= Seq::<Seq<char>>::empty());
            assert(strs_view(rendered@) =~= Seq::<Seq<char>>::empty());
        }
        while i < n
            invariant
                0 <= i <= n,
                n == exclude_render_paths@.len(),
                pats == strs_view(exclude_render_paths@),
                exclusion_result(entry_dir_name@, pats.subrange(0, i as int), context@) == Ok::<
                    Seq<Seq<char>>,
                    PlanErr,
                >(strs_view(rendered@)),
            decreases n - i,
        {
            let text = concat3(entry_dir_name, "/", exclude_render_paths[i].as_str());
            proof {
                reveal_strlit("/");
                assert("/"@ =~= seq!['/']);
                assert(text@ == entry_dir_name@ + seq!['/'] + pats[i as int]);
            }
            match render_text(text.as_str(), &context) {
                Err(d) => {
                    proof {
                        assert(pats.subrange(0, i + 1).drop_last() =~= pats.subrange(0, i as int));
                        assert(pats.subrange(0, i + 1).last() == pats[i as int]);
                        lemma_exclusion_prefix_err(entry_dir_name@, pats, context@, i as int);
                    }
                    return Err(Error::TemplatingFailed { path: text, detail: d });
                },
                Ok(rp) => {
                    let ghost before = rendered@;
                    rendered.push(rp);
                    proof {
                        assert(pats.subrange(0, i + 1).drop_last() =~= pats.subrange(0, i as int));
                        assert(pats.subrange(0, i + 1).last() == pats[i as int]);
                        assert(strs_view(rendered@) =~= strs_view(before).push(rendered@.last()@));
                    }
                },
            }
            i += 1;
        }
        proof {
            assert(pats.subrange(0, n as int) =~= pats);
        }
        Ok(Render {
            template_path,
            entry_dir_name: to_owned_string(entry_dir_name),
            output_path,
            context,
            overwrite_if_exists,
            skip_if_exists,
            exclude_render_paths: rendered,
        })
    }

    /// Builds the render plan for the given template entries, in order:
    /// every path and every non-excluded file content is substituted, and the
    /// first failure aborts the whole plan, identifying the offending
    /// relative path.
    pub fn build_plan(&self, entries: &Vec<TemplateEntry>) -> (r: Result<RenderPlan, Error>)
        ensures
            ({
                let res = plan_result(
                    entries_view(entries@),
                    self.spec_template_path(),
                    self.spec_output_path(),
                    self.spec_context(),
                    self.spec_exclusions(),
                );
                match r {
                    Ok(plan) => res is Ok && plan_view(plan.entries@) == res->Ok_0,
                    Err(e) => res is Err && (e matches Error::TemplatingFailed { path, detail }
                        && path@ == res->Err_0.path && detail@ == res->Err_0.detail),
                }
            }),
    {
        let ghost es = entries_view(entries@);
        let ghost tpl = self.spec_template_path();
        let ghost out = self.spec_output_path();
        let ghost ctx = self.spec_context();
        let ghost excl = self.spec_exclusions();
        let n = entries.len();
        let mut acc: Vec<PlanEntry> = Vec::new();
        let mut i: usize = 0;
        proof {
            assert(es.subrange(0, 0) =~= Seq::<TemplateEntryV>::empty());
            assert(plan_view(acc@) =~= Seq::<PlanEntryV>::empty());
        }
        while i < n
            invariant
                0 <= i <= n,
                n == entries@.len(),
                es == entries_view(entries@),
                tpl == self.spec_template_path(),
                out == self.spec_output_path(),
                ctx == self.spec_context(),
                excl == self.spec_exclusions(),
                plan_result(es.subrange(0, i as int), tpl, out, ctx, excl) == Ok::<
                    Seq<PlanEntryV>,
                    PlanErr,
                >(plan_view(acc@)),
            decreases n - i,
        {
            let e = &entries[i];
            let rel = strip_rel(e.path.as_str(), self.template_path.as_str());
            proof {
                assert(es[i as int] == entries@[i as int]@);
                assert(es.subrange(0, i + 1).drop_last() =~= es.subrange(0, i as int));
                assert(es.subrange(0, i + 1).last() == es[i as int]);
            }
            match render_text(rel.as_str(), &self.context) {
                Err(d) => {
                    proof {
                        lemma_plan_prefix_err(es, tpl, out, ctx, excl, i as int);
                    }
                    return Err(Error::TemplatingFailed { path: rel, detail: d });
                },
                Ok(rendered) => {
                    let dest = join_path(self.output_path.as_str(), rendered.as_str());
                    let ghost before = acc@;
                    match &e.payload {
                        Payload::Symlink(t) => {
                            acc.push(PlanEntry { dest_path: dest, payload: Payload::Symlink(t.clone()) });
                        },
                        Payload::File(content) => {
                            if contains_str(&self.exclude_render_paths, rendered.as_str()) {
                                acc.push(PlanEntry { dest_path: dest, payload: Payload::File(content.clone()) });
                            } else {
                                match render_text(content.as_str(), &self.context) {
                                    Err(d) => {
                                        proof {
                                            lemma_plan_prefix_err(es, tpl, out, ctx, excl, i as int);
                                        }
                                        return Err(Error::TemplatingFailed { path: rel, detail: d });
                                    },
                                    Ok(rc) => {
                                        acc.push(PlanEntry { dest_path: dest, payload: Payload::File(rc) });
                                    },
                                }
                            }
                        },
                    }
                    proof {
                        assert(acc@.drop_last() =~= before);
                        assert(entry_result(es[i as int], tpl, out, ctx, excl) == Ok::<
                            PlanEntryV,
                            PlanErr,
                        >(acc@.last()@));
                        assert(plan_view(acc@) =~= plan_view(before).push(acc@.last()@));
                    }
                },
            }
            i += 1;
        }
        proof {
            assert(es.subrange(0, n as int) =~= es);
        }
        Ok(RenderPlan { entries: acc })
    }

    /// Decides which planned entries a commit may write, given which
    /// destination paths already exist (`existing[i]` answers for
    /// `plan.entries[i]`).
    ///
    /// Under the fail policy (neither overwrite nor skip), a single existing
    /// destination aborts the whole commit with the first colliding path, and
    /// nothing at all is selected; under skip, existing destinations are
    /// dropped from the commit set; under overwrite, the whole plan commits.
    pub fn select_commit(&self, plan: &RenderPlan, existing: &Vec<bool>) -> (r: Result<
        Vec<PlanEntry>,
        Error,
    >)
        requires
            existing@.len() == plan.entries@.len(),
        ensures
            ({
                let pv = plan_view(plan.entries@);
                let ex = existing@;
                let fail_mode = !self.spec_overwrite() && !self.spec_skip();
                &&& (r is Err) == (fail_mode && (exists|i: int| 0 <= i < ex.len() && ex[i]))
                &&& (match r {
                    Ok(sel) => plan_view(sel@) == commit_set(pv, ex, self.spec_overwrite()),
                    Err(e) => e matches Error::CannotOverwriteContent(p) && first_collision(
                        pv,
                        ex,
                        p@,
                    ),
                })
            }),
    {
        let n = plan.entries.len();
        if !self.overwrite_if_exists && !self.skip_if_exists {
            let mut i: usize = 0;
            while i < n
                invariant
                    0 <= i <= n,
                    n == plan.entries@.len(),
                    existing@.len() == n,
                    !self.spec_overwrite(),
                    !self.spec_skip(),
                    forall|j: int| 0 <= j < i ==> !existing@[j],
                decreases n - i,
            {
                if existing[i] {
                    proof {
                        assert(plan_view(plan.entries@)[i as int] == plan.entries@[i as int]@);
                    }
                    let p = plan.entries[i].dest_path.clone();
                    proof {
                        assert(!self.spec_overwrite());
                        assert(!self.spec_skip());
                        let pv = plan_view(plan.entries@);
                        let ex = existing@;
                        let k = i as int;
                        assert(0 <= k < ex.len());
                        assert(ex[k]);
                        assert(p@ == pv[k].dest_path);
                        assert(forall|j: int| 0 <= j < k ==> !ex[j]);
                        assert(first_collision(pv, ex, p@));
                    }
                    return Err(Error::CannotOverwriteContent(p));
                }
                i += 1;
            }
        }
        let ghost pv = plan_view(plan.entries@);
        let ghost ex = existing@;
        let mut out: Vec<PlanEntry> = Vec::new();
        let mut i: usize = 0;
        proof {
            assert(pv.subrange(0, 0) =~= Seq::<PlanEntryV>::empty());
            assert(plan_view(out@) =~= Seq::<PlanEntryV>::empty());
        }
        while i < n
            invariant
                0 <= i <= n,
                n == plan.entries@.len(),
                existing@.len() == n,
                pv == plan_view(plan.entries@),
                ex == existing@,
                plan_view(out@) == commit_set(
                    pv.subrange(0, i as int),
                    ex.subrange(0, i as int),
                    self.spec_overwrite(),
                ),
            decreases n - i,
        {
            proof {
                assert(pv.subrange(0, i + 1).drop_last() =~= pv.subrange(0, i as int));
                assert(ex.subrange(0, i + 1).drop_last() =~= ex.subrange(0, i as int));
                assert(pv.subrange(0, i + 1).last() == pv[i as int]);
                assert(ex.subrange(0, i + 1).last() == ex[i as int]);
                assert(pv[i as int] == plan.entries@[i as int]@);
            }
            if self.overwrite_if_exists || !existing[i] {
                let ghost before = out@;
                out.push(clone_plan_entry(&plan.entries[i]));
                proof {
                    assert(plan_view(out@) =~= plan_view(before).push(out@.last()@));
                }
            }
            i += 1;
        }
        proof {
            assert(pv.subrange(0, n as int) =~= pv);
            assert(ex.subrange(0, n as int) =~= ex);
        }
        Ok(out)
    }
}

/// A field-for-field copy of a plan entry.
fn clone_plan_entry(e: &PlanEntry) -> (r: PlanEntry)
    ensures
        r == *e,
{
    PlanEntry {
        dest_path: e.dest_path.clone(),
        payload: match &e.payload {
            Payload::File(s) => Payload::File(s.clone()),
            Payload::Symlink(s) => Payload::Symlink(s.clone()),
        },
    }
}

/// If the entries before `i` all plan cleanly and entry `i` fails, the whole
/// plan fails with entry `i`'s error.
proof fn lemma_plan_prefix_err(
    es: Seq<TemplateEntryV>,
    tpl: Seq<char>,
    out: Seq<char>,
    ctx: Map<Seq<char>, ValueV>,
    excl: Seq<Seq<char>>,
    i: int,
)
    requires
        0 <= i < es.len(),
        plan_result(es.subrange(0, i), tpl, out, ctx, excl) is Ok,
        entry_result(es[i], tpl, out, ctx, excl) is Err,
    ensures
        plan_result(es, tpl, out, ctx, excl) == Err::<Seq<PlanEntryV>, PlanErr>(
            entry_result(es[i], tpl, out, ctx, excl)->Err_0,
        ),
    decreases es.len(),
{
    if i == es.len() - 1 {
        assert(es.drop_last() =~= es.subrange(0, i));
    } else {
        let head = es.drop_last();
        assert(head.subrange(0, i) =~= es.subrange(0, i));
        assert(head[i] == es[i]);
        lemma_plan_prefix_err(head, tpl, out, ctx, excl, i);
    }
}

/// Law: plan building is deterministic. Two plans computed from the same
/// entries, template root, output root, context and exclusions are identical.
pub proof fn lemma_plan_deterministic(
    p1: RenderPlan,
    p2: RenderPlan,
    es: Seq<TemplateEntryV>,
    tpl: Seq<char>,
    out: Seq<char>,
    ctx: Map<Seq<char>, ValueV>,
    excl: Seq<Seq<char>>,
)
    requires
        plan_result(es, tpl, out, ctx, excl) == Ok::<Seq<PlanEntryV>, PlanErr>(
            plan_view(p1.entries@),
        ),
        plan_result(es, tpl, out, ctx, excl) == Ok::<Seq<PlanEntryV>, PlanErr>(
            plan_view(p2.entries@),
        ),
    ensures
        plan_view(p1.entries@) == plan_view(p2.entries@),
{
}

/// Law: the exclusion list is honored. A file whose rendered relative path is
/// excluded is planned with its content carried over verbatim — its content
/// is never substituted into, so it can never raise a templating error —
/// while its path is still rendered.
pub proof fn lemma_exclusion_honored(
    e: TemplateEntryV,
    tpl: Seq<char>,
    out: Seq<char>,
    ctx: Map<Seq<char>, ValueV>,
    excl: Seq<Seq<char>>,
)
    requires
        e.payload is File,
        render_of(strip_rel_seq(e.path, tpl), ctx) is Ok,
        seq_contains_str(excl, render_of(strip_rel_seq(e.path, tpl), ctx)->Ok_0),
    ensures
        entry_result(e, tpl, out, ctx, excl) is Ok,
        entry_result(e, tpl, out, ctx, excl)->Ok_0.payload == e.payload,
        entry_result(e, tpl, out, ctx, excl)->Ok_0.dest_path == join_path_seq(
            out,
            render_of(strip_rel_seq(e.path, tpl), ctx)->Ok_0,
        ),
{
}

/// Law: symlink fidelity. A symlink is planned at its rendered path with its
/// target string carried over unmodified.
pub proof fn lemma_symlink_fidelity(
    e: TemplateEntryV,
    tpl: Seq<char>,
    out: Seq<char>,
    ctx: Map<Seq<char>, ValueV>,
    excl: Seq<Seq<char>>,
)
    requires
        e.payload is Symlink,
        render_of(strip_rel_seq(e.path, tpl), ctx) is Ok,
    ensures
        entry_result(e, tpl, out, ctx, excl) is Ok,
        entry_result(e, tpl, out, ctx, excl)->Ok_0.payload == e.payload,
        entry_result(e, tpl, out, ctx, excl)->Ok_0.dest_path == join_path_seq(
            out,
            render_of(strip_rel_seq(e.path, tpl), ctx)->Ok_0,
        ),
{
}

/// Law: a templating failure anywhere aborts the whole plan, so no partial
/// plan reaches the commit phase.
pub proof fn lemma_failure_aborts_plan(
    es: Seq<TemplateEntryV>,
    tpl: Seq<char>,
    out: Seq<char>,
    ctx: Map<Seq<char>, ValueV>,
    excl: Seq<Seq<char>>,
    i: int,
)
    requires
        0 <= i < es.len(),
        entry_result(es[i], tpl, out, ctx, excl) is Err,
    ensures
        plan_result(es, tpl, out, ctx, excl) is Err,
    decreases es.len(),
{
    if i < es.len() - 1 {
        assert(es.drop_last()[i] == es[i]);
        lemma_failure_aborts_plan(es.drop_last(), tpl, out, ctx, excl, i);
    }
}

/// Law: under the overwrite policy, the commit set is exactly the whole plan,
/// whatever already exists at the destination.
pub proof fn lemma_overwrite_commits_all(plan: Seq<PlanEntryV>, ex: Seq<bool>)
    requires
        ex.len() == plan.len(),
    ensures
        commit_set(plan, ex, true) == plan,
    decreases plan.len(),
{
    if plan.len() == 0 {
        assert(commit_set(plan, ex, true) =~= plan);
    } else {
        lemma_overwrite_commits_all(plan.drop_last(), ex.drop_last());
        assert(commit_set(plan, ex, true) =~= plan);
    }
}

proof fn lemma_entry_dest_under_output(
    e: TemplateEntryV,
    tpl: Seq<char>,
    out: Seq<char>,
    ctx: Map<Seq<char>, ValueV>,
    excl: Seq<Seq<char>>,
)
    requires
        out.len() > 0,
        entry_result(e, tpl, out, ctx, excl) is Ok,
    ensures
        crate::strutil::is_prefix(entry_result(e, tpl, out, ctx, excl)->Ok_0.dest_path, out),
{
    let rendered = render_of(strip_rel_seq(e.path, tpl), ctx)->Ok_0;
    if out.last() == '/' {
        assert((out + rendered).subrange(0, out.len() as int) =~= out);
    } else {
        assert((out + seq!['/'] + rendered).subrange(0, out.len() as int) =~= out);
    }
}

/// Law: the plan writes nowhere but under the output root — a non-empty
/// output root is a prefix of every destination path the plan holds.
pub proof fn lemma_plan_stays_under_output(
    es: Seq<TemplateEntryV>,
    tpl: Seq<char>,
    out: Seq<char>,
    ctx: Map<Seq<char>, ValueV>,
    excl: Seq<Seq<char>>,
    i: int,
)
    requires
        out.len() > 0,
        plan_result(es, tpl, out, ctx, excl) is Ok,
        0 <= i < plan_result(es, tpl, out, ctx, excl)->Ok_0.len(),
    ensures
        crate::strutil::is_prefix(
            plan_result(es, tpl, out, ctx, excl)->Ok_0[i].dest_path,
            out,
        ),
    decreases es.len(),
{
    let plan = plan_result(es, tpl, out, ctx, excl)->Ok_0;
    let pre = plan_result(es.drop_last(), tpl, out, ctx, excl)->Ok_0;
    if i == plan.len() - 1 {
        lemma_entry_dest_under_output(es.last(), tpl, out, ctx, excl);
    } else {
        lemma_plan_stays_under_output(es.drop_last(), tpl, out, ctx, excl, i);
    }
}

/// The same, for the exclusion-path rendering done at construction.
proof fn lemma_exclusion_prefix_err(
    entry_dir: Seq<char>,
    pats: Seq<Seq<char>>,
    ctx: Map<Seq<char>, ValueV>,
    i: int,
)
    requires
        0 <= i < pats.len(),
        exclusion_result(entry_dir, pats.subrange(0, i), ctx) is Ok,
        render_of(entry_dir + seq!['/'] + pats[i], ctx) is Err,
    ensures
        exclusion_result(entry_dir, pats, ctx) == Err::<Seq<Seq<char>>, PlanErr>(
            PlanErr {
                path: entry_dir + seq!['/'] + pats[i],
                detail: render_of(entry_dir + seq!['/'] + pats[i], ctx)->Err_0,
            },
        ),
    decreases pats.len(),
{
    if i == pats.len() - 1 {
        assert(pats.drop_last() =~= pats.subrange(0, i));
    } else {
        let head = pats.drop_last();
        assert(head.subrange(0, i) =~= pats.subrange(0, i));
        assert(head[i] == pats[i]);
        lemma_exclusion_prefix_err(entry_dir, head, ctx, i);
    }
}

} // verus!
