//! The three checking stages and the orchestrator that runs them: every
//! module is type-checked and in-module-checked independently, the
//! per-module symbol tables are merged into one project tree, and the
//! references deferred by the in-module stage are resolved against it.
//! Every diagnostic from every stage is merged and returned together;
//! nothing short-circuits on the first error.

pub mod context;
pub mod cross_module;
pub mod in_module;
pub mod type_checker;

use vstd::prelude::*;

use crate::ecs::checker::context::{
    ModuleCheckContext, ModuleCheckTree, SpecContext, spec_ctx_empty, spec_ctx_fold,
};
use crate::ecs::checker::cross_module::{
    CrossModuleCheckError, CrossModuleChecker, SpecCrossError, cross_err_view, cross_errs_view,
    cross_result_view, lemma_cross_errs_view_len, lemma_cross_errs_view_push, spec_cross_errors,
    spec_cross_message, spec_cross_wrap,
};
use crate::ecs::checker::in_module::{
    InModuleCheckError, SpecInError, in_err_view, in_errs_view, spec_in_message,
    spec_module_in_check,
};
use crate::ecs::checker::type_checker::{
    SpecTypeError, TypeCheckError, spec_fields_primitive, spec_module_type_errors,
    spec_tc_message, spec_wrap_tc,
};
use crate::ecs::module::{
    AethaumProject, EcsModule, EcsThingRef, SpecModule, SpecProject, SpecThing,
};

verus! {

/// The stage a diagnostic was produced in.
#[derive(Debug)]
pub enum CheckStage {
    Type,
    InModule,
    CrossModule,
}

// ---------------------------------------------------------------------------
// Merged diagnostics
// ---------------------------------------------------------------------------

/// Spec model of a merged diagnostic.
#[verifier::ext_equal]
pub enum SpecCheckerError {
    Type(SpecTypeError),
    /// An in-module result not yet partitioned into genuine errors and
    /// deferral signals; carries the module's symbol table.
    InModule(SpecInError, SpecContext),
    /// A genuine in-module error, after partitioning.
    FilteredInModule(SpecInError),
    CrossModule(SpecCrossError),
    Multiple(Seq<SpecCheckerError>),
}

/// A diagnostic from any stage of the pipeline.
#[derive(Debug)]
pub enum CheckerError {
    Type(TypeCheckError),
    /// An unfiltered in-module result, with the module's symbol table.
    InModule(InModuleCheckError, Box<ModuleCheckContext>),
    /// A genuine in-module error, after partitioning.
    FilteredInModule(InModuleCheckError),
    CrossModule(CrossModuleCheckError),
    Multiple { errors: Vec<CheckerError> },
}

/// The model of one merged diagnostic.
pub open spec fn checker_err_view(e: CheckerError) -> SpecCheckerError
    decreases e,
{
    match e {
        CheckerError::Type(t) => SpecCheckerError::Type(t@),
        CheckerError::InModule(ie, c) => SpecCheckerError::InModule(ie@, c@),
        CheckerError::FilteredInModule(ie) => SpecCheckerError::FilteredInModule(ie@),
        CheckerError::CrossModule(ce) => SpecCheckerError::CrossModule(ce@),
        CheckerError::Multiple { errors } => SpecCheckerError::Multiple(
            checker_errs_view(errors@),
        ),
    }
}

/// The models of a list of merged diagnostics.
pub open spec fn checker_errs_view(s: Seq<CheckerError>) -> Seq<SpecCheckerError>
    decreases s,
{
    if s.len() == 0 {
        Seq::empty()
    } else {
        checker_errs_view(s.drop_last()).push(checker_err_view(s.last()))
    }
}

impl View for CheckerError {
    type V = SpecCheckerError;

    open spec fn view(&self) -> SpecCheckerError {
        checker_err_view(*self)
    }
}

/// Appending a diagnostic appends its model.
pub proof fn lemma_checker_errs_view_push(s: Seq<CheckerError>, e: CheckerError)
    ensures
        checker_errs_view(s.push(e)) == checker_errs_view(s).push(checker_err_view(e)),
{
    assert(s.push(e).drop_last() =~= s);
    assert(s.push(e).last() == e);
}

/// A list of diagnostics and its model have the same length.
pub proof fn lemma_checker_errs_view_len(s: Seq<CheckerError>)
    ensures
        checker_errs_view(s).len() == s.len(),
    decreases s.len(),
{
    if s.len() > 0 {
        lemma_checker_errs_view_len(s.drop_last());
    }
}

/// Concatenating diagnostic lists concatenates their models.
pub proof fn lemma_checker_errs_view_concat(a: Seq<CheckerError>, b: Seq<CheckerError>)
    ensures
        checker_errs_view(a + b) == checker_errs_view(a) + checker_errs_view(b),
    decreases b.len(),
{
    if b.len() == 0 {
        assert(a + b =~= a);
        assert(checker_errs_view(a) + checker_errs_view(b) =~= checker_errs_view(a));
    } else {
        lemma_checker_errs_view_concat(a, b.drop_last());
        assert((a + b).drop_last() =~= a + b.drop_last());
        assert((a + b).last() == b.last());
        assert(checker_errs_view(a) + checker_errs_view(b) =~= (checker_errs_view(a)
            + checker_errs_view(b.drop_last())).push(checker_err_view(b.last())));
    }
}

impl CheckerError {
    pub fn raise_multiple(errors: Vec<CheckerError>) -> (r: Self)
        ensures
            r@ == SpecCheckerError::Multiple(checker_errs_view(errors@)),
    {
        CheckerError::Multiple { errors }
    }
}

/// Collected diagnostics: none is success, one is returned alone, several
/// are wrapped together.
pub open spec fn spec_wrap_checker(errs: Seq<SpecCheckerError>) -> Result<(), SpecCheckerError> {
    if errs.len() == 0 {
        Ok(())
    } else if errs.len() == 1 {
        Err(errs[0])
    } else {
        Err(SpecCheckerError::Multiple(errs))
    }
}

// ---------------------------------------------------------------------------
// A checked project
// ---------------------------------------------------------------------------

/// Modules whose references and defaults have all been validated.
pub struct CheckedEcs {
    pub modules: Vec<EcsModule>,
}

impl CheckedEcs {
    pub fn from_modules(modules: Vec<EcsModule>) -> (r: Self)
        ensures
            r.modules == modules,
    {
        CheckedEcs { modules }
    }
}

// ---------------------------------------------------------------------------
// Per-module checking
// ---------------------------------------------------------------------------

/// One module's stage-one and stage-two diagnostics, in stage order. A
/// stage-one failure is collected non-fatally: the in-module stage still
/// runs, and its unfiltered result carries the symbol table it built.
pub open spec fn spec_single_errors(m: SpecModule, root: Seq<char>) -> Seq<SpecCheckerError> {
    let tc = spec_wrap_tc(spec_module_type_errors(m.components));
    let (ir, c) = spec_module_in_check(m, spec_ctx_empty(m.name, root));
    (match tc {
        Ok(_) => Seq::<SpecCheckerError>::empty(),
        Err(t) => seq![SpecCheckerError::Type(t)],
    }) + (match ir {
        Ok(_) => Seq::<SpecCheckerError>::empty(),
        Err(e) => seq![SpecCheckerError::InModule(e, c)],
    })
}

/// The symbol table one module's in-module stage builds; every module
/// produces one, whatever its diagnostics.
pub open spec fn spec_single_ctx(m: SpecModule, root: Seq<char>) -> SpecContext {
    spec_module_in_check(m, spec_ctx_empty(m.name, root)).1
}

/// The per-module results over a list of modules: every diagnostic, and
/// every module's symbol table, each in module order.
pub open spec fn spec_singles(ms: Seq<SpecModule>, root: Seq<char>) -> (
    Seq<SpecCheckerError>,
    Seq<SpecContext>,
)
    decreases ms.len(),
{
    if ms.len() == 0 {
        (Seq::empty(), Seq::empty())
    } else {
        let (es, cs) = spec_singles(ms.drop_last(), root);
        (
            es + spec_single_errors(ms.last(), root),
            cs.push(spec_single_ctx(ms.last(), root)),
        )
    }
}

/// Runs the type check and the in-module check of one module.
pub struct SingleEcsModuleChecker;

impl SingleEcsModuleChecker {
    /// Check one module: the type check and the in-module stage both run,
    /// whatever the other reports. The completed symbol table is always
    /// returned, so the orchestrator can merge it into the project tree;
    /// an in-module failure additionally carries a copy of the table.
    pub fn run_checks(module: &EcsModule, project_root: String) -> (r: (
        ModuleCheckContext,
        Vec<CheckerError>,
    ))
        requires
            spec_fields_primitive(module@.components),
        ensures
            r.0@ == spec_single_ctx(module@, project_root@),
            checker_errs_view(r.1@) == spec_single_errors(module@, project_root@),
    {
        let mut module_check_context = ModuleCheckContext::new(module.name.clone(), project_root);
        let mut errors: Vec<CheckerError> = Vec::new();
        match module.check_type() {
            Err(e) => {
                let err = CheckerError::Type(e);
                proof {
                    lemma_checker_errs_view_push(errors@, err);
                }
                errors.push(err);
            },
            Ok(()) => {},
        }
        match module.check_in_module(&mut module_check_context) {
            Err(in_err) => {
                let snapshot = module_check_context.clone();
                let err = CheckerError::InModule(in_err, Box::new(snapshot));
                proof {
                    lemma_checker_errs_view_push(errors@, err);
                }
                errors.push(err);
            },
            Ok(()) => {},
        }
        proof {
            assert(checker_errs_view(errors@) =~= spec_single_errors(module@, project_root@));
        }
        (module_check_context, errors)
    }
}

// ---------------------------------------------------------------------------
// Cross-module checking over a worklist
// ---------------------------------------------------------------------------

/// Runs the cross-module resolution of every deferred reference.
pub struct CrossEcsModuleChecker;

impl CrossEcsModuleChecker {
    /// Resolve every deferred reference against the assembled tree,
    /// collecting every failure.
    pub fn run_checks(ref_to_check: &Vec<EcsThingRef>, module_tree: &ModuleCheckTree) -> (r:
        Result<(), CrossModuleCheckError>)
        ensures
            cross_result_view(r) == spec_cross_wrap(
                spec_cross_errors(ref_to_check@.map_values(|t: EcsThingRef| t@), module_tree@),
            ),
    {
        let ghost ts = ref_to_check@.map_values(|t: EcsThingRef| t@);
        let mut errors: Vec<CrossModuleCheckError> = Vec::new();
        let n = ref_to_check.len();
        let mut i: usize = 0;
        while i < n
            invariant
                n == ref_to_check@.len(),
                ts == ref_to_check@.map_values(|t: EcsThingRef| t@),
                i <= n,
                cross_errs_view(errors@) == spec_cross_errors(
                    ts.subrange(0, i as int),
                    module_tree@,
                ),
            decreases n - i,
        {
            proof {
                assert(ts[i as int] == ref_to_check@[i as int]@);
                assert(ts.subrange(0, i as int + 1).drop_last() =~= ts.subrange(0, i as int));
                assert(ts.subrange(0, i as int + 1).last() == ts[i as int]);
            }
            match CrossModuleChecker::check_cross_module_ref(&ref_to_check[i], module_tree) {
                Ok(()) => {
                    proof {
                        assert(cross_errs_view(errors@) =~= spec_cross_errors(
                            ts.subrange(0, i as int + 1),
                            module_tree@,
                        ));
                    }
                },
                Err(e) => {
                    proof {
                        lemma_cross_errs_view_push(errors@, e);
                    }
                    errors.push(e);
                    proof {
                        assert(cross_errs_view(errors@) =~= spec_cross_errors(
                            ts.subrange(0, i as int + 1),
                            module_tree@,
                        ));
                    }
                },
            }
            i = i + 1;
        }
        proof {
            assert(ts.subrange(0, n as int) =~= ts);
            lemma_cross_errs_view_len(errors@);
        }
        if errors.len() == 0 {
            Ok(())
        } else if errors.len() == 1 {
            let ghost old_errs = errors@;
            let e = errors.pop().unwrap();
            proof {
                assert(e == old_errs.last());
                assert(old_errs.drop_last() =~= Seq::<CrossModuleCheckError>::empty());
                assert(cross_errs_view(old_errs) =~= seq![cross_err_view(e)]);
            }
            Err(e)
        } else {
            Err(CrossModuleCheckError::raise_multiple(errors))
        }
    }
}

// ---------------------------------------------------------------------------
// Partitioning in-module results
// ---------------------------------------------------------------------------

/// The leaves of one in-module diagnostic tree, left to right.
pub open spec fn in_leaves(e: SpecInError) -> Seq<SpecInError>
    decreases e,
{
    match e {
        SpecInError::Multiple(es) => in_leaves_seq(es),
        _ => seq![e],
    }
}

/// The leaves of a list of in-module diagnostic trees.
pub open spec fn in_leaves_seq(es: Seq<SpecInError>) -> Seq<SpecInError>
    decreases es,
{
    if es.len() == 0 {
        Seq::empty()
    } else {
        in_leaves_seq(es.drop_last()) + in_leaves(es.last())
    }
}

/// The references carried by the deferral signals among the leaves.
pub open spec fn props_of(ls: Seq<SpecInError>) -> Seq<SpecThing>
    decreases ls.len(),
{
    if ls.len() == 0 {
        Seq::empty()
    } else {
        props_of(ls.drop_last()) + (match ls.last() {
            SpecInError::PropagateToCrossCheck(t) => seq![t],
            _ => Seq::<SpecThing>::empty(),
        })
    }
}

/// The genuine errors among the leaves: everything that is not a deferral
/// signal.
pub open spec fn trues_of(ls: Seq<SpecInError>) -> Seq<SpecInError>
    decreases ls.len(),
{
    if ls.len() == 0 {
        Seq::empty()
    } else {
        trues_of(ls.drop_last()) + (match ls.last() {
            SpecInError::PropagateToCrossCheck(_) => Seq::<SpecInError>::empty(),
            _ => seq![ls.last()],
        })
    }
}

/// The classification of a single non-aggregate diagnostic.
pub proof fn lemma_leaf_parts(l: SpecInError)
    ensures
        props_of(seq![l]) == (match l {
            SpecInError::PropagateToCrossCheck(t) => seq![t],
            _ => Seq::<SpecThing>::empty(),
        }),
        trues_of(seq![l]) == (match l {
            SpecInError::PropagateToCrossCheck(_) => Seq::<SpecInError>::empty(),
            _ => seq![l],
        }),
{
    let s = seq![l];
    assert(s.drop_last() =~= Seq::<SpecInError>::empty());
    assert(s.last() == l);
    assert(props_of(Seq::<SpecInError>::empty()) == Seq::<SpecThing>::empty());
    assert(trues_of(Seq::<SpecInError>::empty()) == Seq::<SpecInError>::empty());
    assert(props_of(s) =~= (match l {
        SpecInError::PropagateToCrossCheck(t) => seq![t],
        _ => Seq::<SpecThing>::empty(),
    }));
    assert(trues_of(s) =~= (match l {
        SpecInError::PropagateToCrossCheck(_) => Seq::<SpecInError>::empty(),
        _ => seq![l],
    }));
}

/// One diagnostic's models, indexed.
pub proof fn lemma_checker_errs_view_index(s: Seq<CheckerError>, i: int)
    requires
        0 <= i < s.len(),
    ensures
        checker_errs_view(s).len() == s.len(),
        checker_errs_view(s)[i] == checker_err_view(s[i]),
    decreases s.len(),
{
    lemma_checker_errs_view_len(s);
    lemma_checker_errs_view_len(s.drop_last());
    if i < s.len() - 1 {
        lemma_checker_errs_view_index(s.drop_last(), i);
    }
}

/// Leaf collection distributes over concatenation.
pub proof fn lemma_in_leaves_seq_concat(a: Seq<SpecInError>, b: Seq<SpecInError>)
    ensures
        in_leaves_seq(a + b) == in_leaves_seq(a) + in_leaves_seq(b),
    decreases b.len(),
{
    if b.len() == 0 {
        assert(a + b =~= a);
        assert(in_leaves_seq(a) + in_leaves_seq(b) =~= in_leaves_seq(a));
    } else {
        lemma_in_leaves_seq_concat(a, b.drop_last());
        assert((a + b).drop_last() =~= a + b.drop_last());
        assert((a + b).last() == b.last());
        assert(in_leaves_seq(a) + in_leaves_seq(b) =~= (in_leaves_seq(a) + in_leaves_seq(
            b.drop_last(),
        )) + in_leaves(b.last()));
    }
}

/// Deferred-reference collection distributes over concatenation.
pub proof fn lemma_props_of_concat(a: Seq<SpecInError>, b: Seq<SpecInError>)
    ensures
        props_of(a + b) == props_of(a) + props_of(b),
    decreases b.len(),
{
    if b.len() == 0 {
        assert(a + b =~= a);
        assert(props_of(a) + props_of(b) =~= props_of(a));
    } else {
        lemma_props_of_concat(a, b.drop_last());
        assert((a + b).drop_last() =~= a + b.drop_last());
        assert((a + b).last() == b.last());
        assert(props_of(a) + props_of(b) =~= (props_of(a) + props_of(b.drop_last())) + (match b
            .last() {
            SpecInError::PropagateToCrossCheck(t) => seq![t],
            _ => Seq::<SpecThing>::empty(),
        }));
    }
}

/// Genuine-error collection distributes over concatenation.
pub proof fn lemma_trues_of_concat(a: Seq<SpecInError>, b: Seq<SpecInError>)
    ensures
        trues_of(a + b) == trues_of(a) + trues_of(b),
    decreases b.len(),
{
    if b.len() == 0 {
        assert(a + b =~= a);
        assert(trues_of(a) + trues_of(b) =~= trues_of(a));
    } else {
        lemma_trues_of_concat(a, b.drop_last());
        assert((a + b).drop_last() =~= a + b.drop_last());
        assert((a + b).last() == b.last());
        assert(trues_of(a) + trues_of(b) =~= (trues_of(a) + trues_of(b.drop_last())) + (match b
            .last() {
            SpecInError::PropagateToCrossCheck(_) => Seq::<SpecInError>::empty(),
            _ => seq![b.last()],
        }));
    }
}

/// Classify one in-module diagnostic tree, recursing through every
/// aggregate: deferral signals anywhere inside feed the cross-module
/// worklist; every other leaf is a genuine error. A flat scan of the top
/// level alone would misclassify nested signals.
fn partition_in_error(
    e: InModuleCheckError,
    props: &mut Vec<EcsThingRef>,
    trues: &mut Vec<CheckerError>,
)
    ensures
        final(props)@.map_values(|t: EcsThingRef| t@) == old(props)@.map_values(
            |t: EcsThingRef| t@,
        ) + props_of(in_leaves(e@)),
        checker_errs_view(final(trues)@) == checker_errs_view(old(trues)@) + trues_of(
            in_leaves(e@),
        ).map_values(|x: SpecInError| SpecCheckerError::FilteredInModule(x)),
    decreases e,
{
    match e {
        InModuleCheckError::PropagateToCrossCheck { thing_ref } => {
            let ghost pre = props@;
            props.push(thing_ref);
            proof {
                lemma_leaf_parts(e@);
                assert(in_leaves(e@) =~= seq![e@]);
                assert(props_of(seq![e@]) =~= seq![thing_ref@]);
                assert(trues_of(seq![e@]) =~= Seq::<SpecInError>::empty());
                assert(props@.map_values(|t: EcsThingRef| t@) =~= pre.map_values(
                    |t: EcsThingRef| t@,
                ) + seq![thing_ref@]);
                assert(checker_errs_view(trues@) =~= checker_errs_view(trues@) + trues_of(
                    in_leaves(e@),
                ).map_values(|x: SpecInError| SpecCheckerError::FilteredInModule(x)));
            }
        },
        InModuleCheckError::Multiple { errors } => {
            let ghost evec = errors;
            let ghost es0 = errors@;
            let mut rest = errors;
            proof {
                assert(in_leaves(e@) == in_leaves_seq(in_errs_view(es0)));
            }
            while rest.len() > 0
                invariant
                    evec@ == es0,
                    e == (InModuleCheckError::Multiple { errors: evec }),
                    rest@.len() <= es0.len(),
                    forall|j: int|
                        0 <= j < rest@.len() ==> rest@[j] == es0[es0.len() - rest@.len() + j],
                    props@.map_values(|t: EcsThingRef| t@) == old(props)@.map_values(
                        |t: EcsThingRef| t@,
                    ) + props_of(
                        in_leaves_seq(
                            in_errs_view(
                                es0.subrange(0, es0.len() as int - rest@.len() as int),
                            ),
                        ),
                    ),
                    checker_errs_view(trues@) == checker_errs_view(old(trues)@) + trues_of(
                        in_leaves_seq(
                            in_errs_view(
                                es0.subrange(0, es0.len() as int - rest@.len() as int),
                            ),
                        ),
                    ).map_values(|x: SpecInError| SpecCheckerError::FilteredInModule(x)),
                decreases rest@.len(),
            {
                let ghost k = es0.len() as int - rest@.len() as int;
                let x = rest.remove(0);
                proof {
                    assert(x == es0[k]);
                    assert(x == e->errors@[k]);
                    assert(decreases_to!(e => e->errors@[k]));
                }
                partition_in_error(x, props, trues);
                proof {
                    let pre = es0.subrange(0, k);
                    let now = es0.subrange(0, k + 1);
                    let prev = in_errs_view(pre);
                    let nowv = in_errs_view(now);
                    assert(now.drop_last() =~= pre);
                    assert(now.last() == es0[k]);
                    assert(nowv == prev.push(in_err_view(es0[k])));
                    assert(nowv =~= prev + seq![in_err_view(es0[k])]);
                    lemma_in_leaves_seq_concat(prev, seq![in_err_view(es0[k])]);
                    assert(seq![in_err_view(es0[k])].drop_last() =~= Seq::<SpecInError>::empty());
                    assert(in_leaves_seq(Seq::<SpecInError>::empty())
                        == Seq::<SpecInError>::empty());
                    assert(in_leaves_seq(seq![in_err_view(es0[k])]) =~= in_leaves(x@));
                    lemma_props_of_concat(in_leaves_seq(prev), in_leaves(x@));
                    lemma_trues_of_concat(in_leaves_seq(prev), in_leaves(x@));
                    assert(props@.map_values(|t: EcsThingRef| t@) =~= old(props)@.map_values(
                        |t: EcsThingRef| t@,
                    ) + props_of(in_leaves_seq(nowv)));
                    assert(trues_of(in_leaves_seq(nowv)).map_values(
                        |y: SpecInError| SpecCheckerError::FilteredInModule(y),
                    ) =~= trues_of(in_leaves_seq(prev)).map_values(
                        |y: SpecInError| SpecCheckerError::FilteredInModule(y),
                    ) + trues_of(in_leaves(x@)).map_values(
                        |y: SpecInError| SpecCheckerError::FilteredInModule(y),
                    ));
                    assert(checker_errs_view(trues@) =~= checker_errs_view(old(trues)@)
                        + trues_of(in_leaves_seq(nowv)).map_values(
                        |y: SpecInError| SpecCheckerError::FilteredInModule(y),
                    ));
                }
            }
            proof {
                assert(es0.subrange(0, es0.len() as int) =~= es0);
            }
        },
        other => {
            let ghost pre = trues@;
            proof {
                lemma_leaf_parts(e@);
                assert(in_leaves(e@) =~= seq![e@]);
                assert(props_of(seq![e@]) =~= Seq::<SpecThing>::empty());
                assert(trues_of(seq![e@]) =~= seq![e@]);
            }
            let wrapped = CheckerError::FilteredInModule(other);
            proof {
                lemma_checker_errs_view_push(pre, wrapped);
            }
            trues.push(wrapped);
            proof {
                assert(checker_errs_view(trues@) =~= checker_errs_view(pre) + trues_of(
                    in_leaves(e@),
                ).map_values(|x: SpecInError| SpecCheckerError::FilteredInModule(x)));
                assert(props@.map_values(|t: EcsThingRef| t@) =~= props@.map_values(
                    |t: EcsThingRef| t@,
                ) + props_of(in_leaves(e@)));
            }
        },
    }
}

/// The bifurcation of the per-module results: deferral signals anywhere
/// inside unfiltered in-module diagnostics feed the cross-module
/// worklist; every other diagnostic, and every genuine leaf, is kept as a
/// terminal error.
pub open spec fn spec_extract(errs: Seq<SpecCheckerError>) -> (
    Seq<SpecCheckerError>,
    Seq<SpecThing>,
)
    decreases errs.len(),
{
    if errs.len() == 0 {
        (Seq::empty(), Seq::empty())
    } else {
        let (t0, p0) = spec_extract(errs.drop_last());
        match errs.last() {
            SpecCheckerError::InModule(e, c) => (
                t0 + trues_of(in_leaves(e)).map_values(
                    |x: SpecInError| SpecCheckerError::FilteredInModule(x),
                ),
                p0 + props_of(in_leaves(e)),
            ),
            other => (t0.push(other), p0),
        }
    }
}

// ---------------------------------------------------------------------------
// The orchestrator
// ---------------------------------------------------------------------------

/// The whole pipeline over a project's modules: every module's
/// diagnostics and symbol table, the bifurcation of deferral signals, the
/// tree assembled from every table, the cross-module pass over the
/// deferred worklist, and the union of every genuine stage-one, stage-two
/// and stage-three diagnostic. Nothing short-circuits on an earlier
/// stage's error; a single diagnostic is returned alone, several are
/// merged into one aggregate.
pub open spec fn spec_run_check(p: SpecProject) -> Result<(), SpecCheckerError> {
    let (errs, ctxs) = spec_singles(p.modules, p.root);
    let ex = spec_extract(errs);
    let tree = spec_ctx_fold(Seq::empty(), ctxs);
    let all = ex.0 + (match spec_cross_wrap(spec_cross_errors(ex.1, tree)) {
        Ok(_) => Seq::<SpecCheckerError>::empty(),
        Err(ce) => seq![SpecCheckerError::CrossModule(ce)],
    });
    spec_wrap_checker(all)
}

/// Runs the whole pipeline.
pub struct AethaumChecker;

impl AethaumChecker {
    /// Partition the per-module diagnostics: deferral signals anywhere
    /// inside unfiltered in-module results are collected for the
    /// cross-module pass; every genuine diagnostic is kept.
    fn extract_propagated_check(errors: Vec<CheckerError>) -> (r: (
        Vec<CheckerError>,
        Vec<EcsThingRef>,
    ))
        ensures
            checker_errs_view(r.0@) == spec_extract(checker_errs_view(errors@)).0,
            r.1@.map_values(|t: EcsThingRef| t@) == spec_extract(checker_errs_view(errors@)).1,
    {
        let ghost all = checker_errs_view(errors@);
        let ghost orig = errors@;
        let ghost n0 = errors@.len();
        proof {
            lemma_checker_errs_view_len(errors@);
            assert forall|j: int| 0 <= j < orig.len() implies orig[j]@ == all[j] by {
                lemma_checker_errs_view_index(orig, j);
            }
        }
        let mut true_errors: Vec<CheckerError> = Vec::new();
        let mut propagated_checks: Vec<EcsThingRef> = Vec::new();
        let mut rest = errors;
        while rest.len() > 0
            invariant
                rest@.len() <= n0,
                n0 == all.len(),
                forall|j: int| 0 <= j < rest@.len() ==> rest@[j]@ == all[n0 - rest@.len() + j],
                checker_errs_view(true_errors@) == spec_extract(
                    all.subrange(0, n0 as int - rest@.len() as int),
                ).0,
                propagated_checks@.map_values(|t: EcsThingRef| t@) == spec_extract(
                    all.subrange(0, n0 as int - rest@.len() as int),
                ).1,
            decreases rest@.len(),
        {
            let ghost k = n0 as int - rest@.len() as int;
            let error = rest.remove(0);
            proof {
                assert(error@ == all[k]);
                assert(all.subrange(0, k + 1).drop_last() =~= all.subrange(0, k));
                assert(all.subrange(0, k + 1).last() == all[k]);
            }
            match error {
                CheckerError::InModule(err, _module_context) => {
                    partition_in_error(err, &mut propagated_checks, &mut true_errors);
                },
                other => {
                    proof {
                        lemma_checker_errs_view_push(true_errors@, other);
                    }
                    true_errors.push(other);
                    proof {
                        assert(checker_errs_view(true_errors@) =~= spec_extract(
                            all.subrange(0, k + 1),
                        ).0);
                    }
                },
            }
        }
        proof {
            assert(all.subrange(0, n0 as int) =~= all);
        }
        (true_errors, propagated_checks)
    }

    /// Run the whole pipeline on a project. Every module is type-checked
    /// and in-module-checked, every module's symbol table is merged into
    /// the project tree, and the cross-module pass always runs over the
    /// deferred worklist. Success returns the project itself, now
    /// certified reference-consistent and type-consistent; failure returns
    /// the union of every genuine diagnostic from all three stages — a
    /// single one alone, several merged into one aggregate.
    pub fn run_check(project: AethaumProject) -> (r: Result<AethaumProject, CheckerError>)
        requires
            forall|i: int|
                0 <= i < project@.modules.len() ==> spec_fields_primitive(
                    #[trigger] project@.modules[i].components,
                ),
        ensures
            r is Ok <==> spec_run_check(project@) is Ok,
            match r {
                Ok(p) => p == project,
                Err(e) => spec_run_check(project@) == Err::<(), SpecCheckerError>(e@),
            },
    {
        let ghost mviews = project@.modules;
        let ghost root_view = project.root@;
        let mut errors: Vec<CheckerError> = Vec::new();
        let mut module_contexts: Vec<ModuleCheckContext> = Vec::new();
        let modules = project.module_tree.get_modules();
        let n = modules.len();
        let mut i: usize = 0;
        while i < n
            invariant
                n == modules@.len(),
                mviews == modules@.map_values(|m: EcsModule| m@),
                mviews == project@.modules,
                root_view == project.root@,
                forall|j: int|
                    0 <= j < mviews.len() ==> spec_fields_primitive(
                        #[trigger] mviews[j].components,
                    ),
                i <= n,
                checker_errs_view(errors@) == spec_singles(
                    mviews.subrange(0, i as int),
                    root_view,
                ).0,
                module_contexts@.map_values(|c: ModuleCheckContext| c@) == spec_singles(
                    mviews.subrange(0, i as int),
                    root_view,
                ).1,
            decreases n - i,
        {
            proof {
                assert(mviews[i as int] == modules@[i as int]@);
                assert(mviews.subrange(0, i as int + 1).drop_last() =~= mviews.subrange(
                    0,
                    i as int,
                ));
                assert(mviews.subrange(0, i as int + 1).last() == mviews[i as int]);
            }
            let ghost pre_errs = errors@;
            let ghost pre_ctxs = module_contexts@;
            let (module_context, mut module_errors) = SingleEcsModuleChecker::run_checks(
                &modules[i],
                project.root.clone(),
            );
            let ghost merrs = module_errors@;
            module_contexts.push(module_context);
            errors.append(&mut module_errors);
            proof {
                lemma_checker_errs_view_concat(pre_errs, merrs);
                assert(checker_errs_view(errors@) =~= spec_singles(
                    mviews.subrange(0, i as int + 1),
                    root_view,
                ).0);
                assert(module_contexts@.map_values(|c: ModuleCheckContext| c@) =~= pre_ctxs
                    .map_values(|c: ModuleCheckContext| c@).push(
                    spec_single_ctx(mviews[i as int], root_view),
                ));
            }
            i = i + 1;
        }
        proof {
            assert(mviews.subrange(0, n as int) =~= mviews);
        }
        let (true_errors, propagated_checks) = Self::extract_propagated_check(errors);
        let module_tree = ModuleCheckTree::new().with_module_contexts(module_contexts);
        let ghost ex = spec_extract(spec_singles(mviews, root_view).0);
        let mut all_errors = true_errors;
        match CrossEcsModuleChecker::run_checks(&propagated_checks, &module_tree) {
            Ok(()) => {
                proof {
                    assert(checker_errs_view(all_errors@) =~= ex.0
                        + Seq::<SpecCheckerError>::empty());
                }
            },
            Err(ce) => {
                let err = CheckerError::CrossModule(ce);
                proof {
                    lemma_checker_errs_view_push(all_errors@, err);
                }
                all_errors.push(err);
                proof {
                    assert(checker_errs_view(all_errors@) =~= ex.0 + seq![
                        checker_err_view(err),
                    ]);
                }
            },
        }
        proof {
            lemma_checker_errs_view_len(all_errors@);
        }
        if all_errors.len() == 0 {
            Ok(project)
        } else if all_errors.len() == 1 {
            let ghost old_errs = all_errors@;
            let e = all_errors.pop().unwrap();
            proof {
                assert(e == old_errs.last());
                assert(old_errs.drop_last() =~= Seq::<CheckerError>::empty());
                assert(checker_errs_view(old_errs) =~= seq![checker_err_view(e)]);
            }
            Err(e)
        } else {
            Err(CheckerError::raise_multiple(all_errors))
        }
    }
}

// ---------------------------------------------------------------------------
// The deferral invariant
// ---------------------------------------------------------------------------

/// A leaf diagnostic that, if it is a deferral signal, carries a
/// qualified reference.
pub open spec fn leaf_defer_ok(l: SpecInError) -> bool {
    &&& !(l is Multiple)
    &&& (l is PropagateToCrossCheck ==> crate::ecs::module::spec_thing_ref(
        l->PropagateToCrossCheck_0,
    ).module is Some)
}

/// A diagnostic tree all of whose leaves satisfy `leaf_defer_ok`.
pub open spec fn defer_tree_ok(e: SpecInError) -> bool {
    forall|i: int| 0 <= i < in_leaves(e).len() ==> leaf_defer_ok(#[trigger] in_leaves(e)[i])
}

/// The leaves of a list of plain leaves are the list itself.
pub proof fn lemma_leaves_of_leaf_seq(ls: Seq<SpecInError>)
    requires
        forall|i: int| 0 <= i < ls.len() ==> !((#[trigger] ls[i]) is Multiple),
    ensures
        in_leaves_seq(ls) == ls,
    decreases ls.len(),
{
    if ls.len() > 0 {
        lemma_leaves_of_leaf_seq(ls.drop_last());
        assert(!(ls.last() is Multiple));
        assert(in_leaves(ls.last()) =~= seq![ls.last()]);
        assert(in_leaves_seq(ls) =~= ls.drop_last() + seq![ls.last()]);
        assert(ls.drop_last() + seq![ls.last()] =~= ls);
    }
}

/// The leaves of a list of well-behaved trees are all well behaved.
pub proof fn lemma_leaves_seq_defer_ok(ls: Seq<SpecInError>)
    requires
        forall|i: int| 0 <= i < ls.len() ==> defer_tree_ok(#[trigger] ls[i]),
    ensures
        forall|i: int|
            0 <= i < in_leaves_seq(ls).len() ==> leaf_defer_ok(#[trigger] in_leaves_seq(ls)[i]),
    decreases ls.len(),
{
    if ls.len() > 0 {
        lemma_leaves_seq_defer_ok(ls.drop_last());
        assert(defer_tree_ok(ls.last()));
        assert forall|i: int|
            0 <= i < in_leaves_seq(ls).len() implies leaf_defer_ok(
            #[trigger] in_leaves_seq(ls)[i],
        ) by {
            let pre = in_leaves_seq(ls.drop_last());
            if i < pre.len() {
                assert(in_leaves_seq(ls)[i] == pre[i]);
            } else {
                assert(in_leaves_seq(ls)[i] == in_leaves(ls.last())[i - pre.len()]);
            }
        }
    }
}

/// Deferred references collected from well-behaved leaves are all
/// qualified.
pub proof fn lemma_props_of_qualified(ls: Seq<SpecInError>)
    requires
        forall|i: int| 0 <= i < ls.len() ==> leaf_defer_ok(#[trigger] ls[i]),
    ensures
        forall|i: int|
            0 <= i < props_of(ls).len() ==> crate::ecs::module::spec_thing_ref(
                #[trigger] props_of(ls)[i],
            ).module is Some,
    decreases ls.len(),
{
    if ls.len() > 0 {
        lemma_props_of_qualified(ls.drop_last());
        assert(leaf_defer_ok(ls.last()));
        assert forall|i: int|
            0 <= i < props_of(ls).len() implies crate::ecs::module::spec_thing_ref(
            #[trigger] props_of(ls)[i],
        ).module is Some by {
            let pre = props_of(ls.drop_last());
            if i < pre.len() {
                assert(props_of(ls)[i] == pre[i]);
            } else {
                assert(ls.last() is PropagateToCrossCheck);
            }
        }
    }
}

/// Registration never produces a deferral signal, and its failures are
/// plain leaves.
pub proof fn lemma_reg_fold_leafy(ts: Seq<crate::ecs::module::SpecThing>, c: SpecContext)
    ensures
        forall|i: int|
            0 <= i < crate::ecs::checker::in_module::spec_reg_fold(ts, c).0.len()
                ==> leaf_defer_ok(
                #[trigger] crate::ecs::checker::in_module::spec_reg_fold(ts, c).0[i],
            ) && !((crate::ecs::checker::in_module::spec_reg_fold(ts, c).0[i])
                is PropagateToCrossCheck),
    decreases ts.len(),
{
    if ts.len() > 0 {
        lemma_reg_fold_leafy(ts.drop_last(), c);
    }
}

/// A resolution failure is a plain leaf, and a deferral carries a
/// qualified reference.
pub proof fn lemma_check_ref_leafy(
    k: crate::ecs::checker::context::ECSThing,
    r: crate::toml_parser::parsed::SpecRef,
    c: SpecContext,
)
    ensures
        crate::ecs::checker::in_module::spec_check_ref(k, r, c) matches Err(e) ==> leaf_defer_ok(
            e,
        ),
{
}

/// Every failure among a list of component references is a well-behaved
/// leaf.
pub proof fn lemma_crefs_errors_leafy(
    rs: Seq<crate::toml_parser::parsed::SpecRef>,
    c: SpecContext,
)
    ensures
        forall|i: int|
            0 <= i < crate::ecs::checker::in_module::spec_crefs_errors(rs, c).len()
                ==> leaf_defer_ok(
                #[trigger] crate::ecs::checker::in_module::spec_crefs_errors(rs, c)[i],
            ),
    decreases rs.len(),
{
    if rs.len() > 0 {
        lemma_crefs_errors_leafy(rs.drop_last(), c);
        lemma_check_ref_leafy(crate::ecs::checker::context::ECSThing::Component, rs.last(), c);
        assert forall|i: int|
            0 <= i < crate::ecs::checker::in_module::spec_crefs_errors(rs, c).len()
                implies leaf_defer_ok(
            #[trigger] crate::ecs::checker::in_module::spec_crefs_errors(rs, c)[i],
        ) by {
            let pre = crate::ecs::checker::in_module::spec_crefs_errors(rs.drop_last(), c);
            let tail = (match crate::ecs::checker::in_module::spec_check_ref(
                crate::ecs::checker::context::ECSThing::Component,
                rs.last(),
                c,
            ) {
                Ok(_) => Seq::<SpecInError>::empty(),
                Err(e) => seq![e],
            });
            if i < pre.len() {
                assert(crate::ecs::checker::in_module::spec_crefs_errors(rs, c)[i] == pre[i]);
            } else {
                assert(crate::ecs::checker::in_module::spec_crefs_errors(rs, c)[i] == tail[i
                    - pre.len()]);
            }
        }
    }
}

/// Collected well-behaved leaves wrap into a well-behaved tree.
pub proof fn lemma_wrap_in_defer_ok(ls: Seq<SpecInError>)
    requires
        forall|i: int| 0 <= i < ls.len() ==> leaf_defer_ok(#[trigger] ls[i]),
    ensures
        crate::ecs::checker::in_module::spec_wrap_in(ls) matches Err(e) ==> defer_tree_ok(e),
{
    if ls.len() == 1 {
        assert(in_leaves(ls[0]) =~= seq![ls[0]]);
    } else if ls.len() >= 2 {
        assert forall|i: int| 0 <= i < ls.len() implies !((#[trigger] ls[i]) is Multiple) by {}
        lemma_leaves_of_leaf_seq(ls);
    }
}

/// Every failure among a module's entity prototypes is a well-behaved
/// tree.
pub proof fn lemma_protos_errors_defer_ok(
    ps: Seq<crate::toml_parser::parsed::SpecProto>,
    c: SpecContext,
)
    ensures
        forall|i: int|
            0 <= i < crate::ecs::checker::in_module::spec_protos_errors(ps, c).len()
                ==> defer_tree_ok(
                #[trigger] crate::ecs::checker::in_module::spec_protos_errors(ps, c)[i],
            ),
    decreases ps.len(),
{
    if ps.len() > 0 {
        lemma_protos_errors_defer_ok(ps.drop_last(), c);
        lemma_crefs_errors_leafy(ps.last().components, c);
        lemma_wrap_in_defer_ok(
            crate::ecs::checker::in_module::spec_crefs_errors(ps.last().components, c),
        );
        assert forall|i: int|
            0 <= i < crate::ecs::checker::in_module::spec_protos_errors(ps, c).len()
                implies defer_tree_ok(
            #[trigger] crate::ecs::checker::in_module::spec_protos_errors(ps, c)[i],
        ) by {
            let pre = crate::ecs::checker::in_module::spec_protos_errors(ps.drop_last(), c);
            let tail = crate::ecs::checker::in_module::spec_err_opt(
                crate::ecs::checker::in_module::spec_proto_check(ps.last(), c),
            );
            if i < pre.len() {
                assert(crate::ecs::checker::in_module::spec_protos_errors(ps, c)[i] == pre[i]);
            } else {
                assert(crate::ecs::checker::in_module::spec_protos_errors(ps, c)[i] == tail[i
                    - pre.len()]);
            }
        }
    }
}

/// Every failure among a system's queries is a well-behaved tree.
pub proof fn lemma_queries_errors_defer_ok(
    qs: Seq<crate::toml_parser::parsed::SpecQuery>,
    c: SpecContext,
)
    ensures
        forall|i: int|
            0 <= i < crate::ecs::checker::in_module::spec_queries_errors(qs, c).len()
                ==> defer_tree_ok(
                #[trigger] crate::ecs::checker::in_module::spec_queries_errors(qs, c)[i],
            ),
    decreases qs.len(),
{
    if qs.len() > 0 {
        lemma_queries_errors_defer_ok(qs.drop_last(), c);
        let q = qs.last();
        lemma_crefs_errors_leafy(q.constraint.included + q.constraint.excluded, c);
        lemma_wrap_in_defer_ok(
            crate::ecs::checker::in_module::spec_crefs_errors(
                q.constraint.included + q.constraint.excluded,
                c,
            ),
        );
        assert forall|i: int|
            0 <= i < crate::ecs::checker::in_module::spec_queries_errors(qs, c).len()
                implies defer_tree_ok(
            #[trigger] crate::ecs::checker::in_module::spec_queries_errors(qs, c)[i],
        ) by {
            let pre = crate::ecs::checker::in_module::spec_queries_errors(qs.drop_last(), c);
            let tail = crate::ecs::checker::in_module::spec_err_opt(
                crate::ecs::checker::in_module::spec_query_check(qs.last(), c),
            );
            if i < pre.len() {
                assert(crate::ecs::checker::in_module::spec_queries_errors(qs, c)[i] == pre[i]);
            } else {
                assert(crate::ecs::checker::in_module::spec_queries_errors(qs, c)[i] == tail[i
                    - pre.len()]);
            }
        }
    }
}

/// Every failure among a system's handlers is a well-behaved tree.
pub proof fn lemma_handlers_errors_defer_ok(
    hs: Seq<crate::toml_parser::parsed::SpecRef>,
    c: SpecContext,
)
    ensures
        forall|i: int|
            0 <= i < crate::ecs::checker::in_module::spec_handlers_errors(hs, c).len()
                ==> defer_tree_ok(
                #[trigger] crate::ecs::checker::in_module::spec_handlers_errors(hs, c)[i],
            ),
    decreases hs.len(),
{
    if hs.len() > 0 {
        lemma_handlers_errors_defer_ok(hs.drop_last(), c);
        lemma_check_ref_leafy(crate::ecs::checker::context::ECSThing::Event, hs.last(), c);
        match crate::ecs::checker::in_module::spec_handler_check(hs.last(), c) {
            Ok(_) => {},
            Err(e) => {
                assert(in_leaves(e) =~= seq![e]);
            },
        }
        assert forall|i: int|
            0 <= i < crate::ecs::checker::in_module::spec_handlers_errors(hs, c).len()
                implies defer_tree_ok(
            #[trigger] crate::ecs::checker::in_module::spec_handlers_errors(hs, c)[i],
        ) by {
            let pre = crate::ecs::checker::in_module::spec_handlers_errors(hs.drop_last(), c);
            let tail = crate::ecs::checker::in_module::spec_err_opt(
                crate::ecs::checker::in_module::spec_handler_check(hs.last(), c),
            );
            if i < pre.len() {
                assert(crate::ecs::checker::in_module::spec_handlers_errors(hs, c)[i] == pre[i]);
            } else {
                assert(crate::ecs::checker::in_module::spec_handlers_errors(hs, c)[i] == tail[i
                    - pre.len()]);
            }
        }
    }
}

/// Every failure among a module's systems is a well-behaved tree.
pub proof fn lemma_systems_errors_defer_ok(
    ss: Seq<crate::toml_parser::parsed::SpecSystem>,
    c: SpecContext,
)
    ensures
        forall|i: int|
            0 <= i < crate::ecs::checker::in_module::spec_systems_errors(ss, c).len()
                ==> defer_tree_ok(
                #[trigger] crate::ecs::checker::in_module::spec_systems_errors(ss, c)[i],
            ),
    decreases ss.len(),
{
    if ss.len() > 0 {
        lemma_systems_errors_defer_ok(ss.drop_last(), c);
        let y = ss.last();
        lemma_queries_errors_defer_ok(y.queries, c);
        lemma_handlers_errors_defer_ok(y.handlers, c);
        assert forall|i: int|
            0 <= i < crate::ecs::checker::in_module::spec_systems_errors(ss, c).len()
                implies defer_tree_ok(
            #[trigger] crate::ecs::checker::in_module::spec_systems_errors(ss, c)[i],
        ) by {
            let pre = crate::ecs::checker::in_module::spec_systems_errors(ss.drop_last(), c);
            let qe = crate::ecs::checker::in_module::spec_queries_errors(y.queries, c);
            let he = crate::ecs::checker::in_module::spec_handlers_errors(y.handlers, c);
            if i < pre.len() {
                assert(crate::ecs::checker::in_module::spec_systems_errors(ss, c)[i] == pre[i]);
            } else if i < pre.len() + qe.len() {
                assert(crate::ecs::checker::in_module::spec_systems_errors(ss, c)[i] == qe[i
                    - pre.len()]);
            } else {
                assert(crate::ecs::checker::in_module::spec_systems_errors(ss, c)[i] == he[i
                    - pre.len() - qe.len()]);
            }
        }
    }
}

/// The orchestrator's deferral invariant, per module: whatever the
/// in-module stage reports, every deferred reference carried anywhere in
/// its diagnostics is qualified. Cross-module resolution is therefore
/// never invoked with an unqualified reference by a correct orchestrator.
pub proof fn lemma_deferred_refs_qualified(m: SpecModule, c0: SpecContext)
    ensures
        spec_module_in_check(m, c0).0 matches Err(e) ==> forall|i: int|
            0 <= i < props_of(in_leaves(e)).len() ==> crate::ecs::module::spec_thing_ref(
                #[trigger] props_of(in_leaves(e))[i],
            ).module is Some,
{
    let things = crate::ecs::checker::in_module::spec_module_things(m);
    let regs = crate::ecs::checker::in_module::spec_reg_fold(things, c0).0;
    let c1 = crate::ecs::checker::in_module::spec_reg_fold(things, c0).1;
    let pe = crate::ecs::checker::in_module::spec_protos_errors(m.entity_protos, c1);
    let se = crate::ecs::checker::in_module::spec_systems_errors(m.systems, c1);
    let errs = regs + pe + se;
    lemma_reg_fold_leafy(things, c0);
    lemma_protos_errors_defer_ok(m.entity_protos, c1);
    lemma_systems_errors_defer_ok(m.systems, c1);
    assert forall|i: int| 0 <= i < errs.len() implies defer_tree_ok(#[trigger] errs[i]) by {
        if i < regs.len() {
            assert(errs[i] == regs[i]);
            assert(leaf_defer_ok(regs[i]));
            assert(in_leaves(regs[i]) =~= seq![regs[i]]);
        } else if i < regs.len() + pe.len() {
            assert(errs[i] == pe[i - regs.len()]);
        } else {
            assert(errs[i] == se[i - regs.len() - pe.len()]);
        }
    }
    match crate::ecs::checker::in_module::spec_wrap_in(errs) {
        Ok(_) => {},
        Err(e) => {
            if errs.len() == 1 {
                assert(e == errs[0]);
                assert(defer_tree_ok(e));
                lemma_props_of_qualified(in_leaves(e));
            } else {
                assert(e == SpecInError::Multiple(errs));
                lemma_leaves_seq_defer_ok(errs);
                assert(in_leaves(e) == in_leaves_seq(errs));
                lemma_props_of_qualified(in_leaves(e));
            }
        },
    }
}


/// A merged diagnostic whose deferred references, if it carries any, are
/// all qualified.
pub open spec fn err_props_qualified(er: SpecCheckerError) -> bool {
    er matches SpecCheckerError::InModule(e, c) ==> forall|i: int|
        0 <= i < props_of(in_leaves(e)).len() ==> crate::ecs::module::spec_thing_ref(
            #[trigger] props_of(in_leaves(e))[i],
        ).module is Some
}

/// Every per-module diagnostic defers only qualified references.
pub proof fn lemma_single_errors_props_qualified(m: SpecModule, root: Seq<char>)
    ensures
        forall|i: int|
            0 <= i < spec_single_errors(m, root).len() ==> err_props_qualified(
                #[trigger] spec_single_errors(m, root)[i],
            ),
{
    lemma_deferred_refs_qualified(m, spec_ctx_empty(m.name, root));
    let tc = spec_wrap_tc(spec_module_type_errors(m.components));
    let (ir, c) = spec_module_in_check(m, spec_ctx_empty(m.name, root));
    let tcs = (match tc {
        Ok(_) => Seq::<SpecCheckerError>::empty(),
        Err(t) => seq![SpecCheckerError::Type(t)],
    });
    let irs = (match ir {
        Ok(_) => Seq::<SpecCheckerError>::empty(),
        Err(e) => seq![SpecCheckerError::InModule(e, c)],
    });
    assert forall|i: int|
        0 <= i < spec_single_errors(m, root).len() implies err_props_qualified(
        #[trigger] spec_single_errors(m, root)[i],
    ) by {
        if i < tcs.len() {
            assert(spec_single_errors(m, root)[i] == tcs[i]);
        } else {
            assert(spec_single_errors(m, root)[i] == irs[i - tcs.len()]);
        }
    }
}

pub proof fn lemma_singles_props_qualified(ms: Seq<SpecModule>, root: Seq<char>)
    ensures
        forall|i: int|
            0 <= i < spec_singles(ms, root).0.len() ==> err_props_qualified(
                #[trigger] spec_singles(ms, root).0[i],
            ),
    decreases ms.len(),
{
    if ms.len() > 0 {
        lemma_singles_props_qualified(ms.drop_last(), root);
        let m = ms.last();
        lemma_single_errors_props_qualified(m, root);
        assert forall|i: int|
            0 <= i < spec_singles(ms, root).0.len() implies err_props_qualified(
            #[trigger] spec_singles(ms, root).0[i],
        ) by {
            let pre = spec_singles(ms.drop_last(), root).0;
            if i < pre.len() {
                assert(spec_singles(ms, root).0[i] == pre[i]);
            } else {
                assert(spec_singles(ms, root).0[i] == spec_single_errors(m, root)[i - pre.len()]);
            }
        }
    }
}

/// The bifurcation of diagnostics that defer only qualified references
/// yields a worklist of qualified references only.
pub proof fn lemma_extract_props_qualified(errs: Seq<SpecCheckerError>)
    requires
        forall|i: int| 0 <= i < errs.len() ==> err_props_qualified(#[trigger] errs[i]),
    ensures
        forall|i: int|
            0 <= i < spec_extract(errs).1.len() ==> crate::ecs::module::spec_thing_ref(
                #[trigger] spec_extract(errs).1[i],
            ).module is Some,
    decreases errs.len(),
{
    if errs.len() > 0 {
        lemma_extract_props_qualified(errs.drop_last());
        assert(err_props_qualified(errs.last()));
        assert forall|i: int|
            0 <= i < spec_extract(errs).1.len() implies crate::ecs::module::spec_thing_ref(
            #[trigger] spec_extract(errs).1[i],
        ).module is Some by {
            let pre = spec_extract(errs.drop_last()).1;
            if i < pre.len() {
                assert(spec_extract(errs).1[i] == pre[i]);
            } else {
                match errs.last() {
                    SpecCheckerError::InModule(e, c) => {
                        assert(spec_extract(errs).1[i] == props_of(in_leaves(e))[i - pre.len()]);
                    },
                    _ => {},
                }
            }
        }
    }
}

/// The orchestrator's deferral invariant, project-wide: every reference
/// it hands to cross-module resolution carries a module qualifier, so a
/// correct run never reports `UnexpectedModuleNameMissing`.
pub proof fn lemma_worklist_qualified(p: SpecProject)
    ensures
        forall|i: int|
            0 <= i < spec_extract(spec_singles(p.modules, p.root).0).1.len()
                ==> crate::ecs::module::spec_thing_ref(
                #[trigger] spec_extract(spec_singles(p.modules, p.root).0).1[i],
            ).module is Some,
{
    lemma_singles_props_qualified(p.modules, p.root);
    lemma_extract_props_qualified(spec_singles(p.modules, p.root).0);
}


/// The one-line text of a single diagnostic, naming its stage, or the
/// bulleted list of an aggregate.
pub open spec fn spec_checker_message(e: SpecCheckerError) -> Seq<char>
    decreases e,
{
    match e {
        SpecCheckerError::Type(t) => "Type Error: "@ + spec_tc_message(t),
        SpecCheckerError::InModule(ie, _c) => "Unfiltered In Module Check Error: "@
            + spec_in_message(ie),
        SpecCheckerError::FilteredInModule(ie) => "In Module Check Error: "@ + spec_in_message(
            ie,
        ),
        SpecCheckerError::CrossModule(ce) => "Cross Module Check Error: "@ + spec_cross_message(
            ce,
        ),
        SpecCheckerError::Multiple(es) => "Multiple errors occurred during checking:"@
            + spec_checker_items(es),
    }
}

/// The bulleted items of an aggregate, one line each.
pub open spec fn spec_checker_items(es: Seq<SpecCheckerError>) -> Seq<char>
    decreases es,
{
    if es.len() == 0 {
        Seq::empty()
    } else {
        spec_checker_items(es.drop_last()) + "\n  - "@ + spec_checker_message(es.last())
    }
}

impl CheckerError {
    /// A one-line message naming the stage and the diagnostic; a bulleted
    /// list for an aggregate.
    pub fn message(&self) -> (r: String)
        ensures
            r@ == spec_checker_message(self@),
        decreases self,
    {
        match self {
            CheckerError::Type(t) => {
                let r = "Type Error: ".to_owned().concat(t.message().as_str());
                proof {
                    assert(r@ =~= "Type Error: "@ + spec_tc_message(t@));
                }
                r
            },
            CheckerError::InModule(ie, _module_context) => {
                let r = "Unfiltered In Module Check Error: ".to_owned().concat(
                    ie.message().as_str(),
                );
                proof {
                    assert(r@ =~= "Unfiltered In Module Check Error: "@ + spec_in_message(ie@));
                }
                r
            },
            CheckerError::FilteredInModule(ie) => {
                let r = "In Module Check Error: ".to_owned().concat(ie.message().as_str());
                proof {
                    assert(r@ =~= "In Module Check Error: "@ + spec_in_message(ie@));
                }
                r
            },
            CheckerError::CrossModule(ce) => {
                let r = "Cross Module Check Error: ".to_owned().concat(ce.message().as_str());
                proof {
                    assert(r@ =~= "Cross Module Check Error: "@ + spec_cross_message(ce@));
                }
                r
            },
            CheckerError::Multiple { errors } => {
                let mut out = "Multiple errors occurred during checking:".to_owned();
                let ghost es = checker_errs_view(errors@);
                let n = errors.len();
                proof {
                    lemma_checker_errs_view_len(errors@);
                    assert(spec_checker_items(es.subrange(0, 0)) =~= Seq::<char>::empty());
                    assert(out@ =~= "Multiple errors occurred during checking:"@
                        + spec_checker_items(es.subrange(0, 0)));
                }
                let mut k: usize = 0;
                while k < n
                    invariant
                        *self == (CheckerError::Multiple { errors: *errors }),
                        n == errors@.len(),
                        es == checker_errs_view(errors@),
                        es.len() == n,
                        k <= n,
                        out@ == "Multiple errors occurred during checking:"@ + spec_checker_items(
                            es.subrange(0, k as int),
                        ),
                    decreases n - k,
                {
                    proof {
                        assert(decreases_to!(*self => (*self)->errors@[k as int]));
                        assert(errors@[k as int] == (*self)->errors@[k as int]);
                        lemma_checker_errs_view_index(errors@, k as int);
                    }
                    let m = errors[k].message();
                    out = out.concat("\n  - ").concat(m.as_str());
                    proof {
                        assert(es.subrange(0, k as int + 1).drop_last() =~= es.subrange(
                            0,
                            k as int,
                        ));
                        assert(es.subrange(0, k as int + 1).last() == es[k as int]);
                        assert(out@ =~= "Multiple errors occurred during checking:"@
                            + spec_checker_items(es.subrange(0, k as int + 1)));
                    }
                    k = k + 1;
                }
                proof {
                    assert(es.subrange(0, n as int) =~= es);
                }
                out
            },
        }
    }
}

} // verus!
