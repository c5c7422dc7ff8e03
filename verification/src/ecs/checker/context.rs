//! Per-module and per-project symbol tables.

use vstd::prelude::*;

use crate::toml_parser::parsed::{
    ComponentRef, EntityProtoRef, EventRef, SpecRef, SystemRef, str_eq,
};

verus! {

/// The four kinds of definable thing.
pub enum ECSThing {
    Component,
    Event,
    EntityProto,
    System,
}

/// Spec model of one module's symbol table: the references registered for
/// each kind, in registration order.
#[verifier::ext_equal]
pub struct SpecContext {
    pub name: Seq<char>,
    pub root: Seq<char>,
    pub components: Seq<SpecRef>,
    pub events: Seq<SpecRef>,
    pub entity_protos: Seq<SpecRef>,
    pub systems: Seq<SpecRef>,
}

/// The freshly created, empty symbol table of a module.
pub open spec fn spec_ctx_empty(name: Seq<char>, root: Seq<char>) -> SpecContext {
    SpecContext {
        name: name,
        root: root,
        components: Seq::empty(),
        events: Seq::empty(),
        entity_protos: Seq::empty(),
        systems: Seq::empty(),
    }
}

/// A reference with this exact `(name, module)` key is in the list.
pub open spec fn spec_has_ref(s: Seq<SpecRef>, r: SpecRef) -> bool {
    exists|i: int| 0 <= i < s.len() && s[i] == r
}

/// A reference with this name, under any qualifier, is in the list.
pub open spec fn spec_has_name(s: Seq<SpecRef>, name: Seq<char>) -> bool {
    exists|i: int| 0 <= i < s.len() && s[i].name == name
}

/// One module's symbol table: what the module defines, per kind. Within
/// one kind a `(name, module)` key is registered at most once.
#[derive(Debug, PartialEq)]
pub struct ModuleCheckContext {
    pub name: String,
    pub defined_components: Vec<ComponentRef>,
    pub defined_events: Vec<EventRef>,
    pub defined_entity_protos: Vec<EntityProtoRef>,
    pub defined_systems: Vec<SystemRef>,
    pub project_root: String,
}

impl View for ModuleCheckContext {
    type V = SpecContext;

    open spec fn view(&self) -> SpecContext {
        SpecContext {
            name: self.name@,
            root: self.project_root@,
            components: self.defined_components@.map_values(|r: ComponentRef| r@),
            events: self.defined_events@.map_values(|r: EventRef| r@),
            entity_protos: self.defined_entity_protos@.map_values(|r: EntityProtoRef| r@),
            systems: self.defined_systems@.map_values(|r: SystemRef| r@),
        }
    }
}

/// Copies of a list of component references, element for element.
fn clone_component_refs(v: &Vec<ComponentRef>) -> (r: Vec<ComponentRef>)
    ensures
        r@ == v@,
{
    let mut out: Vec<ComponentRef> = Vec::new();
    let n = v.len();
    let mut k: usize = 0;
    while k < n
        invariant
            n == v@.len(),
            k <= n,
            out@ =~= v@.subrange(0, k as int),
        decreases n - k,
    {
        out.push(v[k].clone());
        k = k + 1;
    }
    proof {
        assert(v@.subrange(0, n as int) =~= v@);
    }
    out
}

/// Copies of a list of event references, element for element.
fn clone_event_refs(v: &Vec<EventRef>) -> (r: Vec<EventRef>)
    ensures
        r@ == v@,
{
    let mut out: Vec<EventRef> = Vec::new();
    let n = v.len();
    let mut k: usize = 0;
    while k < n
        invariant
            n == v@.len(),
            k <= n,
            out@ =~= v@.subrange(0, k as int),
        decreases n - k,
    {
        out.push(v[k].clone());
        k = k + 1;
    }
    proof {
        assert(v@.subrange(0, n as int) =~= v@);
    }
    out
}

/// Copies of a list of entity prototype references, element for element.
fn clone_entity_proto_refs(v: &Vec<EntityProtoRef>) -> (r: Vec<EntityProtoRef>)
    ensures
        r@ == v@,
{
    let mut out: Vec<EntityProtoRef> = Vec::new();
    let n = v.len();
    let mut k: usize = 0;
    while k < n
        invariant
            n == v@.len(),
            k <= n,
            out@ =~= v@.subrange(0, k as int),
        decreases n - k,
    {
        out.push(v[k].clone());
        k = k + 1;
    }
    proof {
        assert(v@.subrange(0, n as int) =~= v@);
    }
    out
}

/// Copies of a list of system references, element for element.
fn clone_system_refs(v: &Vec<SystemRef>) -> (r: Vec<SystemRef>)
    ensures
        r@ == v@,
{
    let mut out: Vec<SystemRef> = Vec::new();
    let n = v.len();
    let mut k: usize = 0;
    while k < n
        invariant
            n == v@.len(),
            k <= n,
            out@ =~= v@.subrange(0, k as int),
        decreases n - k,
    {
        out.push(v[k].clone());
        k = k + 1;
    }
    proof {
        assert(v@.subrange(0, n as int) =~= v@);
    }
    out
}

impl Clone for ModuleCheckContext {
    /// A copy with the same model: same module, same root, same
    /// registered references.
    fn clone(&self) -> (r: Self)
        ensures
            r@ == self@,
    {
        let r = ModuleCheckContext {
            name: self.name.clone(),
            defined_components: clone_component_refs(&self.defined_components),
            defined_events: clone_event_refs(&self.defined_events),
            defined_entity_protos: clone_entity_proto_refs(&self.defined_entity_protos),
            defined_systems: clone_system_refs(&self.defined_systems),
            project_root: self.project_root.clone(),
        };
        proof {
            assert(r@ =~= self@);
        }
        r
    }
}

impl ModuleCheckContext {
    pub fn new(name: String, project_root: String) -> (r: Self)
        ensures
            r@ == spec_ctx_empty(name@, project_root@),
    {
        let r = ModuleCheckContext {
            name,
            defined_components: Vec::new(),
            defined_events: Vec::new(),
            defined_entity_protos: Vec::new(),
            defined_systems: Vec::new(),
            project_root,
        };
        proof {
            assert(r@ =~= spec_ctx_empty(r.name@, r.project_root@));
        }
        r
    }
}

// ---------------------------------------------------------------------------
// The project symbol table
// ---------------------------------------------------------------------------

/// Index of the first context of `t` with the given module name, or -1.
pub open spec fn ctx_index(t: Seq<SpecContext>, name: Seq<char>) -> int
    decreases t.len(),
{
    if t.len() == 0 {
        -1
    } else if t[0].name == name {
        0
    } else {
        let rest = ctx_index(t.subrange(1, t.len() as int), name);
        if rest < 0 {
            -1
        } else {
            rest + 1
        }
    }
}

/// `ctx_index` finds exactly the first position whose name matches.
pub proof fn lemma_ctx_index(t: Seq<SpecContext>, name: Seq<char>)
    ensures
        ctx_index(t, name) >= 0 ==> {
            &&& ctx_index(t, name) < t.len()
            &&& t[ctx_index(t, name)].name == name
            &&& forall|j: int| 0 <= j < ctx_index(t, name) ==> t[j].name != name
        },
        ctx_index(t, name) < 0 ==> (forall|j: int| 0 <= j < t.len() ==> t[j].name != name),
    decreases t.len(),
{
    if t.len() > 0 {
        let rest = t.subrange(1, t.len() as int);
        lemma_ctx_index(rest, name);
        if t[0].name == name {
        } else {
            let ri = ctx_index(rest, name);
            if ri >= 0 {
                assert forall|j: int| 0 <= j < ri + 1 implies t[j].name != name by {
                    if j >= 1 {
                        assert(rest[j - 1] == t[j]);
                    }
                }
            } else {
                assert forall|j: int| 0 <= j < t.len() implies t[j].name != name by {
                    if j >= 1 {
                        assert(rest[j - 1] == t[j]);
                    }
                }
            }
        }
    }
}

/// With a match at `k` and none before it, `ctx_index` returns `k`.
pub proof fn lemma_ctx_index_pins(t: Seq<SpecContext>, name: Seq<char>, k: int)
    requires
        0 <= k < t.len(),
        t[k].name == name,
        forall|j: int| 0 <= j < k ==> t[j].name != name,
    ensures
        ctx_index(t, name) == k,
{
    lemma_ctx_index(t, name);
    let idx = ctx_index(t, name);
    if idx < 0 {
        assert(t[k].name != name);
    } else if idx < k {
        assert(t[idx].name != name);
    } else if idx > k {
        assert(t[k].name != name);
    }
}

/// Inserting keyed by module name: an existing entry is replaced in place,
/// a new name is appended.
pub open spec fn spec_ctx_insert(t: Seq<SpecContext>, c: SpecContext) -> Seq<SpecContext> {
    let i = ctx_index(t, c.name);
    if i >= 0 {
        t.update(i, c)
    } else {
        t.push(c)
    }
}

/// Folding a list of contexts into a tree, leftmost first.
pub open spec fn spec_ctx_fold(t: Seq<SpecContext>, cs: Seq<SpecContext>) -> Seq<SpecContext>
    decreases cs.len(),
{
    if cs.len() == 0 {
        t
    } else {
        spec_ctx_insert(spec_ctx_fold(t, cs.drop_last()), cs.last())
    }
}

/// The project symbol table: every module's completed symbol table, keyed
/// by module name.
#[derive(Debug, PartialEq)]
pub struct ModuleCheckTree {
    pub modules: Vec<ModuleCheckContext>,
}

impl View for ModuleCheckTree {
    type V = Seq<SpecContext>;

    open spec fn view(&self) -> Seq<SpecContext> {
        self.modules@.map_values(|c: ModuleCheckContext| c@)
    }
}

impl ModuleCheckTree {
    pub fn new() -> (r: Self)
        ensures
            r@ == Seq::<SpecContext>::empty(),
    {
        let r = ModuleCheckTree { modules: Vec::new() };
        proof {
            assert(r@ =~= Seq::<SpecContext>::empty());
        }
        r
    }

    /// Insert a context under its module name, replacing any entry of that
    /// name.
    pub fn insert_context(&mut self, context: ModuleCheckContext)
        ensures
            final(self)@ == spec_ctx_insert(old(self)@, context@),
    {
        let n = self.modules.len();
        let mut k: usize = 0;
        while k < n
            invariant
                self.modules@ == old(self).modules@,
                n == self.modules@.len(),
                k <= n,
                forall|j: int| 0 <= j < k ==> self@[j].name != context@.name,
            decreases n - k,
        {
            if self.modules[k].name == context.name {
                proof {
                    assert(self@[k as int].name == context@.name);
                    lemma_ctx_index_pins(self@, context@.name, k as int);
                }
                let ghost pre = self@;
                self.modules.set(k, context);
                proof {
                    assert(self@ =~= pre.update(k as int, context@));
                }
                return ;
            }
            proof {
                assert(self@[k as int].name == self.modules@[k as int].name@);
            }
            k = k + 1;
        }
        proof {
            lemma_ctx_index(self@, context@.name);
            if ctx_index(self@, context@.name) >= 0 {
                assert(self@[ctx_index(self@, context@.name)].name == context@.name);
            }
        }
        let ghost pre = self@;
        self.modules.push(context);
        proof {
            assert(self@ =~= pre.push(context@));
        }
    }

    /// Insert every context of the list, leftmost first.
    pub fn with_module_contexts(self, module_contexts: Vec<ModuleCheckContext>) -> (r: Self)
        ensures
            r@ == spec_ctx_fold(self@, module_contexts@.map_values(|c: ModuleCheckContext| c@)),
    {
        let ghost all = module_contexts@.map_values(|c: ModuleCheckContext| c@);
        let ghost orig = self@;
        let mut tree = self;
        let n = module_contexts.len();
        let mut contexts = module_contexts;
        let mut k: usize = 0;
        while k < n
            invariant
                n == all.len(),
                k <= n,
                contexts@.len() == n - k,
                contexts@.map_values(|c: ModuleCheckContext| c@) =~= all.subrange(
                    k as int,
                    n as int,
                ),
                tree@ == spec_ctx_fold(orig, all.subrange(0, k as int)),
            decreases n - k,
        {
            let ghost before_tree = tree@;
            let ghost before_list = contexts@;
            let c = contexts.remove(0);
            proof {
                assert(before_list.map_values(|cc: ModuleCheckContext| cc@)[0] == c@);
                assert(c@ == all[k as int]);
                assert(contexts@.map_values(|cc: ModuleCheckContext| cc@) =~= before_list.map_values(
                    |cc: ModuleCheckContext| cc@,
                ).subrange(1, (n - k) as int));
            }
            tree.insert_context(c);
            proof {
                assert(all.subrange(0, k as int + 1).drop_last() =~= all.subrange(0, k as int));
                assert(all.subrange(0, k as int + 1).last() == all[k as int]);
                assert(tree@ == spec_ctx_fold(orig, all.subrange(0, k as int + 1)));
                assert(contexts@.map_values(|cc: ModuleCheckContext| cc@) =~= all.subrange(
                    k as int + 1,
                    n as int,
                ));
            }
            k = k + 1;
        }
        proof {
            assert(all.subrange(0, n as int) =~= all);
        }
        tree
    }

    /// The completed symbol table of the named module, if any.
    pub fn get_module_context(&self, name: &str) -> (r: Option<&ModuleCheckContext>)
        ensures
            r is Some <==> ctx_index(self@, name@) >= 0,
            match r {
                Some(c) => c@ == self@[ctx_index(self@, name@)],
                None => true,
            },
    {
        let n = self.modules.len();
        let mut k: usize = 0;
        while k < n
            invariant
                n == self.modules@.len(),
                k <= n,
                forall|j: int| 0 <= j < k ==> self@[j].name != name@,
            decreases n - k,
        {
            if str_eq(self.modules[k].name.as_str(), name) {
                proof {
                    assert(self@[k as int].name == name@);
                    lemma_ctx_index_pins(self@, name@, k as int);
                }
                return Some(&self.modules[k]);
            }
            proof {
                assert(self@[k as int].name == self.modules@[k as int].name@);
            }
            k = k + 1;
        }
        proof {
            lemma_ctx_index(self@, name@);
            if ctx_index(self@, name@) >= 0 {
                assert(self@[ctx_index(self@, name@)].name == name@);
            }
        }
        None
    }

    /// Every context, in tree order.
    pub fn get_tree(&self) -> (r: &Vec<ModuleCheckContext>)
        ensures
            r@.map_values(|c: ModuleCheckContext| c@) == self@,
    {
        &self.modules
    }
}

} // verus!
