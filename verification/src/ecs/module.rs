//! Modules, the project value, and the tagged union over the four kinds of
//! definable thing.

use vstd::prelude::*;

use crate::toml_parser::parsed::{
    Component, ComponentRef, EntityProto, EntityProtoRef, Event, EventRef, SpecComponent,
    SpecProto, SpecRef, SpecSystem, System, SystemRef, World, spec_path_text, str_eq,
};

verus! {

/// Spec model of a reference tagged with its thing kind.
#[verifier::ext_equal]
pub enum SpecThing {
    Component(SpecRef),
    Event(SpecRef),
    EntityProto(SpecRef),
    System(SpecRef),
}

/// The reference a tagged thing carries.
pub open spec fn spec_thing_ref(t: SpecThing) -> SpecRef {
    match t {
        SpecThing::Component(r) => r,
        SpecThing::Event(r) => r,
        SpecThing::EntityProto(r) => r,
        SpecThing::System(r) => r,
    }
}

/// The module qualifier's text; empty when the reference is unqualified.
pub open spec fn spec_thing_module_text(t: SpecThing) -> Seq<char> {
    match spec_thing_ref(t).module {
        Some(m) => m,
        None => Seq::empty(),
    }
}

/// The diagnostic description of a thing: its kind and its quoted path.
pub open spec fn spec_error_text(t: SpecThing) -> Seq<char> {
    match t {
        SpecThing::Component(r) => "Component \""@ + spec_path_text(r) + "\""@,
        SpecThing::Event(r) => "Event \""@ + spec_path_text(r) + "\""@,
        SpecThing::EntityProto(r) => "Entity Proto \""@ + spec_path_text(r) + "\""@,
        SpecThing::System(r) => "System \""@ + spec_path_text(r) + "\""@,
    }
}

/// A reference to any of the four definable things.
#[derive(Debug, PartialEq)]
pub enum EcsThingRef {
    Component(ComponentRef),
    Event(EventRef),
    EntityProto(EntityProtoRef),
    System(SystemRef),
}

impl View for EcsThingRef {
    type V = SpecThing;

    open spec fn view(&self) -> SpecThing {
        match self {
            EcsThingRef::Component(r) => SpecThing::Component(r@),
            EcsThingRef::Event(r) => SpecThing::Event(r@),
            EcsThingRef::EntityProto(r) => SpecThing::EntityProto(r@),
            EcsThingRef::System(r) => SpecThing::System(r@),
        }
    }
}

impl Clone for EcsThingRef {
    fn clone(&self) -> (r: Self)
        ensures
            r == *self,
    {
        match self {
            EcsThingRef::Component(c) => EcsThingRef::Component(c.clone()),
            EcsThingRef::Event(e) => EcsThingRef::Event(e.clone()),
            EcsThingRef::EntityProto(p) => EcsThingRef::EntityProto(p.clone()),
            EcsThingRef::System(s) => EcsThingRef::System(s.clone()),
        }
    }
}

impl EcsThingRef {
    /// The description used in diagnostics, e.g. `Component "combat::Health"`.
    pub fn as_error_str(&self) -> (r: String)
        ensures
            r@ == spec_error_text(self@),
    {
        let (label, path): (&str, String) = match self {
            EcsThingRef::Component(c) => ("Component \"", c.as_path_str()),
            EcsThingRef::Event(e) => ("Event \"", e.as_path_str()),
            EcsThingRef::EntityProto(p) => ("Entity Proto \"", p.as_path_str()),
            EcsThingRef::System(s) => ("System \"", s.as_path_str()),
        };
        let r = label.to_owned().concat(path.as_str()).concat("\"");
        proof {
            assert(r@ =~= label@ + path@ + "\""@);
        }
        r
    }

    /// The defining module's name, or the empty string when unqualified.
    pub fn module_name(&self) -> (r: &str)
        ensures
            r@ == spec_thing_module_text(self@),
    {
        let m: &Option<String> = match self {
            EcsThingRef::Component(c) => &c.module_name,
            EcsThingRef::Event(e) => &e.module_name,
            EcsThingRef::EntityProto(p) => &p.module_name,
            EcsThingRef::System(s) => &s.module_name,
        };
        match m {
            Some(name) => name.as_str(),
            None => {
                let r = "";
                proof {
                    reveal_strlit("");
                    assert(r@ =~= Seq::<char>::empty());
                }
                r
            },
        }
    }

    /// The thing's own name, without any qualifier.
    pub fn name(&self) -> (r: &str)
        ensures
            r@ == spec_thing_ref(self@).name,
    {
        match self {
            EcsThingRef::Component(c) => c.name.as_str(),
            EcsThingRef::Event(e) => e.name.as_str(),
            EcsThingRef::EntityProto(p) => p.name.as_str(),
            EcsThingRef::System(s) => s.name.as_str(),
        }
    }
}

// ---------------------------------------------------------------------------
// Modules
// ---------------------------------------------------------------------------

/// Spec model of one module's declarations. An absent list and an empty
/// list carry the same meaning to the checker.
#[verifier::ext_equal]
pub struct SpecModule {
    pub name: Seq<char>,
    pub components: Seq<SpecComponent>,
    pub events: Seq<Seq<char>>,
    pub entity_protos: Seq<SpecProto>,
    pub systems: Seq<SpecSystem>,
}

/// One module: a name and its optional declaration lists.
#[derive(Debug, PartialEq)]
pub struct EcsModule {
    pub name: String,
    pub components: Option<Vec<Component>>,
    pub events: Option<Vec<Event>>,
    pub entity_protos: Option<Vec<EntityProto>>,
    pub systems: Option<Vec<System>>,
}

impl View for EcsModule {
    type V = SpecModule;

    open spec fn view(&self) -> SpecModule {
        SpecModule {
            name: self.name@,
            components: match self.components {
                Some(v) => v@.map_values(|c: Component| c@),
                None => Seq::empty(),
            },
            events: match self.events {
                Some(v) => v@.map_values(|e: Event| e.name@),
                None => Seq::empty(),
            },
            entity_protos: match self.entity_protos {
                Some(v) => v@.map_values(|p: EntityProto| p@),
                None => Seq::empty(),
            },
            systems: match self.systems {
                Some(v) => v@.map_values(|s: System| s@),
                None => Seq::empty(),
            },
        }
    }
}

impl EcsModule {
    pub fn new_empty(name: String) -> (r: Self)
        ensures
            r.name == name,
            r.components is None,
            r.events is None,
            r.entity_protos is None,
            r.systems is None,
    {
        EcsModule { name, components: None, events: None, entity_protos: None, systems: None }
    }

    pub fn with_components(self, components: Vec<Component>) -> (r: Self)
        ensures
            r == (EcsModule { components: Some(components), ..self }),
    {
        EcsModule { components: Some(components), ..self }
    }

    pub fn with_events(self, events: Vec<Event>) -> (r: Self)
        ensures
            r == (EcsModule { events: Some(events), ..self }),
    {
        EcsModule { events: Some(events), ..self }
    }

    pub fn with_entity_protos(self, entity_protos: Vec<EntityProto>) -> (r: Self)
        ensures
            r == (EcsModule { entity_protos: Some(entity_protos), ..self }),
    {
        EcsModule { entity_protos: Some(entity_protos), ..self }
    }

    pub fn with_systems(self, systems: Vec<System>) -> (r: Self)
        ensures
            r == (EcsModule { systems: Some(systems), ..self }),
    {
        EcsModule { systems: Some(systems), ..self }
    }

    pub fn with_option_components(self, components: Option<Vec<Component>>) -> (r: Self)
        ensures
            match components {
                Some(v) => r == (EcsModule { components: Some(v), ..self }),
                None => r == self,
            },
    {
        match components {
            Some(v) => self.with_components(v),
            None => self,
        }
    }

    pub fn with_option_events(self, events: Option<Vec<Event>>) -> (r: Self)
        ensures
            match events {
                Some(v) => r == (EcsModule { events: Some(v), ..self }),
                None => r == self,
            },
    {
        match events {
            Some(v) => self.with_events(v),
            None => self,
        }
    }

    pub fn with_option_entity_protos(self, entity_protos: Option<Vec<EntityProto>>) -> (r: Self)
        ensures
            match entity_protos {
                Some(v) => r == (EcsModule { entity_protos: Some(v), ..self }),
                None => r == self,
            },
    {
        match entity_protos {
            Some(v) => self.with_entity_protos(v),
            None => self,
        }
    }

    pub fn with_option_systems(self, systems: Option<Vec<System>>) -> (r: Self)
        ensures
            match systems {
                Some(v) => r == (EcsModule { systems: Some(v), ..self }),
                None => r == self,
            },
    {
        match systems {
            Some(v) => self.with_systems(v),
            None => self,
        }
    }
}

// ---------------------------------------------------------------------------
// The module tree
// ---------------------------------------------------------------------------

/// Index of the first module of `s` with the given name, or -1.
pub open spec fn module_index(s: Seq<EcsModule>, name: Seq<char>) -> int
    decreases s.len(),
{
    if s.len() == 0 {
        -1
    } else if s[0].name@ == name {
        0
    } else {
        let rest = module_index(s.subrange(1, s.len() as int), name);
        if rest < 0 {
            -1
        } else {
            rest + 1
        }
    }
}

/// Inserting keyed by name: an existing entry is replaced in place, a new
/// name is appended.
pub open spec fn spec_module_insert(s: Seq<EcsModule>, m: EcsModule) -> Seq<EcsModule> {
    let i = module_index(s, m.name@);
    if i >= 0 {
        s.update(i, m)
    } else {
        s.push(m)
    }
}

/// Folding a list of modules into a tree, leftmost first.
pub open spec fn spec_module_fold(s: Seq<EcsModule>, ms: Seq<EcsModule>) -> Seq<EcsModule>
    decreases ms.len(),
{
    if ms.len() == 0 {
        s
    } else {
        spec_module_fold(spec_module_insert(s, ms[0]), ms.subrange(1, ms.len() as int))
    }
}

/// `module_index` finds exactly the first position whose name matches.
pub proof fn lemma_module_index(s: Seq<EcsModule>, name: Seq<char>)
    ensures
        module_index(s, name) >= 0 ==> {
            &&& module_index(s, name) < s.len()
            &&& s[module_index(s, name)].name@ == name
            &&& forall|j: int| 0 <= j < module_index(s, name) ==> s[j].name@ != name
        },
        module_index(s, name) < 0 ==> (forall|j: int| 0 <= j < s.len() ==> s[j].name@ != name),
    decreases s.len(),
{
    if s.len() > 0 {
        let rest = s.subrange(1, s.len() as int);
        lemma_module_index(rest, name);
        if s[0].name@ == name {
        } else {
            let ri = module_index(rest, name);
            if ri >= 0 {
                assert forall|j: int| 0 <= j < ri + 1 implies s[j].name@ != name by {
                    if j >= 1 {
                        assert(rest[j - 1] == s[j]);
                    }
                }
            } else {
                assert forall|j: int| 0 <= j < s.len() implies s[j].name@ != name by {
                    if j >= 1 {
                        assert(rest[j - 1] == s[j]);
                    }
                }
            }
        }
    }
}

/// With a match at `k` and none before it, `module_index` returns `k`;
/// with no match at all it returns -1.
pub proof fn lemma_module_index_pins(s: Seq<EcsModule>, name: Seq<char>, k: int)
    requires
        0 <= k < s.len(),
        s[k].name@ == name,
        forall|j: int| 0 <= j < k ==> s[j].name@ != name,
    ensures
        module_index(s, name) == k,
{
    lemma_module_index(s, name);
    let idx = module_index(s, name);
    if idx < 0 {
        assert(s[k].name@ != name);
    } else if idx < k {
        assert(s[idx].name@ != name);
    } else if idx > k {
        assert(s[k].name@ != name);
    }
}

/// The modules of a project, keyed by module name.
#[derive(Debug, PartialEq)]
pub struct EcsModuleTree {
    pub tree: Vec<EcsModule>,
}

impl View for EcsModuleTree {
    type V = Seq<EcsModule>;

    open spec fn view(&self) -> Seq<EcsModule> {
        self.tree@
    }
}

impl EcsModuleTree {
    pub fn new_empty() -> (r: Self)
        ensures
            r@ == Seq::<EcsModule>::empty(),
    {
        EcsModuleTree { tree: Vec::new() }
    }

    /// Insert a module under its name, replacing any module of that name.
    pub fn insert_module(&mut self, module: EcsModule)
        ensures
            final(self)@ == spec_module_insert(old(self)@, module),
    {
        let n = self.tree.len();
        let mut k: usize = 0;
        while k < n
            invariant
                self.tree@ == old(self).tree@,
                n == self.tree@.len(),
                k <= n,
                forall|j: int| 0 <= j < k ==> self.tree@[j].name@ != module.name@,
            decreases n - k,
        {
            if self.tree[k].name == module.name {
                proof {
                    lemma_module_index_pins(self.tree@, module.name@, k as int);
                }
                self.tree.set(k, module);
                return ;
            }
            k = k + 1;
        }
        proof {
            lemma_module_index(self.tree@, module.name@);
            if module_index(self.tree@, module.name@) >= 0 {
                assert(self.tree@[module_index(self.tree@, module.name@)].name@ == module.name@);
            }
        }
        self.tree.push(module);
    }

    /// Insert every module of the list, leftmost first.
    pub fn with_modules(self, modules: Vec<EcsModule>) -> (r: Self)
        ensures
            r@ == spec_module_fold(self@, modules@),
    {
        let ghost all = modules@;
        let ghost orig = self@;
        let mut tree = self;
        let mut modules = modules;
        proof {
            assert(modules@ =~= all.subrange(
                all.len() as int - modules@.len() as int,
                all.len() as int,
            ));
        }
        while modules.len() > 0
            invariant
                modules@.len() <= all.len(),
                modules@ =~= all.subrange(
                    all.len() as int - modules@.len() as int,
                    all.len() as int,
                ),
                spec_module_fold(tree@, modules@) == spec_module_fold(orig, all),
            decreases modules@.len(),
        {
            let ghost before_tree = tree@;
            let ghost before_mods = modules@;
            let m = modules.remove(0);
            tree.insert_module(m);
            proof {
                assert(modules@ =~= before_mods.subrange(1, before_mods.len() as int));
                assert(spec_module_fold(before_tree, before_mods) == spec_module_fold(
                    tree@,
                    modules@,
                ));
                assert(modules@ =~= all.subrange(
                    all.len() as int - modules@.len() as int,
                    all.len() as int,
                ));
            }
        }
        tree
    }

    /// The module of the given name, if any.
    pub fn get_module(&self, module_name: &str) -> (r: Option<&EcsModule>)
        ensures
            r is Some <==> module_index(self@, module_name@) >= 0,
            match r {
                Some(m) => *m == self@[module_index(self@, module_name@)],
                None => true,
            },
    {
        let n = self.tree.len();
        let mut k: usize = 0;
        while k < n
            invariant
                n == self.tree@.len(),
                k <= n,
                forall|j: int| 0 <= j < k ==> self.tree@[j].name@ != module_name@,
            decreases n - k,
        {
            if str_eq(self.tree[k].name.as_str(), module_name) {
                proof {
                    lemma_module_index_pins(self.tree@, module_name@, k as int);
                }
                return Some(&self.tree[k]);
            }
            k = k + 1;
        }
        proof {
            lemma_module_index(self.tree@, module_name@);
            if module_index(self.tree@, module_name@) >= 0 {
                assert(self.tree@[module_index(self.tree@, module_name@)].name@ == module_name@);
            }
        }
        None
    }

    /// Every module, in tree order.
    pub fn get_modules(&self) -> (r: &Vec<EcsModule>)
        ensures
            r@ == self@,
    {
        &self.tree
    }
}

// ---------------------------------------------------------------------------
// The project
// ---------------------------------------------------------------------------

/// Spec model of a whole project: its root path and its modules.
#[verifier::ext_equal]
pub struct SpecProject {
    pub root: Seq<char>,
    pub modules: Seq<SpecModule>,
}

/// A loaded project: the root path it came from, its manifest and its
/// modules.
#[derive(Debug)]
pub struct AethaumProject {
    pub root: String,
    pub world: World,
    pub module_tree: EcsModuleTree,
}

impl View for AethaumProject {
    type V = SpecProject;

    open spec fn view(&self) -> SpecProject {
        SpecProject {
            root: self.root@,
            modules: self.module_tree@.map_values(|m: EcsModule| m@),
        }
    }
}

impl AethaumProject {
    pub fn new(root: String, world: World, module_tree: EcsModuleTree) -> (r: Self)
        ensures
            r.root == root,
            r.world == world,
            r.module_tree == module_tree,
    {
        AethaumProject { root, world, module_tree }
    }
}

} // verus!
