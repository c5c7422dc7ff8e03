//! Typed data model of a module's declarations: primitive types, literal
//! default values, the four reference kinds (component, event, entity
//! prototype, system) and the declaration records that carry them.
//!
//! A reference is written `name` (unqualified) or `module::name`
//! (qualified). Parsing rejects nested qualifiers (more than one `::`) and
//! an empty name.

use vstd::prelude::*;

verus! {

// ---------------------------------------------------------------------------
// Spec model of references
// ---------------------------------------------------------------------------

/// Mathematical model of a reference: a name and an optional module
/// qualifier. Equality is by the `(name, module)` pair; an unqualified
/// reference is a different key from a qualified one with the same name.
#[verifier::ext_equal]
pub struct SpecRef {
    pub name: Seq<char>,
    pub module: Option<Seq<char>>,
}

/// The view of an optional identifier.
pub open spec fn opt_text(m: Option<String>) -> Option<Seq<char>> {
    match m {
        Some(s) => Some(s@),
        None => None,
    }
}

// ---------------------------------------------------------------------------
// Reference text syntax: `name` or `module::name`
// ---------------------------------------------------------------------------

/// A `::` separator starts at position `i` of `s`.
pub open spec fn sep_at(s: Seq<char>, i: int) -> bool {
    0 <= i && i + 2 <= s.len() && s[i] == ':' && s[i + 1] == ':'
}

/// `s` contains a `::` separator somewhere.
pub open spec fn has_sep(s: Seq<char>) -> bool {
    exists|i: int| sep_at(s, i)
}

/// `i` is the position of the leftmost `::` separator of `s`.
pub open spec fn first_sep_is(s: Seq<char>, i: int) -> bool {
    sep_at(s, i) && forall|j: int| 0 <= j < i ==> !sep_at(s, j)
}

/// The reference text `s` is well formed: either it has no separator and is
/// a non-empty name, or it splits at its first separator into a module part
/// and a non-empty name part that contains no further separator.
pub open spec fn ref_text_ok(s: Seq<char>) -> bool {
    if !has_sep(s) {
        s.len() > 0
    } else {
        exists|i: int|
            {
                &&& #[trigger] first_sep_is(s, i)
                &&& i > 0
                &&& !has_sep(s.subrange(i + 2, s.len() as int))
                &&& s.subrange(i + 2, s.len() as int).len() > 0
            }
    }
}

/// `s` parses exactly to the given module part and name part.
pub open spec fn ref_text_parses_to(s: Seq<char>, module: Option<Seq<char>>, name: Seq<char>) -> bool {
    match module {
        None => !has_sep(s) && s.len() > 0 && name == s,
        Some(m) => {
            &&& m.len() > 0
            &&& first_sep_is(s, m.len() as int)
            &&& m == s.subrange(0, m.len() as int)
            &&& name == s.subrange(m.len() as int + 2, s.len() as int)
            &&& !has_sep(name)
            &&& name.len() > 0
        },
    }
}

/// The name part of `s` is empty: the whole text is empty, or nothing
/// follows the first separator.
pub open spec fn ref_text_empty_name(s: Seq<char>) -> bool {
    ||| (!has_sep(s) && s.len() == 0)
    ||| (exists|i: int| #[trigger] first_sep_is(s, i) && i + 2 == s.len())
}

/// A further separator follows the first one: a nested module qualifier,
/// which the syntax does not allow.
pub open spec fn ref_text_nested(s: Seq<char>) -> bool {
    exists|i: int| #[trigger] first_sep_is(s, i) && has_sep(s.subrange(i + 2, s.len() as int))
}

/// The text starts with a separator: its module part is empty, which the
/// syntax does not allow.
pub open spec fn ref_text_empty_module(s: Seq<char>) -> bool {
    first_sep_is(s, 0)
}

/// Rejection reasons when a reference text does not parse. The offending
/// text is carried for diagnostics.
#[derive(Debug, PartialEq, Eq)]
pub enum RefPathError {
    /// The name part is empty.
    EmptyName { text: String },
    /// The module part is empty: the text starts with `::`.
    EmptyModule { text: String },
    /// More than one `::` separator: nested modules are not supported.
    NestedModule { text: String },
}

/// Position of the leftmost `::` of `s`, if any.
fn find_sep(s: &str) -> (r: Option<usize>)
    ensures
        match r {
            Some(i) => first_sep_is(s@, i as int),
            None => !has_sep(s@),
        },
{
    let n = s.unicode_len();
    if n < 2 {
        assert(forall|j: int| !sep_at(s@, j));
        return None;
    }
    let mut i: usize = 0;
    while i < n - 1
        invariant
            n == s@.len(),
            2 <= n,
            i <= n - 1,
            forall|j: int| 0 <= j < i ==> !sep_at(s@, j),
        decreases n - i,
    {
        let c1 = s.get_char(i);
        let c2 = s.get_char(i + 1);
        if c1 == ':' && c2 == ':' {
            return Some(i);
        }
        i = i + 1;
    }
    assert(forall|j: int| !sep_at(s@, j));
    None
}

/// Split a reference text into its optional module part and its name part.
///
/// Accepts `name` and `module::name`; rejects an empty name and a nested
/// qualifier, naming the offending text.
pub fn split_ref_text(s: &str) -> (r: Result<(Option<String>, String), RefPathError>)
    ensures
        r is Ok <==> ref_text_ok(s@),
        match r {
            Ok(p) => ref_text_parses_to(s@, opt_text(p.0), p.1@),
            Err(RefPathError::EmptyName { text }) => text@ == s@ && ref_text_empty_name(s@),
            Err(RefPathError::EmptyModule { text }) => text@ == s@ && ref_text_empty_module(s@),
            Err(RefPathError::NestedModule { text }) => text@ == s@ && ref_text_nested(s@),
        },
{
    let n = s.unicode_len();
    match find_sep(s) {
        None => {
            if n == 0 {
                Err(RefPathError::EmptyName { text: String::from_str(s) })
            } else {
                Ok((None, String::from_str(s)))
            }
        },
        Some(i) => {
            if i == 0 {
                return Err(RefPathError::EmptyModule { text: String::from_str(s) });
            }
            let module_part = s.substring_char(0, i);
            let name_part = s.substring_char(i + 2, n);
            match find_sep(name_part) {
                Some(_) => Err(RefPathError::NestedModule { text: String::from_str(s) }),
                None => {
                    if name_part.unicode_len() == 0 {
                        Err(RefPathError::EmptyName { text: String::from_str(s) })
                    } else {
                        let m = String::from_str(module_part);
                        let name = String::from_str(name_part);
                        assert(m@.len() == i);
                        Ok((Some(m), name))
                    }
                },
            }
        },
    }
}

// ---------------------------------------------------------------------------
// Helpers shared by the value types
// ---------------------------------------------------------------------------

/// Clone of an optional identifier, known to preserve the value.
fn clone_opt_string(s: &Option<String>) -> (r: Option<String>)
    ensures
        r == *s,
{
    match s {
        Some(x) => Some(x.clone()),
        None => None,
    }
}

// ---------------------------------------------------------------------------
// Component references
// ---------------------------------------------------------------------------

/// A reference to a component, as written in a query constraint or an
/// entity prototype's component list.
#[derive(Debug, PartialEq, Eq)]
pub struct ComponentRef {
    pub name: String,
    pub module_name: Option<String>,
}

impl View for ComponentRef {
    type V = SpecRef;

    open spec fn view(&self) -> SpecRef {
        SpecRef { name: self.name@, module: opt_text(self.module_name) }
    }
}

impl Clone for ComponentRef {
    fn clone(&self) -> (r: Self)
        ensures
            r == *self,
    {
        ComponentRef { name: self.name.clone(), module_name: clone_opt_string(&self.module_name) }
    }
}

impl ComponentRef {
    pub fn new(module_name: Option<String>, name: String) -> (r: Self)
        ensures
            r@ == (SpecRef { name: name@, module: opt_text(module_name) }),
    {
        ComponentRef { name, module_name }
    }

    /// Parse `name` or `module::name`.
    pub fn try_from_str(s: &str) -> (r: Result<Self, RefPathError>)
        ensures
            r is Ok <==> ref_text_ok(s@),
            match r {
                Ok(c) => ref_text_parses_to(s@, c@.module, c@.name),
                Err(RefPathError::EmptyName { text }) => text@ == s@ && ref_text_empty_name(s@),
                Err(RefPathError::EmptyModule { text }) => text@ == s@ && ref_text_empty_module(
                    s@,
                ),
                Err(RefPathError::NestedModule { text }) => text@ == s@ && ref_text_nested(s@),
            },
    {
        match split_ref_text(s)? {
            (module_name, name) => Ok(ComponentRef { name, module_name }),
        }
    }

    /// The textual form: `name`, or `module::name` when qualified.
    pub fn as_path_str(&self) -> (r: String)
        ensures
            r@ == spec_path_text(self@),
    {
        path_string(&self.module_name, &self.name)
    }

    /// The same reference, qualified to the given module.
    pub fn to_global_ref(self, module_name: String) -> (r: Self)
        ensures
            r@ == (SpecRef { name: self@.name, module: Some(module_name@) }),
    {
        ComponentRef { name: self.name, module_name: Some(module_name) }
    }

    /// The same reference with its qualifier removed.
    pub fn to_local_ref(self) -> (r: Self)
        ensures
            r@ == (SpecRef { name: self@.name, module: None }),
    {
        ComponentRef { name: self.name, module_name: None }
    }
}

// ---------------------------------------------------------------------------
// Event references
// ---------------------------------------------------------------------------

/// A reference to an event, as written in a system's event handler.
#[derive(Debug, PartialEq, Eq)]
pub struct EventRef {
    pub name: String,
    pub module_name: Option<String>,
}

impl View for EventRef {
    type V = SpecRef;

    open spec fn view(&self) -> SpecRef {
        SpecRef { name: self.name@, module: opt_text(self.module_name) }
    }
}

impl Clone for EventRef {
    fn clone(&self) -> (r: Self)
        ensures
            r == *self,
    {
        EventRef { name: self.name.clone(), module_name: clone_opt_string(&self.module_name) }
    }
}

impl EventRef {
    pub fn new(module_name: Option<String>, name: String) -> (r: Self)
        ensures
            r@ == (SpecRef { name: name@, module: opt_text(module_name) }),
    {
        EventRef { name, module_name }
    }

    /// Parse `name` or `module::name`.
    pub fn try_from_str(s: &str) -> (r: Result<Self, RefPathError>)
        ensures
            r is Ok <==> ref_text_ok(s@),
            match r {
                Ok(c) => ref_text_parses_to(s@, c@.module, c@.name),
                Err(RefPathError::EmptyName { text }) => text@ == s@ && ref_text_empty_name(s@),
                Err(RefPathError::EmptyModule { text }) => text@ == s@ && ref_text_empty_module(
                    s@,
                ),
                Err(RefPathError::NestedModule { text }) => text@ == s@ && ref_text_nested(s@),
            },
    {
        match split_ref_text(s)? {
            (module_name, name) => Ok(EventRef { name, module_name }),
        }
    }

    /// The textual form: `name`, or `module::name` when qualified.
    pub fn as_path_str(&self) -> (r: String)
        ensures
            r@ == spec_path_text(self@),
    {
        path_string(&self.module_name, &self.name)
    }

    /// The same reference, qualified to the given module.
    pub fn to_global_ref(self, module_name: String) -> (r: Self)
        ensures
            r@ == (SpecRef { name: self@.name, module: Some(module_name@) }),
    {
        EventRef { name: self.name, module_name: Some(module_name) }
    }

    /// The same reference with its qualifier removed.
    pub fn to_local_ref(self) -> (r: Self)
        ensures
            r@ == (SpecRef { name: self@.name, module: None }),
    {
        EventRef { name: self.name, module_name: None }
    }
}

// ---------------------------------------------------------------------------
// Entity prototype references
// ---------------------------------------------------------------------------

/// A reference to an entity prototype.
#[derive(Debug, PartialEq, Eq)]
pub struct EntityProtoRef {
    pub name: String,
    pub module_name: Option<String>,
}

impl View for EntityProtoRef {
    type V = SpecRef;

    open spec fn view(&self) -> SpecRef {
        SpecRef { name: self.name@, module: opt_text(self.module_name) }
    }
}

impl Clone for EntityProtoRef {
    fn clone(&self) -> (r: Self)
        ensures
            r == *self,
    {
        EntityProtoRef { name: self.name.clone(), module_name: clone_opt_string(&self.module_name) }
    }
}

impl EntityProtoRef {
    pub fn new(module_name: Option<String>, name: String) -> (r: Self)
        ensures
            r@ == (SpecRef { name: name@, module: opt_text(module_name) }),
    {
        EntityProtoRef { name, module_name }
    }

    /// Parse `name` or `module::name`.
    pub fn try_from_str(s: &str) -> (r: Result<Self, RefPathError>)
        ensures
            r is Ok <==> ref_text_ok(s@),
            match r {
                Ok(c) => ref_text_parses_to(s@, c@.module, c@.name),
                Err(RefPathError::EmptyName { text }) => text@ == s@ && ref_text_empty_name(s@),
                Err(RefPathError::EmptyModule { text }) => text@ == s@ && ref_text_empty_module(
                    s@,
                ),
                Err(RefPathError::NestedModule { text }) => text@ == s@ && ref_text_nested(s@),
            },
    {
        match split_ref_text(s)? {
            (module_name, name) => Ok(EntityProtoRef { name, module_name }),
        }
    }

    /// The textual form: `name`, or `module::name` when qualified.
    pub fn as_path_str(&self) -> (r: String)
        ensures
            r@ == spec_path_text(self@),
    {
        path_string(&self.module_name, &self.name)
    }

    /// The same reference, qualified to the given module.
    pub fn to_global_ref(self, module_name: String) -> (r: Self)
        ensures
            r@ == (SpecRef { name: self@.name, module: Some(module_name@) }),
    {
        EntityProtoRef { name: self.name, module_name: Some(module_name) }
    }

    /// The same reference with its qualifier removed.
    pub fn to_local_ref(self) -> (r: Self)
        ensures
            r@ == (SpecRef { name: self@.name, module: None }),
    {
        EntityProtoRef { name: self.name, module_name: None }
    }
}

// ---------------------------------------------------------------------------
// System references
// ---------------------------------------------------------------------------

/// A reference to a system.
#[derive(Debug, PartialEq, Eq)]
pub struct SystemRef {
    pub name: String,
    pub module_name: Option<String>,
}

impl View for SystemRef {
    type V = SpecRef;

    open spec fn view(&self) -> SpecRef {
        SpecRef { name: self.name@, module: opt_text(self.module_name) }
    }
}

impl Clone for SystemRef {
    fn clone(&self) -> (r: Self)
        ensures
            r == *self,
    {
        SystemRef { name: self.name.clone(), module_name: clone_opt_string(&self.module_name) }
    }
}

impl SystemRef {
    pub fn new(module_name: Option<String>, name: String) -> (r: Self)
        ensures
            r@ == (SpecRef { name: name@, module: opt_text(module_name) }),
    {
        SystemRef { name, module_name }
    }

    /// Parse `name` or `module::name`.
    pub fn try_from_str(s: &str) -> (r: Result<Self, RefPathError>)
        ensures
            r is Ok <==> ref_text_ok(s@),
            match r {
                Ok(c) => ref_text_parses_to(s@, c@.module, c@.name),
                Err(RefPathError::EmptyName { text }) => text@ == s@ && ref_text_empty_name(s@),
                Err(RefPathError::EmptyModule { text }) => text@ == s@ && ref_text_empty_module(
                    s@,
                ),
                Err(RefPathError::NestedModule { text }) => text@ == s@ && ref_text_nested(s@),
            },
    {
        match split_ref_text(s)? {
            (module_name, name) => Ok(SystemRef { name, module_name }),
        }
    }

    /// The textual form: `name`, or `module::name` when qualified.
    pub fn as_path_str(&self) -> (r: String)
        ensures
            r@ == spec_path_text(self@),
    {
        path_string(&self.module_name, &self.name)
    }

    /// The same reference, qualified to the given module.
    pub fn to_global_ref(self, module_name: String) -> (r: Self)
        ensures
            r@ == (SpecRef { name: self@.name, module: Some(module_name@) }),
    {
        SystemRef { name: self.name, module_name: Some(module_name) }
    }

    /// The same reference with its qualifier removed.
    pub fn to_local_ref(self) -> (r: Self)
        ensures
            r@ == (SpecRef { name: self@.name, module: None }),
    {
        SystemRef { name: self.name, module_name: None }
    }
}

/// The textual form of a reference model: `name` or `module::name`.
pub open spec fn spec_path_text(r: SpecRef) -> Seq<char> {
    match r.module {
        None => r.name,
        Some(m) => m + "::"@ + r.name,
    }
}

/// Render `module::name` (or bare `name`) as an owned string.
fn path_string(module_name: &Option<String>, name: &String) -> (r: String)
    ensures
        r@ == spec_path_text(SpecRef { name: name@, module: opt_text(*module_name) }),
{
    match module_name {
        None => name.clone(),
        Some(m) => {
            let r = m.clone().concat("::").concat(name.as_str());
            assert(r@ =~= m@ + "::"@ + name@);
            r
        },
    }
}

/// The reference a well-formed text parses to: the part before the first
/// `::` as the module (none without a separator), the rest as the name.
pub open spec fn spec_parsed_ref(s: Seq<char>) -> SpecRef {
    if !has_sep(s) {
        SpecRef { name: s, module: None }
    } else {
        let i = choose|i: int| first_sep_is(s, i);
        SpecRef { name: s.subrange(i + 2, s.len() as int), module: Some(s.subrange(0, i)) }
    }
}

/// A text has at most one leftmost separator position.
pub proof fn lemma_first_sep_unique(s: Seq<char>, i: int, j: int)
    requires
        first_sep_is(s, i),
        first_sep_is(s, j),
    ensures
        i == j,
{
    if i < j {
        assert(!sep_at(s, i));
    }
    if j < i {
        assert(!sep_at(s, j));
    }
}

/// What `ref_text_parses_to` admits is exactly `spec_parsed_ref`.
pub proof fn lemma_parses_to_determines(s: Seq<char>, module: Option<Seq<char>>, name: Seq<char>)
    requires
        ref_text_parses_to(s, module, name),
    ensures
        (SpecRef { name: name, module: module }) == spec_parsed_ref(s),
{
    match module {
        None => {},
        Some(m) => {
            assert(sep_at(s, m.len() as int));
            let i = choose|i: int| first_sep_is(s, i);
            assert(first_sep_is(s, m.len() as int));
            lemma_first_sep_unique(s, i, m.len() as int);
        },
    }
}

/// Whether a parse error value reports the given text with the right reason.
pub open spec fn ref_parse_err_matches(e: RefPathError, s: Seq<char>) -> bool {
    match e {
        RefPathError::EmptyName { text } => text@ == s && ref_text_empty_name(s),
        RefPathError::EmptyModule { text } => text@ == s && ref_text_empty_module(s),
        RefPathError::NestedModule { text } => text@ == s && ref_text_nested(s),
    }
}

/// Parse a list of component reference texts; the first offending text
/// decides the error, as when a whole list is converted at once.
pub fn parse_component_refs(texts: &Vec<String>) -> (r: Result<Vec<ComponentRef>, RefPathError>)
    ensures
        r is Ok <==> (forall|i: int| 0 <= i < texts@.len() ==> ref_text_ok(#[trigger] texts@[i]@)),
        match r {
            Ok(v) => {
                &&& v@.len() == texts@.len()
                &&& forall|i: int|
                    0 <= i < v@.len() ==> #[trigger] v@[i]@ == spec_parsed_ref(texts@[i]@)
            },
            Err(e) => exists|i: int|
                {
                    &&& 0 <= i < texts@.len()
                    &&& #[trigger] ref_parse_err_matches(e, texts@[i]@)
                    &&& !ref_text_ok(texts@[i]@)
                    &&& forall|j: int| 0 <= j < i ==> ref_text_ok(#[trigger] texts@[j]@)
                },
        },
{
    let mut out: Vec<ComponentRef> = Vec::new();
    let n = texts.len();
    let mut k: usize = 0;
    while k < n
        invariant
            n == texts@.len(),
            k <= n,
            out@.len() == k,
            forall|j: int| 0 <= j < k ==> ref_text_ok(#[trigger] texts@[j]@),
            forall|j: int| 0 <= j < k ==> #[trigger] out@[j]@ == spec_parsed_ref(texts@[j]@),
        decreases n - k,
    {
        match ComponentRef::try_from_str(texts[k].as_str()) {
            Ok(c) => {
                proof {
                    lemma_parses_to_determines(texts@[k as int]@, c@.module, c@.name);
                }
                out.push(c);
            },
            Err(e) => {
                proof {
                    assert(ref_parse_err_matches(e, texts@[k as int]@));
                    assert(!ref_text_ok(texts@[k as int]@));
                }
                return Err(e);
            },
        }
        k = k + 1;
    }
    Ok(out)
}

// ---------------------------------------------------------------------------
// Declared types and literal default values
// ---------------------------------------------------------------------------

/// The primitive field types of the language.
#[derive(Debug, Clone, Copy, PartialEq, Eq, Structural)]
pub enum PrimitiveType {
    Float,
    Int,
    Bool,
    Str,
}

impl PrimitiveType {
    /// The type's name as written in a declaration.
    pub fn as_type_str(&self) -> (r: &'static str)
        ensures
            r@ == spec_primitive_name(*self),
    {
        match self {
            PrimitiveType::Float => "float",
            PrimitiveType::Int => "int",
            PrimitiveType::Bool => "bool",
            PrimitiveType::Str => "str",
        }
    }
}

/// The declared name of each primitive type.
pub open spec fn spec_primitive_name(p: PrimitiveType) -> Seq<char> {
    match p {
        PrimitiveType::Float => "float"@,
        PrimitiveType::Int => "int"@,
        PrimitiveType::Bool => "bool"@,
        PrimitiveType::Str => "str"@,
    }
}

/// Spec model of a declared field type.
#[verifier::ext_equal]
pub enum SpecType {
    Primitive(PrimitiveType),
    Custom(Seq<char>),
}

/// A declared field type: a primitive, or a custom type named in the
/// declaration (not supported by the type checker in this version).
#[derive(Debug, PartialEq, Eq)]
pub enum AethaumType {
    Primitive(PrimitiveType),
    Custom(String),
}

impl View for AethaumType {
    type V = SpecType;

    open spec fn view(&self) -> SpecType {
        match self {
            AethaumType::Primitive(p) => SpecType::Primitive(*p),
            AethaumType::Custom(c) => SpecType::Custom(c@),
        }
    }
}

impl Clone for AethaumType {
    fn clone(&self) -> (r: Self)
        ensures
            r == *self,
    {
        match self {
            AethaumType::Primitive(p) => AethaumType::Primitive(*p),
            AethaumType::Custom(c) => AethaumType::Custom(c.clone()),
        }
    }
}

/// The type a declaration text denotes: one of the primitive names, or a
/// custom type under any other name.
pub open spec fn spec_type_of_text(s: Seq<char>) -> SpecType {
    if s == "float"@ {
        SpecType::Primitive(PrimitiveType::Float)
    } else if s == "int"@ {
        SpecType::Primitive(PrimitiveType::Int)
    } else if s == "bool"@ {
        SpecType::Primitive(PrimitiveType::Bool)
    } else if s == "str"@ {
        SpecType::Primitive(PrimitiveType::Str)
    } else {
        SpecType::Custom(s)
    }
}

/// Equality of two string slices by their character sequences.
pub fn str_eq(a: &str, b: &str) -> (r: bool)
    ensures
        r == (a@ == b@),
{
    let x: String = a.to_owned();
    let y: String = b.to_owned();
    x == y
}

impl AethaumType {
    pub fn is_primitive(&self) -> (r: bool)
        ensures
            r == (self@ is Primitive),
    {
        matches!(self, AethaumType::Primitive(_))
    }

    pub fn is_custom(&self) -> (r: bool)
        ensures
            r == (self@ is Custom),
    {
        matches!(self, AethaumType::Custom(_))
    }

    /// The declared type a type text denotes.
    pub fn from_type_str(type_str: &str) -> (r: AethaumType)
        ensures
            r@ == spec_type_of_text(type_str@),
    {
        if str_eq(type_str, "float") {
            AethaumType::Primitive(PrimitiveType::Float)
        } else if str_eq(type_str, "int") {
            AethaumType::Primitive(PrimitiveType::Int)
        } else if str_eq(type_str, "bool") {
            AethaumType::Primitive(PrimitiveType::Bool)
        } else if str_eq(type_str, "str") {
            AethaumType::Primitive(PrimitiveType::Str)
        } else {
            AethaumType::Custom(type_str.to_owned())
        }
    }
}

/// Spec model of a literal configuration value.
#[verifier::ext_equal]
pub enum SpecLit {
    Boolean(bool),
    Integer(i64),
    Float(Seq<char>),
    Text(Seq<char>),
    Other(Seq<char>),
}

/// A literal configuration value, as found in a field's `default`. The
/// checker reads only which kind of literal it is; floating-point and
/// composite values are carried in their textual form for diagnostics.
#[derive(Debug, PartialEq)]
pub enum TomlLiteral {
    Boolean(bool),
    Integer(i64),
    /// A floating-point literal, held as its decimal text.
    Float(String),
    Text(String),
    /// Any other value kind (a date, an array, a table), held as text.
    Other(String),
}

impl View for TomlLiteral {
    type V = SpecLit;

    open spec fn view(&self) -> SpecLit {
        match self {
            TomlLiteral::Boolean(b) => SpecLit::Boolean(*b),
            TomlLiteral::Integer(i) => SpecLit::Integer(*i),
            TomlLiteral::Float(s) => SpecLit::Float(s@),
            TomlLiteral::Text(s) => SpecLit::Text(s@),
            TomlLiteral::Other(s) => SpecLit::Other(s@),
        }
    }
}

impl Clone for TomlLiteral {
    fn clone(&self) -> (r: Self)
        ensures
            r == *self,
    {
        match self {
            TomlLiteral::Boolean(b) => TomlLiteral::Boolean(*b),
            TomlLiteral::Integer(i) => TomlLiteral::Integer(*i),
            TomlLiteral::Float(s) => TomlLiteral::Float(s.clone()),
            TomlLiteral::Text(s) => TomlLiteral::Text(s.clone()),
            TomlLiteral::Other(s) => TomlLiteral::Other(s.clone()),
        }
    }
}

// ---------------------------------------------------------------------------
// Script payloads
// ---------------------------------------------------------------------------

/// Rejection when a script is given both inline and as a file.
#[derive(Debug, PartialEq, Eq)]
pub enum LuaScriptError {
    EmbedAndFile,
}

/// A script body attached to a system: either inline text or a file path.
/// The body's own language is opaque to the checker.
#[derive(Debug, PartialEq, Eq)]
pub enum LuaScript {
    Embed(String),
    File(String),
}

impl LuaScript {
    pub fn is_embed(&self) -> (r: bool)
        ensures
            r == (self is Embed),
    {
        matches!(self, LuaScript::Embed(_))
    }

    pub fn is_file(&self) -> (r: bool)
        ensures
            r == (self is File),
    {
        matches!(self, LuaScript::File(_))
    }

    /// Combine the two optional sources; giving both is an error.
    pub fn from_embed_or_file(embed: Option<String>, file: Option<String>) -> (r: Result<
        Option<Self>,
        LuaScriptError,
    >)
        ensures
            match r {
                Ok(script) => match script {
                    Some(LuaScript::Embed(e)) => embed == Some(e) && file is None,
                    Some(LuaScript::File(f)) => embed is None && file == Some(f),
                    None => embed is None && file is None,
                },
                Err(LuaScriptError::EmbedAndFile) => embed is Some && file is Some,
            },
    {
        match (embed, file) {
            (Some(e), None) => Ok(Some(LuaScript::Embed(e))),
            (None, Some(f)) => Ok(Some(LuaScript::File(f))),
            (Some(_), Some(_)) => Err(LuaScriptError::EmbedAndFile),
            (None, None) => Ok(None),
        }
    }
}

// ---------------------------------------------------------------------------
// Components
// ---------------------------------------------------------------------------

/// Spec model of a component field.
#[verifier::ext_equal]
pub struct SpecField {
    pub name: Seq<char>,
    pub ty: SpecType,
    pub default: Option<SpecLit>,
}

/// A field of a component: its name, declared type, optional default
/// literal and optional description.
#[derive(Debug, PartialEq)]
pub struct ComponentField {
    pub name: String,
    pub type_spec: AethaumType,
    pub default_value: Option<TomlLiteral>,
    pub description: Option<String>,
}

impl View for ComponentField {
    type V = SpecField;

    open spec fn view(&self) -> SpecField {
        SpecField {
            name: self.name@,
            ty: self.type_spec@,
            default: match self.default_value {
                Some(v) => Some(v@),
                None => None,
            },
        }
    }
}

/// Spec model of a component declaration.
#[verifier::ext_equal]
pub struct SpecComponent {
    pub name: Seq<char>,
    pub fields: Seq<SpecField>,
}

/// A component declaration.
#[derive(Debug, PartialEq)]
pub struct Component {
    pub name: String,
    pub description: Option<String>,
    pub fields: Option<Vec<ComponentField>>,
}

impl View for Component {
    type V = SpecComponent;

    open spec fn view(&self) -> SpecComponent {
        SpecComponent {
            name: self.name@,
            fields: match self.fields {
                Some(v) => v@.map_values(|f: ComponentField| f@),
                None => Seq::empty(),
            },
        }
    }
}

// ---------------------------------------------------------------------------
// Events
// ---------------------------------------------------------------------------

/// A field of an event; events carry no defaults, so no literal is held.
#[derive(Debug, PartialEq)]
pub struct EventField {
    pub name: String,
    pub type_spec: AethaumType,
    pub description: Option<String>,
}

/// An event declaration.
#[derive(Debug, PartialEq)]
pub struct Event {
    pub name: String,
    pub description: Option<String>,
    pub fields: Option<Vec<EventField>>,
}

// ---------------------------------------------------------------------------
// Entity prototypes
// ---------------------------------------------------------------------------

/// Spec model of an entity prototype.
#[verifier::ext_equal]
pub struct SpecProto {
    pub name: Seq<char>,
    pub components: Seq<SpecRef>,
}

/// An entity prototype: a named, ordered list of component references.
#[derive(Debug, PartialEq)]
pub struct EntityProto {
    pub name: String,
    pub description: Option<String>,
    pub components: Vec<ComponentRef>,
}

impl View for EntityProto {
    type V = SpecProto;

    open spec fn view(&self) -> SpecProto {
        SpecProto {
            name: self.name@,
            components: self.components@.map_values(|r: ComponentRef| r@),
        }
    }
}

// ---------------------------------------------------------------------------
// Systems
// ---------------------------------------------------------------------------

/// Spec model of a query's component constraint.
#[verifier::ext_equal]
pub struct SpecConstraint {
    pub included: Seq<SpecRef>,
    pub excluded: Seq<SpecRef>,
}

/// The component references a query must included and must excluded.
#[derive(Debug, PartialEq)]
pub struct ComponentConstraint {
    pub included: Option<Vec<ComponentRef>>,
    pub excluded: Option<Vec<ComponentRef>>,
}

/// The character sequences of an optional list of texts.
pub open spec fn opt_texts(o: Option<Vec<String>>) -> Seq<Seq<char>> {
    match o {
        Some(v) => v@.map_values(|s: String| s@),
        None => Seq::empty(),
    }
}

/// Every text in the list is a well-formed reference.
pub open spec fn all_ref_texts_ok(ts: Seq<Seq<char>>) -> bool {
    forall|i: int| 0 <= i < ts.len() ==> ref_text_ok(#[trigger] ts[i])
}

/// The references a list of well-formed texts parses to.
pub open spec fn spec_parsed_refs(ts: Seq<Seq<char>>) -> Seq<SpecRef> {
    ts.map_values(|t: Seq<char>| spec_parsed_ref(t))
}

impl View for ComponentConstraint {
    type V = SpecConstraint;

    open spec fn view(&self) -> SpecConstraint {
        SpecConstraint {
            included: match self.included {
                Some(v) => v@.map_values(|r: ComponentRef| r@),
                None => Seq::empty(),
            },
            excluded: match self.excluded {
                Some(v) => v@.map_values(|r: ComponentRef| r@),
                None => Seq::empty(),
            },
        }
    }
}

impl ComponentConstraint {
    /// Parse the optional included and excluded lists; the first offending
    /// text, included list first, decides the error.
    pub fn try_from_texts(included: Option<Vec<String>>, excluded: Option<Vec<String>>) -> (r: Result<
        Self,
        RefPathError,
    >)
        ensures
            r is Ok <==> all_ref_texts_ok(opt_texts(included) + opt_texts(excluded)),
            match r {
                Ok(c) => {
                    &&& c@.included == spec_parsed_refs(opt_texts(included))
                    &&& c@.excluded == spec_parsed_refs(opt_texts(excluded))
                    &&& (c.included is Some <==> included is Some)
                    &&& (c.excluded is Some <==> excluded is Some)
                },
                Err(e) => {
                    let all = opt_texts(included) + opt_texts(excluded);
                    exists|i: int|
                        {
                            &&& 0 <= i < all.len()
                            &&& #[trigger] ref_parse_err_matches(e, all[i])
                            &&& !ref_text_ok(all[i])
                            &&& forall|j: int| 0 <= j < i ==> ref_text_ok(#[trigger] all[j])
                        }
                },
            },
    {
        proof {
            assert(opt_texts(included).len() + opt_texts(excluded).len() == (opt_texts(included)
                + opt_texts(excluded)).len());
        }
        let parsed_included: Option<Vec<ComponentRef>> = match included {
            Some(texts) => {
                match parse_component_refs(&texts) {
                    Ok(v) => {
                        proof {
                            assert(v@.map_values(|r: ComponentRef| r@) =~= spec_parsed_refs(
                                opt_texts(Some(texts)),
                            ));
                        }
                        Some(v)
                    },
                    Err(e) => {
                        proof {
                            let all = opt_texts(Some(texts)) + opt_texts(excluded);
                            let i = choose|i: int|
                                {
                                    &&& 0 <= i < texts@.len()
                                    &&& #[trigger] ref_parse_err_matches(e, texts@[i]@)
                                    &&& !ref_text_ok(texts@[i]@)
                                    &&& forall|j: int|
                                        0 <= j < i ==> ref_text_ok(#[trigger] texts@[j]@)
                                };
                            assert(all[i] == texts@[i]@);
                            assert(forall|j: int| 0 <= j < i ==> all[j] == texts@[j]@);
                        }
                        return Err(e);
                    },
                }
            },
            None => None,
        };
        let parsed_excluded: Option<Vec<ComponentRef>> = match excluded {
            Some(texts) => {
                match parse_component_refs(&texts) {
                    Ok(v) => {
                        proof {
                            assert(v@.map_values(|r: ComponentRef| r@) =~= spec_parsed_refs(
                                opt_texts(Some(texts)),
                            ));
                        }
                        Some(v)
                    },
                    Err(e) => {
                        proof {
                            let pre = opt_texts(included);
                            let all = pre + opt_texts(Some(texts));
                            let i = choose|i: int|
                                {
                                    &&& 0 <= i < texts@.len()
                                    &&& #[trigger] ref_parse_err_matches(e, texts@[i]@)
                                    &&& !ref_text_ok(texts@[i]@)
                                    &&& forall|j: int|
                                        0 <= j < i ==> ref_text_ok(#[trigger] texts@[j]@)
                                };
                            assert(all[pre.len() + i] == texts@[i]@);
                            assert(forall|j: int|
                                0 <= j < pre.len() + i ==> all[j] == (if j < pre.len() {
                                    pre[j]
                                } else {
                                    texts@[j - pre.len()]@
                                }));
                        }
                        return Err(e);
                    },
                }
            },
            None => None,
        };
        let c = ComponentConstraint { included: parsed_included, excluded: parsed_excluded };
        proof {
            assert(all_ref_texts_ok(opt_texts(included) + opt_texts(excluded)));
        }
        Ok(c)
    }

    pub fn get_included(&self) -> (r: Option<&Vec<ComponentRef>>)
        ensures
            r == self.get_included_spec(),
    {
        self.included.as_ref()
    }

    pub fn get_excluded(&self) -> (r: Option<&Vec<ComponentRef>>)
        ensures
            r == self.get_excluded_spec(),
    {
        self.excluded.as_ref()
    }

    /// The included list as held, if one was given.
    pub open spec fn get_included_spec(&self) -> Option<&Vec<ComponentRef>> {
        match self.included {
            Some(ref v) => Some(v),
            None => None,
        }
    }

    /// The excluded list as held, if one was given.
    pub open spec fn get_excluded_spec(&self) -> Option<&Vec<ComponentRef>> {
        match self.excluded {
            Some(ref v) => Some(v),
            None => None,
        }
    }
}

/// Spec model of a system query.
#[verifier::ext_equal]
pub struct SpecQuery {
    pub name: Seq<char>,
    pub constraint: SpecConstraint,
}

/// A system's named query over component constraints.
#[derive(Debug, PartialEq)]
pub struct SystemQuery {
    pub name: String,
    pub description: Option<String>,
    pub component_constraint: ComponentConstraint,
}

impl View for SystemQuery {
    type V = SpecQuery;

    open spec fn view(&self) -> SpecQuery {
        SpecQuery { name: self.name@, constraint: self.component_constraint@ }
    }
}

/// An event handler: the event it watches, its priority and its script.
#[derive(Debug, PartialEq)]
pub struct SystemEventHandler {
    pub watch_for: EventRef,
    pub priority: u32,
    pub logic: Option<LuaScript>,
}

/// A system's periodic update block. The interval is held in
/// milliseconds.
#[derive(Debug, PartialEq)]
pub struct SystemUpdate {
    pub interval_millis: u64,
    pub condition: Option<LuaScript>,
    pub logic: Option<LuaScript>,
}

/// The descriptive header of a system declaration.
#[derive(Debug, PartialEq)]
pub struct SystemNormal {
    pub name: String,
    pub description: Option<String>,
    pub category: Option<String>,
    pub priority: Option<TomlLiteral>,
}

/// Spec model of a system declaration.
#[verifier::ext_equal]
pub struct SpecSystem {
    pub name: Seq<char>,
    pub queries: Seq<SpecQuery>,
    pub handlers: Seq<SpecRef>,
}

/// A system declaration: header, queries, optional update block and event
/// handlers.
#[derive(Debug, PartialEq)]
pub struct System {
    pub normal: SystemNormal,
    pub queries: Vec<SystemQuery>,
    pub update: Option<SystemUpdate>,
    pub event_handlers: Vec<SystemEventHandler>,
}

impl View for System {
    type V = SpecSystem;

    open spec fn view(&self) -> SpecSystem {
        SpecSystem {
            name: self.normal.name@,
            queries: self.queries@.map_values(|q: SystemQuery| q@),
            handlers: self.event_handlers@.map_values(|h: SystemEventHandler| h.watch_for@),
        }
    }
}

// ---------------------------------------------------------------------------
// The project manifest
// ---------------------------------------------------------------------------

/// The project's descriptive header.
#[derive(Debug, PartialEq)]
pub struct WorldNormal {
    pub name: String,
    pub version: String,
    pub author: String,
}

/// The modules the manifest names, each with the directory it loads from.
#[derive(Debug, PartialEq)]
pub struct WorldModules {
    pub modules: Vec<(String, String)>,
}

/// Build settings of the manifest.
#[derive(Debug, PartialEq)]
pub struct WorldBuild {
    pub output_dir: String,
}

/// Cargo settings of the manifest; no field is read in this version.
#[derive(Debug, PartialEq)]
pub struct WorldCargo {}

/// The project manifest.
#[derive(Debug, PartialEq)]
pub struct World {
    pub normal: WorldNormal,
    pub modules: WorldModules,
    pub build: Option<WorldBuild>,
    pub cargo: Option<WorldCargo>,
}


// ---------------------------------------------------------------------------
// Rendering for diagnostics
// ---------------------------------------------------------------------------

/// A declared type's name, as diagnostics print it.
pub open spec fn spec_type_text(t: SpecType) -> Seq<char> {
    match t {
        SpecType::Primitive(p) => spec_primitive_name(p),
        SpecType::Custom(c) => c,
    }
}

impl AethaumType {
    /// The type's name as written in a declaration.
    pub fn as_type_string(&self) -> (r: String)
        ensures
            r@ == spec_type_text(self@),
    {
        match self {
            AethaumType::Primitive(p) => p.as_type_str().to_owned(),
            AethaumType::Custom(c) => c.clone(),
        }
    }
}

/// One decimal digit as text.
/// One decimal digit as a character.
pub open spec fn spec_digit(d: int) -> char {
    if d == 0 {
        '0'
    } else if d == 1 {
        '1'
    } else if d == 2 {
        '2'
    } else if d == 3 {
        '3'
    } else if d == 4 {
        '4'
    } else if d == 5 {
        '5'
    } else if d == 6 {
        '6'
    } else if d == 7 {
        '7'
    } else if d == 8 {
        '8'
    } else {
        '9'
    }
}

/// The decimal text of a non-negative number, most significant digit
/// first.
pub open spec fn spec_dec_digits(n: int) -> Seq<char>
    decreases n,
{
    if n < 10 {
        seq![spec_digit(n)]
    } else {
        spec_dec_digits(n / 10).push(spec_digit(n % 10))
    }
}

/// The decimal text of a signed number.
pub open spec fn spec_int_text(i: int) -> Seq<char> {
    if i >= 0 {
        spec_dec_digits(i)
    } else {
        seq!['-'] + spec_dec_digits(-i)
    }
}

/// A literal's text, as diagnostics print it: booleans and integers in
/// their canonical decimal form, strings quoted, every other kind by the
/// text it was carried with.
pub open spec fn spec_lit_text(l: SpecLit) -> Seq<char> {
    match l {
        SpecLit::Boolean(b) => if b {
            "true"@
        } else {
            "false"@
        },
        SpecLit::Integer(i) => spec_int_text(i as int),
        SpecLit::Float(s) => s,
        SpecLit::Text(s) => "\""@ + s + "\""@,
        SpecLit::Other(s) => s,
    }
}

/// One decimal digit as text.
fn digit_str(d: u64) -> (r: &'static str)
    requires
        d < 10,
    ensures
        r@ == seq![spec_digit(d as int)],
{
    proof {
        reveal_strlit("0");
        reveal_strlit("1");
        reveal_strlit("2");
        reveal_strlit("3");
        reveal_strlit("4");
        reveal_strlit("5");
        reveal_strlit("6");
        reveal_strlit("7");
        reveal_strlit("8");
        reveal_strlit("9");
        assert("0"@ =~= seq!['0']);
        assert("1"@ =~= seq!['1']);
        assert("2"@ =~= seq!['2']);
        assert("3"@ =~= seq!['3']);
        assert("4"@ =~= seq!['4']);
        assert("5"@ =~= seq!['5']);
        assert("6"@ =~= seq!['6']);
        assert("7"@ =~= seq!['7']);
        assert("8"@ =~= seq!['8']);
        assert("9"@ =~= seq!['9']);
    }
    match d {
        0 => "0",
        1 => "1",
        2 => "2",
        3 => "3",
        4 => "4",
        5 => "5",
        6 => "6",
        7 => "7",
        8 => "8",
        _ => "9",
    }
}

/// The decimal text of an unsigned number.
fn u64_to_string(x: u64) -> (r: String)
    ensures
        r@ == spec_dec_digits(x as int),
{
    if x < 10 {
        return digit_str(x).to_owned();
    }
    let mut n = x;
    let mut out = String::new();
    proof {
        assert(spec_dec_digits(x as int) =~= spec_dec_digits(n as int) + out@);
    }
    while n > 0
        invariant
            n > 0 ==> spec_dec_digits(x as int) == spec_dec_digits(n as int) + out@,
            n == 0 ==> spec_dec_digits(x as int) == out@,
        decreases n,
    {
        let ghost n_old: int = n as int;
        let ghost out_old = out@;
        let d = digit_str(n % 10);
        out = d.to_owned().concat(out.as_str());
        n = n / 10;
        proof {
            if n_old < 10 {
                assert(spec_dec_digits(n_old) =~= seq![spec_digit(n_old)]);
                assert(spec_dec_digits(x as int) =~= out@);
            } else {
                assert(spec_dec_digits(n_old) == spec_dec_digits(n_old / 10).push(
                    spec_digit(n_old % 10),
                ));
                assert(spec_dec_digits(n_old) =~= spec_dec_digits(n_old / 10) + seq![
                    spec_digit(n_old % 10),
                ]);
                assert(spec_dec_digits(x as int) =~= spec_dec_digits(n as int) + out@);
            }
        }
    }
    out
}

/// The decimal text of a signed number.
fn i64_to_string(x: i64) -> (r: String)
    ensures
        r@ == spec_int_text(x as int),
{
    if x >= 0 {
        u64_to_string(x as u64)
    } else {
        let mag: u64 = ((-(x + 1)) as u64) + 1;
        proof {
            assert(mag as int == -(x as int));
        }
        let r = "-".to_owned().concat(u64_to_string(mag).as_str());
        proof {
            reveal_strlit("-");
            assert("-"@ =~= seq!['-']);
            assert(r@ =~= seq!['-'] + spec_dec_digits(mag as int));
        }
        r
    }
}

impl TomlLiteral {
    /// The literal as text; strings are quoted, as in the configuration
    /// syntax.
    pub fn render(&self) -> (r: String)
        ensures
            r@ == spec_lit_text(self@),
    {
        match self {
            TomlLiteral::Boolean(b) => if *b {
                "true".to_owned()
            } else {
                "false".to_owned()
            },
            TomlLiteral::Integer(i) => i64_to_string(*i),
            TomlLiteral::Float(s) => s.clone(),
            TomlLiteral::Text(s) => {
                let r = "\"".to_owned().concat(s.as_str()).concat("\"");
                proof {
                    assert(r@ =~= "\""@ + s@ + "\""@);
                }
                r
            },
            TomlLiteral::Other(s) => s.clone(),
        }
    }
}

/// The one-line description of a parse rejection, naming the offending
/// text.
pub open spec fn spec_ref_err_message(e: RefPathError) -> Seq<char> {
    match e {
        RefPathError::EmptyName { text } => "Invalid reference '"@ + text@
            + "': a name is required"@,
        RefPathError::EmptyModule { text } => "Invalid reference '"@ + text@
            + "': a module name is required before '::'"@,
        RefPathError::NestedModule { text } => "Invalid reference '"@ + text@
            + "': nested modules are not allowed"@,
    }
}

impl RefPathError {
    /// A one-line description naming the offending text.
    pub fn message(&self) -> (r: String)
        ensures
            r@ == spec_ref_err_message(*self),
    {
        match self {
            RefPathError::EmptyName { text } => {
                let r = "Invalid reference '".to_owned().concat(text.as_str()).concat(
                    "': a name is required",
                );
                proof {
                    assert(r@ =~= "Invalid reference '"@ + text@ + "': a name is required"@);
                }
                r
            },
            RefPathError::EmptyModule { text } => {
                let r = "Invalid reference '".to_owned().concat(text.as_str()).concat(
                    "': a module name is required before '::'",
                );
                proof {
                    assert(r@ =~= "Invalid reference '"@ + text@
                        + "': a module name is required before '::'"@);
                }
                r
            },
            RefPathError::NestedModule { text } => {
                let r = "Invalid reference '".to_owned().concat(text.as_str()).concat(
                    "': nested modules are not allowed",
                );
                proof {
                    assert(r@ =~= "Invalid reference '"@ + text@
                        + "': nested modules are not allowed"@);
                }
                r
            },
        }
    }
}

} // verus!
