//! The schema tree: a recursive, owned description of one message type's
//! shape, together with the walk that flattens it into leaf arguments.

use vstd::prelude::*;

verus! {

broadcast use vstd::std_specs::vec::vec_clone_deep_view_proof;

/// One node of a schema tree.
///
/// A `Primitive` leaf carries its scalar kind and whether the field is
/// required; `Option` wraps a node that may be absent; `Struct` keeps its
/// fields in declaration order; `Unknown` stands for a type that cannot be
/// represented as command-line arguments and is skipped, not rejected.
/// `OneOf` is a mutually-exclusive field group: at most one member may be
/// set in a valid value.
#[derive(Debug, PartialEq, Eq)]
pub enum TCFieldType {
    Primitive { field_type: TCFieldTypePrimitive, required: bool },
    Option(Box<TCFieldType>),
    Struct { name: String, fields: Vec<TCStructField> },
    OneOf { name: String, members: Vec<TCStructField> },
    Unknown(String),
}

/// The kind of a primitive field. `List` is a repeated field; only a list
/// whose element is itself a non-list primitive is representable as a flag.
#[derive(Debug, PartialEq, Eq)]
pub enum TCFieldTypePrimitive {
    Str,
    U8,
    I32,
    I64,
    F32,
    F64,
    Bool,
    List(Box<TCFieldType>),
}

/// A named field of a `Struct` or member of a `OneOf`.
#[derive(Debug, PartialEq, Eq)]
pub struct TCStructField {
    pub field_name: String,
    pub field_type: TCFieldType,
}

/// The scalar kind of one emitted leaf argument: for a repeated leaf this
/// is the kind of the list's element.
#[derive(Debug, PartialEq, Eq, Clone, Copy, Structural)]
pub enum ScalarKind {
    Str,
    U8,
    I32,
    I64,
    F32,
    F64,
    Bool,
}

/// How an argument-parsing front end should treat occurrences of a flag:
/// one value, or append each occurrence to a list.
#[derive(Debug, PartialEq, Eq, Clone, Copy, Structural)]
pub enum ArgAction {
    SetOnce,
    Append,
}

/// One flat leaf argument emitted by the schema walk. `prefix` is the
/// field path from the root down to, and excluding, the leaf's own name.
#[derive(Debug, PartialEq, Eq)]
pub struct LeafArgument {
    pub prefix: Vec<String>,
    pub field_name: String,
    pub kind: ScalarKind,
    pub required: bool,
    pub repeated: bool,
}

/// The mathematical content of one leaf argument: its full path from the
/// root (prefix plus field name), its scalar kind, and its posture.
#[verifier::ext_equal]
pub struct GLeaf {
    pub path: Seq<Seq<char>>,
    pub kind: ScalarKind,
    pub required: bool,
    pub repeated: bool,
}

impl LeafArgument {
    /// The leaf's mathematical content.
    pub open spec fn view(self) -> GLeaf {
        GLeaf {
            path: self.prefix.deep_view().push(self.field_name@),
            kind: self.kind,
            required: self.required,
            repeated: self.repeated,
        }
    }
}

/// The mathematical content of a list of emitted leaves.
pub open spec fn leaves_view(s: Seq<LeafArgument>) -> Seq<GLeaf> {
    Seq::new(s.len(), |i: int| s[i]@)
}

/// Whether a primitive kind, found at a leaf position, produces a flag.
/// Scalars always do; a list does only when its element is itself a
/// non-list primitive.
pub open spec fn spec_kind_emits(k: TCFieldTypePrimitive) -> bool {
    match k {
        TCFieldTypePrimitive::List(inner) => match *inner {
            TCFieldType::Primitive { field_type, .. } => !(field_type is List),
            _ => false,
        },
        _ => true,
    }
}

/// The scalar kind of an emitting primitive kind: itself for a scalar,
/// the element's kind for a representable list.
pub open spec fn spec_flat_kind(k: TCFieldTypePrimitive) -> ScalarKind
    decreases k,
{
    match k {
        TCFieldTypePrimitive::Str => ScalarKind::Str,
        TCFieldTypePrimitive::U8 => ScalarKind::U8,
        TCFieldTypePrimitive::I32 => ScalarKind::I32,
        TCFieldTypePrimitive::I64 => ScalarKind::I64,
        TCFieldTypePrimitive::F32 => ScalarKind::F32,
        TCFieldTypePrimitive::F64 => ScalarKind::F64,
        TCFieldTypePrimitive::Bool => ScalarKind::Bool,
        TCFieldTypePrimitive::List(inner) => match *inner {
            TCFieldType::Primitive { field_type, .. } => spec_flat_kind(field_type),
            _ => ScalarKind::Str,
        },
    }
}

/// The required posture of an emitted leaf. A repeated leaf is never
/// required; an `Option`-wrapped primitive loses its required posture
/// only when the leaf sits at the root prefix (depth zero); otherwise the
/// primitive's own posture stands.
pub open spec fn spec_leaf_required(
    k: TCFieldTypePrimitive,
    required: bool,
    had_opt: bool,
    prefix_len: nat,
) -> bool {
    if k is List {
        false
    } else if had_opt && prefix_len == 0 {
        false
    } else {
        required
    }
}

/// The leaves of a schema node standing at `prefix`. Leaves are emitted at
/// named field positions only, so a bare node that is not a `Struct` or a
/// `OneOf` (or an `Option` over one) contributes nothing.
pub open spec fn spec_leaves(n: TCFieldType, prefix: Seq<Seq<char>>) -> Seq<GLeaf>
    decreases n,
{
    match n {
        TCFieldType::Struct { fields, .. } => spec_fields_leaves(fields@, prefix),
        TCFieldType::OneOf { members, .. } => spec_fields_leaves(members@, prefix),
        TCFieldType::Option(inner) => spec_leaves(*inner, prefix),
        _ => Seq::empty(),
    }
}

/// The leaves of a list of fields, in declaration order.
pub open spec fn spec_fields_leaves(fs: Seq<TCStructField>, prefix: Seq<Seq<char>>) -> Seq<GLeaf>
    decreases fs,
{
    if fs.len() == 0 {
        Seq::empty()
    } else {
        spec_field_leaves(fs[0].field_type, fs[0].field_name@, prefix, false)
            + spec_fields_leaves(fs.drop_first(), prefix)
    }
}

/// The leaves contributed by one field named `fname` under `prefix`.
/// `Option` wrappers are unwrapped transparently; a primitive emits one
/// leaf (unless it is an unrepresentable list); a nested `Struct` or
/// `OneOf` recurses with the field name appended to the prefix; an
/// `Unknown` field is silently skipped.
pub open spec fn spec_field_leaves(
    n: TCFieldType,
    fname: Seq<char>,
    prefix: Seq<Seq<char>>,
    had_opt: bool,
) -> Seq<GLeaf>
    decreases n,
{
    match n {
        TCFieldType::Primitive { field_type, required } => {
            if spec_kind_emits(field_type) {
                seq![GLeaf {
                    path: prefix.push(fname),
                    kind: spec_flat_kind(field_type),
                    required: spec_leaf_required(field_type, required, had_opt, prefix.len()),
                    repeated: field_type is List,
                }]
            } else {
                Seq::empty()
            }
        }
        TCFieldType::Option(inner) => spec_field_leaves(*inner, fname, prefix, true),
        TCFieldType::Struct { fields, .. } => spec_fields_leaves(fields@, prefix.push(fname)),
        TCFieldType::OneOf { members, .. } => spec_fields_leaves(members@, prefix.push(fname)),
        TCFieldType::Unknown(_) => Seq::empty(),
    }
}

impl TCFieldType {
    /// True exactly when this node is a `Primitive`.
    pub fn is_primitive(&self) -> (r: bool)
        ensures
            r == (self is Primitive),
    {
        matches!(self, TCFieldType::Primitive { .. })
    }

    /// The primitive kind of a `Primitive` node.
    pub fn as_primitive(&self) -> (r: &TCFieldTypePrimitive)
        requires
            self is Primitive,
        ensures
            *r == self->Primitive_field_type,
    {
        match self {
            TCFieldType::Primitive { field_type, .. } => field_type,
            _ => unreached(),
        }
    }

    /// The required posture of a `Primitive` node.
    pub fn is_primitive_required(&self) -> (r: bool)
        requires
            self is Primitive,
        ensures
            r == self->Primitive_required,
    {
        match self {
            TCFieldType::Primitive { required, .. } => *required,
            _ => unreached(),
        }
    }

    /// Walk all nested fields and return the flat, ordered list of leaf
    /// arguments this schema exposes, with each leaf's dotted path split
    /// into its prefix and field name. Callers hand a message root (a
    /// `Struct`, or a group); a bare primitive or unrepresentable node is
    /// not refused but exposes no leaves, since leaves arise only at named
    /// field positions.
    pub fn visit_nested(&self) -> (r: Vec<LeafArgument>)
        ensures
            leaves_view(r@) == spec_leaves(*self, Seq::<Seq<char>>::empty()),
    {
        let prefix: Vec<String> = Vec::new();
        let mut out: Vec<LeafArgument> = Vec::new();
        visit_node(self, &prefix, &mut out);
        proof {
            assert(leaves_view(Seq::<LeafArgument>::empty()) =~= Seq::<GLeaf>::empty());
            assert(prefix.deep_view() =~= Seq::<Seq<char>>::empty());
            assert(Seq::<GLeaf>::empty() + spec_leaves(*self, Seq::<Seq<char>>::empty())
                =~= spec_leaves(*self, Seq::<Seq<char>>::empty()));
        }
        out
    }
}

impl TCFieldTypePrimitive {
    /// True exactly when this kind is a repeated (list) field.
    pub fn is_vec(&self) -> (r: bool)
        ensures
            r == (self is List),
    {
        matches!(self, TCFieldTypePrimitive::List { .. })
    }

    /// True exactly when this kind is a representable list: one whose
    /// element is itself a non-list primitive.
    pub fn is_primitive_vec(&self) -> (r: bool)
        ensures
            r == ((self is List) && spec_kind_emits(*self)),
    {
        match self {
            TCFieldTypePrimitive::List(inner) => match &**inner {
                TCFieldType::Primitive { field_type, .. } => !field_type.is_vec(),
                _ => false,
            },
            _ => false,
        }
    }

    /// The scalar kind a front end should parse values of this kind with,
    /// and whether occurrences are set once or appended.
    pub fn get_clap_value_parse(&self) -> (r: (ScalarKind, ArgAction))
        requires
            spec_kind_emits(*self),
        ensures
            r.0 == spec_flat_kind(*self),
            r.1 == (if self is List { ArgAction::Append } else { ArgAction::SetOnce }),
    {
        match self {
            TCFieldTypePrimitive::Str => (ScalarKind::Str, ArgAction::SetOnce),
            TCFieldTypePrimitive::U8 => (ScalarKind::U8, ArgAction::SetOnce),
            TCFieldTypePrimitive::I32 => (ScalarKind::I32, ArgAction::SetOnce),
            TCFieldTypePrimitive::I64 => (ScalarKind::I64, ArgAction::SetOnce),
            TCFieldTypePrimitive::F32 => (ScalarKind::F32, ArgAction::SetOnce),
            TCFieldTypePrimitive::F64 => (ScalarKind::F64, ArgAction::SetOnce),
            TCFieldTypePrimitive::Bool => (ScalarKind::Bool, ArgAction::SetOnce),
            TCFieldTypePrimitive::List(inner) => {
                proof {
                    assert((**inner) is Primitive);
                    assert(!((**inner)->Primitive_field_type is List));
                    assert(spec_flat_kind(*self) == spec_flat_kind(
                        (**inner)->Primitive_field_type,
                    ));
                }
                let elem = inner.as_primitive();
                match elem {
                    TCFieldTypePrimitive::Str => (ScalarKind::Str, ArgAction::Append),
                    TCFieldTypePrimitive::U8 => (ScalarKind::U8, ArgAction::Append),
                    TCFieldTypePrimitive::I32 => (ScalarKind::I32, ArgAction::Append),
                    TCFieldTypePrimitive::I64 => (ScalarKind::I64, ArgAction::Append),
                    TCFieldTypePrimitive::F32 => (ScalarKind::F32, ArgAction::Append),
                    TCFieldTypePrimitive::F64 => (ScalarKind::F64, ArgAction::Append),
                    TCFieldTypePrimitive::Bool => (ScalarKind::Bool, ArgAction::Append),
                    TCFieldTypePrimitive::List(_) => unreached(),
                }
            }
        }
    }
}

/// Append the leaves of `n` (standing at `prefix`) to `out`.
fn visit_node(n: &TCFieldType, prefix: &Vec<String>, out: &mut Vec<LeafArgument>)
    ensures
        leaves_view(final(out)@) == leaves_view(old(out)@) + spec_leaves(*n, prefix.deep_view()),
    decreases *n,
{
    match n {
        TCFieldType::Struct { fields, .. } => {
            visit_fields(fields, prefix, out);
        }
        TCFieldType::OneOf { members, .. } => {
            visit_fields(members, prefix, out);
        }
        TCFieldType::Option(inner) => {
            visit_node(inner, prefix, out);
        }
        _ => {
            proof {
                assert(leaves_view(out@) =~= leaves_view(out@) + Seq::<GLeaf>::empty());
            }
        }
    }
}

/// Append the leaves of the fields `fs` (standing at `prefix`) to `out`.
fn visit_fields(fs: &Vec<TCStructField>, prefix: &Vec<String>, out: &mut Vec<LeafArgument>)
    ensures
        leaves_view(final(out)@) == leaves_view(old(out)@) + spec_fields_leaves(fs@, prefix.deep_view()),
    decreases fs@,
{
    let ghost orig = out@;
    let mut i: usize = 0;
    proof {
        assert(leaves_view(out@) =~= leaves_view(orig) + spec_fields_leaves(
            fs@.take(0),
            prefix.deep_view(),
        ));
    }
    while i < fs.len()
        invariant
            i <= fs.len(),
            leaves_view(out@) == leaves_view(orig) + spec_fields_leaves(
                fs@.take(i as int),
                prefix.deep_view(),
            ),
        decreases fs@.len() - i,
    {
        let f = &fs[i];
        visit_field_node(&f.field_type, &f.field_name, prefix, false, out);
        proof {
            lemma_fields_leaves_take_step(fs@, prefix.deep_view(), i as int);
        }
        i += 1;
    }
    proof {
        assert(fs@.take(fs@.len() as int) =~= fs@);
    }
}

/// Append the leaves of one field named `fname` (standing under `prefix`,
/// with `had_opt` recording whether an `Option` wrapper was unwrapped on
/// the way down) to `out`.
fn visit_field_node(
    n: &TCFieldType,
    fname: &String,
    prefix: &Vec<String>,
    had_opt: bool,
    out: &mut Vec<LeafArgument>,
)
    ensures
        leaves_view(final(out)@) == leaves_view(old(out)@) + spec_field_leaves(
            *n,
            fname@,
            prefix.deep_view(),
            had_opt,
        ),
    decreases *n,
{
    match n {
        TCFieldType::Primitive { field_type, required } => {
            let emits = if field_type.is_vec() {
                field_type.is_primitive_vec()
            } else {
                true
            };
            if emits {
                let repeated = field_type.is_vec();
                let (kind, _) = field_type.get_clap_value_parse();
                let req = if repeated {
                    false
                } else if had_opt && prefix.len() == 0 {
                    false
                } else {
                    *required
                };
                let leaf = LeafArgument {
                    prefix: prefix.clone(),
                    field_name: fname.clone(),
                    kind,
                    required: req,
                    repeated,
                };
                let ghost before = out@;
                out.push(leaf);
                proof {
                    assert(leaves_view(out@) =~= leaves_view(before).push(leaf@));
                    assert(leaf@.path =~= prefix.deep_view().push(fname@));
                    assert(leaves_view(before) + spec_field_leaves(
                        *n,
                        fname@,
                        prefix.deep_view(),
                        had_opt,
                    ) =~= leaves_view(before).push(leaf@));
                }
            } else {
                proof {
                    assert(leaves_view(out@) =~= leaves_view(out@) + Seq::<GLeaf>::empty());
                }
            }
        }
        TCFieldType::Option(inner) => {
            visit_field_node(inner, fname, prefix, true, out);
        }
        TCFieldType::Struct { fields, .. } => {
            let sub = push_prefix(prefix, fname);
            visit_fields(fields, &sub, out);
        }
        TCFieldType::OneOf { members, .. } => {
            let sub = push_prefix(prefix, fname);
            visit_fields(members, &sub, out);
        }
        TCFieldType::Unknown(_) => {
            proof {
                assert(leaves_view(out@) =~= leaves_view(out@) + Seq::<GLeaf>::empty());
            }
        }
    }
}

/// A copy of `prefix` with `fname` appended.
pub(crate) fn push_prefix(prefix: &Vec<String>, fname: &String) -> (r: Vec<String>)
    ensures
        r.deep_view() == prefix.deep_view().push(fname@),
{
    let mut r = prefix.clone();
    r.push(fname.clone());
    proof {
        assert(r.deep_view() =~= prefix.deep_view().push(fname@));
    }
    r
}

/// Walking one more field extends the emitted leaves by that field's own.
proof fn lemma_fields_leaves_take_step(fs: Seq<TCStructField>, prefix: Seq<Seq<char>>, i: int)
    requires
        0 <= i < fs.len(),
    ensures
        spec_fields_leaves(fs.take(i + 1), prefix) == spec_fields_leaves(fs.take(i), prefix)
            + spec_field_leaves(fs[i].field_type, fs[i].field_name@, prefix, false),
    decreases i,
{
    if i == 0 {
        assert(fs.take(1).drop_first() =~= fs.take(0));
        assert(spec_fields_leaves(fs.take(0), prefix) =~= Seq::<GLeaf>::empty());
        assert(fs.take(1)[0] == fs[0]);
        assert(spec_fields_leaves(fs.take(1), prefix) =~= Seq::<GLeaf>::empty()
            + spec_field_leaves(fs[0].field_type, fs[0].field_name@, prefix, false));
        assert(spec_fields_leaves(fs.take(1), prefix) =~= spec_fields_leaves(fs.take(0), prefix)
            + spec_field_leaves(fs[0].field_type, fs[0].field_name@, prefix, false));
    } else {
        lemma_fields_leaves_take_step(fs.drop_first(), prefix, i - 1);
        assert(fs.take(i + 1).drop_first() =~= fs.drop_first().take(i));
        assert(fs.take(i).drop_first() =~= fs.drop_first().take(i - 1));
        assert(fs.take(i + 1)[0] == fs[0]);
        assert(fs.take(i)[0] == fs[0]);
        assert(fs.drop_first()[i - 1] == fs[i]);
        assert(spec_fields_leaves(fs.take(i + 1), prefix) =~= spec_field_leaves(
            fs[0].field_type,
            fs[0].field_name@,
            prefix,
            false,
        ) + spec_fields_leaves(fs.drop_first().take(i), prefix));
        assert(spec_fields_leaves(fs.take(i), prefix) + spec_field_leaves(
            fs[i].field_type,
            fs[i].field_name@,
            prefix,
            false,
        ) =~= spec_field_leaves(fs[0].field_type, fs[0].field_name@, prefix, false)
            + (spec_fields_leaves(fs.drop_first().take(i - 1), prefix) + spec_field_leaves(
            fs[i].field_type,
            fs[i].field_name@,
            prefix,
            false,
        )));
    }
}

/// A primitive kind whose display form is defined: a list's element must
/// itself be primitive.
pub open spec fn spec_displayable(k: TCFieldTypePrimitive) -> bool
    decreases k,
{
    match k {
        TCFieldTypePrimitive::List(inner) => match *inner {
            TCFieldType::Primitive { field_type, .. } => spec_displayable(field_type),
            _ => false,
        },
        _ => true,
    }
}

/// The display form of a primitive kind.
pub open spec fn spec_display_kind(k: TCFieldTypePrimitive) -> Seq<char>
    decreases k,
{
    match k {
        TCFieldTypePrimitive::Str => "String"@,
        TCFieldTypePrimitive::U8 => "u8"@,
        TCFieldTypePrimitive::I32 => "i32"@,
        TCFieldTypePrimitive::I64 => "i64"@,
        TCFieldTypePrimitive::F32 => "f32"@,
        TCFieldTypePrimitive::F64 => "f64"@,
        TCFieldTypePrimitive::Bool => "bool"@,
        TCFieldTypePrimitive::List(inner) => match *inner {
            TCFieldType::Primitive { field_type, .. } => "Vec<"@ + spec_display_kind(field_type)
                + ">"@,
            _ => "Vec<"@ + ">"@,
        },
    }
}

impl TCFieldTypePrimitive {
    /// The kind's display form, used in generated help text.
    pub fn display_primitive_type(&self) -> (r: String)
        requires
            spec_displayable(*self),
        ensures
            r@ == spec_display_kind(*self),
        decreases *self,
    {
        match self {
            TCFieldTypePrimitive::Str => "String".to_owned(),
            TCFieldTypePrimitive::U8 => "u8".to_owned(),
            TCFieldTypePrimitive::I32 => "i32".to_owned(),
            TCFieldTypePrimitive::I64 => "i64".to_owned(),
            TCFieldTypePrimitive::F32 => "f32".to_owned(),
            TCFieldTypePrimitive::F64 => "f64".to_owned(),
            TCFieldTypePrimitive::Bool => "bool".to_owned(),
            TCFieldTypePrimitive::List(inner) => {
                let elem = inner.as_primitive();
                let elem_text = elem.display_primitive_type();
                let mut out = "Vec<".to_owned();
                out.append(elem_text.as_str());
                out.append(">");
                out
            }
        }
    }
}

/// The index of the first `<` in a type path, or its length.
pub open spec fn spec_find_lt(s: Seq<char>, i: int) -> int
    decreases s.len() - i,
{
    if i < 0 || i >= s.len() {
        s.len() as int
    } else if s[i] == '<' {
        i
    } else {
        spec_find_lt(s, i + 1)
    }
}

/// Where the namespace of a type path ends: just after the last `::` that
/// lies before `end`, or the start when there is none.
pub open spec fn spec_namespace_cut(s: Seq<char>, end: int) -> int
    decreases end,
{
    if end < 2 {
        0
    } else if s[end - 2] == ':' && s[end - 1] == ':' {
        end
    } else {
        spec_namespace_cut(s, end - 1)
    }
}

/// A type path with its namespace stripped: everything after the last
/// `::` that precedes the first `<`. A nested type keeps its arguments'
/// namespaces; only the outermost layer is stripped.
pub open spec fn spec_strip_namespace(s: Seq<char>) -> Seq<char> {
    s.subrange(spec_namespace_cut(s, spec_find_lt(s, 0)), s.len() as int)
}

/// The position of the first `<` of a type path, or its length.
fn find_lt(type_path: &str, n: usize) -> (r: usize)
    requires
        n == type_path@.len(),
    ensures
        r as int == spec_find_lt(type_path@, 0),
        r <= n,
{
    let ghost s = type_path@;
    let mut end: usize = 0;
    while end < n
        invariant
            0 <= end <= n,
            n == s.len(),
            s == type_path@,
            spec_find_lt(s, 0) == spec_find_lt(s, end as int),
        decreases n - end,
    {
        if type_path.get_char(end) == '<' {
            return end;
        }
        end += 1;
    }
    end
}

/// The cut position after the last `::` before `end`, or zero.
fn namespace_cut(type_path: &str, end: usize) -> (r: usize)
    requires
        end <= type_path@.len(),
    ensures
        r as int == spec_namespace_cut(type_path@, end as int),
        r <= end,
{
    let ghost s = type_path@;
    let mut j: usize = end;
    while j >= 2
        invariant
            0 <= j <= end,
            s == type_path@,
            end <= s.len(),
            spec_namespace_cut(s, end as int) == spec_namespace_cut(s, j as int),
        decreases j,
    {
        if type_path.get_char(j - 2) == ':' && type_path.get_char(j - 1) == ':' {
            return j;
        }
        j -= 1;
    }
    0
}

/// Strip the namespace from a type path.
pub fn strip_namespace(type_path: &str) -> (r: &str)
    ensures
        r@ == spec_strip_namespace(type_path@),
{
    let n = type_path.unicode_len();
    let end = find_lt(type_path, n);
    let cut = namespace_cut(type_path, end);
    type_path.substring_char(cut, n)
}

/// The namespace cut never passes its bound.
proof fn lemma_namespace_cut_range(s: Seq<char>, end: int)
    ensures
        0 <= spec_namespace_cut(s, end) <= (if end >= 0 {
            end
        } else {
            0
        }),
    decreases end,
{
    if end >= 2 && !(s[end - 2] == ':' && s[end - 1] == ':') {
        lemma_namespace_cut_range(s, end - 1);
    }
}

/// What a stripped type path stands for: a primitive kind, a list or an
/// optional with the inner path still to classify, or a message (or other
/// composite) to be resolved by the schema source.
#[derive(Debug, PartialEq, Eq)]
pub enum TypePathClass {
    Primitive(TCFieldTypePrimitive),
    ListOf(String),
    OptionOf(String),
    Message,
}

/// Whether a path is one of the primitive names.
pub open spec fn spec_primitive_of_path(s: Seq<char>) -> Option<TCFieldTypePrimitive> {
    if s == "String"@ {
        Option::Some(TCFieldTypePrimitive::Str)
    } else if s == "u8"@ {
        Option::Some(TCFieldTypePrimitive::U8)
    } else if s == "i32"@ {
        Option::Some(TCFieldTypePrimitive::I32)
    } else if s == "i64"@ {
        Option::Some(TCFieldTypePrimitive::I64)
    } else if s == "f32"@ {
        Option::Some(TCFieldTypePrimitive::F32)
    } else if s == "f64"@ {
        Option::Some(TCFieldTypePrimitive::F64)
    } else if s == "bool"@ {
        Option::Some(TCFieldTypePrimitive::Bool)
    } else {
        Option::None
    }
}

/// How a classification realises a path.
pub open spec fn spec_class_matches(c: TypePathClass, s: Seq<char>) -> bool {
    match c {
        TypePathClass::Primitive(k) => spec_primitive_of_path(s) == Option::Some(k),
        TypePathClass::ListOf(inner) => {
            &&& spec_primitive_of_path(s) is None
            &&& s.len() > 4
            &&& s.subrange(0, 4) == "Vec<"@
            &&& s.last() == '>'
            &&& inner@ == s.subrange(4, s.len() - 1)
        },
        TypePathClass::OptionOf(inner) => {
            &&& spec_primitive_of_path(s) is None
            &&& !(s.len() > 4 && s.subrange(0, 4) == "Vec<"@ && s.last() == '>')
            &&& s.len() > 7
            &&& s.subrange(0, 7) == "Option<"@
            &&& s.last() == '>'
            &&& inner@ == s.subrange(7, s.len() - 1)
        },
        TypePathClass::Message => {
            &&& spec_primitive_of_path(s) is None
            &&& !(s.len() > 4 && s.subrange(0, 4) == "Vec<"@ && s.last() == '>')
            &&& !(s.len() > 7 && s.subrange(0, 7) == "Option<"@ && s.last() == '>')
        },
    }
}

/// Whether the path starts with the given opener and closes with `>`.
fn wrapped_by(path: &str, n: usize, opener: &str, k: usize) -> (r: bool)
    requires
        n == path@.len(),
        k == opener@.len(),
    ensures
        r == (path@.len() > k && path@.subrange(0, k as int) == opener@ && path@.last() == '>'),
{
    if n <= k {
        return false;
    }
    if path.get_char(n - 1) != '>' {
        return false;
    }
    let head = path.substring_char(0, k);
    let r = head.to_owned() == opener.to_owned();
    proof {
        if r {
            assert(path@.subrange(0, k as int) == opener@);
        }
    }
    r
}

/// Classify one stripped type path, as the schema source does before it
/// recurses into wrappers or resolves a message.
pub fn classify_type_path(path: &str) -> (r: TypePathClass)
    ensures
        spec_class_matches(r, path@),
{
    let owned = path.to_owned();
    if owned == "String".to_owned() {
        return TypePathClass::Primitive(TCFieldTypePrimitive::Str);
    }
    if owned == "u8".to_owned() {
        return TypePathClass::Primitive(TCFieldTypePrimitive::U8);
    }
    if owned == "i32".to_owned() {
        return TypePathClass::Primitive(TCFieldTypePrimitive::I32);
    }
    if owned == "i64".to_owned() {
        return TypePathClass::Primitive(TCFieldTypePrimitive::I64);
    }
    if owned == "f32".to_owned() {
        return TypePathClass::Primitive(TCFieldTypePrimitive::F32);
    }
    if owned == "f64".to_owned() {
        return TypePathClass::Primitive(TCFieldTypePrimitive::F64);
    }
    if owned == "bool".to_owned() {
        return TypePathClass::Primitive(TCFieldTypePrimitive::Bool);
    }
    let n = path.unicode_len();
    proof {
        reveal_strlit("Vec<");
        reveal_strlit("Option<");
    }
    if wrapped_by(path, n, "Vec<", 4) {
        let inner = path.substring_char(4, n - 1);
        return TypePathClass::ListOf(inner.to_owned());
    }
    if wrapped_by(path, n, "Option<", 7) {
        let inner = path.substring_char(7, n - 1);
        return TypePathClass::OptionOf(inner.to_owned());
    }
    TypePathClass::Message
}

} // verus!
