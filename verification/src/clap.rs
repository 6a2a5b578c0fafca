//! The argument codec: dotted flag names, the typed leaf-value map handed
//! over by an argument-parsing front end, the flag descriptors a front end
//! registers, and the decoder that rebuilds a structured value from the
//! leaves a caller supplied.

use vstd::prelude::*;

use crate::value::fields_vals_view;
use crate::value::lemma_vtree_entry;
use crate::value::lemma_entries_view_contains;
use crate::value::scalar_view;
use crate::value::scalars_view;
use crate::value::spec_gscalar_fits;
use crate::value::spec_gscalars_fit;
use crate::value::GScalar;
use crate::value::spec_zero_scalar;
use crate::value::tn_view;
use crate::value::val_view;
use crate::value::vt_view;
use crate::value::wf_tree_node;
use crate::value::wf_vtree;
use crate::value::CResult;
use crate::value::DecodeError;
use crate::value::GTreeNode;
use crate::value::GVal;
use crate::value::Scalar;
use crate::value::TreeNode;
use crate::value::StructuredValue;
use crate::value::ValueTree;
use crate::visit::ScalarKind;
use crate::visit::TCFieldType;
use crate::visit::TCFieldTypePrimitive;
use crate::visit::TCStructField;
use crate::visit::spec_flat_kind;
use crate::visit::spec_kind_emits;
use crate::visit::spec_leaves;
use crate::visit::leaves_view;
use crate::visit::push_prefix;
use crate::visit::GLeaf;
use crate::value::spec_tree_insert;
use crate::value::set_nested_value;

verus! {

/// One typed value a front end collected for a flag: a single scalar for
/// a set-once flag, or every occurrence for an appending flag.
#[derive(Debug, PartialEq, Eq)]
pub enum LeafValue {
    Single(Scalar),
    Repeated(Vec<Scalar>),
}

/// The mathematical content of one collected value.
#[verifier::ext_equal]
pub enum GLeafValue {
    Single(GScalar),
    Repeated(Seq<GScalar>),
}

/// The mathematical content of a collected value.
pub open spec fn lv_view(v: LeafValue) -> GLeafValue {
    match v {
        LeafValue::Single(s) => GLeafValue::Single(scalar_view(s)),
        LeafValue::Repeated(items) => GLeafValue::Repeated(scalars_view(items@)),
    }
}

/// A completed argument parse: a mapping from dotted flag name to the
/// typed value supplied for it. A name occurs at most once; lookups take
/// the first entry with the name.
#[derive(Debug, PartialEq, Eq)]
pub struct LeafMap {
    pub entries: Vec<(String, LeafValue)>,
}

/// The mathematical content of a leaf map.
pub open spec fn lm_view(m: LeafMap) -> Seq<(Seq<char>, GLeafValue)> {
    Seq::new(m.entries@.len(), |i: int| (m.entries@[i].0@, lv_view(m.entries@[i].1)))
}

/// First-match lookup in a leaf map.
pub open spec fn spec_lm_get(s: Seq<(Seq<char>, GLeafValue)>, k: Seq<char>) -> Option<GLeafValue>
    decreases s,
{
    if s.len() == 0 {
        Option::None
    } else if s[0].0 == k {
        Option::Some(s[0].1)
    } else {
        spec_lm_get(s.drop_first(), k)
    }
}

impl LeafMap {
    /// The empty parse.
    pub fn new() -> (r: LeafMap)
        ensures
            lm_view(r) =~= Seq::<(Seq<char>, GLeafValue)>::empty(),
    {
        LeafMap { entries: Vec::new() }
    }

    /// Record the value supplied for one flag.
    pub fn push_value(&mut self, name: String, value: LeafValue)
        ensures
            lm_view(*final(self)) =~= lm_view(*old(self)).push((name@, lv_view(value))),
    {
        self.entries.push((name, value));
    }

    /// The value supplied for the flag `name`, if any.
    pub fn get(&self, name: &String) -> (r: Option<&LeafValue>)
        ensures
            match r {
                Option::Some(v) => spec_lm_get(lm_view(*self), name@) == Option::Some(lv_view(*v)),
                Option::None => spec_lm_get(lm_view(*self), name@) is None,
            },
    {
        let mut i: usize = 0;
        proof {
            assert(lm_view(*self).skip(0) =~= lm_view(*self));
        }
        while i < self.entries.len()
            invariant
                i <= self.entries@.len(),
                spec_lm_get(lm_view(*self), name@) == spec_lm_get(
                    lm_view(*self).skip(i as int),
                    name@,
                ),
            decreases self.entries@.len() - i,
        {
            let e = &self.entries[i];
            proof {
                assert(lm_view(*self).skip(i as int)[0] == (e.0@, lv_view(e.1)));
            }
            if e.0 == *name {
                return Some(&e.1);
            }
            proof {
                assert(lm_view(*self).skip(i as int).drop_first() =~= lm_view(*self).skip(
                    i as int + 1,
                ));
            }
            i += 1;
        }
        proof {
            assert(lm_view(*self).skip(i as int).len() == 0);
        }
        None
    }
}

/// The dotted rendering of a path: its segments joined by `.`.
pub open spec fn spec_dotted(path: Seq<Seq<char>>) -> Seq<char>
    decreases path,
{
    if path.len() == 0 {
        Seq::empty()
    } else if path.len() == 1 {
        path[0]
    } else {
        path[0] + seq!['.'] + spec_dotted(path.drop_first())
    }
}

/// Every segment of a prefix followed by a dot.
pub open spec fn spec_dot_front(q: Seq<Seq<char>>) -> Seq<char>
    decreases q,
{
    if q.len() == 0 {
        Seq::empty()
    } else {
        spec_dot_front(q.drop_last()) + q.last() + seq!['.']
    }
}

/// The dot-front of a nonempty prefix, read from its first segment.
proof fn lemma_dot_front_first(q: Seq<Seq<char>>)
    requires
        q.len() >= 1,
    ensures
        spec_dot_front(q) =~= q[0] + seq!['.'] + spec_dot_front(q.drop_first()),
    decreases q.len(),
{
    if q.len() == 1 {
        assert(q.drop_last() =~= Seq::<Seq<char>>::empty());
        assert(q.drop_first() =~= Seq::<Seq<char>>::empty());
    } else {
        lemma_dot_front_first(q.drop_last());
        assert(q.drop_last().drop_first() =~= q.drop_first().drop_last());
        assert(q.drop_last()[0] == q[0]);
        assert(q.drop_first().last() == q.last());
    }
}

/// A dotted path splits into its dot-front and its last segment.
proof fn lemma_dotted_split(path: Seq<Seq<char>>)
    requires
        path.len() >= 1,
    ensures
        spec_dotted(path) =~= spec_dot_front(path.drop_last()) + path.last(),
    decreases path.len(),
{
    if path.len() == 1 {
        assert(path.drop_last() =~= Seq::<Seq<char>>::empty());
    } else {
        lemma_dotted_split(path.drop_first());
        assert(path.drop_first().drop_last() =~= path.drop_last().drop_first());
        assert(path.drop_first().last() == path.last());
        lemma_dot_front_first(path.drop_last());
        assert(path.drop_last()[0] == path[0]);
    }
}

/// The dotted flag name of a leaf: its prefix segments and its field
/// name, joined by `.`.
pub fn dotted_name(prefix: &Vec<String>, field_name: &String) -> (r: String)
    ensures
        r@ == spec_dotted(prefix.deep_view().push(field_name@)),
{
    let mut s = String::new();
    let mut i: usize = 0;
    while i < prefix.len()
        invariant
            i <= prefix@.len(),
            s@ =~= spec_dot_front(prefix.deep_view().take(i as int)),
        decreases prefix@.len() - i,
    {
        let ghost pre = prefix.deep_view().take(i as int);
        s.append(prefix[i].as_str());
        s.append(".");
        proof {
            reveal_strlit(".");
            assert("."@ =~= seq!['.']);
            let now = prefix.deep_view().take(i as int + 1);
            assert(now.drop_last() =~= pre);
            assert(now.last() == prefix.deep_view()[i as int]);
            assert(s@ =~= spec_dot_front(now));
        }
        i += 1;
    }
    s.append(field_name.as_str());
    proof {
        assert(prefix.deep_view().take(prefix@.len() as int) =~= prefix.deep_view());
        let path = prefix.deep_view().push(field_name@);
        assert(path.drop_last() =~= prefix.deep_view());
        assert(path.last() == field_name@);
        lemma_dotted_split(path);
    }
    s
}

/// What the decoder takes from the leaf map for one leaf: the typed value
/// under the leaf's dotted name, if one was supplied and its shape agrees
/// with the leaf (a single scalar of the leaf's kind for a set-once leaf,
/// a list of scalars of the leaf's kind for a repeated leaf). A value of
/// the wrong shape is skipped, exactly as an absent one.
pub open spec fn spec_extract(
    m: Seq<(Seq<char>, GLeafValue)>,
    name: Seq<char>,
    kind: ScalarKind,
    repeated: bool,
) -> Option<GTreeNode> {
    match spec_lm_get(m, name) {
        Option::None => Option::None,
        Option::Some(GLeafValue::Single(s)) => if !repeated && spec_gscalar_fits(s, kind) {
            Option::Some(GTreeNode::Leaf(s))
        } else {
            Option::None
        },
        Option::Some(GLeafValue::Repeated(items)) => if repeated && spec_gscalars_fit(items, kind) {
            Option::Some(GTreeNode::Items(items))
        } else {
            Option::None
        },
    }
}

/// An exact copy of a list of scalars.
fn clone_scalars(items: &Vec<Scalar>) -> (r: Vec<Scalar>)
    ensures
        r@ =~= items@,
{
    let mut r: Vec<Scalar> = Vec::new();
    let mut i: usize = 0;
    while i < items.len()
        invariant
            i <= items@.len(),
            r@ =~= items@.take(i as int),
        decreases items@.len() - i,
    {
        r.push(items[i].clone());
        proof {
            assert(items@.take(i as int + 1) =~= items@.take(i as int).push(items@[i as int]));
        }
        i += 1;
    }
    proof {
        assert(items@.take(items@.len() as int) =~= items@);
    }
    r
}

/// Take the typed value supplied for the flag `arg_name` out of the
/// parse, checked against the leaf's kind and arity.
pub fn extract_primitive_value(
    matches: &LeafMap,
    arg_name: &String,
    kind: ScalarKind,
    repeated: bool,
) -> (r: Option<TreeNode>)
    ensures
        match r {
            Option::Some(t) => {
                &&& spec_extract(lm_view(*matches), arg_name@, kind, repeated)
                    == Option::Some(tn_view(t))
                &&& wf_tree_node(t)
            },
            Option::None => spec_extract(lm_view(*matches), arg_name@, kind, repeated) is None,
        },
{
    match matches.get(arg_name) {
        Option::None => None,
        Option::Some(LeafValue::Single(s)) => {
            if !repeated && s.fits(kind) {
                Some(TreeNode::Leaf(s.clone()))
            } else {
                None
            }
        }
        Option::Some(LeafValue::Repeated(items)) => {
            if repeated {
                let ok = scalars_fit(items, kind);
                if ok {
                    Some(TreeNode::Items(clone_scalars(items)))
                } else {
                    None
                }
            } else {
                None
            }
        }
    }
}

/// The mathematical content of an optional borrowed tree node.
pub open spec fn tn_opt_view(t: Option<&TreeNode>) -> Option<GTreeNode> {
    match t {
        Option::Some(x) => Option::Some(tn_view(*x)),
        Option::None => Option::None,
    }
}

/// How an executable conversion outcome realises a mathematical one: a
/// converted value with the stated content, a conflict naming the stated
/// group, or a validation failure.
pub open spec fn spec_result_matches(r: Result<StructuredValue, DecodeError>, c: CResult) -> bool {
    match c {
        CResult::Converted(gv) => match r {
            Result::Ok(v) => val_view(v) == gv,
            Result::Err(_) => false,
        },
        CResult::Conflict(g) => match r {
            Result::Err(DecodeError::ArgumentConflict { group }) => group@ == g,
            _ => false,
        },
        CResult::Invalid => match r {
            Result::Err(DecodeError::ValueValidation { .. }) => true,
            _ => false,
        },
    }
}

/// Converting a schema node against the tree node found at its position
/// (`None` when nothing was inserted there). A missing position yields the
/// node's zero value shape; a position whose shape disagrees with the
/// schema is a structural mismatch; a mutually-exclusive group with more
/// than one member set is a conflict naming the group.
pub open spec fn spec_convert(n: TCFieldType, t: Option<GTreeNode>) -> CResult
    decreases n,
{
    match n {
        TCFieldType::Primitive { field_type, .. } => {
            if field_type is List {
                match t {
                    Option::None => CResult::Converted(GVal::List(Seq::empty())),
                    Option::Some(GTreeNode::Items(items)) => {
                        if spec_kind_emits(field_type) && spec_gscalars_fit(
                            items,
                            spec_flat_kind(field_type),
                        ) {
                            CResult::Converted(GVal::List(items))
                        } else {
                            CResult::Invalid
                        }
                    }
                    Option::Some(_) => CResult::Invalid,
                }
            } else {
                match t {
                    Option::None => CResult::Converted(
                        GVal::Scalar(spec_zero_scalar(spec_flat_kind(field_type))),
                    ),
                    Option::Some(GTreeNode::Leaf(s)) => {
                        if spec_gscalar_fits(s, spec_flat_kind(field_type)) {
                            CResult::Converted(GVal::Scalar(s))
                        } else {
                            CResult::Invalid
                        }
                    }
                    Option::Some(_) => CResult::Invalid,
                }
            }
        }
        TCFieldType::Option(inner) => match t {
            Option::None => CResult::Converted(GVal::Null),
            Option::Some(tt) => spec_convert(*inner, Option::Some(tt)),
        },
        TCFieldType::Struct { fields, .. } => match t {
            Option::None => spec_convert_fields(fields@, Map::empty()),
            Option::Some(GTreeNode::Branch(m)) => spec_convert_fields(fields@, m),
            Option::Some(_) => CResult::Invalid,
        },
        TCFieldType::OneOf { name, members } => match t {
            Option::None => CResult::Converted(GVal::Null),
            Option::Some(GTreeNode::Branch(m)) => spec_convert_oneof(name@, members@, m),
            Option::Some(_) => CResult::Invalid,
        },
        TCFieldType::Unknown(_) => CResult::Converted(GVal::Null),
    }
}

/// Converting a struct's fields, in declaration order, against the map of
/// tree entries at the struct's position. A missing field converts as
/// `None`; the first field that fails decides the error.
pub open spec fn spec_convert_fields(fs: Seq<TCStructField>, m: Map<Seq<char>, GTreeNode>) -> CResult
    decreases fs,
{
    if fs.len() == 0 {
        CResult::Converted(GVal::Struct(Seq::empty()))
    } else {
        let head = spec_convert(
            fs[0].field_type,
            if m.contains_key(fs[0].field_name@) {
                Option::Some(m[fs[0].field_name@])
            } else {
                Option::None
            },
        );
        match head {
            CResult::Converted(v) => match spec_convert_fields(fs.drop_first(), m) {
                CResult::Converted(GVal::Struct(tail)) => CResult::Converted(
                    GVal::Struct(seq![(fs[0].field_name@, v)] + tail),
                ),
                CResult::Converted(_) => CResult::Invalid,
                CResult::Conflict(g) => CResult::Conflict(g),
                CResult::Invalid => CResult::Invalid,
            },
            CResult::Conflict(g) => CResult::Conflict(g),
            CResult::Invalid => CResult::Invalid,
        }
    }
}

/// The first member of a group carrying the given name, or -1.
pub open spec fn spec_find_member(ms: Seq<TCStructField>, k: Seq<char>) -> int
    decreases ms,
{
    if ms.len() == 0 {
        -1
    } else if ms[0].field_name@ == k {
        0
    } else {
        let r = spec_find_member(ms.drop_first(), k);
        if r < 0 {
            -1
        } else {
            r + 1
        }
    }
}

/// What is known of the first matching member.
pub proof fn lemma_find_member(ms: Seq<TCStructField>, k: Seq<char>)
    ensures
        spec_find_member(ms, k) >= 0 ==> {
            &&& spec_find_member(ms, k) < ms.len()
            &&& ms[spec_find_member(ms, k)].field_name@ == k
            &&& forall|j: int| 0 <= j < spec_find_member(ms, k) ==> ms[j].field_name@ != k
        },
        spec_find_member(ms, k) < 0 ==> (forall|j: int|
            0 <= j < ms.len() ==> ms[j].field_name@ != k),
    decreases ms,
{
    if ms.len() > 0 && ms[0].field_name@ != k {
        lemma_find_member(ms.drop_first(), k);
        let r = spec_find_member(ms.drop_first(), k);
        if r >= 0 {
            assert(forall|j: int|
                1 <= j < r + 1 ==> ms[j].field_name@ == ms.drop_first()[j - 1].field_name@);
        } else {
            assert(forall|j: int|
                1 <= j < ms.len() ==> ms[j].field_name@ == ms.drop_first()[j - 1].field_name@);
        }
    }
}

/// Converting a mutually-exclusive group against the map at its position:
/// two or more entries are a conflict naming the group; exactly one entry
/// selects the first member with that name (an entry naming no member is
/// a structural mismatch); no entry is the group's absent state.
pub open spec fn spec_convert_oneof(
    gname: Seq<char>,
    members: Seq<TCStructField>,
    m: Map<Seq<char>, GTreeNode>,
) -> CResult
    decreases members,
{
    if exists|k1: Seq<char>, k2: Seq<char>|
        m.dom().contains(k1) && m.dom().contains(k2) && k1 != k2 {
        CResult::Conflict(gname)
    } else if m.dom() =~= Set::<Seq<char>>::empty() {
        CResult::Converted(GVal::Null)
    } else {
        let k = m.dom().choose();
        let j = spec_find_member(members, k);
        if 0 <= j < members.len() {
            match spec_convert(members[j].field_type, Option::Some(m[k])) {
                CResult::Converted(v) => CResult::Converted(GVal::OneOf(k, Box::new(v))),
                CResult::Conflict(g) => CResult::Conflict(g),
                CResult::Invalid => CResult::Invalid,
            }
        } else {
            CResult::Invalid
        }
    }
}

/// A struct value extended at the front by already-converted fields.
pub open spec fn spec_prepend(front: Seq<(Seq<char>, GVal)>, r: CResult) -> CResult {
    match r {
        CResult::Converted(GVal::Struct(tail)) => CResult::Converted(GVal::Struct(front + tail)),
        CResult::Converted(_) => CResult::Invalid,
        CResult::Conflict(g) => CResult::Conflict(g),
        CResult::Invalid => CResult::Invalid,
    }
}

/// The zero scalar of a kind.
pub(crate) fn zero_scalar(k: ScalarKind) -> (r: Scalar)
    ensures
        scalar_view(r) == spec_zero_scalar(k),
{
    match k {
        ScalarKind::Str => Scalar::Str(String::new()),
        ScalarKind::U8 => Scalar::U8(0),
        ScalarKind::I32 => Scalar::I32(0),
        ScalarKind::I64 => Scalar::I64(0),
        ScalarKind::F32 => Scalar::F32Bits(0),
        ScalarKind::F64 => Scalar::F64Bits(0),
        ScalarKind::Bool => Scalar::Bool(false),
    }
}

/// Whether every scalar of the list has the given kind.
fn scalars_fit(items: &Vec<Scalar>, k: ScalarKind) -> (r: bool)
    ensures
        r == spec_gscalars_fit(scalars_view(items@), k),
{
    let mut i: usize = 0;
    let mut ok = true;
    while i < items.len()
        invariant
            i <= items@.len(),
            ok == spec_gscalars_fit(scalars_view(items@.take(i as int)), k),
        decreases items@.len() - i,
    {
        proof {
            assert(forall|j: int|
                0 <= j <= i ==> scalars_view(items@.take(i as int + 1))[j] == scalar_view(
                    items@[j],
                ));
            assert(forall|j: int|
                0 <= j < i ==> scalars_view(items@.take(i as int))[j] == scalar_view(items@[j]));
        }
        let fits_here = items[i].fits(k);
        proof {
            let s1 = scalars_view(items@.take(i as int));
            let s2 = scalars_view(items@.take(i as int + 1));
            if ok && fits_here {
                assert forall|j: int| 0 <= j < s2.len() implies spec_gscalar_fits(
                    #[trigger] s2[j],
                    k,
                ) by {
                    if j < i {
                        assert(s1[j] == s2[j]);
                        assert(spec_gscalar_fits(s1[j], k));
                    } else {
                        assert(s2[j] == scalar_view(items@[i as int]));
                    }
                }
            } else if !fits_here {
                assert(!spec_gscalar_fits(s2[i as int], k));
            } else {
                let j = choose|j: int| 0 <= j < s1.len() && !spec_gscalar_fits(#[trigger] s1[j], k);
                assert(s2[j] == s1[j]);
                assert(!spec_gscalar_fits(s2[j], k));
            }
        }
        if !fits_here {
            ok = false;
        }
        i += 1;
    }
    proof {
        assert(items@.take(items@.len() as int) =~= items@);
    }
    ok
}

/// Convert the tree node found at a schema node's position (or its
/// absence) into the structured value the schema calls for.
pub fn convert_tree(n: &TCFieldType, t: Option<&TreeNode>) -> (r: Result<StructuredValue, DecodeError>)
    requires
        (t matches Option::Some(tt) ==> wf_tree_node(*tt)),
    ensures
        spec_result_matches(r, spec_convert(*n, tn_opt_view(t))),
    decreases *n,
{
    match n {
        TCFieldType::Primitive { field_type, .. } => {
            if field_type.is_vec() {
                match t {
                    Option::None => {
                        let items: Vec<Scalar> = Vec::new();
                        proof {
                            assert(scalars_view(items@) =~= Seq::<crate::value::GScalar>::empty());
                        }
                        Ok(StructuredValue::List(items))
                    }
                    Option::Some(TreeNode::Items(items)) => {
                        if field_type.is_primitive_vec() {
                            let (kind, _) = field_type.get_clap_value_parse();
                            if scalars_fit(items, kind) {
                                let r = StructuredValue::List(clone_scalars(items));
                                proof {
                                    assert(val_view(r) == GVal::List(scalars_view(items@)));
                                }
                                Ok(r)
                            } else {
                                Err(DecodeError::ValueValidation {
                                    message: "a list value does not fit the field's kind".to_owned(),
                                })
                            }
                        } else {
                            Err(DecodeError::ValueValidation {
                                message: "a value was supplied for an unrepresentable list".to_owned(),
                            })
                        }
                    }
                    Option::Some(_) => Err(DecodeError::ValueValidation {
                        message: "a repeated field needs a list of values".to_owned(),
                    }),
                }
            } else {
                match t {
                    Option::None => {
                        let (kind, _) = field_type.get_clap_value_parse();
                        Ok(StructuredValue::Scalar(zero_scalar(kind)))
                    }
                    Option::Some(TreeNode::Leaf(s)) => {
                        let (kind, _) = field_type.get_clap_value_parse();
                        if s.fits(kind) {
                            Ok(StructuredValue::Scalar(s.clone()))
                        } else {
                            Err(DecodeError::ValueValidation {
                                message: "a scalar value does not fit the field's kind".to_owned(),
                            })
                        }
                    }
                    Option::Some(_) => Err(DecodeError::ValueValidation {
                        message: "a scalar field needs a single value".to_owned(),
                    }),
                }
            }
        }
        TCFieldType::Option(inner) => match t {
            Option::None => Ok(StructuredValue::Null),
            Option::Some(tt) => convert_tree(inner, Some(tt)),
        },
        TCFieldType::Struct { fields, .. } => match t {
            Option::None => {
                let empty = ValueTree::new();
                convert_fields(fields, &empty)
            }
            Option::Some(TreeNode::Branch(vt)) => convert_fields(fields, vt),
            Option::Some(_) => Err(DecodeError::ValueValidation {
                message: "a nested message needs nested values".to_owned(),
            }),
        },
        TCFieldType::OneOf { name, members } => match t {
            Option::None => Ok(StructuredValue::Null),
            Option::Some(TreeNode::Branch(vt)) => convert_oneof(name, members, vt),
            Option::Some(_) => Err(DecodeError::ValueValidation {
                message: "a group needs nested values".to_owned(),
            }),
        },
        TCFieldType::Unknown(_) => Ok(StructuredValue::Null),
    }
}

/// Convert a struct's fields against the tree at the struct's position.
fn convert_fields(fields: &Vec<TCStructField>, vt: &ValueTree) -> (r: Result<StructuredValue, DecodeError>)
    requires
        wf_vtree(*vt),
    ensures
        spec_result_matches(r, spec_convert_fields(fields@, vt_view(*vt))),
    decreases fields@,
{
    let ghost m = vt_view(*vt);
    let mut acc: Vec<(String, StructuredValue)> = Vec::new();
    let mut i: usize = 0;
    proof {
        assert(fields@.skip(0) =~= fields@);
        assert(fields_vals_view(acc@) =~= Seq::<(Seq<char>, GVal)>::empty());
    }
    while i < fields.len()
        invariant
            i <= fields@.len(),
            wf_vtree(*vt),
            m == vt_view(*vt),
            spec_convert_fields(fields@, m) == spec_prepend(
                fields_vals_view(acc@),
                spec_convert_fields(fields@.skip(i as int), m),
            ),
        decreases fields@.len() - i,
    {
        let f = &fields[i];
        let ghost rest = fields@.skip(i as int);
        proof {
            assert(rest[0] == fields@[i as int]);
            assert(rest.drop_first() =~= fields@.skip(i as int + 1));
        }
        let t = vt.get(&f.field_name);
        let sub = convert_tree(&f.field_type, t);
        match sub {
            Result::Ok(v) => {
                let ghost front = fields_vals_view(acc@);
                let ghost gv = val_view(v);
                let ghost pre_acc = acc@;
                acc.push((f.field_name.clone(), v));
                proof {
                    assert(acc@.drop_last() =~= pre_acc);
                    assert(fields_vals_view(acc@) =~= front.push((f.field_name@, gv)));
                    let tail_r = spec_convert_fields(fields@.skip(i as int + 1), m);
                    match tail_r {
                        CResult::Converted(GVal::Struct(tail)) => {
                            assert(front + (seq![(f.field_name@, gv)] + tail) =~= front.push(
                                (f.field_name@, gv),
                            ) + tail);
                        }
                        _ => {}
                    }
                }
            }
            Result::Err(e) => {
                return Err(e);
            }
        }
        i += 1;
    }
    proof {
        assert(fields@.skip(fields@.len() as int).len() == 0);
        assert(fields_vals_view(acc@) + Seq::<(Seq<char>, GVal)>::empty() =~= fields_vals_view(
            acc@,
        ));
    }
    Ok(StructuredValue::Struct(acc))
}

/// Convert a mutually-exclusive group against the tree at its position.
fn convert_oneof(gname: &String, members: &Vec<TCStructField>, vt: &ValueTree) -> (r: Result<
    StructuredValue,
    DecodeError,
>)
    requires
        wf_vtree(*vt),
    ensures
        spec_result_matches(r, spec_convert_oneof(gname@, members@, vt_view(*vt))),
    decreases members@,
{
    let ghost m = vt_view(*vt);
    let n = vt.len();
    if n == 0 {
        proof {
            lemma_entries_view_contains_all(vt.entries@);
            assert(m.dom() =~= Set::<Seq<char>>::empty());
            if exists|k1: Seq<char>, k2: Seq<char>|
                m.dom().contains(k1) && m.dom().contains(k2) && k1 != k2 {
                let (k1, k2) = choose|k1: Seq<char>, k2: Seq<char>|
                    m.dom().contains(k1) && m.dom().contains(k2) && k1 != k2;
                assert(false);
            }
        }
        Ok(StructuredValue::Null)
    } else if n >= 2 {
        proof {
            lemma_vtree_entry(*vt, 0);
            lemma_vtree_entry(*vt, 1);
            assert(vt.entries@[0].0@ != vt.entries@[1].0@);
        }
        Err(DecodeError::ArgumentConflict { group: gname.clone() })
    } else {
        let e = &vt.entries[0];
        proof {
            lemma_vtree_entry(*vt, 0);
            assert forall|k1: Seq<char>, k2: Seq<char>|
                m.dom().contains(k1) && m.dom().contains(k2) implies k1 == k2 by {
                lemma_entries_view_contains(vt.entries@, k1);
                lemma_entries_view_contains(vt.entries@, k2);
            }
            assert(m.dom().contains(e.0@));
            assert(!(m.dom() =~= Set::<Seq<char>>::empty()));
            assert(m.dom().contains(m.dom().choose()));
            assert(m.dom().choose() == e.0@);
        }
        let pos = find_member(members, &e.0);
        match pos {
            Option::Some(j) => {
                let sub = convert_tree(&members[j].field_type, Some(&e.1));
                match sub {
                    Result::Ok(v) => Ok(StructuredValue::OneOf(e.0.clone(), Box::new(v))),
                    Result::Err(err) => Err(err),
                }
            }
            Option::None => Err(DecodeError::ValueValidation {
                message: "a group value names no member of the group".to_owned(),
            }),
        }
    }
}

/// No entries means no keys.
proof fn lemma_entries_view_contains_all(s: Seq<(String, TreeNode)>)
    ensures
        forall|k: Seq<char>|
            crate::value::entries_view(s).contains_key(k) ==> (exists|i: int|
                0 <= i < s.len() && #[trigger] s[i].0@ == k),
{
    assert forall|k: Seq<char>| crate::value::entries_view(s).contains_key(k) implies (exists|
        i: int,
    |
        0 <= i < s.len() && #[trigger] s[i].0@ == k) by {
        lemma_entries_view_contains(s, k);
    }
}

/// The position of the first member of the group with the given name.
pub(crate) fn find_member(members: &Vec<TCStructField>, key: &String) -> (r: Option<usize>)
    ensures
        match r {
            Option::Some(j) => j < members@.len() && spec_find_member(members@, key@) == j as int,
            Option::None => spec_find_member(members@, key@) < 0,
        },
{
    let mut i: usize = 0;
    while i < members.len()
        invariant
            i <= members@.len(),
            forall|j: int| 0 <= j < i ==> members@[j].field_name@ != key@,
        decreases members@.len() - i,
    {
        if members[i].field_name == *key {
            proof {
                lemma_find_member_prefix(members@, key@, i as int);
            }
            return Some(i);
        }
        i += 1;
    }
    proof {
        lemma_find_member(members@, key@);
        if spec_find_member(members@, key@) >= 0 {
            assert(members@[spec_find_member(members@, key@)].field_name@ == key@);
        }
    }
    None
}

/// When nothing before position `i` matches and position `i` does, the
/// first match is `i`.
proof fn lemma_find_member_prefix(ms: Seq<TCStructField>, k: Seq<char>, i: int)
    requires
        0 <= i < ms.len(),
        ms[i].field_name@ == k,
        forall|j: int| 0 <= j < i ==> ms[j].field_name@ != k,
    ensures
        spec_find_member(ms, k) == i,
    decreases i,
{
    if i > 0 {
        assert(forall|j: int|
            0 <= j < i - 1 ==> ms.drop_first()[j].field_name@ == ms[j + 1].field_name@);
        lemma_find_member_prefix(ms.drop_first(), k, i - 1);
    }
}

/// The tree that inserting the supplied leaves builds: each emitted leaf,
/// in order, is looked up under its dotted name, and a leaf whose value
/// was supplied (with the right shape) is inserted at its path. Absent
/// leaves are simply not inserted.
pub open spec fn spec_build_tree(
    leaves: Seq<GLeaf>,
    m: Seq<(Seq<char>, GLeafValue)>,
) -> Map<Seq<char>, GTreeNode>
    decreases leaves,
{
    if leaves.len() == 0 {
        Map::empty()
    } else {
        let front = spec_build_tree(leaves.drop_last(), m);
        let l = leaves.last();
        match spec_extract(m, spec_dotted(l.path), l.kind, l.repeated) {
            Option::Some(tn) => spec_tree_insert(front, l.path, tn),
            Option::None => front,
        }
    }
}

/// What decoding a leaf map against a schema yields: the supplied leaves
/// are inserted into an empty tree, and the tree is converted into the
/// structured value the schema calls for.
pub open spec fn spec_decode(n: TCFieldType, m: Seq<(Seq<char>, GLeafValue)>) -> CResult {
    spec_convert(
        n,
        Option::Some(GTreeNode::Branch(spec_build_tree(spec_leaves(n, Seq::empty()), m))),
    )
}

/// Rebuild a structured value from a completed argument parse: insert
/// every supplied leaf value at its dotted path and convert the resulting
/// tree against the schema.
pub fn impl_from_arg_matches(schema: &TCFieldType, matches: &LeafMap) -> (r: Result<
    StructuredValue,
    DecodeError,
>)
    ensures
        spec_result_matches(r, spec_decode(*schema, lm_view(*matches))),
{
    let leaves = schema.visit_nested();
    let ghost gleaves = leaves_view(leaves@);
    let mut tree = ValueTree::new();
    let mut i: usize = 0;
    proof {
        assert(gleaves.take(0).len() == 0);
    }
    while i < leaves.len()
        invariant
            i <= leaves@.len(),
            gleaves == leaves_view(leaves@),
            gleaves == spec_leaves(*schema, Seq::<Seq<char>>::empty()),
            wf_vtree(tree),
            vt_view(tree) == spec_build_tree(gleaves.take(i as int), lm_view(*matches)),
        decreases leaves@.len() - i,
    {
        let leaf = &leaves[i];
        proof {
            assert(gleaves[i as int] == leaf@);
            assert(gleaves.take(i as int + 1).drop_last() =~= gleaves.take(i as int));
            assert(gleaves.take(i as int + 1).last() == leaf@);
        }
        let name = dotted_name(&leaf.prefix, &leaf.field_name);
        match extract_primitive_value(matches, &name, leaf.kind, leaf.repeated) {
            Option::Some(node) => {
                let path = push_prefix(&leaf.prefix, &leaf.field_name);
                tree = set_nested_value(tree, &path, node);
            }
            Option::None => {}
        }
        i += 1;
    }
    proof {
        assert(gleaves.take(leaves@.len() as int) =~= gleaves);
    }
    let root = TreeNode::Branch(tree);
    convert_tree(schema, Some(&root))
}

/// One flag a front end should register for a schema: its long name (the
/// leaf's dotted path), the name shown for its value, its help text, its
/// informational required posture (the front end never rejects an omitted
/// flag, so this is always false), its occurrence action and its scalar
/// kind.
#[derive(Debug, PartialEq, Eq)]
pub struct ArgSpec {
    pub long: String,
    pub value_name: String,
    pub help: String,
    pub required: bool,
    pub action: crate::visit::ArgAction,
    pub kind: ScalarKind,
}

/// The display form of a leaf's kind, as shown in help text.
pub open spec fn spec_display_leaf(kind: ScalarKind, repeated: bool) -> Seq<char> {
    let base = match kind {
        ScalarKind::Str => "String"@,
        ScalarKind::U8 => "u8"@,
        ScalarKind::I32 => "i32"@,
        ScalarKind::I64 => "i64"@,
        ScalarKind::F32 => "f32"@,
        ScalarKind::F64 => "f64"@,
        ScalarKind::Bool => "bool"@,
    };
    if repeated {
        "Vec<"@ + base + ">"@
    } else {
        base
    }
}

/// The display form of a leaf's kind.
fn display_leaf_kind(kind: ScalarKind, repeated: bool) -> (r: String)
    ensures
        r@ == spec_display_leaf(kind, repeated),
{
    let base = match kind {
        ScalarKind::Str => "String",
        ScalarKind::U8 => "u8",
        ScalarKind::I32 => "i32",
        ScalarKind::I64 => "i64",
        ScalarKind::F32 => "f32",
        ScalarKind::F64 => "f64",
        ScalarKind::Bool => "bool",
    };
    if repeated {
        let mut out = "Vec<".to_owned();
        out.append(base);
        out.append(">");
        out
    } else {
        base.to_owned()
    }
}

/// How one flag realises one emitted leaf.
pub open spec fn spec_arg_matches(a: ArgSpec, l: GLeaf) -> bool {
    &&& a.long@ == spec_dotted(l.path)
    &&& l.path.len() > 0 && a.value_name@ == crate::gen::spec_value_name(l.path.last())
    &&& a.help@ == "Arg: "@ + spec_display_leaf(l.kind, l.repeated)
    &&& a.required == false
    &&& a.action == (if l.repeated {
        crate::visit::ArgAction::Append
    } else {
        crate::visit::ArgAction::SetOnce
    })
    &&& a.kind == l.kind
}

/// The flags a front end should register for a schema: one per emitted
/// leaf, named by the leaf's dotted path. Every flag is optional on the
/// command line, whatever the leaf's computed posture says: the posture is
/// informational only.
pub fn impl_augment_args(schema: &TCFieldType) -> (r: Vec<ArgSpec>)
    ensures
        r@.len() == spec_leaves(*schema, Seq::<Seq<char>>::empty()).len(),
        forall|i: int|
            0 <= i < r@.len() ==> spec_arg_matches(
                #[trigger] r@[i],
                spec_leaves(*schema, Seq::<Seq<char>>::empty())[i],
            ),
{
    let leaves = schema.visit_nested();
    let ghost gleaves = leaves_view(leaves@);
    let mut out: Vec<ArgSpec> = Vec::new();
    let mut i: usize = 0;
    while i < leaves.len()
        invariant
            i <= leaves@.len(),
            gleaves == leaves_view(leaves@),
            gleaves == spec_leaves(*schema, Seq::<Seq<char>>::empty()),
            out@.len() == i,
            forall|j: int|
                0 <= j < i ==> spec_arg_matches(#[trigger] out@[j], gleaves[j]),
        decreases leaves@.len() - i,
    {
        let leaf = &leaves[i];
        proof {
            assert(gleaves[i as int] == leaf@);
        }
        let long = dotted_name(&leaf.prefix, &leaf.field_name);
        let mut help = "Arg: ".to_owned();
        let shown = display_leaf_kind(leaf.kind, leaf.repeated);
        help.append(shown.as_str());
        let action = if leaf.repeated {
            crate::visit::ArgAction::Append
        } else {
            crate::visit::ArgAction::SetOnce
        };
        let spec = ArgSpec {
            long,
            value_name: crate::gen::upper_ascii(leaf.field_name.as_str()),
            help,
            required: false,
            action,
            kind: leaf.kind,
        };
        proof {
            assert(leaf@.path.last() == leaf.field_name@);
        }
        out.push(spec);
        i += 1;
    }
    out
}

} // verus!
