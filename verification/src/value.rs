//! Scalars, the intermediate value tree that decoded leaves are inserted
//! into, and the structured values that conversion produces.

use vstd::prelude::*;

use crate::visit::ScalarKind;
use crate::visit::TCFieldType;
use crate::visit::TCFieldTypePrimitive;

verus! {

/// One scalar value. Floating-point fields carry their raw bit patterns,
/// so that values pass through the codec without any float arithmetic.
#[derive(Debug, PartialEq, Eq)]
pub enum Scalar {
    Str(String),
    U8(u8),
    I32(i32),
    I64(i64),
    F32Bits(u32),
    F64Bits(u64),
    Bool(bool),
}

impl Clone for Scalar {
    /// An exact copy.
    fn clone(&self) -> (r: Self)
        ensures
            r == *self,
    {
        match self {
            Scalar::Str(s) => Scalar::Str(s.clone()),
            Scalar::U8(x) => Scalar::U8(*x),
            Scalar::I32(x) => Scalar::I32(*x),
            Scalar::I64(x) => Scalar::I64(*x),
            Scalar::F32Bits(x) => Scalar::F32Bits(*x),
            Scalar::F64Bits(x) => Scalar::F64Bits(*x),
            Scalar::Bool(x) => Scalar::Bool(*x),
        }
    }
}

impl Scalar {
    /// Whether this scalar has the given kind.
    pub fn fits(&self, k: ScalarKind) -> (r: bool)
        ensures
            r == spec_gscalar_fits(scalar_view(*self), k),
    {
        match self {
            Scalar::Str(_) => matches!(k, ScalarKind::Str),
            Scalar::U8(_) => matches!(k, ScalarKind::U8),
            Scalar::I32(_) => matches!(k, ScalarKind::I32),
            Scalar::I64(_) => matches!(k, ScalarKind::I64),
            Scalar::F32Bits(_) => matches!(k, ScalarKind::F32),
            Scalar::F64Bits(_) => matches!(k, ScalarKind::F64),
            Scalar::Bool(_) => matches!(k, ScalarKind::Bool),
        }
    }
}

/// One node of the intermediate value tree: a scalar, a list of scalars,
/// or a nested tree of named entries.
#[derive(Debug, PartialEq, Eq)]
pub enum TreeNode {
    Leaf(Scalar),
    Items(Vec<Scalar>),
    Branch(ValueTree),
}

/// A mapping from field name to tree node, built incrementally by
/// inserting one dotted path at a time. Keys are unique.
#[derive(Debug, PartialEq, Eq)]
pub struct ValueTree {
    pub entries: Vec<(String, TreeNode)>,
}

/// The mathematical content of a tree node: the tree itself becomes a map
/// from field name to node.
#[verifier::ext_equal]
pub enum GTreeNode {
    Leaf(GScalar),
    Items(Seq<GScalar>),
    Branch(Map<Seq<char>, GTreeNode>),
}

/// The map a tree node stands for.
pub open spec fn tn_view(t: TreeNode) -> GTreeNode
    decreases t,
{
    match t {
        TreeNode::Leaf(s) => GTreeNode::Leaf(scalar_view(s)),
        TreeNode::Items(items) => GTreeNode::Items(scalars_view(items@)),
        TreeNode::Branch(vt) => GTreeNode::Branch(vt_view(vt)),
    }
}

/// The map a value tree stands for.
pub open spec fn vt_view(vt: ValueTree) -> Map<Seq<char>, GTreeNode>
    decreases vt,
{
    entries_view(vt.entries@)
}

/// The map an entry list stands for; a later entry for the same key wins.
pub open spec fn entries_view(s: Seq<(String, TreeNode)>) -> Map<Seq<char>, GTreeNode>
    decreases s,
{
    if s.len() == 0 {
        Map::empty()
    } else {
        entries_view(s.drop_last()).insert(s.last().0@, tn_view(s.last().1))
    }
}

/// Keys of an entry list are pairwise distinct.
pub open spec fn distinct_keys(s: Seq<(String, TreeNode)>) -> bool {
    forall|i: int, j: int| 0 <= i < j < s.len() ==> s[i].0@ != s[j].0@
}

/// Well-formedness of a value tree: unique keys at every level.
pub open spec fn wf_vtree(vt: ValueTree) -> bool
    decreases vt,
{
    wf_entries(vt.entries@)
}

/// Well-formedness of one tree node.
pub open spec fn wf_tree_node(t: TreeNode) -> bool
    decreases t,
{
    match t {
        TreeNode::Branch(vt) => wf_vtree(vt),
        _ => true,
    }
}

/// Well-formedness of an entry list.
pub open spec fn wf_entries(s: Seq<(String, TreeNode)>) -> bool
    decreases s,
{
    distinct_keys(s) && (forall|i: int|
        0 <= i < s.len() ==> wf_tree_node(#[trigger] s[i].1))
}

impl ValueTree {
    /// The empty tree.
    pub fn new() -> (r: ValueTree)
        ensures
            vt_view(r) == Map::<Seq<char>, GTreeNode>::empty(),
            wf_vtree(r),
    {
        let r = ValueTree { entries: Vec::new() };
        proof {
            assert(r.entries@.len() == 0);
        }
        r
    }
}

/// Inserting a value at a path into a map: intermediate maps are created
/// on demand, and a non-map value found along the way is overwritten.
pub open spec fn spec_tree_insert(
    m: Map<Seq<char>, GTreeNode>,
    path: Seq<Seq<char>>,
    val: GTreeNode,
) -> Map<Seq<char>, GTreeNode>
    decreases path.len(),
{
    if path.len() == 0 {
        m
    } else if path.len() == 1 {
        m.insert(path[0], val)
    } else {
        let sub = if m.contains_key(path[0]) && (m[path[0]] is Branch) {
            m[path[0]]->Branch_0
        } else {
            Map::empty()
        };
        m.insert(path[0], GTreeNode::Branch(spec_tree_insert(sub, path.drop_first(), val)))
    }
}

/// Find the position of a key among the entries.
fn find_key(entries: &Vec<(String, TreeNode)>, key: &String) -> (r: Option<usize>)
    ensures
        match r {
            Some(p) => p < entries@.len() && entries@[p as int].0@ == key@,
            None => forall|i: int| 0 <= i < entries@.len() ==> entries@[i].0@ != key@,
        },
{
    let mut i: usize = 0;
    while i < entries.len()
        invariant
            i <= entries@.len(),
            forall|j: int| 0 <= j < i ==> entries@[j].0@ != key@,
        decreases entries@.len() - i,
    {
        let e = &entries[i];
        if e.0 == *key {
            return Some(i);
        }
        i += 1;
    }
    None
}

/// A later entry for another key does not disturb a map lookup.
proof fn lemma_entries_view_absent(s: Seq<(String, TreeNode)>, k: Seq<char>)
    requires
        forall|i: int| 0 <= i < s.len() ==> s[i].0@ != k,
    ensures
        !entries_view(s).contains_key(k),
    decreases s.len(),
{
    if s.len() > 0 {
        lemma_entries_view_absent(s.drop_last(), k);
    }
}

/// With distinct keys, the map holds exactly each entry's node.
proof fn lemma_entries_view_index(s: Seq<(String, TreeNode)>, p: int)
    requires
        distinct_keys(s),
        0 <= p < s.len(),
    ensures
        entries_view(s).contains_key(s[p].0@),
        entries_view(s)[s[p].0@] == tn_view(s[p].1),
    decreases s.len(),
{
    if p == s.len() - 1 {
    } else {
        lemma_entries_view_index(s.drop_last(), p);
    }
}

/// With distinct keys, removing an entry removes exactly its key.
proof fn lemma_entries_view_remove(s: Seq<(String, TreeNode)>, p: int)
    requires
        distinct_keys(s),
        0 <= p < s.len(),
    ensures
        entries_view(s.remove(p)) == entries_view(s).remove(s[p].0@),
    decreases s.len(),
{
    if p == s.len() - 1 {
        assert(s.remove(p) =~= s.drop_last());
        lemma_entries_view_absent_of_distinct(s);
        assert(entries_view(s).remove(s[p].0@) =~= entries_view(s.drop_last()));
    } else {
        lemma_entries_view_remove(s.drop_last(), p);
        assert(s.remove(p).drop_last() =~= s.drop_last().remove(p));
        assert(s.remove(p).last() == s.last());
        assert(entries_view(s.remove(p)) =~= entries_view(s.drop_last().remove(p)).insert(
            s.last().0@,
            tn_view(s.last().1),
        ));
        assert(s[p].0@ != s.last().0@);
        assert(entries_view(s).remove(s[p].0@) =~= entries_view(s.drop_last()).remove(
            s[p].0@,
        ).insert(s.last().0@, tn_view(s.last().1)));
    }
}

/// With distinct keys, the last entry's key is absent from the front.
proof fn lemma_entries_view_absent_of_distinct(s: Seq<(String, TreeNode)>)
    requires
        distinct_keys(s),
        s.len() > 0,
    ensures
        !entries_view(s.drop_last()).contains_key(s.last().0@),
{
    assert(forall|i: int|
        0 <= i < s.drop_last().len() ==> s.drop_last()[i].0@ != s.last().0@);
    lemma_entries_view_absent(s.drop_last(), s.last().0@);
}

/// Insert `value` at the path `path[i..]` into `root`, creating
/// intermediate nested trees as needed and overwriting any non-tree node
/// found at an intermediate position.
fn insert_at(root: ValueTree, path: &Vec<String>, i: usize, value: TreeNode) -> (r: ValueTree)
    requires
        wf_vtree(root),
        wf_tree_node(value),
        i < path@.len(),
    ensures
        vt_view(r) == spec_tree_insert(vt_view(root), path.deep_view().skip(i as int), tn_view(value)),
        wf_vtree(r),
    decreases path@.len() - i,
{
    let n = path.len();
    let key = &path[i];
    let pos = find_key(&root.entries, key);
    let mut entries = root.entries;
    let ghost orig = entries@;
    let existing: Option<TreeNode> = match pos {
        Some(p) => {
            let e = entries.remove(p);
            proof {
                lemma_entries_view_remove(orig, p as int);
                lemma_entries_view_index(orig, p as int);
            }
            Some(e.1)
        }
        None => None,
    };
    proof {
        // after removal the key is absent
        if pos is Some {
            assert(distinct_keys(entries@)) by {
                assert(forall|a: int, b: int|
                    0 <= a < b < entries@.len() ==> entries@[a].0@ != entries@[b].0@);
            }
            assert(forall|j: int| 0 <= j < entries@.len() ==> entries@[j].0@ != key@);
        }
        lemma_entries_view_absent(entries@, key@);
    }
    let ghost base = entries_view(entries@);
    if i + 1 == n {
        let ghost pre = entries@;
        entries.push((key.clone(), value));
        proof {
            assert(entries@.drop_last() =~= pre);
            assert(entries_view(entries@) =~= base.insert(key@, tn_view(value)));
            let gpath = path.deep_view().skip(i as int);
            assert(gpath.len() == 1);
            assert(gpath[0] == key@);
            if pos is Some {
                assert(base =~= vt_view(root).remove(key@));
                assert(base.insert(key@, tn_view(value)) =~= vt_view(root).insert(
                    key@,
                    tn_view(value),
                ));
            }
        }
        ValueTree { entries }
    } else {
        let sub: ValueTree = match existing {
            Some(TreeNode::Branch(vt)) => vt,
            _ => ValueTree { entries: Vec::new() },
        };
        proof {
            assert(wf_vtree(sub));
        }
        let sub2 = insert_at(sub, path, i + 1, value);
        let ghost pre = entries@;
        entries.push((key.clone(), TreeNode::Branch(sub2)));
        proof {
            assert(entries@.drop_last() =~= pre);
            assert(entries_view(entries@) =~= base.insert(key@, tn_view(TreeNode::Branch(sub2))));
            let gpath = path.deep_view().skip(i as int);
            assert(gpath.len() == path@.len() - i);
            assert(gpath[0] == key@);
            assert(gpath.drop_first() =~= path.deep_view().skip(i as int + 1));
            let m = vt_view(root);
            let gsub = if m.contains_key(key@) && (m[key@] is Branch) {
                m[key@]->Branch_0
            } else {
                Map::<Seq<char>, GTreeNode>::empty()
            };
            assert(vt_view(sub) == gsub);
            if pos is Some {
                assert(base =~= m.remove(key@));
                assert(base.insert(key@, tn_view(TreeNode::Branch(sub2))) =~= m.insert(
                    key@,
                    tn_view(TreeNode::Branch(sub2)),
                ));
            }
        }
        ValueTree { entries }
    }
}

/// Insert `value` at `path` into `root`: the public entry of the value
/// tree builder.
pub fn set_nested_value(root: ValueTree, path: &Vec<String>, value: TreeNode) -> (r: ValueTree)
    requires
        wf_vtree(root),
        wf_tree_node(value),
    ensures
        vt_view(r) == spec_tree_insert(vt_view(root), path.deep_view(), tn_view(value)),
        wf_vtree(r),
{
    if path.len() == 0 {
        proof {
            assert(path.deep_view().len() == 0);
        }
        root
    } else {
        let r = insert_at(root, path, 0, value);
        proof {
            assert(path.deep_view().skip(0) =~= path.deep_view());
        }
        r
    }
}

/// One structured value: what decoding reconstructs. `Null` is the absent
/// state of an optional field or of a mutually-exclusive group; a `OneOf`
/// value names the one member that is set.
#[derive(Debug, PartialEq, Eq)]
pub enum StructuredValue {
    Scalar(Scalar),
    List(Vec<Scalar>),
    Null,
    Struct(Vec<(String, StructuredValue)>),
    OneOf(String, Box<StructuredValue>),
}

/// The mathematical content of one scalar.
#[verifier::ext_equal]
pub enum GScalar {
    Str(Seq<char>),
    U8(u8),
    I32(i32),
    I64(i64),
    F32Bits(u32),
    F64Bits(u64),
    Bool(bool),
}

/// The mathematical content of one structured value.
#[verifier::ext_equal]
pub enum GVal {
    Scalar(GScalar),
    List(Seq<GScalar>),
    Null,
    Struct(Seq<(Seq<char>, GVal)>),
    OneOf(Seq<char>, Box<GVal>),
}

/// The mathematical content of a scalar.
pub open spec fn scalar_view(s: Scalar) -> GScalar {
    match s {
        Scalar::Str(x) => GScalar::Str(x@),
        Scalar::U8(x) => GScalar::U8(x),
        Scalar::I32(x) => GScalar::I32(x),
        Scalar::I64(x) => GScalar::I64(x),
        Scalar::F32Bits(x) => GScalar::F32Bits(x),
        Scalar::F64Bits(x) => GScalar::F64Bits(x),
        Scalar::Bool(x) => GScalar::Bool(x),
    }
}

/// The mathematical content of a list of scalars.
pub open spec fn scalars_view(items: Seq<Scalar>) -> Seq<GScalar> {
    Seq::new(items.len(), |i: int| scalar_view(items[i]))
}

/// The mathematical content of a structured value.
pub open spec fn val_view(v: StructuredValue) -> GVal
    decreases v,
{
    match v {
        StructuredValue::Scalar(s) => GVal::Scalar(scalar_view(s)),
        StructuredValue::List(items) => GVal::List(scalars_view(items@)),
        StructuredValue::Null => GVal::Null,
        StructuredValue::Struct(fields) => GVal::Struct(fields_vals_view(fields@)),
        StructuredValue::OneOf(member, inner) => GVal::OneOf(member@, Box::new(val_view(*inner))),
    }
}

/// The mathematical content of a list of named values.
pub open spec fn fields_vals_view(s: Seq<(String, StructuredValue)>) -> Seq<(Seq<char>, GVal)>
    decreases s,
{
    if s.len() == 0 {
        Seq::empty()
    } else {
        fields_vals_view(s.drop_last()).push((s.last().0@, val_view(s.last().1)))
    }
}

/// Whether a ghost scalar has the given kind.
pub open spec fn spec_gscalar_fits(s: GScalar, k: ScalarKind) -> bool {
    match s {
        GScalar::Str(_) => k is Str,
        GScalar::U8(_) => k is U8,
        GScalar::I32(_) => k is I32,
        GScalar::I64(_) => k is I64,
        GScalar::F32Bits(_) => k is F32,
        GScalar::F64Bits(_) => k is F64,
        GScalar::Bool(_) => k is Bool,
    }
}

/// Whether every ghost scalar of a list has the given kind.
pub open spec fn spec_gscalars_fit(items: Seq<GScalar>, k: ScalarKind) -> bool {
    forall|i: int| 0 <= i < items.len() ==> spec_gscalar_fits(#[trigger] items[i], k)
}

/// The zero value of a scalar kind: the empty string, zero, false, or the
/// all-zero bit pattern.
pub open spec fn spec_zero_scalar(k: ScalarKind) -> GScalar {
    match k {
        ScalarKind::Str => GScalar::Str(Seq::empty()),
        ScalarKind::U8 => GScalar::U8(0u8),
        ScalarKind::I32 => GScalar::I32(0i32),
        ScalarKind::I64 => GScalar::I64(0i64),
        ScalarKind::F32 => GScalar::F32Bits(0u32),
        ScalarKind::F64 => GScalar::F64Bits(0u64),
        ScalarKind::Bool => GScalar::Bool(false),
    }
}

/// The zero value of a schema node: what a field decodes to when no leaf
/// of it was supplied. An optional field, a mutually-exclusive group, and
/// an unrepresentable field default to `Null`; a list defaults to the
/// empty list; a struct defaults to the struct of its fields' zeros.
pub open spec fn spec_zero(n: TCFieldType) -> GVal
    decreases n,
{
    match n {
        TCFieldType::Primitive { field_type, .. } => match field_type {
            TCFieldTypePrimitive::List(_) => GVal::List(Seq::empty()),
            _ => GVal::Scalar(spec_zero_scalar(crate::visit::spec_flat_kind(field_type))),
        },
        TCFieldType::Option(_) => GVal::Null,
        TCFieldType::Struct { fields, .. } => GVal::Struct(spec_zero_fields(fields@)),
        TCFieldType::OneOf { .. } => GVal::Null,
        TCFieldType::Unknown(_) => GVal::Null,
    }
}

/// The zero values of a list of fields, in order.
pub open spec fn spec_zero_fields(fs: Seq<crate::visit::TCStructField>) -> Seq<(Seq<char>, GVal)>
    decreases fs,
{
    if fs.len() == 0 {
        Seq::empty()
    } else {
        spec_zero_fields(fs.drop_last()).push(
            (fs.last().field_name@, spec_zero(fs.last().field_type)),
        )
    }
}

/// Why decoding failed: either more than one member of a
/// mutually-exclusive group was supplied (the group is named), or the
/// supplied document did not fit the schema structurally (the message
/// describes the cause).
#[derive(Debug, PartialEq, Eq)]
pub enum DecodeError {
    ArgumentConflict { group: String },
    ValueValidation { message: String },
}

/// The mathematical outcome of a conversion: a value, a conflict on a
/// named group, or a structural mismatch.
#[verifier::ext_equal]
pub enum CResult {
    Converted(GVal),
    Conflict(Seq<char>),
    Invalid,
}

/// A key is in the map exactly when some entry carries it.
pub proof fn lemma_entries_view_contains(s: Seq<(String, TreeNode)>, k: Seq<char>)
    ensures
        entries_view(s).contains_key(k) <==> (exists|i: int|
            0 <= i < s.len() && #[trigger] s[i].0@ == k),
    decreases s.len(),
{
    if s.len() > 0 {
        lemma_entries_view_contains(s.drop_last(), k);
        if entries_view(s).contains_key(k) {
            if k == s.last().0@ {
                assert(s[s.len() - 1].0@ == k);
            } else {
                let i = choose|i: int|
                    0 <= i < s.drop_last().len() && #[trigger] s.drop_last()[i].0@ == k;
                assert(s[i].0@ == k);
            }
        }
        if exists|i: int| 0 <= i < s.len() && #[trigger] s[i].0@ == k {
            let i = choose|i: int| 0 <= i < s.len() && #[trigger] s[i].0@ == k;
            if i < s.len() - 1 {
                assert(s.drop_last()[i].0@ == k);
            }
        }
    }
}

/// The facts an entry position gives about the map, exported for callers.
pub proof fn lemma_vtree_entry(vt: ValueTree, p: int)
    requires
        wf_vtree(vt),
        0 <= p < vt.entries@.len(),
    ensures
        vt_view(vt).contains_key(vt.entries@[p].0@),
        vt_view(vt)[vt.entries@[p].0@] == tn_view(vt.entries@[p].1),
        wf_tree_node(vt.entries@[p].1),
    decreases vt.entries@.len(),
{
    lemma_entries_view_index(vt.entries@, p);
}

impl ValueTree {
    /// How many entries the tree holds at its top level.
    pub fn len(&self) -> (r: usize)
        ensures
            r == self.entries@.len(),
    {
        self.entries.len()
    }

    /// The node under `key`, if the tree has one.
    pub fn get(&self, key: &String) -> (r: Option<&TreeNode>)
        requires
            wf_vtree(*self),
        ensures
            match r {
                Option::Some(t) => {
                    &&& vt_view(*self).contains_key(key@)
                    &&& vt_view(*self)[key@] == tn_view(*t)
                    &&& wf_tree_node(*t)
                },
                Option::None => !vt_view(*self).contains_key(key@),
            },
    {
        let pos = find_key(&self.entries, key);
        match pos {
            Option::Some(p) => {
                proof {
                    lemma_entries_view_index(self.entries@, p as int);
                }
                Some(&self.entries[p].1)
            }
            Option::None => {
                proof {
                    lemma_entries_view_absent(self.entries@, key@);
                }
                None
            }
        }
    }
}

} // verus!
