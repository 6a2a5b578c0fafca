//! Re-encoding a structured value as a dotted-path leaf map, and the laws
//! tying the compiler, the encoder and the decoder together.

use vstd::prelude::*;

use crate::clap::spec_build_tree;
use crate::clap::spec_convert;
use crate::clap::spec_decode;
use crate::clap::spec_extract;
use crate::clap::spec_lm_get;
use crate::value::spec_tree_insert;
use crate::value::spec_zero;
use crate::value::spec_zero_fields;
use crate::clap::spec_convert_fields;
use crate::clap::spec_convert_oneof;
use crate::clap::spec_dotted;
use crate::clap::spec_find_member;
use crate::clap::GLeafValue;
use crate::value::spec_gscalar_fits;
use crate::value::spec_gscalars_fit;
use crate::value::CResult;
use crate::value::GScalar;
use crate::value::GTreeNode;
use crate::value::GVal;
use crate::visit::spec_flat_kind;
use crate::visit::spec_kind_emits;
use crate::visit::TCFieldType;
use crate::visit::TCStructField;

verus! {

/// How many leaf arguments a node contributes when it stands at a named
/// field position.
pub open spec fn spec_leaf_count(n: TCFieldType) -> nat
    decreases n,
{
    match n {
        TCFieldType::Primitive { field_type, .. } => if spec_kind_emits(field_type) {
            1nat
        } else {
            0nat
        },
        TCFieldType::Option(inner) => spec_leaf_count(*inner),
        TCFieldType::Struct { fields, .. } => spec_fields_leaf_count(fields@),
        TCFieldType::OneOf { members, .. } => spec_fields_leaf_count(members@),
        TCFieldType::Unknown(_) => 0nat,
    }
}

/// How many leaf arguments a list of fields contributes.
pub open spec fn spec_fields_leaf_count(fs: Seq<TCStructField>) -> nat
    decreases fs,
{
    if fs.len() == 0 {
        0nat
    } else {
        spec_leaf_count(fs[0].field_type) + spec_fields_leaf_count(fs.drop_first())
    }
}

/// A usable field name: nonempty and free of the dot that joins path
/// segments into flag names.
pub open spec fn spec_wf_name(s: Seq<char>) -> bool {
    s.len() > 0 && (forall|i: int| 0 <= i < s.len() ==> s[i] != '.')
}

/// A well-formed schema: field names are usable and distinct among
/// siblings, an `Option` never wraps another `Option` and always wraps
/// something that exposes at least one leaf, and every member of a
/// mutually-exclusive group exposes at least one leaf.
pub open spec fn spec_wf_schema(n: TCFieldType) -> bool
    decreases n,
{
    match n {
        TCFieldType::Primitive { .. } => true,
        TCFieldType::Option(inner) => {
            &&& !((*inner) is Option)
            &&& spec_leaf_count(*inner) > 0
            &&& spec_wf_schema(*inner)
        },
        TCFieldType::Struct { fields, .. } => spec_wf_fields(fields@),
        TCFieldType::OneOf { members, .. } => {
            &&& spec_wf_fields(members@)
            &&& forall|i: int|
                0 <= i < members@.len() ==> spec_leaf_count(
                    #[trigger] members@[i].field_type,
                ) > 0
        },
        TCFieldType::Unknown(_) => true,
    }
}

/// Well-formedness of a list of sibling fields.
pub open spec fn spec_wf_fields(fs: Seq<TCStructField>) -> bool
    decreases fs,
{
    &&& forall|i: int, j: int|
        0 <= i < j < fs.len() ==> fs[i].field_name@ != fs[j].field_name@
    &&& forall|i: int| 0 <= i < fs.len() ==> spec_wf_name(#[trigger] fs[i].field_name@)
    &&& forall|i: int| 0 <= i < fs.len() ==> spec_wf_schema(#[trigger] fs[i].field_type)
}

/// A fully-populated value of a schema's type: every optional is present,
/// exactly one member of every group is set, every scalar has its field's
/// kind, and every unrepresentable position holds its default.
pub open spec fn spec_populated(n: TCFieldType, v: GVal) -> bool
    decreases n,
{
    match n {
        TCFieldType::Primitive { field_type, .. } => {
            if field_type is List {
                if spec_kind_emits(field_type) {
                    match v {
                        GVal::List(items) => spec_gscalars_fit(items, spec_flat_kind(field_type)),
                        _ => false,
                    }
                } else {
                    v == GVal::List(Seq::<GScalar>::empty())
                }
            } else {
                match v {
                    GVal::Scalar(s) => spec_gscalar_fits(s, spec_flat_kind(field_type)),
                    _ => false,
                }
            }
        }
        TCFieldType::Option(inner) => spec_populated(*inner, v),
        TCFieldType::Struct { fields, .. } => match v {
            GVal::Struct(vals) => spec_populated_fields(fields@, vals),
            _ => false,
        },
        TCFieldType::OneOf { members, .. } => match v {
            GVal::OneOf(k, inner) => {
                let j = spec_find_member(members@, k);
                &&& 0 <= j < members@.len()
                &&& spec_populated(members@[j].field_type, *inner)
            }
            _ => false,
        },
        TCFieldType::Unknown(_) => v == GVal::Null,
    }
}

/// Fully-populated values for a list of fields, in order and by name.
pub open spec fn spec_populated_fields(fs: Seq<TCStructField>, vals: Seq<(Seq<char>, GVal)>) -> bool
    decreases fs,
{
    &&& vals.len() == fs.len()
    &&& forall|i: int|
        0 <= i < fs.len() ==> (#[trigger] vals[i]).0 == fs[i].field_name@
    &&& forall|i: int|
        0 <= i < fs.len() ==> spec_populated(fs[i].field_type, (#[trigger] vals[i]).1)
}

/// The value tree that inserting a populated value's leaves builds at the
/// value's own position: `None` when the position contributes no leaf.
pub open spec fn spec_tree_of(n: TCFieldType, v: GVal) -> Option<GTreeNode>
    decreases n,
{
    match n {
        TCFieldType::Primitive { field_type, .. } => {
            if !spec_kind_emits(field_type) {
                Option::None
            } else if field_type is List {
                match v {
                    GVal::List(items) => Option::Some(GTreeNode::Items(items)),
                    _ => Option::None,
                }
            } else {
                match v {
                    GVal::Scalar(s) => Option::Some(GTreeNode::Leaf(s)),
                    _ => Option::None,
                }
            }
        }
        TCFieldType::Option(inner) => spec_tree_of(*inner, v),
        TCFieldType::Struct { fields, .. } => match v {
            GVal::Struct(vals) => {
                let m = spec_tree_of_fields(fields@, vals);
                if m =~= Map::<Seq<char>, GTreeNode>::empty() {
                    Option::None
                } else {
                    Option::Some(GTreeNode::Branch(m))
                }
            }
            _ => Option::None,
        },
        TCFieldType::OneOf { members, .. } => match v {
            GVal::OneOf(k, inner) => {
                let j = spec_find_member(members@, k);
                if 0 <= j < members@.len() {
                    match spec_tree_of(members@[j].field_type, *inner) {
                        Option::Some(sub) => Option::Some(
                            GTreeNode::Branch(Map::<Seq<char>, GTreeNode>::empty().insert(k, sub)),
                        ),
                        Option::None => Option::None,
                    }
                } else {
                    Option::None
                }
            }
            _ => Option::None,
        },
        TCFieldType::Unknown(_) => Option::None,
    }
}

/// The map of subtree contributions of a list of fields.
pub open spec fn spec_tree_of_fields(
    fs: Seq<TCStructField>,
    vals: Seq<(Seq<char>, GVal)>,
) -> Map<Seq<char>, GTreeNode>
    decreases fs,
{
    if fs.len() == 0 || vals.len() == 0 {
        Map::empty()
    } else {
        let rest = spec_tree_of_fields(fs.drop_first(), vals.drop_first());
        match spec_tree_of(fs[0].field_type, vals[0].1) {
            Option::Some(t) => rest.insert(fs[0].field_name@, t),
            Option::None => rest,
        }
    }
}

/// What the field-contribution map holds for each field, under distinct
/// sibling names.
proof fn lemma_tree_of_fields_at(fs: Seq<TCStructField>, vals: Seq<(Seq<char>, GVal)>, i: int)
    requires
        vals.len() == fs.len(),
        forall|a: int, b: int| 0 <= a < b < fs.len() ==> fs[a].field_name@ != fs[b].field_name@,
        0 <= i < fs.len(),
    ensures
        match spec_tree_of(fs[i].field_type, vals[i].1) {
            Option::Some(t) => {
                &&& spec_tree_of_fields(fs, vals).contains_key(fs[i].field_name@)
                &&& spec_tree_of_fields(fs, vals)[fs[i].field_name@] == t
            },
            Option::None => !spec_tree_of_fields(fs, vals).contains_key(fs[i].field_name@),
        },
    decreases fs.len(),
{
    if i == 0 {
        lemma_tree_of_fields_keys(fs.drop_first(), vals.drop_first());
        assert(forall|j: int|
            0 <= j < fs.drop_first().len() ==> fs.drop_first()[j].field_name@ == fs[
                j + 1
            ].field_name@);
    } else {
        lemma_tree_of_fields_at(fs.drop_first(), vals.drop_first(), i - 1);
        assert(fs.drop_first()[i - 1] == fs[i]);
        assert(vals.drop_first()[i - 1] == vals[i]);
        assert(fs[0].field_name@ != fs[i].field_name@);
    }
}

/// Every key of the field-contribution map is some field's name.
proof fn lemma_tree_of_fields_keys(fs: Seq<TCStructField>, vals: Seq<(Seq<char>, GVal)>)
    ensures
        forall|k: Seq<char>|
            spec_tree_of_fields(fs, vals).contains_key(k) ==> (exists|i: int|
                0 <= i < fs.len() && #[trigger] fs[i].field_name@ == k),
    decreases fs.len(),
{
    if fs.len() > 0 && vals.len() > 0 {
        lemma_tree_of_fields_keys(fs.drop_first(), vals.drop_first());
        assert forall|k: Seq<char>| spec_tree_of_fields(fs, vals).contains_key(k) implies (exists|
            i: int,
        |
            0 <= i < fs.len() && #[trigger] fs[i].field_name@ == k) by {
            if k != fs[0].field_name@ {
                if spec_tree_of_fields(fs.drop_first(), vals.drop_first()).contains_key(k) {
                    let i = choose|i: int|
                        0 <= i < fs.drop_first().len() && #[trigger] fs.drop_first()[
                            i
                        ].field_name@ == k;
                    assert(fs[i + 1].field_name@ == k);
                }
            } else {
                assert(fs[0].field_name@ == k);
            }
        }
    }
}

/// A populated position with at least one leaf always contributes.
proof fn lemma_contributes(n: TCFieldType, v: GVal)
    requires
        spec_wf_schema(n),
        spec_populated(n, v),
        spec_leaf_count(n) > 0,
    ensures
        spec_tree_of(n, v) is Some,
    decreases n,
{
    match n {
        TCFieldType::Primitive { .. } => {}
        TCFieldType::Option(inner) => {
            lemma_contributes(*inner, v);
        }
        TCFieldType::Struct { fields, .. } => {
            let vals = v->Struct_0;
            assert(spec_wf_fields(fields@));
            assert(spec_populated_fields(fields@, vals));
            let i = lemma_some_field_counts(fields@);
            assert(spec_wf_schema(fields@[i].field_type));
            assert(spec_populated(fields@[i].field_type, vals[i].1));
            lemma_contributes(fields@[i].field_type, vals[i].1);
            lemma_tree_of_fields_at(fields@, vals, i);
        }
        TCFieldType::OneOf { members, .. } => {
            let k = v->OneOf_0;
            let inner = v->OneOf_1;
            let j = spec_find_member(members@, k);
            assert(spec_wf_fields(members@));
            assert(spec_wf_schema(members@[j].field_type));
            assert(spec_leaf_count(members@[j].field_type) > 0);
            assert(spec_populated(members@[j].field_type, *inner));
            lemma_contributes(members@[j].field_type, *inner);
        }
        TCFieldType::Unknown(_) => {}
    }
}

/// A field list with a positive leaf count has a field with one.
proof fn lemma_some_field_counts(fs: Seq<TCStructField>) -> (i: int)
    requires
        spec_fields_leaf_count(fs) > 0,
    ensures
        0 <= i < fs.len(),
        spec_leaf_count(fs[i].field_type) > 0,
    decreases fs.len(),
{
    if spec_leaf_count(fs[0].field_type) > 0 {
        0
    } else {
        let r = lemma_some_field_counts(fs.drop_first());
        assert(fs.drop_first()[r] == fs[r + 1]);
        r + 1
    }
}

/// A populated position that contributes no tree converts, from absence,
/// back to exactly its populated value.
proof fn lemma_convert_none(n: TCFieldType, v: GVal)
    requires
        spec_wf_schema(n),
        spec_populated(n, v),
        spec_tree_of(n, v) is None,
    ensures
        spec_convert(n, Option::None) == CResult::Converted(v),
    decreases n,
{
    match n {
        TCFieldType::Primitive { .. } => {}
        TCFieldType::Option(inner) => {
            lemma_contributes(*inner, v);
            assert(false);
        }
        TCFieldType::Struct { fields, .. } => {
            let vals = v->Struct_0;
            assert(spec_wf_fields(fields@));
            assert(spec_populated_fields(fields@, vals));
            lemma_convert_fields_none(fields@, vals);
        }
        TCFieldType::OneOf { members, .. } => {
            let k = v->OneOf_0;
            let inner = v->OneOf_1;
            let j = spec_find_member(members@, k);
            assert(0 <= j < members@.len());
            assert(spec_wf_fields(members@));
            assert(forall|i: int|
                0 <= i < members@.len() ==> spec_wf_schema(#[trigger] members@[i].field_type));
            assert(spec_wf_schema(members@[j].field_type));
            assert(spec_populated(members@[j].field_type, *inner));
            assert(spec_leaf_count(members@[j].field_type) > 0);
            lemma_contributes(members@[j].field_type, *inner);
            assert(false);
        }
        TCFieldType::Unknown(_) => {}
    }
}

/// Converting a populated, non-contributing field list from the empty map
/// rebuilds its values.
proof fn lemma_convert_fields_none(fs: Seq<TCStructField>, vals: Seq<(Seq<char>, GVal)>)
    requires
        spec_wf_fields(fs),
        spec_populated_fields(fs, vals),
        spec_tree_of_fields(fs, vals) =~= Map::<Seq<char>, GTreeNode>::empty(),
    ensures
        spec_convert_fields(fs, Map::<Seq<char>, GTreeNode>::empty()) == CResult::Converted(
            GVal::Struct(vals),
        ),
    decreases fs,
{
    if fs.len() == 0 {
        assert(vals =~= Seq::<(Seq<char>, GVal)>::empty());
    } else {
        lemma_tree_of_fields_at(fs, vals, 0);
        assert(spec_tree_of(fs[0].field_type, vals[0].1) is None);
        lemma_convert_none(fs[0].field_type, vals[0].1);
        assert(forall|a: int, b: int|
            0 <= a < b < fs.drop_first().len() ==> fs.drop_first()[a].field_name@ != fs.drop_first(
            )[b].field_name@);
        assert(forall|i: int|
            0 <= i < fs.drop_first().len() ==> spec_wf_name(
                #[trigger] fs.drop_first()[i].field_name@,
            ));
        assert(forall|i: int|
            0 <= i < fs.drop_first().len() ==> spec_wf_schema(
                #[trigger] fs.drop_first()[i].field_type,
            ));
        assert(forall|i: int|
            0 <= i < fs.drop_first().len() ==> (#[trigger] vals.drop_first()[i]).0
                == fs.drop_first()[i].field_name@);
        assert(forall|i: int|
            0 <= i < fs.drop_first().len() ==> spec_populated(
                fs.drop_first()[i].field_type,
                (#[trigger] vals.drop_first()[i]).1,
            ));
        assert forall|k: Seq<char>| !spec_tree_of_fields(
            fs.drop_first(),
            vals.drop_first(),
        ).contains_key(k) by {
            if spec_tree_of_fields(fs.drop_first(), vals.drop_first()).contains_key(k) {
                assert(spec_tree_of_fields(fs, vals).contains_key(k));
            }
        }
        lemma_convert_fields_none(fs.drop_first(), vals.drop_first());
        assert(seq![(fs[0].field_name@, vals[0].1)] + vals.drop_first() =~= vals);
    }
}

/// Converting the tree a populated value flattens to rebuilds exactly that
/// value: the conversion half of the round trip, for every well-formed
/// schema.
pub proof fn lemma_convert_tree_of(n: TCFieldType, v: GVal)
    requires
        spec_wf_schema(n),
        spec_populated(n, v),
    ensures
        spec_convert(n, spec_tree_of(n, v)) == CResult::Converted(v),
    decreases n,
{
    match n {
        TCFieldType::Primitive { .. } => {}
        TCFieldType::Option(inner) => {
            lemma_contributes(*inner, v);
            lemma_convert_tree_of(*inner, v);
        }
        TCFieldType::Struct { fields, .. } => {
            let vals = v->Struct_0;
            assert(spec_wf_fields(fields@));
            assert(spec_populated_fields(fields@, vals));
            let m = spec_tree_of_fields(fields@, vals);
            if m =~= Map::<Seq<char>, GTreeNode>::empty() {
                lemma_convert_fields_none(fields@, vals);
            } else {
                assert forall|i: int| 0 <= i < fields@.len() implies match spec_tree_of(
                    fields@[i].field_type,
                    (#[trigger] vals[i]).1,
                ) {
                    Option::Some(t) => m.contains_key(fields@[i].field_name@) && m[fields@[
                        i
                    ].field_name@] == t,
                    Option::None => !m.contains_key(fields@[i].field_name@),
                } by {
                    lemma_tree_of_fields_at(fields@, vals, i);
                }
                lemma_convert_fields_tree(fields@, vals, m);
            }
        }
        TCFieldType::OneOf { members, .. } => {
            let k = v->OneOf_0;
            let inner = v->OneOf_1;
            let j = spec_find_member(members@, k);
            assert(spec_wf_fields(members@));
            assert(spec_wf_schema(members@[j].field_type));
            assert(spec_leaf_count(members@[j].field_type) > 0);
            assert(spec_populated(members@[j].field_type, *inner));
            lemma_contributes(members@[j].field_type, *inner);
            lemma_convert_tree_of(members@[j].field_type, *inner);
            let sub = spec_tree_of(members@[j].field_type, *inner)->Some_0;
            let m = Map::<Seq<char>, GTreeNode>::empty().insert(k, sub);
            assert(m.dom() =~= Set::<Seq<char>>::empty().insert(k));
            assert forall|k1: Seq<char>, k2: Seq<char>|
                m.dom().contains(k1) && m.dom().contains(k2) implies k1 == k2 by {}
            assert(m.dom().contains(k));
            assert(!(m.dom() =~= Set::<Seq<char>>::empty()));
            assert(m.dom().contains(m.dom().choose()));
            assert(m.dom().choose() == k);
            assert(spec_convert_oneof(n->OneOf_name@, members@, m) == CResult::Converted(
                GVal::OneOf(k, Box::new(*inner)),
            ));
            assert(GVal::OneOf(k, Box::new(*inner)) == v);
        }
        TCFieldType::Unknown(_) => {}
    }
}

/// Converting a populated field list from its contribution map rebuilds
/// its values. The map `whole` stays the full sibling map while the
/// induction walks the tail.
proof fn lemma_convert_fields_tree(
    fs: Seq<TCStructField>,
    vals: Seq<(Seq<char>, GVal)>,
    whole: Map<Seq<char>, GTreeNode>,
)
    requires
        spec_wf_fields(fs),
        spec_populated_fields(fs, vals),
        forall|i: int|
            0 <= i < fs.len() ==> match spec_tree_of(fs[i].field_type, (#[trigger] vals[i]).1) {
                Option::Some(t) => whole.contains_key(fs[i].field_name@) && whole[fs[
                    i
                ].field_name@] == t,
                Option::None => !whole.contains_key(fs[i].field_name@),
            },
    ensures
        spec_convert_fields(fs, whole) == CResult::Converted(GVal::Struct(vals)),
    decreases fs,
{
    if fs.len() == 0 {
        assert(vals =~= Seq::<(Seq<char>, GVal)>::empty());
    } else {
        assert(vals[0].0 == fs[0].field_name@);
        match spec_tree_of(fs[0].field_type, vals[0].1) {
            Option::Some(t) => {
                lemma_convert_tree_of(fs[0].field_type, vals[0].1);
            }
            Option::None => {
                lemma_convert_none(fs[0].field_type, vals[0].1);
            }
        }
        assert(forall|a: int, b: int|
            0 <= a < b < fs.drop_first().len() ==> fs.drop_first()[a].field_name@ != fs.drop_first(
            )[b].field_name@);
        assert(forall|i: int|
            0 <= i < fs.drop_first().len() ==> spec_wf_name(
                #[trigger] fs.drop_first()[i].field_name@,
            ));
        assert(forall|i: int|
            0 <= i < fs.drop_first().len() ==> spec_wf_schema(
                #[trigger] fs.drop_first()[i].field_type,
            ));
        assert(forall|i: int|
            0 <= i < fs.drop_first().len() ==> (#[trigger] vals.drop_first()[i]).0
                == fs.drop_first()[i].field_name@);
        assert(forall|i: int|
            0 <= i < fs.drop_first().len() ==> spec_populated(
                fs.drop_first()[i].field_type,
                (#[trigger] vals.drop_first()[i]).1,
            ));
        assert forall|i: int| 0 <= i < fs.drop_first().len() implies match spec_tree_of(
            fs.drop_first()[i].field_type,
            (#[trigger] vals.drop_first()[i]).1,
        ) {
            Option::Some(t) => whole.contains_key(fs.drop_first()[i].field_name@) && whole[
                fs.drop_first()[i].field_name@
            ] == t,
            Option::None => !whole.contains_key(fs.drop_first()[i].field_name@),
        } by {
            assert(fs.drop_first()[i] == fs[i + 1]);
            assert(vals.drop_first()[i] == vals[i + 1]);
        }
        lemma_convert_fields_tree(fs.drop_first(), vals.drop_first(), whole);
        assert(seq![(fs[0].field_name@, vals[0].1)] + vals.drop_first() =~= vals);
    }
}

/// One field's flag entry in a re-encoded leaf map: the typed value of
/// the field's single leaf, or nothing when the field exposes no leaf.
pub open spec fn spec_flat_entry(n: TCFieldType, v: GVal) -> Option<GLeafValue>
    decreases n,
{
    match n {
        TCFieldType::Primitive { field_type, .. } => {
            if !spec_kind_emits(field_type) {
                Option::None
            } else if field_type is List {
                match v {
                    GVal::List(items) => Option::Some(GLeafValue::Repeated(items)),
                    _ => Option::None,
                }
            } else {
                match v {
                    GVal::Scalar(s) => Option::Some(GLeafValue::Single(s)),
                    _ => Option::None,
                }
            }
        }
        TCFieldType::Option(inner) => spec_flat_entry(*inner, v),
        _ => Option::None,
    }
}

/// A field whose type, once `Option` wrappers are stripped, is a
/// primitive or an unrepresentable leaf: it nests no further.
pub open spec fn spec_flat_field(n: TCFieldType) -> bool
    decreases n,
{
    match n {
        TCFieldType::Primitive { .. } => true,
        TCFieldType::Option(inner) => spec_flat_field(*inner),
        TCFieldType::Unknown(_) => true,
        _ => false,
    }
}

/// A single-level schema: a struct of fields that nest no further.
pub open spec fn spec_flat_schema(n: TCFieldType) -> bool {
    match n {
        TCFieldType::Struct { fields, .. } => forall|i: int|
            0 <= i < fields@.len() ==> spec_flat_field(#[trigger] fields@[i].field_type),
        _ => false,
    }
}

/// Re-encoding a structured value as a dotted-path leaf map, one entry
/// per leaf the value populates: the inverse direction of decoding.
pub open spec fn spec_encode(n: TCFieldType, v: GVal) -> Seq<(Seq<char>, GLeafValue)> {
    match n {
        TCFieldType::Struct { fields, .. } => match v {
            GVal::Struct(vals) => spec_encode_fields(fields@, vals, Seq::empty()),
            _ => Seq::empty(),
        },
        _ => Seq::empty(),
    }
}

/// The re-encoded entries of a field list standing at `prefix`, in order.
pub open spec fn spec_encode_fields(
    fs: Seq<TCStructField>,
    vals: Seq<(Seq<char>, GVal)>,
    prefix: Seq<Seq<char>>,
) -> Seq<(Seq<char>, GLeafValue)>
    decreases fs,
{
    if fs.len() == 0 || vals.len() == 0 {
        Seq::empty()
    } else {
        spec_encode_field(fs[0].field_type, fs[0].field_name@, vals[0].1, prefix)
            + spec_encode_fields(fs.drop_first(), vals.drop_first(), prefix)
    }
}

/// The entries one field contributes, mirroring the leaves the compiler
/// emits for it: a populated primitive becomes one entry under its dotted
/// name, wrappers are unwrapped, a nested message recurses into its
/// fields, and a group re-encodes only its one set member.
pub open spec fn spec_encode_field(
    n: TCFieldType,
    fname: Seq<char>,
    v: GVal,
    prefix: Seq<Seq<char>>,
) -> Seq<(Seq<char>, GLeafValue)>
    decreases n,
{
    match n {
        TCFieldType::Primitive { field_type, .. } => {
            if !spec_kind_emits(field_type) {
                Seq::empty()
            } else if field_type is List {
                match v {
                    GVal::List(items) => seq![
                        (spec_dotted(prefix.push(fname)), GLeafValue::Repeated(items)),
                    ],
                    _ => Seq::empty(),
                }
            } else {
                match v {
                    GVal::Scalar(sc) => seq![
                        (spec_dotted(prefix.push(fname)), GLeafValue::Single(sc)),
                    ],
                    _ => Seq::empty(),
                }
            }
        }
        TCFieldType::Option(inner) => spec_encode_field(*inner, fname, v, prefix),
        TCFieldType::Struct { fields, .. } => match v {
            GVal::Struct(vals) => spec_encode_fields(fields@, vals, prefix.push(fname)),
            _ => Seq::empty(),
        },
        TCFieldType::OneOf { members, .. } => match v {
            GVal::OneOf(k, inner) => {
                let j = spec_find_member(members@, k);
                if 0 <= j < members@.len() {
                    spec_encode_field(members@[j].field_type, k, *inner, prefix.push(fname))
                } else {
                    Seq::empty()
                }
            }
            _ => Seq::empty(),
        },
        TCFieldType::Unknown(_) => Seq::empty(),
    }
}

/// At a field that nests no further, the re-encoded entries are the
/// field's single flag entry, if the value populates one.
proof fn lemma_flat_encode_field(
    n: TCFieldType,
    fname: Seq<char>,
    v: GVal,
    prefix: Seq<Seq<char>>,
)
    requires
        spec_flat_field(n),
    ensures
        spec_encode_field(n, fname, v, prefix) =~= (match spec_flat_entry(n, v) {
            Option::Some(lv) => seq![(spec_dotted(prefix.push(fname)), lv)],
            Option::None => Seq::empty(),
        }),
    decreases n,
{
    match n {
        TCFieldType::Option(inner) => {
            lemma_flat_encode_field(*inner, fname, v, prefix);
        }
        _ => {}
    }
}

/// First-match lookup distributes over concatenation.
proof fn lemma_lm_get_append(a: Seq<(Seq<char>, GLeafValue)>, b: Seq<(Seq<char>, GLeafValue)>, k: Seq<char>)
    ensures
        spec_lm_get(a + b, k) == (match spec_lm_get(a, k) {
            Option::Some(v) => Option::Some(v),
            Option::None => spec_lm_get(b, k),
        }),
    decreases a.len(),
{
    if a.len() == 0 {
        assert(a + b =~= b);
    } else {
        assert((a + b)[0] == a[0]);
        if a[0].0 != k {
            assert((a + b).drop_first() =~= a.drop_first() + b);
            lemma_lm_get_append(a.drop_first(), b, k);
        }
    }
}

/// Every key of a re-encoded single-level field list is a field name.
proof fn lemma_encode_fields_keys(fs: Seq<TCStructField>, vals: Seq<(Seq<char>, GVal)>, k: Seq<char>)
    requires
        forall|a: int| 0 <= a < fs.len() ==> spec_flat_field(#[trigger] fs[a].field_type),
        spec_lm_get(spec_encode_fields(fs, vals, Seq::empty()), k) is Some,
    ensures
        exists|i: int| 0 <= i < fs.len() && #[trigger] fs[i].field_name@ == k,
    decreases fs.len(),
{
    if fs.len() > 0 && vals.len() > 0 {
        let rest = spec_encode_fields(fs.drop_first(), vals.drop_first(), Seq::empty());
        lemma_flat_encode_field(fs[0].field_type, fs[0].field_name@, vals[0].1, Seq::empty());
        assert(Seq::<Seq<char>>::empty().push(fs[0].field_name@) =~= seq![fs[0].field_name@]);
        assert(spec_dotted(seq![fs[0].field_name@]) == fs[0].field_name@);
        assert(forall|a: int|
            0 <= a < fs.drop_first().len() ==> spec_flat_field(
                #[trigger] fs.drop_first()[a].field_type,
            ));
        match spec_flat_entry(fs[0].field_type, vals[0].1) {
            Option::Some(lv) => {
                let one = seq![(fs[0].field_name@, lv)];
                assert(spec_encode_field(fs[0].field_type, fs[0].field_name@, vals[0].1, Seq::empty())
                    =~= one);
                lemma_lm_get_append(one, rest, k);
                if k == fs[0].field_name@ {
                    assert(fs[0].field_name@ == k);
                } else {
                    assert(one[0].0 != k);
                    assert(one.drop_first() =~= Seq::<(Seq<char>, GLeafValue)>::empty());
                    assert(spec_lm_get(one.drop_first(), k) is None);
                    assert(spec_lm_get(one, k) is None);
                    assert(spec_lm_get(rest, k) is Some);
                    lemma_encode_fields_keys(fs.drop_first(), vals.drop_first(), k);
                    let i = choose|i: int|
                        0 <= i < fs.drop_first().len() && #[trigger] fs.drop_first()[
                            i
                        ].field_name@ == k;
                    assert(fs[i + 1].field_name@ == k);
                }
            }
            Option::None => {
                assert(spec_encode_field(fs[0].field_type, fs[0].field_name@, vals[0].1, Seq::empty())
                    =~= Seq::<(Seq<char>, GLeafValue)>::empty());
                assert(Seq::<(Seq<char>, GLeafValue)>::empty() + rest =~= rest);
                lemma_encode_fields_keys(fs.drop_first(), vals.drop_first(), k);
                let i = choose|i: int|
                    0 <= i < fs.drop_first().len() && #[trigger] fs.drop_first()[i].field_name@
                        == k;
                assert(fs[i + 1].field_name@ == k);
            }
        }
    } else {
        assert(spec_encode_fields(fs, vals, Seq::empty())
            =~= Seq::<(Seq<char>, GLeafValue)>::empty());
        assert(spec_lm_get(spec_encode_fields(fs, vals, Seq::empty()), k) is None);
    }
}

/// With distinct field names, looking a field's name up in the re-encoded
/// map yields exactly that field's entry.
proof fn lemma_encode_fields_get(fs: Seq<TCStructField>, vals: Seq<(Seq<char>, GVal)>, i: int)
    requires
        vals.len() == fs.len(),
        forall|a: int, b: int| 0 <= a < b < fs.len() ==> fs[a].field_name@ != fs[b].field_name@,
        forall|a: int| 0 <= a < fs.len() ==> spec_flat_field(#[trigger] fs[a].field_type),
        0 <= i < fs.len(),
    ensures
        spec_lm_get(spec_encode_fields(fs, vals, Seq::empty()), fs[i].field_name@)
            == spec_flat_entry(fs[i].field_type, vals[i].1),
    decreases fs.len(),
{
    let k = fs[i].field_name@;
    let rest = spec_encode_fields(fs.drop_first(), vals.drop_first(), Seq::empty());
    lemma_flat_encode_field(fs[0].field_type, fs[0].field_name@, vals[0].1, Seq::empty());
    assert(Seq::<Seq<char>>::empty().push(fs[0].field_name@) =~= seq![fs[0].field_name@]);
    assert(spec_dotted(seq![fs[0].field_name@]) == fs[0].field_name@);
    assert(forall|a: int|
        0 <= a < fs.drop_first().len() ==> spec_flat_field(
            #[trigger] fs.drop_first()[a].field_type,
        ));
    if i == 0 {
        match spec_flat_entry(fs[0].field_type, vals[0].1) {
            Option::Some(lv) => {
                let one = seq![(fs[0].field_name@, lv)];
                assert(spec_encode_field(fs[0].field_type, fs[0].field_name@, vals[0].1, Seq::empty())
                    =~= one);
                lemma_lm_get_append(one, rest, k);
                assert(one[0].0 == k);
                assert(spec_lm_get(one, k) == Option::Some(lv));
            }
            Option::None => {
                assert(spec_encode_field(fs[0].field_type, fs[0].field_name@, vals[0].1, Seq::empty())
                    =~= Seq::<(Seq<char>, GLeafValue)>::empty());
                assert(Seq::<(Seq<char>, GLeafValue)>::empty() + rest =~= rest);
                if spec_lm_get(rest, k) is Some {
                    lemma_encode_fields_keys(fs.drop_first(), vals.drop_first(), k);
                    let j = choose|j: int|
                        0 <= j < fs.drop_first().len() && #[trigger] fs.drop_first()[
                            j
                        ].field_name@ == k;
                    assert(fs[j + 1].field_name@ == fs[0].field_name@);
                    assert(false);
                }
            }
        }
    } else {
        assert(forall|a: int, b: int|
            0 <= a < b < fs.drop_first().len() ==> fs.drop_first()[a].field_name@
                != fs.drop_first()[b].field_name@);
        lemma_encode_fields_get(fs.drop_first(), vals.drop_first(), i - 1);
        assert(fs.drop_first()[i - 1] == fs[i]);
        assert(vals.drop_first()[i - 1] == vals[i]);
        match spec_flat_entry(fs[0].field_type, vals[0].1) {
            Option::Some(lv) => {
                let one = seq![(fs[0].field_name@, lv)];
                assert(spec_encode_field(fs[0].field_type, fs[0].field_name@, vals[0].1, Seq::empty())
                    =~= one);
                lemma_lm_get_append(one, rest, k);
                assert(fs[0].field_name@ != k);
                assert(one.drop_first() =~= Seq::<(Seq<char>, GLeafValue)>::empty());
                assert(spec_lm_get(one.drop_first(), k) is None);
                assert(spec_lm_get(one, k) is None);
            }
            Option::None => {
                assert(spec_encode_field(fs[0].field_type, fs[0].field_name@, vals[0].1, Seq::empty())
                    =~= Seq::<(Seq<char>, GLeafValue)>::empty());
                assert(Seq::<(Seq<char>, GLeafValue)>::empty() + rest =~= rest);
            }
        }
    }
}

/// The single leaf a flat field exposes, if any: its path is the field's
/// own name.
proof fn lemma_flat_field_leaves(n: TCFieldType, fname: Seq<char>, had_opt: bool)
    requires
        spec_flat_field(n),
    ensures
        crate::visit::spec_field_leaves(n, fname, Seq::<Seq<char>>::empty(), had_opt).len()
            <= 1,
        forall|i: int|
            0 <= i < crate::visit::spec_field_leaves(
                n,
                fname,
                Seq::<Seq<char>>::empty(),
                had_opt,
            ).len() ==> (#[trigger] crate::visit::spec_field_leaves(
                n,
                fname,
                Seq::<Seq<char>>::empty(),
                had_opt,
            )[i]).path =~= seq![fname],
    decreases n,
{
    match n {
        TCFieldType::Option(inner) => {
            lemma_flat_field_leaves(*inner, fname, true);
        }
        _ => {
            assert(Seq::<Seq<char>>::empty().push(fname) =~= seq![fname]);
        }
    }
}

/// Building a tree from the supplied leaves, starting from a given map.
pub open spec fn spec_build_from(
    t0: Map<Seq<char>, GTreeNode>,
    leaves: Seq<crate::visit::GLeaf>,
    m: Seq<(Seq<char>, GLeafValue)>,
) -> Map<Seq<char>, GTreeNode>
    decreases leaves,
{
    if leaves.len() == 0 {
        t0
    } else {
        let front = spec_build_from(t0, leaves.drop_last(), m);
        let l = leaves.last();
        match spec_extract(m, spec_dotted(l.path), l.kind, l.repeated) {
            Option::Some(tn) => crate::value::spec_tree_insert(front, l.path, tn),
            Option::None => front,
        }
    }
}

/// Building from the empty map is building outright.
proof fn lemma_build_from_empty(leaves: Seq<crate::visit::GLeaf>, m: Seq<(Seq<char>, GLeafValue)>)
    ensures
        spec_build_tree(leaves, m) == spec_build_from(
            Map::<Seq<char>, GTreeNode>::empty(),
            leaves,
            m,
        ),
    decreases leaves.len(),
{
    if leaves.len() > 0 {
        lemma_build_from_empty(leaves.drop_last(), m);
    }
}

/// Building distributes over concatenated leaf lists.
proof fn lemma_build_from_append(
    t0: Map<Seq<char>, GTreeNode>,
    l1: Seq<crate::visit::GLeaf>,
    l2: Seq<crate::visit::GLeaf>,
    m: Seq<(Seq<char>, GLeafValue)>,
)
    ensures
        spec_build_from(t0, l1 + l2, m) == spec_build_from(spec_build_from(t0, l1, m), l2, m),
    decreases l2.len(),
{
    if l2.len() == 0 {
        assert(l1 + l2 =~= l1);
    } else {
        lemma_build_from_append(t0, l1, l2.drop_last(), m);
        assert((l1 + l2).drop_last() =~= l1 + l2.drop_last());
        assert((l1 + l2).last() == l2.last());
    }
}

/// For a populated single-level field list, building from the re-encoded
/// leaf map adds exactly each contributing field's node under its name.
proof fn lemma_flat_build(
    fs: Seq<TCStructField>,
    vals: Seq<(Seq<char>, GVal)>,
    m: Seq<(Seq<char>, GLeafValue)>,
    t0: Map<Seq<char>, GTreeNode>,
)
    requires
        spec_wf_fields(fs),
        spec_populated_fields(fs, vals),
        forall|i: int| 0 <= i < fs.len() ==> spec_flat_field(#[trigger] fs[i].field_type),
        forall|i: int|
            0 <= i < fs.len() ==> spec_lm_get(m, (#[trigger] fs[i]).field_name@)
                == spec_flat_entry(fs[i].field_type, vals[i].1),
    ensures
        spec_build_from(
            t0,
            crate::visit::spec_fields_leaves(fs, Seq::<Seq<char>>::empty()),
            m,
        ) == t0.union_prefer_right(spec_tree_of_fields(fs, vals)),
    decreases fs,
{
    if fs.len() == 0 {
        assert(t0.union_prefer_right(Map::<Seq<char>, GTreeNode>::empty()) =~= t0);
    } else {
        let f = fs[0];
        let fl = crate::visit::spec_field_leaves(
            f.field_type,
            f.field_name@,
            Seq::<Seq<char>>::empty(),
            false,
        );
        let rest_leaves = crate::visit::spec_fields_leaves(
            fs.drop_first(),
            Seq::<Seq<char>>::empty(),
        );
        lemma_flat_field_leaves(f.field_type, f.field_name@, false);
        lemma_build_from_append(t0, fl, rest_leaves, m);
        let t1 = spec_build_from(t0, fl, m);
        // one flat field's leaves build exactly its contribution
        assert(t1 == (match spec_tree_of(f.field_type, vals[0].1) {
            Option::Some(t) => t0.insert(f.field_name@, t),
            Option::None => t0,
        })) by {
            if fl.len() == 0 {
                lemma_flat_none_agree(f.field_type, f.field_name@, false, vals[0].1);
            } else {
                assert(fl.drop_last() =~= Seq::<crate::visit::GLeaf>::empty());
                assert(fl.last() == fl[0]);
                assert(fl[0].path =~= seq![f.field_name@]);
                assert(fl[0].path.len() == 1);
                assert(fl[0].path[0] == f.field_name@);
                assert(spec_dotted(fl[0].path) == f.field_name@);
                assert(fl =~= seq![fl[0]]);
                assert(spec_lm_get(m, f.field_name@) == spec_flat_entry(
                    f.field_type,
                    vals[0].1,
                ));
                lemma_flat_extract_agree(f.field_type, vals[0].1, m, fl[0], false);
                assert(spec_build_from(t0, fl.drop_last(), m) == t0);
                match spec_extract(m, spec_dotted(fl[0].path), fl[0].kind, fl[0].repeated) {
                    Option::Some(tn) => {
                        assert(t1 == crate::value::spec_tree_insert(t0, fl[0].path, tn));
                        assert(crate::value::spec_tree_insert(t0, fl[0].path, tn) == t0.insert(
                            f.field_name@,
                            tn,
                        ));
                    }
                    Option::None => {
                        assert(t1 == t0);
                    }
                }
            }
        }
        // hypotheses for the tail
        assert(forall|a: int, b: int|
            0 <= a < b < fs.drop_first().len() ==> fs.drop_first()[a].field_name@
                != fs.drop_first()[b].field_name@);
        assert(forall|i: int|
            0 <= i < fs.drop_first().len() ==> spec_wf_name(
                #[trigger] fs.drop_first()[i].field_name@,
            ));
        assert(forall|i: int|
            0 <= i < fs.drop_first().len() ==> spec_wf_schema(
                #[trigger] fs.drop_first()[i].field_type,
            ));
        assert(forall|i: int|
            0 <= i < fs.drop_first().len() ==> spec_flat_field(
                #[trigger] fs.drop_first()[i].field_type,
            ));
        assert(forall|i: int|
            0 <= i < fs.drop_first().len() ==> (#[trigger] vals.drop_first()[i]).0
                == fs.drop_first()[i].field_name@);
        assert(forall|i: int|
            0 <= i < fs.drop_first().len() ==> spec_populated(
                fs.drop_first()[i].field_type,
                (#[trigger] vals.drop_first()[i]).1,
            ));
        assert forall|i: int| 0 <= i < fs.drop_first().len() implies spec_lm_get(
            m,
            (#[trigger] fs.drop_first()[i]).field_name@,
        ) == spec_flat_entry(fs.drop_first()[i].field_type, vals.drop_first()[i].1) by {
            assert(fs.drop_first()[i] == fs[i + 1]);
            assert(vals.drop_first()[i] == vals[i + 1]);
        }
        lemma_flat_build(fs.drop_first(), vals.drop_first(), m, t1);
        // fold the head contribution into the union
        let rest_map = spec_tree_of_fields(fs.drop_first(), vals.drop_first());
        lemma_tree_of_fields_keys(fs.drop_first(), vals.drop_first());
        match spec_tree_of(f.field_type, vals[0].1) {
            Option::Some(t) => {
                assert(t0.insert(f.field_name@, t).union_prefer_right(rest_map)
                    =~= t0.union_prefer_right(rest_map.insert(f.field_name@, t))) by {
                    if rest_map.contains_key(f.field_name@) {
                        let j = choose|j: int|
                            0 <= j < fs.drop_first().len() && #[trigger] fs.drop_first()[
                                j
                            ].field_name@ == f.field_name@;
                        assert(fs[j + 1].field_name@ == fs[0].field_name@);
                        assert(false);
                    }
                }
            }
            Option::None => {}
        }
    }
}

/// A flat field with no leaf contributes nothing to the tree.
proof fn lemma_flat_none_agree(n: TCFieldType, fname: Seq<char>, had_opt: bool, v: GVal)
    requires
        spec_flat_field(n),
        spec_populated(n, v),
        crate::visit::spec_field_leaves(n, fname, Seq::<Seq<char>>::empty(), had_opt).len() == 0,
    ensures
        spec_tree_of(n, v) is None,
    decreases n,
{
    match n {
        TCFieldType::Option(inner) => {
            lemma_flat_none_agree(*inner, fname, true, v);
        }
        _ => {}
    }
}

/// What extraction yields for a flat field's single leaf: exactly the
/// field's contribution to the tree.
proof fn lemma_flat_extract_agree(
    n: TCFieldType,
    v: GVal,
    m: Seq<(Seq<char>, GLeafValue)>,
    l: crate::visit::GLeaf,
    had_opt: bool,
)
    requires
        spec_flat_field(n),
        spec_populated(n, v),
        crate::visit::spec_field_leaves(n, spec_dotted(l.path), Seq::<Seq<char>>::empty(), had_opt)
            =~= seq![l],
        spec_lm_get(m, spec_dotted(l.path)) == spec_flat_entry(n, v),
    ensures
        spec_extract(m, spec_dotted(l.path), l.kind, l.repeated) == spec_tree_of(n, v),
    decreases n,
{
    match n {
        TCFieldType::Option(inner) => {
            lemma_flat_extract_agree(*inner, v, m, l, true);
        }
        _ => {
            let fl0 = crate::visit::spec_field_leaves(
                n,
                spec_dotted(l.path),
                Seq::<Seq<char>>::empty(),
                had_opt,
            );
            assert(fl0.len() == 1);
            assert(fl0[0] == l);
        }
    }
}

/// Round trip: for a single-level schema, compiling leaves, re-encoding a
/// fully-populated value of the schema's type as a dotted-path leaf map,
/// and decoding that map back reproduces the original value.
pub proof fn lemma_round_trip(n: TCFieldType, v: GVal)
    requires
        spec_wf_schema(n),
        spec_flat_schema(n),
        spec_populated(n, v),
    ensures
        spec_decode(n, spec_encode(n, v)) == CResult::Converted(v),
{
    let fields = n->Struct_fields;
    let vals = v->Struct_0;
    let m = spec_encode_fields(fields@, vals, Seq::<Seq<char>>::empty());
    let leaves = crate::visit::spec_leaves(n, Seq::<Seq<char>>::empty());
    assert(leaves == crate::visit::spec_fields_leaves(fields@, Seq::<Seq<char>>::empty()));
    assert(spec_wf_fields(fields@));
    assert(spec_populated_fields(fields@, vals));
    assert forall|i: int| 0 <= i < fields@.len() implies spec_lm_get(
        m,
        (#[trigger] fields@[i]).field_name@,
    ) == spec_flat_entry(fields@[i].field_type, vals[i].1) by {
        lemma_encode_fields_get(fields@, vals, i);
    }
    lemma_build_from_empty(leaves, m);
    lemma_flat_build(fields@, vals, m, Map::<Seq<char>, GTreeNode>::empty());
    let built = spec_build_tree(leaves, m);
    let parts = spec_tree_of_fields(fields@, vals);
    assert(built =~= parts);
    if parts =~= Map::<Seq<char>, GTreeNode>::empty() {
        lemma_convert_fields_none(fields@, vals);
        assert(built == Map::<Seq<char>, GTreeNode>::empty());
    } else {
        assert forall|i: int| 0 <= i < fields@.len() implies match spec_tree_of(
            fields@[i].field_type,
            (#[trigger] vals[i]).1,
        ) {
            Option::Some(t) => parts.contains_key(fields@[i].field_name@) && parts[fields@[
                i
            ].field_name@] == t,
            Option::None => !parts.contains_key(fields@[i].field_name@),
        } by {
            lemma_tree_of_fields_at(fields@, vals, i);
        }
        lemma_convert_fields_tree(fields@, vals, parts);
        assert(built == parts);
    }
    assert(GVal::Struct(vals) == v);
}

/// The schema of one message holding a single two-member
/// mutually-exclusive group.
pub open spec fn spec_two_member_group_schema(
    sname: Seq<char>,
    fname: Seq<char>,
    gname: Seq<char>,
    m1: TCStructField,
    m2: TCStructField,
    sf: TCStructField,
    n: TCFieldType,
) -> bool {
    &&& n matches TCFieldType::Struct { name, fields } && name@ == sname && fields@ =~= seq![sf]
    &&& sf.field_name@ == fname
    &&& sf.field_type matches TCFieldType::OneOf { name, members } && name@ == gname && members@
        =~= seq![m1, m2]
    &&& m1.field_type matches TCFieldType::Primitive { field_type, .. } && !(field_type is List)
    &&& m2.field_type matches TCFieldType::Primitive { field_type, .. } && !(field_type is List)
}

/// Conflict detection, part one: supplying both members of a two-member
/// mutually-exclusive group yields a conflict naming the group.
pub proof fn lemma_conflict_both(
    sname: Seq<char>,
    fname: Seq<char>,
    gname: Seq<char>,
    m1: TCStructField,
    m2: TCStructField,
    sf: TCStructField,
    n: TCFieldType,
    s1: GScalar,
    s2: GScalar,
)
    requires
        spec_two_member_group_schema(sname, fname, gname, m1, m2, sf, n),
        m1.field_name@ != m2.field_name@,
        spec_gscalar_fits(s1, spec_flat_kind(m1.field_type->Primitive_field_type)),
        spec_gscalar_fits(s2, spec_flat_kind(m2.field_type->Primitive_field_type)),
    ensures
        spec_decode(
            n,
            seq![
                (spec_dotted(seq![fname, m1.field_name@]), GLeafValue::Single(s1)),
                (spec_dotted(seq![fname, m2.field_name@]), GLeafValue::Single(s2)),
            ],
        ) == CResult::Conflict(gname),
{
    let p1 = seq![fname, m1.field_name@];
    let p2 = seq![fname, m2.field_name@];
    let m = seq![
        (spec_dotted(p1), GLeafValue::Single(s1)),
        (spec_dotted(p2), GLeafValue::Single(s2)),
    ];
    reveal_with_fuel(spec_build_tree, 4);
    reveal_with_fuel(spec_tree_insert, 4);
    reveal_with_fuel(spec_lm_get, 4);
    reveal_with_fuel(spec_convert_fields, 3);
    reveal_with_fuel(spec_convert, 4);
    lemma_group_leaves(sname, fname, gname, m1, m2, sf, n);
    let leaves = crate::visit::spec_leaves(n, Seq::<Seq<char>>::empty());
    lemma_two_dotted_distinct(fname, m1.field_name@, m2.field_name@);
    // look the two leaves up
    assert(spec_lm_get(m, spec_dotted(p1)) == Option::Some(GLeafValue::Single(s1)));
    assert(m.drop_first() =~= seq![(spec_dotted(p2), GLeafValue::Single(s2))]);
    assert(spec_lm_get(m.drop_first(), spec_dotted(p2)) == Option::Some(GLeafValue::Single(s2)));
    assert(spec_lm_get(m, spec_dotted(p2)) == Option::Some(GLeafValue::Single(s2)));
    let k1 = spec_flat_kind(m1.field_type->Primitive_field_type);
    let k2 = spec_flat_kind(m2.field_type->Primitive_field_type);
    assert(spec_extract(m, spec_dotted(p1), k1, false) == Option::Some(GTreeNode::Leaf(s1)));
    assert(spec_extract(m, spec_dotted(p2), k2, false) == Option::Some(GTreeNode::Leaf(s2)));
    // build the tree step by step
    let t1 = spec_tree_insert(Map::<Seq<char>, GTreeNode>::empty(), p1, GTreeNode::Leaf(s1));
    let t2 = spec_tree_insert(t1, p2, GTreeNode::Leaf(s2));
    let inner1 = Map::<Seq<char>, GTreeNode>::empty().insert(m1.field_name@, GTreeNode::Leaf(s1));
    let inner2 = inner1.insert(m2.field_name@, GTreeNode::Leaf(s2));
    assert(p1.drop_first() =~= seq![m1.field_name@]);
    assert(p2.drop_first() =~= seq![m2.field_name@]);
    assert(t1 =~~= Map::<Seq<char>, GTreeNode>::empty().insert(fname, GTreeNode::Branch(inner1)));
    assert(t2 =~~= Map::<Seq<char>, GTreeNode>::empty().insert(fname, GTreeNode::Branch(inner2)));
    assert(leaves.drop_last() =~= seq![leaves[0]]);
    assert(leaves.drop_last().drop_last() =~= Seq::<crate::visit::GLeaf>::empty());
    assert(spec_build_tree(leaves, m) =~~= t2) by {
        assert(spec_build_tree(Seq::<crate::visit::GLeaf>::empty(), m)
            =~= Map::<Seq<char>, GTreeNode>::empty());
        assert(leaves.drop_last()[0] == leaves[0]);
        assert(spec_build_tree(leaves.drop_last(), m) =~~= t1);
    }
    // the group position now holds two distinct keys: a conflict
    assert(inner2.dom().contains(m1.field_name@));
    assert(inner2.dom().contains(m2.field_name@));
    let fs = n->Struct_fields;
    assert(fs@[0] == sf);
    assert(t2.contains_key(fname));
    assert(t2[fname] == GTreeNode::Branch(inner2));
    assert(crate::clap::spec_convert_oneof(gname, seq![m1, m2], inner2) == CResult::Conflict(
        gname,
    ));
    assert(spec_convert(sf.field_type, Option::Some(GTreeNode::Branch(inner2)))
        == CResult::Conflict(gname));
    assert(fs@.drop_first() =~= Seq::<TCStructField>::empty());
    assert(spec_decode(n, m) == CResult::Conflict(gname));
}

/// The two leaves a two-member group schema compiles to.
proof fn lemma_group_leaves(
    sname: Seq<char>,
    fname: Seq<char>,
    gname: Seq<char>,
    m1: TCStructField,
    m2: TCStructField,
    sf: TCStructField,
    n: TCFieldType,
)
    requires
        spec_two_member_group_schema(sname, fname, gname, m1, m2, sf, n),
    ensures
        crate::visit::spec_leaves(n, Seq::<Seq<char>>::empty()) =~~= seq![
            crate::visit::GLeaf {
                path: seq![fname, m1.field_name@],
                kind: spec_flat_kind(m1.field_type->Primitive_field_type),
                required: crate::visit::spec_leaf_required(
                    m1.field_type->Primitive_field_type,
                    m1.field_type->Primitive_required,
                    false,
                    1,
                ),
                repeated: false,
            },
            crate::visit::GLeaf {
                path: seq![fname, m2.field_name@],
                kind: spec_flat_kind(m2.field_type->Primitive_field_type),
                required: crate::visit::spec_leaf_required(
                    m2.field_type->Primitive_field_type,
                    m2.field_type->Primitive_required,
                    false,
                    1,
                ),
                repeated: false,
            },
        ],
{
    reveal_with_fuel(crate::visit::spec_leaves, 3);
    reveal_with_fuel(crate::visit::spec_fields_leaves, 5);
    reveal_with_fuel(crate::visit::spec_field_leaves, 3);
    let fs = n->Struct_fields;
    let members = sf.field_type->OneOf_members;
    let pfx = Seq::<Seq<char>>::empty().push(fname);
    assert(fs@[0] == sf);
    assert(members@[0] == m1);
    assert(fs@.drop_first() =~= Seq::<TCStructField>::empty());
    assert(members@.drop_first() =~= seq![m2]);
    assert(members@.drop_first().drop_first() =~= Seq::<TCStructField>::empty());
    assert(members@.drop_first()[0] == m2);
    assert(pfx.push(m1.field_name@) =~= seq![fname, m1.field_name@]);
    assert(pfx.push(m2.field_name@) =~= seq![fname, m2.field_name@]);
    assert(crate::visit::spec_fields_leaves(Seq::<TCStructField>::empty(), pfx)
        =~= Seq::<crate::visit::GLeaf>::empty());
    assert(crate::visit::spec_fields_leaves(fs@.drop_first(), Seq::<Seq<char>>::empty())
        =~= Seq::<crate::visit::GLeaf>::empty());
    assert(crate::visit::spec_leaves(n, Seq::<Seq<char>>::empty())
        =~= crate::visit::spec_field_leaves(sf.field_type, fname, Seq::<Seq<char>>::empty(), false)
        + Seq::<crate::visit::GLeaf>::empty());
    assert(crate::visit::spec_field_leaves(sf.field_type, fname, Seq::<Seq<char>>::empty(), false)
        =~= crate::visit::spec_fields_leaves(members@, pfx));
    assert(crate::visit::spec_field_leaves(m1.field_type, m1.field_name@, pfx, false) =~~= seq![
        crate::visit::GLeaf {
            path: pfx.push(m1.field_name@),
            kind: spec_flat_kind(m1.field_type->Primitive_field_type),
            required: crate::visit::spec_leaf_required(
                m1.field_type->Primitive_field_type,
                m1.field_type->Primitive_required,
                false,
                1,
            ),
            repeated: false,
        },
    ]);
    assert(crate::visit::spec_field_leaves(m2.field_type, m2.field_name@, pfx, false) =~~= seq![
        crate::visit::GLeaf {
            path: pfx.push(m2.field_name@),
            kind: spec_flat_kind(m2.field_type->Primitive_field_type),
            required: crate::visit::spec_leaf_required(
                m2.field_type->Primitive_field_type,
                m2.field_type->Primitive_required,
                false,
                1,
            ),
            repeated: false,
        },
    ]);
    let got = crate::visit::spec_leaves(n, Seq::<Seq<char>>::empty());
    assert(got.len() == 2);
    assert(got[0].path =~= seq![fname, m1.field_name@]);
    assert(got[0].kind == spec_flat_kind(m1.field_type->Primitive_field_type));
    assert(got[0].required == crate::visit::spec_leaf_required(
        m1.field_type->Primitive_field_type,
        m1.field_type->Primitive_required,
        false,
        1,
    ));
    assert(got[0].repeated == false);
    assert(got[1].path =~= seq![fname, m2.field_name@]);
    assert(got[1].kind == spec_flat_kind(m2.field_type->Primitive_field_type));
    assert(got[1].repeated == false);
}

/// Two dotted two-segment paths with distinct last segments are distinct.
proof fn lemma_two_dotted_distinct(g: Seq<char>, a: Seq<char>, b: Seq<char>)
    requires
        a != b,
    ensures
        spec_dotted(seq![g, a]) != spec_dotted(seq![g, b]),
{
    let pa = seq![g, a];
    let pb = seq![g, b];
    assert(pa.drop_first() =~= seq![a]);
    assert(pb.drop_first() =~= seq![b]);
    assert(spec_dotted(seq![a]) == a);
    assert(spec_dotted(seq![b]) == b);
    assert(pa[0] == g);
    assert(pb[0] == g);
    assert(spec_dotted(pa) =~= g + seq!['.'] + a);
    assert(spec_dotted(pb) =~= g + seq!['.'] + b);
    if spec_dotted(pa) == spec_dotted(pb) {
        let da = g + seq!['.'] + a;
        let db = g + seq!['.'] + b;
        assert(da.len() == db.len());
        assert(a.len() == b.len());
        assert forall|i: int| 0 <= i < a.len() implies a[i] == b[i] by {
            assert(da[g.len() + 1 + i] == a[i]);
            assert(db[g.len() + 1 + i] == b[i]);
        }
        assert(a =~= b);
        assert(false);
    }
}

/// Conflict detection, parts two and three: supplying exactly one member
/// of a two-member group yields a structure with exactly that member set,
/// and supplying neither yields the group's absent state.
pub proof fn lemma_conflict_one_or_none(
    sname: Seq<char>,
    fname: Seq<char>,
    gname: Seq<char>,
    m1: TCStructField,
    m2: TCStructField,
    sf: TCStructField,
    n: TCFieldType,
    s1: GScalar,
)
    requires
        spec_two_member_group_schema(sname, fname, gname, m1, m2, sf, n),
        m1.field_name@ != m2.field_name@,
        spec_gscalar_fits(s1, spec_flat_kind(m1.field_type->Primitive_field_type)),
    ensures
        spec_decode(n, seq![(spec_dotted(seq![fname, m1.field_name@]), GLeafValue::Single(s1))])
            == CResult::Converted(
            GVal::Struct(
                seq![(fname, GVal::OneOf(m1.field_name@, Box::new(GVal::Scalar(s1))))],
            ),
        ),
        spec_decode(n, Seq::<(Seq<char>, GLeafValue)>::empty()) == CResult::Converted(
            GVal::Struct(seq![(fname, GVal::Null)]),
        ),
{
    let p1 = seq![fname, m1.field_name@];
    let p2 = seq![fname, m2.field_name@];
    let m = seq![(spec_dotted(p1), GLeafValue::Single(s1))];
    reveal_with_fuel(spec_build_tree, 4);
    reveal_with_fuel(spec_tree_insert, 4);
    reveal_with_fuel(spec_lm_get, 4);
    reveal_with_fuel(spec_convert_fields, 3);
    reveal_with_fuel(spec_convert, 4);
    lemma_group_leaves(sname, fname, gname, m1, m2, sf, n);
    let leaves = crate::visit::spec_leaves(n, Seq::<Seq<char>>::empty());
    lemma_two_dotted_distinct(fname, m1.field_name@, m2.field_name@);
    let k1 = spec_flat_kind(m1.field_type->Primitive_field_type);
    let k2 = spec_flat_kind(m2.field_type->Primitive_field_type);
    let fs = n->Struct_fields;
    assert(fs@[0] == sf);
    assert(fs@.drop_first() =~= Seq::<TCStructField>::empty());
    assert(leaves.drop_last() =~= seq![leaves[0]]);
    assert(leaves.drop_last().drop_last() =~= Seq::<crate::visit::GLeaf>::empty());
    // the supplied-one case
    assert(spec_lm_get(m, spec_dotted(p1)) == Option::Some(GLeafValue::Single(s1)));
    assert(m.drop_first() =~= Seq::<(Seq<char>, GLeafValue)>::empty());
    assert(spec_lm_get(m, spec_dotted(p2)) is None);
    assert(spec_extract(m, spec_dotted(p1), k1, false) == Option::Some(GTreeNode::Leaf(s1)));
    assert(spec_extract(m, spec_dotted(p2), k2, false) is None);
    let t1 = spec_tree_insert(Map::<Seq<char>, GTreeNode>::empty(), p1, GTreeNode::Leaf(s1));
    let inner1 = Map::<Seq<char>, GTreeNode>::empty().insert(m1.field_name@, GTreeNode::Leaf(s1));
    assert(p1.drop_first() =~= seq![m1.field_name@]);
    assert(t1 =~~= Map::<Seq<char>, GTreeNode>::empty().insert(fname, GTreeNode::Branch(inner1)));
    assert(spec_build_tree(leaves, m) =~~= t1) by {
        assert(spec_build_tree(Seq::<crate::visit::GLeaf>::empty(), m)
            =~= Map::<Seq<char>, GTreeNode>::empty());
        assert(leaves.drop_last()[0] == leaves[0]);
        assert(spec_build_tree(leaves.drop_last(), m) =~~= t1);
    }
    assert(inner1.dom() =~= Set::<Seq<char>>::empty().insert(m1.field_name@));
    assert forall|a: Seq<char>, c: Seq<char>|
        inner1.dom().contains(a) && inner1.dom().contains(c) implies a == c by {}
    assert(inner1.dom().contains(m1.field_name@));
    assert(!(inner1.dom() =~= Set::<Seq<char>>::empty()));
    assert(inner1.dom().contains(inner1.dom().choose()));
    assert(inner1.dom().choose() == m1.field_name@);
    let members = sf.field_type->OneOf_members;
    assert(members@ =~= seq![m1, m2]);
    assert(crate::clap::spec_find_member(members@, m1.field_name@) == 0);
    assert(spec_convert(m1.field_type, Option::Some(GTreeNode::Leaf(s1)))
        == CResult::Converted(GVal::Scalar(s1)));
    assert(crate::clap::spec_convert_oneof(gname, members@, inner1) == CResult::Converted(
        GVal::OneOf(m1.field_name@, Box::new(GVal::Scalar(s1))),
    ));
    assert(spec_convert_fields(fs@, t1) == CResult::Converted(
        GVal::Struct(seq![(fname, GVal::OneOf(m1.field_name@, Box::new(GVal::Scalar(s1))))]),
    )) by {
        assert(spec_convert_fields(Seq::<TCStructField>::empty(), t1) == CResult::Converted(
            GVal::Struct(Seq::<(Seq<char>, GVal)>::empty()),
        ));
        assert(seq![(fname, GVal::OneOf(m1.field_name@, Box::new(GVal::Scalar(s1))))]
            + Seq::<(Seq<char>, GVal)>::empty() =~= seq![
            (fname, GVal::OneOf(m1.field_name@, Box::new(GVal::Scalar(s1)))),
        ]);
    }
    // the supplied-none case
    let me = Seq::<(Seq<char>, GLeafValue)>::empty();
    assert(spec_lm_get(me, spec_dotted(p1)) is None);
    assert(spec_lm_get(me, spec_dotted(p2)) is None);
    assert(spec_extract(me, spec_dotted(p1), k1, false) is None);
    assert(spec_extract(me, spec_dotted(p2), k2, false) is None);
    let t0 = Map::<Seq<char>, GTreeNode>::empty();
    assert(spec_build_tree(leaves, me) =~= t0) by {
        assert(spec_build_tree(Seq::<crate::visit::GLeaf>::empty(), me) =~= t0);
        assert(leaves.drop_last()[0] == leaves[0]);
        assert(spec_build_tree(leaves.drop_last(), me) =~= t0);
    }
    assert(!t0.contains_key(fname));
    assert(spec_convert(sf.field_type, Option::None) == CResult::Converted(GVal::Null));
    assert(spec_convert_fields(fs@, t0) == CResult::Converted(
        GVal::Struct(seq![(fname, GVal::Null)]),
    )) by {
        assert(spec_convert_fields(Seq::<TCStructField>::empty(), t0) == CResult::Converted(
            GVal::Struct(Seq::<(Seq<char>, GVal)>::empty()),
        ));
        assert(seq![(fname, GVal::Null)] + Seq::<(Seq<char>, GVal)>::empty() =~= seq![
            (fname, GVal::Null),
        ]);
    }
}

/// Converting an absent position yields the position's zero value, for
/// every schema node.
pub proof fn lemma_convert_absent_zero(n: TCFieldType)
    ensures
        spec_convert(n, Option::None) == CResult::Converted(spec_zero(n)),
    decreases n,
{
    match n {
        TCFieldType::Struct { fields, .. } => {
            lemma_convert_fields_zero(fields@);
        }
        _ => {}
    }
}

/// Converting fields against the empty map yields their zero values.
proof fn lemma_convert_fields_zero(fs: Seq<TCStructField>)
    ensures
        spec_convert_fields(fs, Map::<Seq<char>, GTreeNode>::empty()) == CResult::Converted(
            GVal::Struct(spec_zero_fields(fs)),
        ),
    decreases fs,
{
    if fs.len() == 0 {
        assert(spec_zero_fields(fs) =~= Seq::<(Seq<char>, GVal)>::empty());
    } else {
        lemma_convert_absent_zero(fs[0].field_type);
        lemma_convert_fields_zero(fs.drop_first());
        assert(spec_zero_fields(fs).drop_last() =~= spec_zero_fields(fs.drop_last()));
        lemma_zero_fields_cons(fs);
    }
}

/// The zero values of a field list, read from its first field.
proof fn lemma_zero_fields_cons(fs: Seq<TCStructField>)
    requires
        fs.len() > 0,
    ensures
        spec_zero_fields(fs) =~= seq![(fs[0].field_name@, spec_zero(fs[0].field_type))]
            + spec_zero_fields(fs.drop_first()),
    decreases fs,
{
    if fs.len() == 1 {
        assert(fs.drop_last() =~= Seq::<TCStructField>::empty());
        assert(fs.drop_first() =~= Seq::<TCStructField>::empty());
    } else {
        lemma_zero_fields_cons(fs.drop_last());
        assert(fs.drop_last().drop_first() =~= fs.drop_first().drop_last());
        assert(fs.drop_last()[0] == fs[0]);
        assert(fs.drop_first().last() == fs.last());
    }
}

/// An empty leaf map inserts nothing.
proof fn lemma_build_tree_empty_map(leaves: Seq<crate::visit::GLeaf>)
    ensures
        spec_build_tree(leaves, Seq::<(Seq<char>, GLeafValue)>::empty())
            =~= Map::<Seq<char>, GTreeNode>::empty(),
    decreases leaves,
{
    if leaves.len() > 0 {
        lemma_build_tree_empty_map(leaves.drop_last());
        let l = leaves.last();
        assert(spec_lm_get(Seq::<(Seq<char>, GLeafValue)>::empty(), spec_dotted(l.path))
            is None);
    }
}

/// All defaults: a method invoked with neither an override payload nor any
/// supplied leaf value decodes to the structure's all-defaults value.
pub proof fn lemma_decode_empty(n: TCFieldType)
    requires
        n is Struct,
    ensures
        spec_decode(n, Seq::<(Seq<char>, GLeafValue)>::empty()) == CResult::Converted(
            spec_zero(n),
        ),
{
    let leaves = crate::visit::spec_leaves(n, Seq::<Seq<char>>::empty());
    lemma_build_tree_empty_map(leaves);
    assert(spec_build_tree(leaves, Seq::<(Seq<char>, GLeafValue)>::empty())
        == Map::<Seq<char>, GTreeNode>::empty());
    let fields = n->Struct_fields;
    lemma_convert_fields_zero(fields@);
}

} // verus!
