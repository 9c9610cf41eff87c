//! Schema-directed resolution: turns an untyped literal into a constructor tree
//! in which every nested block carries the type it instantiates.
use vstd::prelude::*;
use crate::literal::{fields_model, lemma_fields_model, LiteralNode, NodeV, RecordLiteral};
use crate::registry::{field_type, find_field_type, Registry, Schema, schema_model};
use crate::tokens::Tok;

verus! {

broadcast use vstd::std_specs::vec::group_vec_axioms, vstd::seq::group_seq_axioms;

/// A resolved literal: leaves as written, blocks as typed constructors.
#[derive(Debug)]
pub enum ExpandedExpr {
    Leaf(Vec<Tok>),
    Constructor(String, Vec<(String, ExpandedExpr)>),
}

/// Mathematical model of a resolved literal.
pub enum ExprV {
    Leaf(Seq<Tok>),
    Ctor(Seq<char>, Seq<(Seq<char>, ExprV)>),
}

/// Why a literal could not be resolved.
#[derive(Debug)]
pub enum ExpandError {
    /// No schema is registered under this type name.
    SchemaNotFound(String),
    /// A nested block was given for a field that the type's schema lacks:
    /// the type's name, then the field's.
    UnknownField(String, String),
}

pub enum ExpandErrorV {
    SchemaNotFound(Seq<char>),
    UnknownField(Seq<char>, Seq<char>),
}

impl ExpandError {
    pub open spec fn model(&self) -> ExpandErrorV {
        match self {
            ExpandError::SchemaNotFound(t) => ExpandErrorV::SchemaNotFound(t@),
            ExpandError::UnknownField(t, f) => ExpandErrorV::UnknownField(t@, f@),
        }
    }
}

impl ExpandedExpr {
    pub open spec fn model(&self) -> ExprV
        decreases self,
    {
        match self {
            ExpandedExpr::Leaf(ts) => ExprV::Leaf(ts@),
            ExpandedExpr::Constructor(name, fs) => ExprV::Ctor(name@, exprs_model(fs@)),
        }
    }
}

pub open spec fn exprs_model(fs: Seq<(String, ExpandedExpr)>) -> Seq<(Seq<char>, ExprV)>
    decreases fs,
{
    if fs.len() == 0 {
        seq![]
    } else {
        exprs_model(fs.drop_last()).push((fs.last().0@, fs.last().1.model()))
    }
}

/// The constructor tree for a block `fs` built as type `ty`, or the first
/// failure in textual order.
pub open spec fn expand_spec(reg: Registry, fs: Seq<(Seq<char>, NodeV)>, ty: Seq<char>) -> Result<ExprV, ExpandErrorV>
    decreases fs, 1nat,
{
    match reg.schema_of(ty) {
        None => Err(ExpandErrorV::SchemaNotFound(ty)),
        Some(schema) => match expand_fields_spec(reg, schema, ty, fs) {
            Ok(out) => Ok(ExprV::Ctor(ty, out)),
            Err(e) => Err(e),
        },
    }
}

/// The resolved assignments of a block of type `ty` whose schema is `schema`.
pub open spec fn expand_fields_spec(
    reg: Registry,
    schema: Seq<(Seq<char>, Seq<char>)>,
    ty: Seq<char>,
    fs: Seq<(Seq<char>, NodeV)>,
) -> Result<Seq<(Seq<char>, ExprV)>, ExpandErrorV>
    decreases fs, 0nat,
{
    if fs.len() == 0 {
        Ok(seq![])
    } else {
        match expand_fields_spec(reg, schema, ty, fs.drop_last()) {
            Err(e) => Err(e),
            Ok(init) => {
                let (name, node) = fs.last();
                let v: Result<ExprV, ExpandErrorV> = match node {
                    NodeV::Leaf(ts) => Ok(ExprV::Leaf(ts)),
                    NodeV::Nested(sub) => match field_type(schema, name) {
                        None => Err(ExpandErrorV::UnknownField(ty, name)),
                        Some(d) => expand_spec(reg, sub, d),
                    },
                };
                match v {
                    Err(e) => Err(e),
                    Ok(x) => Ok(init.push((name, x))),
                }
            },
        }
    }
}

proof fn lemma_error_persists(
    reg: Registry,
    schema: Seq<(Seq<char>, Seq<char>)>,
    ty: Seq<char>,
    fs: Seq<(Seq<char>, NodeV)>,
    n: int,
)
    requires
        0 <= n <= fs.len(),
        expand_fields_spec(reg, schema, ty, fs.subrange(0, n)) is Err,
    ensures
        expand_fields_spec(reg, schema, ty, fs) == expand_fields_spec(reg, schema, ty, fs.subrange(0, n)),
    decreases fs.len() - n,
{
    if n < fs.len() {
        assert(fs.subrange(0, n + 1).drop_last() =~= fs.subrange(0, n));
        lemma_error_persists(reg, schema, ty, fs, n + 1);
    } else {
        assert(fs.subrange(0, n) =~= fs);
    }
}

/// Resolves the block `lit` as a value of type `ty`: each nested block takes
/// the type that `ty`'s schema declares for its field; leaves pass unchanged.
pub fn expand(reg: &Registry, lit: RecordLiteral, ty: String) -> (r: Result<ExpandedExpr, ExpandError>)
    ensures
        match r {
            Ok(e) => expand_spec(*reg, lit.model(), ty@) == Ok::<_, ExpandErrorV>(e.model()),
            Err(e) => expand_spec(*reg, lit.model(), ty@) == Err::<ExprV, _>(e.model()),
        },
    decreases lit,
{
    let schema: &Schema = match reg.lookup(&ty) {
        None => {
            return Err(ExpandError::SchemaNotFound(ty));
        },
        Some(s) => s,
    };
    let ghost sm = schema_model(schema@);
    let ghost orig = lit.fields@;
    let ghost om = fields_model(orig);
    proof {
        lemma_fields_model(orig);
        assert(om.subrange(0, 0) =~= Seq::<(Seq<char>, NodeV)>::empty());
        assert(decreases_to!(lit => lit.fields));
    }
    let mut fields = lit.fields;
    let mut out: Vec<(String, ExpandedExpr)> = Vec::new();
    let ghost mut i: int = 0;
    while fields.len() > 0
        invariant
            0 <= i <= orig.len(),
            orig == lit.fields@,
            om == fields_model(orig),
            om.len() == orig.len(),
            forall|n: int| 0 <= n < orig.len() ==> #[trigger] om[n] == (orig[n].0@, orig[n].1.model()),
            fields@ == orig.subrange(i, orig.len() as int),
            reg.schema_of(ty@) == Some(sm),
            sm == schema_model(schema@),
            expand_fields_spec(*reg, sm, ty@, om.subrange(0, i)) == Ok::<_, ExpandErrorV>(exprs_model(out@)),
        decreases fields.len(),
    {
        let (name, node) = fields.remove(0);
        assert((name, node) == orig[i]);
        assert(om.subrange(0, i + 1).drop_last() =~= om.subrange(0, i));
        assert(om.subrange(0, i + 1).last() == om[i]);
        let x: ExpandedExpr = match node {
            LiteralNode::Leaf(ts) => ExpandedExpr::Leaf(ts),
            LiteralNode::Nested(sub) => {
                match find_field_type(schema, &name) {
                    None => {
                        proof {
                            lemma_error_persists(*reg, sm, ty@, om, i + 1);
                        }
                        return Err(ExpandError::UnknownField(ty, name));
                    },
                    Some(d) => {
                        assert(decreases_to!(lit => lit.fields@[i]));
                        assert(decreases_to!(lit => sub));
                        match expand(reg, sub, d) {
                            Ok(e) => e,
                            Err(e) => {
                                proof {
                                    lemma_error_persists(*reg, sm, ty@, om, i + 1);
                                }
                                return Err(e);
                            },
                        }
                    },
                }
            },
        };
        let ghost before = out@;
        out.push((name, x));
        assert(out@.drop_last() =~= before);
        proof {
            i = i + 1;
        }
    }
    assert(om.subrange(0, orig.len() as int) =~= om);
    Ok(ExpandedExpr::Constructor(ty, out))
}

/// How resolved fields `out` answer to a literal block `fs` built as type `ty`:
/// the same field names in the same order; each leaf the very same tokens; each
/// nested block a constructor of the type that `ty`'s schema declares for its
/// field, whose fields answer in turn to the block's.
pub open spec fn mirrors(
    reg: Registry,
    ty: Seq<char>,
    fs: Seq<(Seq<char>, NodeV)>,
    out: Seq<(Seq<char>, ExprV)>,
) -> bool
    decreases fs,
{
    &&& fs.len() == out.len()
    &&& fs.len() > 0 ==> {
        &&& mirrors(reg, ty, fs.drop_last(), out.drop_last())
        &&& fs.last().0 == out.last().0
        &&& match fs.last().1 {
            NodeV::Leaf(a) => out.last().1 matches ExprV::Leaf(b) && a == b,
            NodeV::Nested(sub) => out.last().1 matches ExprV::Ctor(t, o) && reg.schema_of(ty) matches Some(
                s,
            ) && field_type(s, fs.last().0) == Some(t) && mirrors(reg, t, sub, o),
        }
    }
}

/// A successful expansion has the literal's shape: the root becomes a
/// constructor of the requested type, every nested block a constructor of its
/// schema-resolved type, and every leaf stays exactly as written.
pub proof fn lemma_expansion_mirrors_literal(reg: Registry, fs: Seq<(Seq<char>, NodeV)>, ty: Seq<char>)
    requires
        expand_spec(reg, fs, ty) is Ok,
    ensures
        expand_spec(reg, fs, ty) matches Ok(ExprV::Ctor(t, out)) && t == ty && mirrors(reg, ty, fs, out),
    decreases fs, 1nat,
{
    let schema = reg.schema_of(ty)->Some_0;
    lemma_fields_mirror(reg, schema, ty, fs);
}

proof fn lemma_fields_mirror(
    reg: Registry,
    schema: Seq<(Seq<char>, Seq<char>)>,
    ty: Seq<char>,
    fs: Seq<(Seq<char>, NodeV)>,
)
    requires
        reg.schema_of(ty) == Some(schema),
        expand_fields_spec(reg, schema, ty, fs) is Ok,
    ensures
        mirrors(reg, ty, fs, expand_fields_spec(reg, schema, ty, fs)->Ok_0),
    decreases fs, 0nat,
{
    if fs.len() > 0 {
        let init = fs.drop_last();
        lemma_fields_mirror(reg, schema, ty, init);
        let out = expand_fields_spec(reg, schema, ty, fs)->Ok_0;
        assert(out.drop_last() =~= expand_fields_spec(reg, schema, ty, init)->Ok_0);
        match fs.last().1 {
            NodeV::Nested(sub) => {
                let d = field_type(schema, fs.last().0)->Some_0;
                lemma_expansion_mirrors_literal(reg, sub, d);
            },
            NodeV::Leaf(_) => {},
        }
    }
}

proof fn lemma_prefix_step(fs: Seq<(Seq<char>, NodeV)>, i: int)
    requires
        0 <= i < fs.len(),
    ensures
        fs.subrange(0, i + 1).drop_last() == fs.subrange(0, i),
        fs.subrange(0, i + 1).last() == fs[i],
        fs.subrange(0, 0) == Seq::<(Seq<char>, NodeV)>::empty(),
{
    assert(fs.subrange(0, i + 1).drop_last() =~= fs.subrange(0, i));
    assert(fs.subrange(0, 0) =~= Seq::<(Seq<char>, NodeV)>::empty());
}

/// Expanding a block as a type that has no registered schema fails with
/// `SchemaNotFound` naming that type.
pub proof fn lemma_missing_root_schema(reg: Registry, fs: Seq<(Seq<char>, NodeV)>, ty: Seq<char>)
    requires
        reg.schema_of(ty) is None,
    ensures
        expand_spec(reg, fs, ty) == Err::<ExprV, _>(ExpandErrorV::SchemaNotFound(ty)),
{
}

/// A nested block whose field's declared type has no registered schema makes
/// the expansion fail; when that block is the first field, the failure is
/// `SchemaNotFound` naming the declared type.
pub proof fn lemma_missing_nested_schema(
    reg: Registry,
    fs: Seq<(Seq<char>, NodeV)>,
    ty: Seq<char>,
    i: int,
    d: Seq<char>,
)
    requires
        0 <= i < fs.len(),
        fs[i].1 is Nested,
        reg.schema_of(ty) matches Some(s) && field_type(s, fs[i].0) == Some(d),
        reg.schema_of(d) is None,
    ensures
        expand_spec(reg, fs, ty) is Err,
        i == 0 ==> expand_spec(reg, fs, ty) == Err::<ExprV, _>(ExpandErrorV::SchemaNotFound(d)),
{
    let schema = reg.schema_of(ty)->Some_0;
    lemma_prefix_step(fs, i);
    assert(expand_fields_spec(reg, schema, ty, fs.subrange(0, 0)) is Ok);
    lemma_missing_root_schema(reg, fs[i].1->Nested_0, d);
    lemma_error_persists(reg, schema, ty, fs, i + 1);
}

/// A nested block assigned to a field that the enclosing type's schema lacks
/// makes the expansion fail; when that block is the first field, the failure
/// is `UnknownField` naming the type and the field.
pub proof fn lemma_unknown_field(reg: Registry, fs: Seq<(Seq<char>, NodeV)>, ty: Seq<char>, i: int)
    requires
        0 <= i < fs.len(),
        fs[i].1 is Nested,
        reg.schema_of(ty) matches Some(s) && field_type(s, fs[i].0) is None,
    ensures
        expand_spec(reg, fs, ty) is Err,
        i == 0 ==> expand_spec(reg, fs, ty) == Err::<ExprV, _>(ExpandErrorV::UnknownField(ty, fs[0].0)),
{
    let schema = reg.schema_of(ty)->Some_0;
    lemma_prefix_step(fs, i);
    assert(expand_fields_spec(reg, schema, ty, fs.subrange(0, 0)) is Ok);
    lemma_error_persists(reg, schema, ty, fs, i + 1);
}

proof fn lemma_mirrors_names(reg: Registry, ty: Seq<char>, fs: Seq<(Seq<char>, NodeV)>, out: Seq<(Seq<char>, ExprV)>)
    requires
        mirrors(reg, ty, fs, out),
    ensures
        fs.len() == out.len(),
        forall|i: int| 0 <= i < fs.len() ==> #[trigger] out[i].0 == fs[i].0,
    decreases fs.len(),
{
    if fs.len() > 0 {
        lemma_mirrors_names(reg, ty, fs.drop_last(), out.drop_last());
        assert forall|i: int| 0 <= i < fs.len() implies #[trigger] out[i].0 == fs[i].0 by {
            if i < fs.len() - 1 {
                assert(out.drop_last()[i] == out[i]);
                assert(fs.drop_last()[i] == fs[i]);
            }
        }
    }
}

/// A field that the literal leaves out is left out of the constructor too:
/// nothing is filled in from the schema.
pub proof fn lemma_omitted_field_absent(
    reg: Registry,
    fs: Seq<(Seq<char>, NodeV)>,
    ty: Seq<char>,
    f: Seq<char>,
)
    requires
        expand_spec(reg, fs, ty) is Ok,
        forall|i: int| 0 <= i < fs.len() ==> #[trigger] fs[i].0 != f,
    ensures
        expand_spec(reg, fs, ty) matches Ok(ExprV::Ctor(_, out)) && forall|i: int|
            0 <= i < out.len() ==> #[trigger] out[i].0 != f,
{
    lemma_expansion_mirrors_literal(reg, fs, ty);
    let out = expand_spec(reg, fs, ty)->Ok_0->Ctor_1;
    lemma_mirrors_names(reg, ty, fs, out);
}

/// A block of leaves expands whenever its type is registered, whichever of the
/// schema's fields it gives: leaving fields out is no failure.
pub proof fn lemma_leaf_block_expands(reg: Registry, fs: Seq<(Seq<char>, NodeV)>, ty: Seq<char>)
    requires
        reg.schema_of(ty) is Some,
        forall|i: int| 0 <= i < fs.len() ==> #[trigger] fs[i].1 is Leaf,
    ensures
        expand_spec(reg, fs, ty) is Ok,
{
    lemma_leaf_fields_expand(reg, reg.schema_of(ty)->Some_0, ty, fs);
}

proof fn lemma_leaf_fields_expand(
    reg: Registry,
    schema: Seq<(Seq<char>, Seq<char>)>,
    ty: Seq<char>,
    fs: Seq<(Seq<char>, NodeV)>,
)
    requires
        forall|i: int| 0 <= i < fs.len() ==> #[trigger] fs[i].1 is Leaf,
    ensures
        expand_fields_spec(reg, schema, ty, fs) is Ok,
    decreases fs.len(),
{
    if fs.len() > 0 {
        let init = fs.drop_last();
        assert forall|i: int| 0 <= i < init.len() implies #[trigger] init[i].1 is Leaf by {
            assert(init[i] == fs[i]);
        }
        lemma_leaf_fields_expand(reg, schema, ty, init);
        assert(fs.last().1 is Leaf);
    }
}

/// Whether some nested block, at any depth of the block `fs` built as type
/// `ty`, is assigned to a field `f` that the schema of its enclosing type `t`
/// lacks, every type on the way there being registered.
pub open spec fn unknown_in(reg: Registry, ty: Seq<char>, fs: Seq<(Seq<char>, NodeV)>, t: Seq<char>, f: Seq<char>) -> bool
    decreases fs,
{
    fs.len() > 0 && (unknown_in(reg, ty, fs.drop_last(), t, f) || match fs.last().1 {
        NodeV::Leaf(_) => false,
        NodeV::Nested(sub) => match reg.schema_of(ty) {
            None => false,
            Some(s) => match field_type(s, fs.last().0) {
                None => t == ty && f == fs.last().0,
                Some(d) => unknown_in(reg, d, sub, t, f),
            },
        },
    })
}

/// An expansion fails with `UnknownField(t, f)` only if some nested block is
/// assigned to a field `f` that the schema of its enclosing type `t` lacks.
pub proof fn lemma_unknown_field_only_if(
    reg: Registry,
    fs: Seq<(Seq<char>, NodeV)>,
    ty: Seq<char>,
    t: Seq<char>,
    f: Seq<char>,
)
    requires
        expand_spec(reg, fs, ty) == Err::<ExprV, _>(ExpandErrorV::UnknownField(t, f)),
    ensures
        unknown_in(reg, ty, fs, t, f),
    decreases fs, 1nat,
{
    lemma_fields_unknown_only_if(reg, reg.schema_of(ty)->Some_0, ty, fs, t, f);
}

proof fn lemma_fields_unknown_only_if(
    reg: Registry,
    schema: Seq<(Seq<char>, Seq<char>)>,
    ty: Seq<char>,
    fs: Seq<(Seq<char>, NodeV)>,
    t: Seq<char>,
    f: Seq<char>,
)
    requires
        reg.schema_of(ty) == Some(schema),
        expand_fields_spec(reg, schema, ty, fs) == Err::<Seq<(Seq<char>, ExprV)>, _>(ExpandErrorV::UnknownField(t, f)),
    ensures
        unknown_in(reg, ty, fs, t, f),
    decreases fs, 0nat,
{
    let init = fs.drop_last();
    if expand_fields_spec(reg, schema, ty, init) is Err {
        lemma_fields_unknown_only_if(reg, schema, ty, init, t, f);
    } else {
        match fs.last().1 {
            NodeV::Nested(sub) => {
                if let Some(d) = field_type(schema, fs.last().0) {
                    lemma_unknown_field_only_if(reg, sub, d, t, f);
                }
            },
            NodeV::Leaf(_) => {},
        }
    }
}

/// A nested block assigned, at any depth, to a field that its enclosing type's
/// schema lacks makes the expansion fail.
pub proof fn lemma_unknown_field_if(
    reg: Registry,
    fs: Seq<(Seq<char>, NodeV)>,
    ty: Seq<char>,
    t: Seq<char>,
    f: Seq<char>,
)
    requires
        unknown_in(reg, ty, fs, t, f),
    ensures
        expand_spec(reg, fs, ty) is Err,
    decreases fs, 1nat,
{
    if let Some(schema) = reg.schema_of(ty) {
        lemma_fields_unknown_if(reg, schema, ty, fs, t, f);
    }
}

proof fn lemma_fields_unknown_if(
    reg: Registry,
    schema: Seq<(Seq<char>, Seq<char>)>,
    ty: Seq<char>,
    fs: Seq<(Seq<char>, NodeV)>,
    t: Seq<char>,
    f: Seq<char>,
)
    requires
        reg.schema_of(ty) == Some(schema),
        unknown_in(reg, ty, fs, t, f),
    ensures
        expand_fields_spec(reg, schema, ty, fs) is Err,
    decreases fs, 0nat,
{
    let init = fs.drop_last();
    if unknown_in(reg, ty, init, t, f) {
        lemma_fields_unknown_if(reg, schema, ty, init, t, f);
    } else {
        match fs.last().1 {
            NodeV::Nested(sub) => {
                if let Some(d) = field_type(schema, fs.last().0) {
                    lemma_unknown_field_if(reg, sub, d, t, f);
                }
            },
            NodeV::Leaf(_) => {},
        }
    }
}

} // verus!
