//! Untyped nested literals: `{ name = value, ... }` blocks whose values are
//! either opaque leaf expressions or further blocks, and their parser.
use vstd::prelude::*;
use crate::tokens::{print_toks, toks_text, Delim, Tok};

verus! {

broadcast use vstd::std_specs::vec::group_vec_axioms, vstd::seq::group_seq_axioms;

/// The value assigned to one field of a literal block.
#[derive(Debug)]
pub enum LiteralNode {
    /// An expression passed through untouched.
    Leaf(Vec<Tok>),
    /// A nested block, whose type is found from the enclosing field.
    Nested(RecordLiteral),
}

/// One literal block: its field assignments in textual order, each name once.
#[derive(Debug)]
pub struct RecordLiteral {
    pub fields: Vec<(String, LiteralNode)>,
}

/// Mathematical model of a literal value.
pub enum NodeV {
    Leaf(Seq<Tok>),
    Nested(Seq<(Seq<char>, NodeV)>),
}

/// Why a literal could not be read.
#[derive(Clone, Copy, PartialEq, Eq, Structural, Debug)]
pub enum ParseIssue {
    /// The literal does not start with the name of its type.
    ExpectedTypeName,
    /// The type name is not followed by exactly one brace block.
    ExpectedBody,
    /// A field assignment does not start with an identifier.
    ExpectedFieldName,
    /// A field name is not followed by `=`.
    ExpectedEquals,
    /// Nothing follows the `=` of a field.
    ExpectedValue,
    /// No run of tokens after a field's `=`, up to a `,` or the end of the
    /// block, reads as one expression.
    ExpectedExpression,
    /// A field's value is followed by something other than `,`.
    ExpectedComma,
}

impl LiteralNode {
    pub open spec fn model(&self) -> NodeV
        decreases self,
    {
        match self {
            LiteralNode::Leaf(ts) => NodeV::Leaf(ts@),
            LiteralNode::Nested(r) => NodeV::Nested(fields_model(r.fields@)),
        }
    }
}

impl RecordLiteral {
    pub open spec fn model(&self) -> Seq<(Seq<char>, NodeV)> {
        fields_model(self.fields@)
    }
}

pub open spec fn fields_model(fs: Seq<(String, LiteralNode)>) -> Seq<(Seq<char>, NodeV)>
    decreases fs,
{
    if fs.len() == 0 {
        seq![]
    } else {
        fields_model(fs.drop_last()).push((fs.last().0@, fs.last().1.model()))
    }
}

pub proof fn lemma_fields_model(fs: Seq<(String, LiteralNode)>)
    ensures
        fields_model(fs).len() == fs.len(),
        forall|i: int|
            0 <= i < fs.len() ==> #[trigger] fields_model(fs)[i] == (fs[i].0@, fs[i].1.model()),
    decreases fs.len(),
{
    if fs.len() > 0 {
        lemma_fields_model(fs.drop_last());
    }
}

pub open spec fn is_punct(t: Tok, c: char) -> bool {
    match t {
        Tok::Punct(x, _) => x == c,
        _ => false,
    }
}

/// Whether `text` reads as exactly one expression of the host language, with
/// nothing left over.
pub uninterp spec fn is_expression(text: Seq<char>) -> bool;

/// Relies on `syn::parse_str::<syn::Expr>`: it succeeds exactly when the whole
/// text parses as one expression.
#[verifier::external_body]
fn parses_as_expression(text: &String) -> (r: bool)
    ensures
        r == is_expression(text@),
{
    syn::parse_str::<syn::Expr>(text).is_ok()
}

/// Whether a leaf may end before position `m`: at the end, or before a `,`.
pub open spec fn leaf_boundary(ts: Seq<Tok>, m: int) -> bool {
    m == ts.len() || (0 <= m < ts.len() && is_punct(ts[m], ','))
}

/// Where a leaf expression that starts at `j` ends, looking from `m` on: at the
/// first boundary before which its tokens read as one expression.
pub open spec fn leaf_end(ts: Seq<Tok>, j: int, m: int) -> Option<int>
    decreases ts.len() + 1 - m,
{
    if m > ts.len() {
        None
    } else if leaf_boundary(ts, m) && is_expression(toks_text(ts.subrange(j, m))) {
        Some(m)
    } else {
        leaf_end(ts, j, m + 1)
    }
}

pub proof fn lemma_leaf_end(ts: Seq<Tok>, j: int, m: int)
    ensures
        leaf_end(ts, j, m) matches Some(r) ==> m <= r <= ts.len() && leaf_boundary(ts, r),
    decreases ts.len() + 1 - m,
{
    if m <= ts.len() && !(leaf_boundary(ts, m) && is_expression(toks_text(ts.subrange(j, m)))) {
        lemma_leaf_end(ts, j, m + 1);
    }
}

/// Index of the last field named `k`.
pub open spec fn key_index(fs: Seq<(Seq<char>, NodeV)>, k: Seq<char>) -> Option<int>
    decreases fs.len(),
{
    if fs.len() == 0 {
        None
    } else if fs.last().0 == k {
        Some(fs.len() - 1)
    } else {
        key_index(fs.drop_last(), k)
    }
}

/// Records one assignment: it replaces an earlier one to the same field, in
/// that field's place, or else comes last.
pub open spec fn assign(fs: Seq<(Seq<char>, NodeV)>, f: (Seq<char>, NodeV)) -> Seq<(Seq<char>, NodeV)> {
    match key_index(fs, f.0) {
        Some(j) => fs.update(j, f),
        None => fs.push(f),
    }
}

/// The assignments of a block, each field once with its last value.
pub open spec fn dedup(fs: Seq<(Seq<char>, NodeV)>) -> Seq<(Seq<char>, NodeV)>
    decreases fs.len(),
{
    if fs.len() == 0 {
        fs
    } else {
        assign(dedup(fs.drop_last()), fs.last())
    }
}

/// The assignments, as written, of the tokens inside a brace block from
/// position `i` on.
pub open spec fn parse_fields_spec(ts: Seq<Tok>, i: nat) -> Result<Seq<(Seq<char>, NodeV)>, ParseIssue>
    decreases ts, ts.len() - i,
{
    if i >= ts.len() {
        Ok(seq![])
    } else {
        let k = i as int;
        match ts[k] {
            Tok::Ident(name) => {
                if k + 1 >= ts.len() || !is_punct(ts[k + 1], '=') {
                    Err(ParseIssue::ExpectedEquals)
                } else if k + 2 >= ts.len() {
                    Err(ParseIssue::ExpectedValue)
                } else {
                    proof {
                        lemma_leaf_end(ts, k + 2, k + 3);
                    }
                    let v: Result<(NodeV, int), ParseIssue> = match ts[k + 2] {
                        Tok::Group(Delim::Brace, inner) => match parse_body_spec(inner@) {
                            Ok(f) => Ok((NodeV::Nested(f), k + 3)),
                            Err(e) => Err(e),
                        },
                        Tok::Punct(',', _) => Err(ParseIssue::ExpectedValue),
                        _ => match leaf_end(ts, k + 2, k + 3) {
                            Some(j) => Ok((NodeV::Leaf(ts.subrange(k + 2, j)), j)),
                            None => Err(ParseIssue::ExpectedExpression),
                        },
                    };
                    match v {
                        Err(e) => Err(e),
                        Ok((node, next)) => {
                            if next >= ts.len() {
                                Ok(seq![(name@, node)])
                            } else if !is_punct(ts[next], ',') {
                                Err(ParseIssue::ExpectedComma)
                            } else {
                                match parse_fields_spec(ts, (next + 1) as nat) {
                                    Ok(rest) => Ok(seq![(name@, node)] + rest),
                                    Err(e) => Err(e),
                                }
                            }
                        },
                    }
                }
            },
            _ => Err(ParseIssue::ExpectedFieldName),
        }
    }
}

/// The literal that the tokens inside a brace block spell, or the first problem.
pub open spec fn parse_body_spec(ts: Seq<Tok>) -> Result<Seq<(Seq<char>, NodeV)>, ParseIssue>
    decreases ts, ts.len() + 1,
{
    match parse_fields_spec(ts, 0) {
        Ok(f) => Ok(dedup(f)),
        Err(e) => Err(e),
    }
}


/// The assignments of `fs` followed by the outcome `r` of reading the rest.
pub open spec fn prepend(
    fs: Seq<(Seq<char>, NodeV)>,
    r: Result<Seq<(Seq<char>, NodeV)>, ParseIssue>,
) -> Result<Seq<(Seq<char>, NodeV)>, ParseIssue> {
    match r {
        Ok(rest) => Ok(fs + rest),
        Err(e) => Err(e),
    }
}

/// A whole literal: a type name followed by one brace block.
pub open spec fn parse_literal_spec(ts: Seq<Tok>) -> Result<(Seq<char>, Seq<(Seq<char>, NodeV)>), ParseIssue> {
    if ts.len() == 0 {
        Err(ParseIssue::ExpectedTypeName)
    } else {
        match ts[0] {
            Tok::Ident(name) => {
                if ts.len() != 2 {
                    Err(ParseIssue::ExpectedBody)
                } else {
                    match ts[1] {
                        Tok::Group(Delim::Brace, inner) => match parse_body_spec(inner@) {
                            Ok(f) => Ok((name@, f)),
                            Err(e) => Err(e),
                        },
                        _ => Err(ParseIssue::ExpectedBody),
                    }
                }
            },
            _ => Err(ParseIssue::ExpectedTypeName),
        }
    }
}

pub fn is_punct_tok(t: &Tok, c: char) -> (r: bool)
    ensures
        r == is_punct(*t, c),
{
    match t {
        Tok::Punct(x, _) => *x == c,
        _ => false,
    }
}

/// Position of the last assignment to `k` in `fs`.
fn find_key(fs: &Vec<(String, LiteralNode)>, k: &String) -> (r: Option<usize>)
    ensures
        match r {
            Some(j) => key_index(fields_model(fs@), k@) == Some(j as int) && j < fs.len(),
            None => key_index(fields_model(fs@), k@) is None,
        },
{
    let ghost m = fields_model(fs@);
    proof {
        lemma_fields_model(fs@);
        assert(m.subrange(0, fs.len() as int) =~= m);
    }
    let mut i: usize = fs.len();
    while i > 0
        invariant
            i <= fs.len(),
            m == fields_model(fs@),
            m.len() == fs.len(),
            key_index(m, k@) == key_index(m.subrange(0, i as int), k@),
        decreases i,
    {
        let ghost pre = m.subrange(0, i as int);
        assert(pre.drop_last() =~= m.subrange(0, i - 1));
        assert(pre.last() == m[i - 1]);
        proof {
            lemma_fields_model(fs@);
        }
        if fs[i - 1].0 == *k {
            return Some(i - 1);
        }
        i -= 1;
    }
    None
}

/// Keeps one assignment per field: a later one replaces an earlier one in its place.
pub fn dedup_fields(raw: Vec<(String, LiteralNode)>) -> (r: Vec<(String, LiteralNode)>)
    ensures
        fields_model(r@) == dedup(fields_model(raw@)),
{
    let ghost orig = raw@;
    let ghost om = fields_model(orig);
    proof {
        lemma_fields_model(orig);
        assert(om.subrange(0, 0) =~= Seq::<(Seq<char>, NodeV)>::empty());
    }
    let mut raw = raw;
    let mut out: Vec<(String, LiteralNode)> = Vec::new();
    let ghost mut i: int = 0;
    while raw.len() > 0
        invariant
            0 <= i <= orig.len(),
            raw@ == orig.subrange(i, orig.len() as int),
            om == fields_model(orig),
            om.len() == orig.len(),
            forall|n: int| 0 <= n < orig.len() ==> #[trigger] om[n] == (orig[n].0@, orig[n].1.model()),
            fields_model(out@) == dedup(om.subrange(0, i)),
        decreases raw.len(),
    {
        let f = raw.remove(0);
        assert(f == orig[i]);
        let ghost before = out@;
        let ghost fm = (f.0@, f.1.model());
        let j = find_key(&out, &f.0);
        proof {
            lemma_fields_model(before);
        }
        match j {
            Some(j) => {
                out.set(j, f);
                proof {
                    lemma_fields_model(out@);
                    assert(fields_model(out@) =~= fields_model(before).update(j as int, fm));
                }
            },
            None => {
                out.push(f);
                assert(out@.drop_last() =~= before);
            },
        }
        assert(om.subrange(0, i + 1).drop_last() =~= om.subrange(0, i));
        assert(om.subrange(0, i + 1).last() == fm);
        proof {
            i = i + 1;
        }
    }
    assert(om.subrange(0, orig.len() as int) =~= om);
    out
}

/// Reads the assignments inside one brace block, in textual order.
fn parse_fields(toks: Vec<Tok>) -> (r: Result<Vec<(String, LiteralNode)>, ParseIssue>)
    ensures
        match r {
            Ok(fs) => parse_fields_spec(toks@, 0) == Ok::<_, ParseIssue>(fields_model(fs@)),
            Err(e) => parse_fields_spec(toks@, 0) == Err::<Seq<(Seq<char>, NodeV)>, _>(e),
        },
    decreases toks@, 0nat,
{
    let ghost orig = toks@;
    let ghost len = orig.len();
    let mut ts = toks;
    let mut out: Vec<(String, LiteralNode)> = Vec::new();
    let ghost mut pos: nat = 0;
    assert(fields_model(out@) + Seq::<(Seq<char>, NodeV)>::empty() =~= fields_model(out@));
    assert(orig.subrange(0, len as int) =~= orig);
    loop
        invariant
            pos <= len,
            orig == toks@,
            len == orig.len(),
            ts@ == orig.subrange(pos as int, len as int),
            parse_fields_spec(orig, 0) == prepend(fields_model(out@), parse_fields_spec(orig, pos)),
        decreases ts.len(),
    {
        let ghost k = pos as int;
        if ts.len() == 0 {
            assert(fields_model(out@) + Seq::<(Seq<char>, NodeV)>::empty() =~= fields_model(out@));
            return Ok(out);
        }
        let first = ts.remove(0);
        assert(first == orig[k]);
        let name = match first {
            Tok::Ident(s) => s,
            _ => {
                return Err(ParseIssue::ExpectedFieldName);
            },
        };
        if ts.len() == 0 {
            return Err(ParseIssue::ExpectedEquals);
        }
        let eq = ts.remove(0);
        assert(eq == orig[k + 1]);
        if !is_punct_tok(&eq, '=') {
            return Err(ParseIssue::ExpectedEquals);
        }
        if ts.len() == 0 {
            return Err(ParseIssue::ExpectedValue);
        }
        proof {
            lemma_leaf_end(orig, k + 2, k + 3);
        }
        let node: LiteralNode;
        let ghost next: int;
        let v = ts.remove(0);
        assert(v == orig[k + 2]);
        match v {
            Tok::Group(Delim::Brace, inner) => {
                assert(decreases_to!(orig => orig[k + 2]));
                assert(decreases_to!(orig => inner@));
                match parse_body(inner) {
                    Ok(lit) => {
                        node = LiteralNode::Nested(lit);
                    },
                    Err(e) => {
                        return Err(e);
                    },
                }
                proof {
                    next = k + 3;
                }
            },
            v => {
                if is_punct_tok(&v, ',') {
                    return Err(ParseIssue::ExpectedValue);
                }
                let mut leaf: Vec<Tok> = Vec::new();
                leaf.push(v);
                let ghost mut m: int = k + 3;
                let mut found = false;
                assert(leaf@ =~= orig.subrange(k + 2, k + 3));
                loop
                    invariant_except_break
                        !found,
                    invariant
                        0 <= k,
                        k + 3 <= m <= len,
                        len == orig.len(),
                        ts@ == orig.subrange(m, len as int),
                        leaf@ == orig.subrange(k + 2, m),
                        leaf_end(orig, k + 2, k + 3) == leaf_end(orig, k + 2, m),
                    ensures
                        k + 3 <= m <= len,
                        ts@ == orig.subrange(m, len as int),
                        leaf@ == orig.subrange(k + 2, m),
                        found ==> leaf_end(orig, k + 2, k + 3) == Some(m),
                        !found ==> leaf_end(orig, k + 2, k + 3) is None,
                    decreases ts.len(),
                {
                    if ts.len() == 0 || is_punct_tok(&ts[0], ',') {
                        let text = print_toks(&leaf);
                        if parses_as_expression(&text) {
                            found = true;
                            break;
                        }
                        if ts.len() == 0 {
                            assert(leaf_end(orig, k + 2, m + 1) is None);
                            break;
                        }
                    }
                    let t = ts.remove(0);
                    assert(t == orig[m]);
                    leaf.push(t);
                    proof {
                        m = m + 1;
                    }
                    assert(leaf@ =~= orig.subrange(k + 2, m));
                }
                if !found {
                    return Err(ParseIssue::ExpectedExpression);
                }
                proof {
                    next = m;
                }
                node = LiteralNode::Leaf(leaf);
            },
        }
        assert(ts@ == orig.subrange(next, len as int));
        let ghost fm = seq![(name@, node.model())];
        let ghost before = out@;
        out.push((name, node));
        assert(out@.drop_last() =~= before);
        assert(fields_model(out@) == fields_model(before) + fm);
        if ts.len() == 0 {
            assert(parse_fields_spec(orig, pos) == Ok::<_, ParseIssue>(fm));
            return Ok(out);
        }
        let comma = ts.remove(0);
        assert(comma == orig[next]);
        if !is_punct_tok(&comma, ',') {
            return Err(ParseIssue::ExpectedComma);
        }
        assert(fields_model(before) + (fm + parse_fields_spec(orig, (next + 1) as nat)->Ok_0)
            =~= fields_model(out@) + parse_fields_spec(orig, (next + 1) as nat)->Ok_0);
        proof {
            pos = (next + 1) as nat;
        }
    }
}

/// Reads the assignments inside one brace block; a field assigned more than
/// once keeps its last value, in the place of its first assignment.
pub fn parse_body(ts: Vec<Tok>) -> (r: Result<RecordLiteral, ParseIssue>)
    ensures
        match r {
            Ok(lit) => parse_body_spec(ts@) == Ok::<_, ParseIssue>(lit.model()),
            Err(e) => parse_body_spec(ts@) == Err::<Seq<(Seq<char>, NodeV)>, _>(e),
        },
    decreases ts@, 1nat,
{
    match parse_fields(ts) {
        Ok(raw) => Ok(RecordLiteral { fields: dedup_fields(raw) }),
        Err(e) => Err(e),
    }
}

/// Reads a whole literal: the root type's name followed by one brace block.
pub fn parse_literal(ts: Vec<Tok>) -> (r: Result<(String, RecordLiteral), ParseIssue>)
    ensures
        match r {
            Ok((name, lit)) => parse_literal_spec(ts@) == Ok::<_, ParseIssue>((name@, lit.model())),
            Err(e) => parse_literal_spec(ts@) == Err::<(Seq<char>, Seq<(Seq<char>, NodeV)>), _>(e),
        },
{
    let ghost orig = ts@;
    let mut ts = ts;
    if ts.len() == 0 {
        return Err(ParseIssue::ExpectedTypeName);
    }
    let n = ts.len();
    let first = ts.remove(0);
    assert(first == orig[0]);
    let name = match first {
        Tok::Ident(s) => s,
        _ => {
            return Err(ParseIssue::ExpectedTypeName);
        },
    };
    if n != 2 {
        return Err(ParseIssue::ExpectedBody);
    }
    let body = ts.remove(0);
    assert(body == orig[1]);
    match body {
        Tok::Group(Delim::Brace, inner) => match parse_body(inner) {
            Ok(lit) => Ok((name, lit)),
            Err(e) => Err(e),
        },
        _ => Err(ParseIssue::ExpectedBody),
    }
}

/// The value of the last assignment to `k` in `fs`.
pub open spec fn last_value(fs: Seq<(Seq<char>, NodeV)>, k: Seq<char>) -> Option<NodeV>
    decreases fs.len(),
{
    if fs.len() == 0 {
        None
    } else if fs.last().0 == k {
        Some(fs.last().1)
    } else {
        last_value(fs.drop_last(), k)
    }
}

proof fn lemma_key_index(fs: Seq<(Seq<char>, NodeV)>, k: Seq<char>)
    ensures
        match key_index(fs, k) {
            Some(j) => 0 <= j < fs.len() && fs[j].0 == k && forall|m: int|
                j < m < fs.len() ==> #[trigger] fs[m].0 != k,
            None => forall|m: int| 0 <= m < fs.len() ==> #[trigger] fs[m].0 != k,
        },
    decreases fs.len(),
{
    if fs.len() > 0 {
        let init = fs.drop_last();
        lemma_key_index(init, k);
        if fs.last().0 != k {
            assert forall|m: int| 0 <= m < fs.len() - 1 implies #[trigger] fs[m].0 == init[m].0 by {}
            match key_index(init, k) {
                Some(j) => {
                    assert forall|m: int| j < m < fs.len() implies #[trigger] fs[m].0 != k by {
                        if m < fs.len() - 1 {
                            assert(init[m].0 != k);
                        }
                    }
                },
                None => {
                    assert forall|m: int| 0 <= m < fs.len() implies #[trigger] fs[m].0 != k by {
                        if m < fs.len() - 1 {
                            assert(init[m].0 != k);
                        }
                    }
                },
            }
        }
    }
}

/// A block that assigns a field more than once keeps only the last value:
/// after deduplication every field name stands once, the entry for `k` holds
/// the value of the last assignment to `k`, and a name never assigned is absent.
pub proof fn lemma_last_assignment_wins(fs: Seq<(Seq<char>, NodeV)>, k: Seq<char>)
    ensures
        forall|a: int, b: int|
            0 <= a < b < dedup(fs).len() ==> #[trigger] dedup(fs)[a].0 != #[trigger] dedup(fs)[b].0,
        match last_value(fs, k) {
            Some(v) => exists|j: int| 0 <= j < dedup(fs).len() && #[trigger] dedup(fs)[j] == (k, v),
            None => forall|j: int| 0 <= j < dedup(fs).len() ==> #[trigger] dedup(fs)[j].0 != k,
        },
    decreases fs.len(),
{
    if fs.len() > 0 {
        let init = fs.drop_last();
        let x = fs.last();
        let d = dedup(init);
        let d2 = dedup(fs);
        lemma_last_assignment_wins(init, k);
        lemma_key_index(d, x.0);
        assert(d2 == assign(d, x));
        match key_index(d, x.0) {
            Some(j) => {
                assert(d2 == d.update(j, x));
                assert forall|m: int| 0 <= m < d.len() implies #[trigger] d2[m].0 == d[m].0 by {}
            },
            None => {
                assert(d2 == d.push(x));
                assert forall|m: int| 0 <= m < d.len() implies #[trigger] d2[m] == d[m] by {}
            },
        }
        assert forall|a: int, b: int| 0 <= a < b < d2.len() implies #[trigger] d2[a].0 != #[trigger] d2[b].0 by {
            if b < d.len() {
                assert(d2[a].0 == d[a].0 && d2[b].0 == d[b].0);
            }
        }
        if x.0 == k {
            match key_index(d, x.0) {
                Some(j) => {
                    assert(d2[j] == (k, x.1));
                },
                None => {
                    assert(d2[d.len() as int] == (k, x.1));
                },
            }
        } else {
            match last_value(init, k) {
                Some(v) => {
                    let j = choose|j: int| 0 <= j < d.len() && #[trigger] d[j] == (k, v);
                    assert(d2[j] == (k, v));
                },
                None => {
                    assert forall|j: int| 0 <= j < d2.len() implies #[trigger] d2[j].0 != k by {
                        if j < d.len() {
                            assert(d2[j].0 == d[j].0);
                        }
                    }
                },
            }
        }
    }
}

} // verus!
