//! Prints a resolved constructor tree in the host language's struct syntax:
//! `Name { field: value, ... }`.
use vstd::prelude::*;
use crate::expand::{exprs_model, ExpandedExpr, ExprV};
use crate::tokens::{print_toks, push_char, toks_text};

verus! {

broadcast use vstd::std_specs::vec::group_vec_axioms, vstd::seq::group_seq_axioms;

/// The text of a resolved literal.
pub open spec fn render_spec(e: ExprV) -> Seq<char>
    decreases e, 1nat,
{
    match e {
        ExprV::Leaf(ts) => toks_text(ts),
        ExprV::Ctor(name, fs) => if fs.len() == 0 {
            name + seq![' ', '{', '}']
        } else {
            name + seq![' ', '{', ' '] + render_fields(fs) + seq![' ', '}']
        },
    }
}

/// The text of a constructor's fields, `field: value` separated by `, `.
pub open spec fn render_fields(fs: Seq<(Seq<char>, ExprV)>) -> Seq<char>
    decreases fs, 0nat,
{
    if fs.len() == 0 {
        seq![]
    } else if fs.len() == 1 {
        fs[0].0 + seq![':', ' '] + render_spec(fs[0].1)
    } else {
        render_fields(fs.drop_last()) + seq![',', ' '] + fs.last().0 + seq![':', ' '] + render_spec(
            fs.last().1,
        )
    }
}

fn push_two(out: &mut String, a: char, b: char)
    ensures
        final(out)@ == old(out)@ + seq![a, b],
{
    push_char(out, a);
    push_char(out, b);
    assert(final(out)@ =~= old(out)@ + seq![a, b]);
}

/// Appends the text of `e`.
fn push_expr(out: &mut String, e: &ExpandedExpr)
    ensures
        final(out)@ == old(out)@ + render_spec(e.model()),
    decreases e,
{
    match e {
        ExpandedExpr::Leaf(ts) => {
            let s = print_toks(ts);
            out.append(s.as_str());
        },
        ExpandedExpr::Constructor(name, fs) => {
            let ghost fm = exprs_model(fs@);
            proof {
                lemma_exprs_model(fs@);
            }
            out.append(name.as_str());
            if fs.len() == 0 {
                push_char(out, ' ');
                push_two(out, '{', '}');
            } else {
                push_two(out, ' ', '{');
                push_char(out, ' ');
                let ghost mid = out@;
                let mut i: usize = 0;
                assert(decreases_to!(*e => fs@));
                assert(fm.subrange(0, 0) =~= Seq::<(Seq<char>, ExprV)>::empty());
                while i < fs.len()
                    invariant
                        i <= fs.len(),
                        decreases_to!(*e => fs@),
                        fm == exprs_model(fs@),
                        fm.len() == fs.len(),
                        forall|n: int| 0 <= n < fs.len() ==> #[trigger] fm[n] == (fs@[n].0@, fs@[n].1.model()),
                        out@ == mid + render_fields(fm.subrange(0, i as int)),
                    decreases fs.len() - i,
                {
                    if i > 0 {
                        push_two(out, ',', ' ');
                    }
                    out.append(fs[i].0.as_str());
                    push_two(out, ':', ' ');
                    assert(decreases_to!(*e => fs@[i as int].1));
                    push_expr(out, &fs[i].1);
                    let ghost pre = fm.subrange(0, i as int);
                    let ghost next = fm.subrange(0, i + 1);
                    assert(next.drop_last() =~= pre);
                    assert(next.last() == fm[i as int]);
                    assert(out@ =~= mid + render_fields(next));
                    i += 1;
                }
                assert(fm.subrange(0, fs.len() as int) =~= fm);
                push_two(out, ' ', '}');
            }
        },
    }
    assert(final(out)@ =~= old(out)@ + render_spec(e.model()));
}

pub proof fn lemma_exprs_model(fs: Seq<(String, ExpandedExpr)>)
    ensures
        exprs_model(fs).len() == fs.len(),
        forall|i: int| 0 <= i < fs.len() ==> #[trigger] exprs_model(fs)[i] == (fs[i].0@, fs[i].1.model()),
    decreases fs.len(),
{
    if fs.len() > 0 {
        lemma_exprs_model(fs.drop_last());
    }
}

/// The text of a resolved literal, as host-language source.
pub fn render(e: &ExpandedExpr) -> (r: String)
    ensures
        r@ == render_spec(e.model()),
{
    let mut out = String::new();
    push_expr(&mut out, e);
    assert(out@ =~= render_spec(e.model()));
    out
}

} // verus!
