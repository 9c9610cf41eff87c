//! A plain model of the host language's token trees, and how they print.
use vstd::prelude::*;

verus! {

broadcast use vstd::std_specs::vec::group_vec_axioms, vstd::seq::group_seq_axioms;

/// Kind of delimiter around a token group.
#[derive(Clone, Copy, PartialEq, Eq, Structural, Debug)]
pub enum Delim {
    Paren,
    Bracket,
    Brace,
    Invisible,
}

/// One token tree of the host language.
#[derive(Debug)]
pub enum Tok {
    /// An identifier or keyword.
    Ident(String),
    /// A punctuation character; `true` when it is joined to the next one (`::`, `==`).
    Punct(char, bool),
    /// A literal, as written in the source (`30`, `"john"`).
    Lit(String),
    /// A delimited group of token trees. A group without visible delimiters
    /// prints in parentheses, so that its contents keep their grouping.
    Group(Delim, Vec<Tok>),
}

pub open spec fn open_char(d: Delim) -> Seq<char> {
    match d {
        Delim::Paren => seq!['('],
        Delim::Bracket => seq!['['],
        Delim::Brace => seq!['{'],
        Delim::Invisible => seq!['('],
    }
}

pub open spec fn close_char(d: Delim) -> Seq<char> {
    match d {
        Delim::Paren => seq![')'],
        Delim::Bracket => seq![']'],
        Delim::Brace => seq!['}'],
        Delim::Invisible => seq![')'],
    }
}

/// What stands between a token and the next one when printed: nothing after a
/// joined punctuation character, one space otherwise.
pub open spec fn gap_after(t: Tok) -> Seq<char> {
    match t {
        Tok::Punct(_, true) => seq![],
        _ => seq![' '],
    }
}

/// The text of one token tree.
pub open spec fn tok_text(t: Tok) -> Seq<char>
    decreases t,
{
    match t {
        Tok::Ident(s) => s@,
        Tok::Punct(c, _) => seq![c],
        Tok::Lit(s) => s@,
        Tok::Group(d, ts) => open_char(d) + toks_text(ts@) + close_char(d),
    }
}

/// The text of a run of token trees, separated as `gap_after` says.
pub open spec fn toks_text(ts: Seq<Tok>) -> Seq<char>
    decreases ts,
{
    if ts.len() == 0 {
        seq![]
    } else if ts.len() == 1 {
        tok_text(ts[0])
    } else {
        toks_text(ts.drop_last()) + gap_after(ts[ts.len() - 2]) + tok_text(ts.last())
    }
}

/// Relies on `String::push`: appends the one character at the end.
#[verifier::external_body]
pub(crate) fn push_char(s: &mut String, c: char)
    ensures
        final(s)@ == old(s)@.push(c),
{
    s.push(c)
}

fn push_delim(out: &mut String, d: Delim, opening: bool)
    ensures
        final(out)@ == old(out)@ + (if opening { open_char(d) } else { close_char(d) }),
{
    let c = match d {
        Delim::Paren | Delim::Invisible => if opening { '(' } else { ')' },
        Delim::Bracket => if opening { '[' } else { ']' },
        Delim::Brace => if opening { '{' } else { '}' },
    };
    push_char(out, c);
    assert(final(out)@ =~= old(out)@ + (if opening { open_char(d) } else { close_char(d) }));
}

/// Appends the text of one token tree.
pub fn push_tok(out: &mut String, t: &Tok)
    ensures
        final(out)@ == old(out)@ + tok_text(*t),
    decreases t,
{
    match t {
        Tok::Ident(s) => {
            out.append(s.as_str());
        },
        Tok::Punct(c, _) => {
            push_char(out, *c);
        },
        Tok::Lit(s) => {
            out.append(s.as_str());
        },
        Tok::Group(d, ts) => {
            push_delim(out, *d, true);
            push_toks(out, ts);
            push_delim(out, *d, false);
        },
    }
    assert(final(out)@ =~= old(out)@ + tok_text(*t));
}

/// Appends the text of a run of token trees.
pub fn push_toks(out: &mut String, ts: &Vec<Tok>)
    ensures
        final(out)@ == old(out)@ + toks_text(ts@),
    decreases ts,
{
    let ghost start = out@;
    let mut i: usize = 0;
    assert(ts@.subrange(0, 0) =~= Seq::<Tok>::empty());
    while i < ts.len()
        invariant
            i <= ts.len(),
            out@ == start + toks_text(ts@.subrange(0, i as int)),
        decreases ts.len() - i,
    {
        let ghost before = out@;
        if i > 0 {
            match &ts[i - 1] {
                Tok::Punct(_, true) => {},
                _ => {
                    push_char(out, ' ');
                },
            }
        }
        assert(decreases_to!(ts => ts[i as int]));
        push_tok(out, &ts[i]);
        let ghost pre = ts@.subrange(0, i as int);
        let ghost next = ts@.subrange(0, i + 1);
        assert(next.drop_last() =~= pre);
        if i > 0 {
            assert(next[next.len() - 2] == ts@[i - 1]);
        }
        assert(out@ =~= start + toks_text(next));
        i += 1;
    }
    assert(ts@.subrange(0, ts.len() as int) =~= ts@);
}

/// The text of a run of token trees.
pub fn print_toks(ts: &Vec<Tok>) -> (r: String)
    ensures
        r@ == toks_text(ts@),
{
    let mut out = String::new();
    push_toks(&mut out, ts);
    assert(out@ =~= toks_text(ts@));
    out
}

} // verus!
