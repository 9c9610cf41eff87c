//! The table of known record types and their field schemas.
use vstd::prelude::*;

verus! {

broadcast use vstd::std_specs::vec::group_vec_axioms, vstd::seq::group_seq_axioms;

/// A field schema: `(field name, declared type name)` pairs in declaration order.
pub type Schema = Vec<(String, String)>;

pub open spec fn schema_model(fs: Seq<(String, String)>) -> Seq<(Seq<char>, Seq<char>)> {
    fs.map_values(|p: (String, String)| (p.0@, p.1@))
}

/// The schema of the last registration of `name` among `es`.
pub open spec fn last_schema(es: Seq<(String, Schema)>, name: Seq<char>) -> Option<Seq<(Seq<char>, Seq<char>)>>
    decreases es.len(),
{
    if es.len() == 0 {
        None
    } else if es.last().0@ == name {
        Some(schema_model(es.last().1@))
    } else {
        last_schema(es.drop_last(), name)
    }
}

/// The declared type of the last field named `f` in a schema.
pub open spec fn field_type(schema: Seq<(Seq<char>, Seq<char>)>, f: Seq<char>) -> Option<Seq<char>>
    decreases schema.len(),
{
    if schema.len() == 0 {
        None
    } else if schema.last().0 == f {
        Some(schema.last().1)
    } else {
        field_type(schema.drop_last(), f)
    }
}

proof fn lemma_last_schema_update(es: Seq<(String, Schema)>, i: int, x: (String, Schema), n: Seq<char>)
    requires
        0 <= i < es.len(),
        es[i].0@ == x.0@,
        forall|m: int| i < m < es.len() ==> #[trigger] es[m].0@ != x.0@,
    ensures
        last_schema(es.update(i, x), n) == if n == x.0@ {
            Some(schema_model(x.1@))
        } else {
            last_schema(es, n)
        },
    decreases es.len(),
{
    let u = es.update(i, x);
    if i == es.len() - 1 {
        assert(u.drop_last() =~= es.drop_last());
    } else {
        assert(u.drop_last() =~= es.drop_last().update(i, x));
        assert(es.last() == es[es.len() - 1]);
        lemma_last_schema_update(es.drop_last(), i, x, n);
    }
}

/// Record types by name, each with its field schema. Registering a name again
/// replaces its schema.
#[derive(Clone, Debug)]
pub struct Registry {
    entries: Vec<(String, Schema)>,
}

impl Registry {
    /// The schema registered under `name`, if any.
    pub closed spec fn schema_of(&self, name: Seq<char>) -> Option<Seq<(Seq<char>, Seq<char>)>> {
        last_schema(self.entries@, name)
    }

    /// An empty registry.
    pub fn new() -> (r: Registry)
        ensures
            forall|n: Seq<char>| #[trigger] r.schema_of(n) is None,
    {
        Registry { entries: Vec::new() }
    }

    /// Records `fields` as the schema of `ty_name`, replacing any earlier one.
    pub fn register(&mut self, ty_name: String, fields: Schema)
        ensures
            forall|n: Seq<char>| #[trigger] final(self).schema_of(n) == if n == ty_name@ {
                Some(schema_model(fields@))
            } else {
                old(self).schema_of(n)
            },
    {
        let ghost tn = ty_name@;
        let ghost sm = schema_model(fields@);
        match self.find_entry(&ty_name) {
            Some(i) => {
                let ghost es = self.entries@;
                let ghost x = (ty_name, fields);
                self.entries.set(i, (ty_name, fields));
                assert forall|n: Seq<char>| #[trigger] self.schema_of(n) == if n == tn {
                    Some(sm)
                } else {
                    old(self).schema_of(n)
                } by {
                    lemma_last_schema_update(es, i as int, x, n);
                }
            },
            None => {
                self.entries.push((ty_name, fields));
                assert(self.entries@.drop_last() =~= old(self).entries@);
                assert forall|n: Seq<char>| #[trigger] self.schema_of(n) == if n == tn {
                    Some(sm)
                } else {
                    old(self).schema_of(n)
                } by {}
            },
        }
    }

    /// Position of the entry for `ty_name`, if any.
    fn find_entry(&self, ty_name: &String) -> (r: Option<usize>)
        ensures
            match r {
                Some(i) => i < self.entries.len() && self.entries@[i as int].0@ == ty_name@
                    && forall|m: int| i < m < self.entries.len() ==> #[trigger] self.entries@[m].0@ != ty_name@,
                None => forall|m: int| 0 <= m < self.entries.len() ==> #[trigger] self.entries@[m].0@ != ty_name@,
            },
    {
        let mut i: usize = self.entries.len();
        while i > 0
            invariant
                i <= self.entries.len(),
                forall|m: int| i <= m < self.entries.len() ==> #[trigger] self.entries@[m].0@ != ty_name@,
            decreases i,
        {
            if self.entries[i - 1].0 == *ty_name {
                return Some(i - 1);
            }
            i -= 1;
        }
        None
    }

    /// The schema registered under `ty_name`, if any.
    pub fn lookup(&self, ty_name: &String) -> (r: Option<&Schema>)
        ensures
            match r {
                Some(s) => self.schema_of(ty_name@) == Some(schema_model(s@)),
                None => self.schema_of(ty_name@) is None,
            },
    {
        let ghost es = self.entries@;
        let mut i: usize = self.entries.len();
        assert(es.subrange(0, i as int) =~= es);
        while i > 0
            invariant
                i <= es.len(),
                es == self.entries@,
                last_schema(es, ty_name@) == last_schema(es.subrange(0, i as int), ty_name@),
            decreases i,
        {
            let ghost pre = es.subrange(0, i as int);
            assert(pre.drop_last() =~= es.subrange(0, i - 1));
            if self.entries[i - 1].0 == *ty_name {
                return Some(&self.entries[i - 1].1);
            }
            i -= 1;
        }
        None
    }
}

/// The declared type of the field `name` in `schema`.
pub fn find_field_type(schema: &Schema, name: &String) -> (r: Option<String>)
    ensures
        match r {
            Some(t) => field_type(schema_model(schema@), name@) == Some(t@),
            None => field_type(schema_model(schema@), name@) is None,
        },
{
    let ghost m = schema_model(schema@);
    let mut i: usize = schema.len();
    assert(m.subrange(0, i as int) =~= m);
    while i > 0
        invariant
            i <= schema.len(),
            m == schema_model(schema@),
            field_type(m, name@) == field_type(m.subrange(0, i as int), name@),
        decreases i,
    {
        let ghost pre = m.subrange(0, i as int);
        assert(pre.drop_last() =~= m.subrange(0, i - 1));
        if schema[i - 1].0 == *name {
            return Some(schema[i - 1].1.clone());
        }
        i -= 1;
    }
    None
}

/// The schema that a struct declaration gives: its fields that have a name and
/// a declared type, in order. Each item of `fs` is a field's name, if it has
/// one, and the name of its type, if that type is a plain path.
pub open spec fn declared_schema(fs: Seq<(Option<String>, Option<String>)>) -> Seq<(Seq<char>, Seq<char>)>
    decreases fs.len(),
{
    if fs.len() == 0 {
        seq![]
    } else {
        let init = declared_schema(fs.drop_last());
        match fs.last() {
            (Some(n), Some(t)) => init.push((n@, t@)),
            _ => init,
        }
    }
}

/// Keeps the fields of a declaration that can be targets of nested literals.
pub fn declared_fields(fs: Vec<(Option<String>, Option<String>)>) -> (r: Schema)
    ensures
        schema_model(r@) == declared_schema(fs@),
{
    let ghost orig = fs@;
    let mut fs = fs;
    let mut out: Schema = Vec::new();
    let ghost mut i: int = 0;
    assert(orig.subrange(0, 0) =~= Seq::<(Option<String>, Option<String>)>::empty());
    assert(schema_model(out@) =~= Seq::<(Seq<char>, Seq<char>)>::empty());
    while fs.len() > 0
        invariant
            0 <= i <= orig.len(),
            fs@ == orig.subrange(i, orig.len() as int),
            schema_model(out@) == declared_schema(orig.subrange(0, i)),
        decreases fs.len(),
    {
        let f = fs.remove(0);
        assert(f == orig[i]);
        assert(orig.subrange(0, i + 1).drop_last() =~= orig.subrange(0, i));
        let ghost before = out@;
        match f {
            (Some(n), Some(t)) => {
                out.push((n, t));
                assert(schema_model(out@) =~= schema_model(before).push((n@, t@)));
            },
            _ => {},
        }
        proof {
            i = i + 1;
        }
    }
    assert(orig.subrange(0, orig.len() as int) =~= orig);
    out
}

} // verus!
