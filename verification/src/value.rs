use vstd::prelude::*;

verus! {

/// A generic wire value: the shape of the payload the service returns.
///
/// Numbers are carried as their literal text, so nothing is rounded or
/// reinterpreted on the way through; the decoder never does arithmetic on
/// them.
#[derive(Debug, PartialEq, Eq)]
pub enum Value {
    Null,
    Bool(bool),
    Num(String),
    Str(String),
    List(Vec<Value>),
    Obj(Vec<(String, Value)>),
}

/// The first value bound to `name` in an entry sequence, if any.
pub open spec fn entries_lookup(entries: Seq<(String, Value)>, name: Seq<char>) -> Option<Value>
    decreases entries.len(),
{
    if entries.len() == 0 {
        None
    } else if entries[0].0@ == name {
        Some(entries[0].1)
    } else {
        entries_lookup(entries.drop_first(), name)
    }
}

/// Appending one entry changes a lookup only where nothing was bound before,
/// and only for the appended key.
pub proof fn lemma_lookup_snoc(entries: Seq<(String, Value)>, e: (String, Value), name: Seq<char>)
    ensures
        entries_lookup(entries.push(e), name) == if entries_lookup(entries, name) is Some {
            entries_lookup(entries, name)
        } else if e.0@ == name {
            Some(e.1)
        } else {
            None
        },
    decreases entries.len(),
{
    if entries.len() == 0 {
        assert(entries.push(e).drop_first() =~= Seq::<(String, Value)>::empty());
        assert(entries.push(e)[0] == e);
        assert(entries_lookup(Seq::<(String, Value)>::empty(), name) is None);
        if e.0@ == name {
            assert(entries_lookup(entries.push(e), name) == Some(e.1));
        } else {
            assert(entries_lookup(entries.push(e), name) is None);
        }
    } else {
        assert(entries.push(e)[0] == entries[0]);
        assert(entries.push(e).drop_first() =~= entries.drop_first().push(e));
        lemma_lookup_snoc(entries.drop_first(), e, name);
        if entries[0].0@ == name {
            assert(entries_lookup(entries.push(e), name) == Some(entries[0].1));
            assert(entries_lookup(entries, name) == Some(entries[0].1));
        } else {
            assert(entries_lookup(entries.push(e), name) == entries_lookup(
                entries.drop_first().push(e),
                name,
            ));
            assert(entries_lookup(entries, name) == entries_lookup(entries.drop_first(), name));
        }
    }
}

impl Value {
    /// True of a mapping value.
    pub open spec fn is_obj(self) -> bool {
        self matches Value::Obj(_)
    }

    /// The entries of a mapping value, in wire order; empty for any other
    /// value.
    pub open spec fn entries(self) -> Seq<(String, Value)> {
        match self {
            Value::Obj(es) => es@,
            _ => Seq::<(String, Value)>::empty(),
        }
    }

    /// The first value bound to `name`; `None` when the value is not a
    /// mapping or binds no such key.
    pub open spec fn lookup(self, name: Seq<char>) -> Option<Value> {
        entries_lookup(self.entries(), name)
    }

    /// An empty mapping.
    pub fn empty_obj() -> (r: Value)
        ensures
            r.is_obj(),
            r.entries().len() == 0,
    {
        Value::Obj(Vec::new())
    }

    /// Finds the first value bound to `name` in a mapping value.
    pub fn get<'a>(&'a self, name: &String) -> (r: Option<&'a Value>)
        ensures
            match r {
                Some(v) => self.lookup(name@) == Some(*v),
                None => self.lookup(name@) is None,
            },
    {
        match self {
            Value::Obj(es) => {
                let n = es.len();
                let mut i: usize = 0;
                proof {
                    assert(self.entries() == es@);
                    assert(es@.skip(0) =~= es@);
                }
                while i < n
                    invariant
                        n == es@.len(),
                        i <= n,
                        self.entries() == es@,
                        self.lookup(name@) == entries_lookup(es@.skip(i as int), name@),
                    decreases n - i,
                {
                    proof {
                        assert(es@.skip(i as int)[0] == es@[i as int]);
                        assert(es@.skip(i as int).drop_first() =~= es@.skip(i as int + 1));
                    }
                    if es[i].0.eq(name) {
                        proof {
                            assert(entries_lookup(es@.skip(i as int), name@) == Some(
                                es@[i as int].1,
                            ));
                        }
                        return Some(&es[i].1);
                    }
                    proof {
                        assert(entries_lookup(es@.skip(i as int), name@) == entries_lookup(
                            es@.skip(i as int + 1),
                            name@,
                        ));
                    }
                    i = i + 1;
                }
                proof {
                    assert(es@.skip(n as int) =~= Seq::<(String, Value)>::empty());
                }
                None
            },
            _ => None,
        }
    }
}

} // verus!
