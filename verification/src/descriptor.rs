use vstd::prelude::*;
use crate::tag::{canon, canonical_tag};

verus! {

/// The kind of value a declared field expects, following the wire format's
/// native typing: text, a number literal, or a boolean.
#[derive(Debug, PartialEq, Eq, Clone, Copy)]
pub enum FieldKind {
    Text,
    Number,
    Boolean,
}

/// One declared field of a variant: a parameter name and the kind of value
/// it expects.
#[derive(Debug, PartialEq, Eq)]
pub struct FieldDescriptor {
    pub name: String,
    pub kind: FieldKind,
}

/// What a variant carries: nothing, or an ordered set of declared fields.
#[derive(Debug, PartialEq, Eq)]
pub enum PayloadKind {
    Empty,
    Fields(Vec<FieldDescriptor>),
}

/// One variant of the caller's closed intent type: its identifier (from
/// which the canonical tag is derived), its payload, and whether it is the
/// designated fallback for responses that carry no intent name.
#[derive(Debug, PartialEq, Eq)]
pub struct VariantDescriptor {
    pub ident: String,
    pub payload: PayloadKind,
    pub fallback: bool,
}

/// The closed set of variant descriptors of the caller's intent type.
#[derive(Debug, PartialEq, Eq)]
pub struct VariantSet {
    pub variants: Vec<VariantDescriptor>,
}

impl VariantDescriptor {
    /// The canonical tag this variant is resolved by.
    pub open spec fn tag(self) -> Seq<char> {
        canon(self.ident@)
    }

    /// Declared field names are pairwise distinct.
    pub open spec fn wf(self) -> bool {
        match self.payload {
            PayloadKind::Empty => true,
            PayloadKind::Fields(fds) => forall|i: int, j: int|
                0 <= i < j < fds@.len() ==> #[trigger] fds@[i].name@ != #[trigger] fds@[j].name@,
        }
    }
}

impl VariantSet {
    /// Canonical tags are pairwise distinct after case conversion.
    pub open spec fn tags_distinct(self) -> bool {
        forall|i: int, j: int|
            0 <= i < j < self.variants@.len() ==> #[trigger] self.variants@[i].tag()
                != #[trigger] self.variants@[j].tag()
    }

    /// At most one variant is flagged as the fallback.
    pub open spec fn at_most_one_fallback(self) -> bool {
        forall|i: int, j: int|
            0 <= i < self.variants@.len() && 0 <= j < self.variants@.len()
                && #[trigger] self.variants@[i].fallback && #[trigger] self.variants@[j].fallback
                ==> i == j
    }

    /// Some variant is flagged as the fallback.
    pub open spec fn has_fallback(self) -> bool {
        exists|i: int|
            0 <= i < self.variants@.len() && #[trigger] self.variants@[i].fallback
    }

    /// The invariant of a target variant set: tags unique after case
    /// conversion, at most one fallback, and distinct field names within
    /// each variant.
    pub open spec fn wf(self) -> bool {
        &&& self.tags_distinct()
        &&& self.at_most_one_fallback()
        &&& forall|i: int|
            0 <= i < self.variants@.len() ==> (#[trigger] self.variants@[i]).wf()
    }

    /// Decides whether the set satisfies its invariant.
    pub fn check_wf(&self) -> (b: bool)
        ensures
            b == self.wf(),
    {
        if !self.check_at_most_one_fallback() {
            return false;
        }
        if !self.check_tags_distinct() {
            return false;
        }
        let n = self.variants.len();
        let mut i: usize = 0;
        while i < n
            invariant
                n == self.variants@.len(),
                i <= n,
                self.at_most_one_fallback(),
                self.tags_distinct(),
                forall|k: int| 0 <= k < i ==> (#[trigger] self.variants@[k]).wf(),
            decreases n - i,
        {
            if !check_descriptor_wf(&self.variants[i]) {
                return false;
            }
            i = i + 1;
        }
        true
    }

    fn check_at_most_one_fallback(&self) -> (b: bool)
        ensures
            b == self.at_most_one_fallback(),
    {
        let n = self.variants.len();
        let mut i: usize = 0;
        let mut seen: Option<usize> = None;
        while i < n
            invariant
                n == self.variants@.len(),
                i <= n,
                match seen {
                    Some(f) => f < i && self.variants@[f as int].fallback && forall|k: int|
                        0 <= k < i && k != f ==> !(#[trigger] self.variants@[k]).fallback,
                    None => forall|k: int| 0 <= k < i ==> !(#[trigger] self.variants@[k]).fallback,
                },
            decreases n - i,
        {
            if self.variants[i].fallback {
                match seen {
                    Some(f) => {
                        proof {
                            assert(self.variants@[f as int].fallback
                                && self.variants@[i as int].fallback && f as int != i as int);
                        }
                        return false;
                    },
                    None => {
                        seen = Some(i);
                    },
                }
            }
            i = i + 1;
        }
        true
    }

    fn check_tags_distinct(&self) -> (b: bool)
        ensures
            b == self.tags_distinct(),
    {
        let n = self.variants.len();
        let mut tags: Vec<String> = Vec::new();
        let mut i: usize = 0;
        while i < n
            invariant
                n == self.variants@.len(),
                i <= n,
                tags@.len() == i,
                forall|k: int| 0 <= k < i ==> #[trigger] tags@[k]@ == self.variants@[k].tag(),
            decreases n - i,
        {
            let t = canonical_tag(self.variants[i].ident.as_str());
            tags.push(t);
            i = i + 1;
        }
        let mut a: usize = 1;
        while a < n
            invariant
                n == self.variants@.len(),
                tags@.len() == n,
                a <= n || n == 0,
                forall|k: int| 0 <= k < n ==> #[trigger] tags@[k]@ == self.variants@[k].tag(),
                forall|p: int, q: int|
                    0 <= p < q < a && q < n ==> #[trigger] self.variants@[p].tag()
                        != #[trigger] self.variants@[q].tag(),
            decreases n - a,
        {
            let mut b: usize = 0;
            while b < a
                invariant
                    n == self.variants@.len(),
                    tags@.len() == n,
                    b <= a < n,
                    forall|k: int| 0 <= k < n ==> #[trigger] tags@[k]@ == self.variants@[k].tag(),
                    forall|p: int, q: int|
                        0 <= p < q < a && q < n ==> #[trigger] self.variants@[p].tag()
                            != #[trigger] self.variants@[q].tag(),
                    forall|p: int|
                        0 <= p < b ==> #[trigger] self.variants@[p].tag()
                            != self.variants@[a as int].tag(),
                decreases a - b,
            {
                if tags[b].eq(&tags[a]) {
                    proof {
                        assert(self.variants@[b as int].tag() == self.variants@[a as int].tag());
                    }
                    return false;
                }
                b = b + 1;
            }
            a = a + 1;
        }
        true
    }
}

/// Decides whether one descriptor's declared field names are distinct.
fn check_descriptor_wf(d: &VariantDescriptor) -> (b: bool)
    ensures
        b == d.wf(),
{
    match &d.payload {
        PayloadKind::Empty => true,
        PayloadKind::Fields(fds) => {
            let m = fds.len();
            let mut a: usize = 1;
            while a < m
                invariant
                    m == fds@.len(),
                    a <= m || m == 0,
                    d.payload == PayloadKind::Fields(*fds),
                    forall|p: int, q: int|
                        0 <= p < q < a && q < m ==> #[trigger] fds@[p].name@
                            != #[trigger] fds@[q].name@,
                decreases m - a,
            {
                let mut b: usize = 0;
                while b < a
                    invariant
                        m == fds@.len(),
                        b <= a < m,
                        d.payload == PayloadKind::Fields(*fds),
                        forall|p: int, q: int|
                            0 <= p < q < a && q < m ==> #[trigger] fds@[p].name@
                                != #[trigger] fds@[q].name@,
                        forall|p: int| 0 <= p < b ==> #[trigger] fds@[p].name@ != fds@[a as int].name@,
                    decreases a - b,
                {
                    if fds[b].name.eq(&fds[a].name) {
                        return false;
                    }
                    b = b + 1;
                }
                a = a + 1;
            }
            true
        },
    }
}

/// In a well-formed variant set two distinct identifiers never collide:
/// their canonical tags differ.
pub proof fn lemma_wf_tags_injective(set: VariantSet, i: int, j: int)
    requires
        set.wf(),
        0 <= i < set.variants@.len(),
        0 <= j < set.variants@.len(),
        i != j,
    ensures
        canon(set.variants@[i].ident@) != canon(set.variants@[j].ident@),
{
    if i < j {
        assert(set.variants@[i].tag() != set.variants@[j].tag());
    } else {
        assert(set.variants@[j].tag() != set.variants@[i].tag());
    }
}

} // verus!
