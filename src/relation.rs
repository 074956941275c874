//! The relations a principal can hold on an object, and permission lists.

use vstd::prelude::*;

verus! {

/// A relation the authority can grant, in the alphabetical order of its name.
#[derive(Clone, Copy, Debug, PartialEq, Eq, Structural)]
pub enum Relation {
    Admin,
    Editor,
    Owner,
    Viewer,
}

/// The name under which the authority knows a relation.
pub open spec fn relation_name(r: Relation) -> Seq<char> {
    match r {
        Relation::Admin => "admin"@,
        Relation::Editor => "editor"@,
        Relation::Owner => "owner"@,
        Relation::Viewer => "viewer"@,
    }
}

impl Relation {
    /// The relation's name as the authority spells it.
    pub fn name(&self) -> (r: String)
        ensures
            r@ == relation_name(*self),
    {
        match self {
            Relation::Admin => "admin".to_owned(),
            Relation::Editor => "editor".to_owned(),
            Relation::Owner => "owner".to_owned(),
            Relation::Viewer => "viewer".to_owned(),
        }
    }
}

/// `r` alone if `s` holds it, else nothing.
pub open spec fn keep(s: Set<Relation>, r: Relation) -> Seq<Relation> {
    if s.contains(r) {
        seq![r]
    } else {
        Seq::<Relation>::empty()
    }
}

/// The relations of `s`, each once, sorted by name.
pub open spec fn canonical(s: Set<Relation>) -> Seq<Relation> {
    keep(s, Relation::Admin) + keep(s, Relation::Editor) + keep(s, Relation::Owner) + keep(
        s,
        Relation::Viewer,
    )
}

/// A permission list without repeats, sorted by name.
pub open spec fn is_canonical(p: Seq<Relation>) -> bool {
    p == canonical(p.to_set())
}

/// The canonical list of a set holds exactly that set's relations.
pub proof fn lemma_canonical_members(s: Set<Relation>)
    ensures
        forall|x: Relation| #[trigger] canonical(s).contains(x) <==> s.contains(x),
        canonical(s).to_set() == s,
{
    let c = canonical(s);
    assert forall|x: Relation| #[trigger] c.contains(x) <==> s.contains(x) by {
        if s.contains(x) {
            let i: int = match x {
                Relation::Admin => 0,
                Relation::Editor => keep(s, Relation::Admin).len() as int,
                Relation::Owner => (keep(s, Relation::Admin).len() + keep(s, Relation::Editor).len()) as int,
                Relation::Viewer => (keep(s, Relation::Admin).len() + keep(s, Relation::Editor).len()
                    + keep(s, Relation::Owner).len()) as int,
            };
            assert(c[i] == x);
        }
        if c.contains(x) {
            let i = choose|i: int| 0 <= i < c.len() && c[i] == x;
            assert(s.contains(c[i]));
        }
    }
    assert(c.to_set() =~= s);
}

/// Whether `p` holds `r`.
pub fn has_relation(p: &Vec<Relation>, r: Relation) -> (b: bool)
    ensures
        b == p@.contains(r),
{
    let mut i: usize = 0;
    while i < p.len()
        invariant
            0 <= i <= p@.len(),
            forall|j: int| 0 <= j < i ==> p@[j] != r,
        decreases p@.len() - i,
    {
        if p[i] == r {
            return true;
        }
        i = i + 1;
    }
    false
}

/// The canonical list of the relations of `p` and `r`.
pub fn with_relation(p: &Vec<Relation>, r: Relation) -> (out: Vec<Relation>)
    ensures
        out@ == canonical(p@.to_set().insert(r)),
        out@.to_set() == p@.to_set().insert(r),
        is_canonical(out@),
        out@.len() > 0,
{
    let ghost s = p@.to_set().insert(r);
    let mut out: Vec<Relation> = Vec::new();
    if r == Relation::Admin || has_relation(p, Relation::Admin) {
        out.push(Relation::Admin);
    }
    assert(out@ =~= keep(s, Relation::Admin));
    if r == Relation::Editor || has_relation(p, Relation::Editor) {
        out.push(Relation::Editor);
    }
    assert(out@ =~= keep(s, Relation::Admin) + keep(s, Relation::Editor));
    if r == Relation::Owner || has_relation(p, Relation::Owner) {
        out.push(Relation::Owner);
    }
    assert(out@ =~= keep(s, Relation::Admin) + keep(s, Relation::Editor) + keep(s, Relation::Owner));
    if r == Relation::Viewer || has_relation(p, Relation::Viewer) {
        out.push(Relation::Viewer);
    }
    assert(out@ =~= canonical(s));
    proof {
        lemma_canonical_members(s);
        assert(out@.contains(r));
    }
    out
}

} // verus!
