//! Entity association expressions: which entities a signal is associated with.

use vstd::prelude::*;
use vstd::multiset::Multiset;

verus! {

/// An entity association: a reference to one entity, or a `one_of` / `all_of`
/// combination of nested associations.
#[derive(Debug, PartialEq, Eq, Hash)]
pub enum EntityAssociation {
    /// A reference to a single entity.
    Ref(String),
    /// At least one of the nested associations must hold.
    OneOf { one_of: Vec<EntityAssociation> },
    /// All of the nested associations must hold.
    AllOf { all_of: Vec<EntityAssociation> },
}

/// The entity names referenced by an association, in the order of a
/// depth-first walk that visits the children of a combination from the last
/// to the first.
pub open spec fn spec_referenced_entities(e: EntityAssociation) -> Seq<Seq<char>>
    decreases e,
{
    match e {
        EntityAssociation::Ref(name) => seq![name@],
        EntityAssociation::OneOf { one_of } => spec_referenced_in_reverse(one_of@),
        EntityAssociation::AllOf { all_of } => spec_referenced_in_reverse(all_of@),
    }
}

/// The entity names referenced by a list of associations, last one first.
pub open spec fn spec_referenced_in_reverse(s: Seq<EntityAssociation>) -> Seq<Seq<char>>
    decreases s,
{
    if s.len() == 0 {
        Seq::empty()
    } else {
        spec_referenced_entities(s.last()) + spec_referenced_in_reverse(s.drop_last())
    }
}

impl EntityAssociation {
    /// Returns the names of all the entities referenced by this association.
    pub fn referenced_entities(&self) -> (r: Vec<String>)
        ensures
            r@.map_values(|s: String| s@) == spec_referenced_entities(*self),
        decreases self,
    {
        match self {
            EntityAssociation::Ref(name) => {
                let mut v: Vec<String> = Vec::new();
                v.push(name.clone());
                assert(v@.map_values(|s: String| s@) =~= seq![name@]);
                v
            },
            EntityAssociation::OneOf { one_of } => referenced_in_reverse(one_of),
            EntityAssociation::AllOf { all_of } => referenced_in_reverse(all_of),
        }
    }
}

/// The referenced entity names of a list of associations, last one first.
fn referenced_in_reverse(children: &Vec<EntityAssociation>) -> (r: Vec<String>)
    ensures
        r@.map_values(|s: String| s@) == spec_referenced_in_reverse(children@),
    decreases children,
{
    let mut out: Vec<String> = Vec::new();
    let mut i: usize = children.len();
    assert(children@.subrange(0, i as int) =~= children@);
    assert(out@.map_values(|s: String| s@) =~= Seq::<Seq<char>>::empty());
    assert(Seq::<Seq<char>>::empty() + spec_referenced_in_reverse(children@)
        =~= spec_referenced_in_reverse(children@));
    while i > 0
        invariant
            i <= children@.len(),
            out@.map_values(|s: String| s@) + spec_referenced_in_reverse(
                children@.subrange(0, i as int),
            ) == spec_referenced_in_reverse(children@),
        decreases i,
    {
        proof {
            assert(decreases_to!(children => children@));
            assert(decreases_to!(children@ => children@[i - 1]));
        }
        let mut names = children[i - 1].referenced_entities();
        proof {
            let pre = children@.subrange(0, i as int);
            assert(pre.drop_last() =~= children@.subrange(0, i - 1));
            assert(pre.last() == children@[i - 1]);
            let old_out = out@;
            assert((old_out + names@).map_values(|s: String| s@) =~= old_out.map_values(
                |s: String| s@,
            ) + names@.map_values(|s: String| s@));
        }
        out.append(&mut names);
        i = i - 1;
    }
    assert(children@.subrange(0, 0) =~= Seq::<EntityAssociation>::empty());
    assert(out@.map_values(|s: String| s@) + Seq::<Seq<char>>::empty() =~= out@.map_values(
        |s: String| s@,
    ));
    out
}

/// The entity names of an association, each occurrence counted once,
/// whatever the order.
pub open spec fn entity_names(e: EntityAssociation) -> Multiset<Seq<char>>
    decreases e,
{
    match e {
        EntityAssociation::Ref(name) => Multiset::singleton(name@),
        EntityAssociation::OneOf { one_of } => entity_names_of_all(one_of@),
        EntityAssociation::AllOf { all_of } => entity_names_of_all(all_of@),
    }
}

/// The entity names of a list of associations, each occurrence once.
pub open spec fn entity_names_of_all(s: Seq<EntityAssociation>) -> Multiset<Seq<char>>
    decreases s,
{
    if s.len() == 0 {
        Multiset::empty()
    } else {
        entity_names_of_all(s.drop_last()).add(entity_names(s.last()))
    }
}

/// The names that `referenced_entities` lists are every entity reference of
/// the association tree, each occurrence once: the same multiset whatever
/// the order of the walk.
pub proof fn law_referenced_entities_are_all_references(e: EntityAssociation)
    ensures
        spec_referenced_entities(e).to_multiset() == entity_names(e),
    decreases e,
{
    match e {
        EntityAssociation::Ref(name) => {
            assert(seq![name@] =~= Seq::<Seq<char>>::empty().push(name@));
            vstd::seq_lib::to_multiset_build(Seq::<Seq<char>>::empty(), name@);
            assert(Seq::<Seq<char>>::empty().to_multiset() =~= Multiset::<Seq<char>>::empty()) by {
                broadcast use vstd::seq_lib::group_to_multiset_ensures;
            }
            assert(Multiset::<Seq<char>>::empty().insert(name@) =~= Multiset::singleton(name@));
        },
        EntityAssociation::OneOf { one_of } => {
            lemma_references_of_all(one_of@);
        },
        EntityAssociation::AllOf { all_of } => {
            lemma_references_of_all(all_of@);
        },
    }
}

proof fn lemma_references_of_all(s: Seq<EntityAssociation>)
    ensures
        spec_referenced_in_reverse(s).to_multiset() == entity_names_of_all(s),
    decreases s,
{
    if s.len() == 0 {
        assert(spec_referenced_in_reverse(s) =~= Seq::<Seq<char>>::empty());
        broadcast use vstd::seq_lib::group_to_multiset_ensures;
        assert(Seq::<Seq<char>>::empty().to_multiset() =~= Multiset::<Seq<char>>::empty());
    } else {
        law_referenced_entities_are_all_references(s.last());
        lemma_references_of_all(s.drop_last());
        vstd::seq_lib::lemma_multiset_commutative(
            spec_referenced_entities(s.last()),
            spec_referenced_in_reverse(s.drop_last()),
        );
        assert(entity_names(s.last()).add(entity_names_of_all(s.drop_last())) =~= entity_names_of_all(
            s.drop_last(),
        ).add(entity_names(s.last())));
    }
}

} // verus!
