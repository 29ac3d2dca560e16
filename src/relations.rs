//! Relationship resolution: one relationship to and from typed ids, and the
//! relationships mapping of a relation holder to and from its fields.
use crate::ids::{FromID, IntoID};
use crate::relmap::RelationshipMap;
use crate::wire::{
    bad_request_spec, opt_map_view, Error, ErrorView, Identifier, IdentifierView, Relationship,
    RelationshipView,
};
use vstd::prelude::*;

verus! {

/// The title of the error for a to-many relationship where one was expected.
pub open spec fn expected_to_one_title() -> Seq<char> {
    "invalid relationship: expected a to-one, got to-many"@
}

/// The title of the error for a to-one relationship where many were expected.
pub open spec fn expected_to_many_title() -> Seq<char> {
    "invalid relationship: expected a to-many, got to-one"@
}

/// The title of the error for a non-empty mapping on a resource without relationships.
pub open spec fn unexpected_relationships_title() -> Seq<char> {
    "unexpected relationships for this resource type"@
}

/// The title of the error for an absent mapping where a relationship is mandatory.
pub open spec fn missing_relationships_title() -> Seq<char> {
    "missing mandatory relationships object"@
}

/// The title of the error for a mandatory relationship that is absent.
pub open spec fn missing_relationship_title(name: Seq<char>) -> Seq<char> {
    "missing mandatory relationship '"@ + name + "'"@
}

/// A value that one relationship can hold: a typed id, or a list of them.
pub trait IntoRelationship: Sized {
    /// The relationship that this value becomes, with targets of type `resource_name`.
    spec fn relationship_for(self, resource_name: Seq<char>) -> RelationshipView;

    /// The relationship to this value, whose targets are of type `resource_name`.
    fn into_relationship(self, resource_name: &str) -> (r: Relationship)
        ensures
            r@ == self.relationship_for(resource_name@),
    ;
}

/// A value that can be read from one relationship.
pub trait FromRelationship: Sized {
    /// Whether `r` can be read as a value of this type.
    spec fn relationship_accepts(r: RelationshipView) -> bool;

    /// Whether `v` is the value that `r` stands for.
    spec fn relationship_decodes_to(r: RelationshipView, v: Self) -> bool;

    /// The title of the error that rejects `r`.
    spec fn relationship_rejection(r: RelationshipView) -> Seq<char>;

    /// Reads a value from `r`; a mismatch of cardinality or an unreadable id
    /// is a bad request.
    fn from_relationship(r: Relationship) -> (res: Result<Self, Error>)
        ensures
            res is Ok <==> Self::relationship_accepts(r@),
            res matches Ok(v) ==> Self::relationship_decodes_to(r@, v),
            res matches Err(e) ==> e@ == bad_request_spec(Self::relationship_rejection(r@)),
    ;
}

/// The identifier of the resource of type `typ` whose id has text `id`.
pub open spec fn identifier_for(id: Seq<char>, typ: Seq<char>) -> IdentifierView {
    IdentifierView { id, typ }
}

/// The identifiers of the resources of type `typ` with the given ids, in order.
pub open spec fn identifiers_for<I: IntoID>(items: Seq<I>, typ: Seq<char>) -> Seq<IdentifierView> {
    Seq::new(items.len(), |j: int| identifier_for(items[j].id_text(), typ))
}

impl<I: IntoID> IntoRelationship for I {
    open spec fn relationship_for(self, resource_name: Seq<char>) -> RelationshipView {
        RelationshipView::ToOne(identifier_for(self.id_text(), resource_name))
    }

    fn into_relationship(self, resource_name: &str) -> (r: Relationship) {
        Relationship::ToOne(Identifier { id: self.into_id(), typ: resource_name.to_owned() })
    }
}

impl<I: IntoID> IntoRelationship for Vec<I> {
    open spec fn relationship_for(self, resource_name: Seq<char>) -> RelationshipView {
        RelationshipView::ToMany(identifiers_for(self@, resource_name))
    }

    fn into_relationship(self, resource_name: &str) -> (r: Relationship) {
        let ghost items = self@;
        let mut rest = self;
        let mut out: Vec<Identifier> = Vec::new();
        let ghost target = identifiers_for(items, resource_name@);
        while rest.len() > 0
            invariant
                out@.len() + rest@.len() == items.len(),
                rest@ == items.subrange(out@.len() as int, items.len() as int),
                target == identifiers_for(items, resource_name@),
                forall|j: int| 0 <= j < out@.len() ==> #[trigger] out@[j]@ == target[j],
            decreases rest@.len(),
        {
            let ghost k = out@.len() as int;
            let item = rest.remove(0);
            assert(item == items[k]);
            let one = Identifier { id: item.into_id(), typ: resource_name.to_owned() };
            assert(one.id@ == items[k].id_text());
            assert(target[k] == identifier_for(items[k].id_text(), resource_name@));
            assert(one@ == target[k]);
            out.push(one);
        }
        let r = Relationship::ToMany(out);
        assert(r@ == RelationshipView::ToMany(target)) by {
            assert(crate::wire::identifiers_view(out@) =~= target);
        }
        r
    }
}

impl<I: FromID> FromRelationship for I {
    open spec fn relationship_accepts(r: RelationshipView) -> bool {
        match r {
            RelationshipView::ToOne(one) => I::id_accepts(one.id),
            RelationshipView::ToMany(_) => false,
        }
    }

    open spec fn relationship_decodes_to(r: RelationshipView, v: I) -> bool {
        match r {
            RelationshipView::ToOne(one) => I::id_decodes_to(one.id, v),
            RelationshipView::ToMany(_) => false,
        }
    }

    open spec fn relationship_rejection(r: RelationshipView) -> Seq<char> {
        match r {
            RelationshipView::ToOne(one) => I::id_rejection(one.id),
            RelationshipView::ToMany(_) => expected_to_one_title(),
        }
    }

    fn from_relationship(r: Relationship) -> (res: Result<I, Error>) {
        match r {
            Relationship::ToOne(one) => I::from_id(one.id),
            Relationship::ToMany(_) => Err(
                Error::new_bad_request("invalid relationship: expected a to-one, got to-many"),
            ),
        }
    }
}

/// The position of the first identifier in `ids` whose id `I` cannot read
/// (the length of `ids` when there is none).
pub open spec fn first_rejected<I: FromID>(ids: Seq<IdentifierView>) -> int
    decreases ids.len(),
{
    if ids.len() == 0 {
        0
    } else if !I::id_accepts(ids[0].id) {
        0
    } else {
        1 + first_rejected::<I>(ids.drop_first())
    }
}

proof fn lemma_first_rejected<I: FromID>(ids: Seq<IdentifierView>, k: int)
    requires
        0 <= k < ids.len(),
        !I::id_accepts(ids[k].id),
        forall|j: int| 0 <= j < k ==> I::id_accepts(#[trigger] ids[j].id),
    ensures
        first_rejected::<I>(ids) == k,
    decreases k,
{
    if k > 0 {
        let rest = ids.drop_first();
        assert forall|j: int| 0 <= j < k - 1 implies I::id_accepts(#[trigger] rest[j].id) by {
            assert(rest[j] == ids[j + 1]);
        }
        assert(I::id_accepts(ids[0].id));
        lemma_first_rejected::<I>(rest, k - 1);
    }
}

impl<I: FromID> FromRelationship for Vec<I> {
    open spec fn relationship_accepts(r: RelationshipView) -> bool {
        match r {
            RelationshipView::ToOne(_) => false,
            RelationshipView::ToMany(ids) => forall|j: int|
                0 <= j < ids.len() ==> I::id_accepts(#[trigger] ids[j].id),
        }
    }

    open spec fn relationship_decodes_to(r: RelationshipView, v: Vec<I>) -> bool {
        match r {
            RelationshipView::ToOne(_) => false,
            RelationshipView::ToMany(ids) => {
                &&& v@.len() == ids.len()
                &&& forall|j: int| 0 <= j < ids.len() ==> I::id_decodes_to(ids[j].id, #[trigger] v@[j])
            },
        }
    }

    open spec fn relationship_rejection(r: RelationshipView) -> Seq<char> {
        match r {
            RelationshipView::ToOne(_) => expected_to_many_title(),
            RelationshipView::ToMany(ids) => I::id_rejection(ids[first_rejected::<I>(ids)].id),
        }
    }

    #[verifier::loop_isolation(false)]
    fn from_relationship(r: Relationship) -> (res: Result<Vec<I>, Error>) {
        let ghost rv = r@;
        match r {
            Relationship::ToMany(many) => {
                let ghost ids = crate::wire::identifiers_view(many@);
                assert(rv == RelationshipView::ToMany(ids));
                let mut results: Vec<I> = Vec::new();
                let mut i: usize = 0;
                while i < many.len()
                    invariant
                        i <= many@.len(),
                        ids == crate::wire::identifiers_view(many@),
                        rv == RelationshipView::ToMany(ids),
                        results@.len() == i,
                        forall|j: int| 0 <= j < i ==> I::id_accepts(#[trigger] ids[j].id),
                        forall|j: int| 0 <= j < i ==> I::id_decodes_to(ids[j].id, #[trigger] results@[j]),
                    decreases many@.len() - i,
                {
                    let id = many[i].id.clone();
                    assert(ids[i as int].id == id@);
                    match I::from_id(id) {
                        Ok(v) => {
                            results.push(v);
                        },
                        Err(e) => {
                            proof {
                                lemma_first_rejected::<I>(ids, i as int);
                                assert(rv == RelationshipView::ToMany(ids));
                                assert(!I::id_accepts(ids[i as int].id));
                            }
                            return Err(e);
                        },
                    }
                    i = i + 1;
                }
                Ok(results)
            },
            Relationship::ToOne(_) => Err(
                Error::new_bad_request("invalid relationship: expected a to-many, got to-one"),
            ),
        }
    }
}

/// A relation holder that can become a relationships mapping.
pub trait IntoRelationships: Sized {
    /// The relationships mapping of this holder, if it has one.
    fn into_relationships(self) -> Option<RelationshipMap>;
}

/// A relation holder that can be read from a relationships mapping.
pub trait FromRelationships: Sized {
    /// Reads a holder from the relationships mapping of a request.
    fn from_relationships(rels: Option<RelationshipMap>) -> Result<Self, Error>;
}

/// The error, if any, with which a holder without relationships refuses the
/// mapping `rels`: any non-empty mapping is refused.
pub open spec fn unit_rejection(rels: Option<Map<Seq<char>, RelationshipView>>) -> Option<ErrorView> {
    match rels {
        Some(m) => if m.len() == 0 {
            None
        } else {
            Some(bad_request_spec(unexpected_relationships_title()))
        },
        None => None,
    }
}

/// Reads the relationships of a resource that declares none: an absent or
/// empty mapping is accepted, any other is a bad request.
pub fn expect_no_relationships(rels: Option<RelationshipMap>) -> (r: Result<(), Error>)
    ensures
        match unit_rejection(opt_map_view(rels)) {
            Some(e) => r matches Err(x) && x@ == e,
            None => r is Ok,
        },
{
    match rels {
        None => Ok(()),
        Some(map) => {
            if map.len() == 0 {
                Ok(())
            } else {
                Err(Error::new_bad_request("unexpected relationships for this resource type"))
            }
        },
    }
}

impl IntoRelationships for () {
    /// A resource without relationships has no mapping.
    fn into_relationships(self) -> (r: Option<RelationshipMap>)
        ensures
            r is None,
    {
        None
    }
}

impl FromRelationships for () {
    /// An absent or empty mapping is accepted; any other is a bad request.
    fn from_relationships(rels: Option<RelationshipMap>) -> (r: Result<(), Error>)
        ensures
            match unit_rejection(opt_map_view(rels)) {
                Some(e) => r matches Err(x) && x@ == e,
                None => r is Ok,
            },
    {
        expect_no_relationships(rels)
    }
}

} // verus!
