//! The schema of an entity: which of its fields carry the id, the attributes
//! and the relations, and of a relation holder: which relationships it
//! declares. From a schema follow the decoding of requests and the encoding of
//! resources for that entity.
use crate::ids::{FromID, IntoID};
use crate::relations::{
    missing_relationship_title, missing_relationships_title, unit_rejection, FromRelationship,
    FromRelationships, IntoRelationship, IntoRelationships,
};
use crate::relmap::RelationshipMap;
use crate::wire::{
    bad_request_spec, opt_id_view, opt_map_view, opt_text, Error, ErrorView, Identifier, IdentifierView,
    RelationshipData, RelationshipView, Request, ResourceResponse, ID,
};
use vstd::prelude::*;
use vstd::string::*;

verus! {

/// The type of a relation field, as far as a schema needs it.
pub enum FieldType {
    /// A type path such as `Option<Uuid>`, given by the names of its segments.
    Path { leading_colon: bool, segments: Vec<String> },
    /// Any type that is not a path: a tuple, a reference, an array.
    Other,
}

/// A field of a relation holder as it is declared.
pub struct RelationFieldDecl {
    /// The field's name.
    pub ident: String,
    /// The resource type name of its targets, where it is not the default.
    pub name: Option<String>,
    pub ty: FieldType,
}

/// The view of a [`RelationField`].
pub struct RelationFieldView {
    pub resource_name: Seq<char>,
    pub relation_name: Seq<char>,
    pub is_option: bool,
}

/// One relationship that a relation holder declares.
#[derive(Debug, Clone)]
pub struct RelationField {
    /// The type name of the resources it points to.
    pub resource_name: String,
    /// Its key in the relationships mapping.
    pub relation_name: String,
    /// Whether it may be absent.
    pub is_option: bool,
}

impl View for RelationField {
    type V = RelationFieldView;

    open spec fn view(&self) -> RelationFieldView {
        RelationFieldView {
            resource_name: self.resource_name@,
            relation_name: self.relation_name@,
            is_option: self.is_option,
        }
    }
}

/// Whether a relation field may have type `ty`: a path of one segment
/// without a leading `::`, such as `Uuid` or `Option<Uuid>`. Any other type
/// is refused when the schema is built.
pub open spec fn supported_field_type(ty: FieldType) -> bool {
    match ty {
        FieldType::Path { leading_colon, segments } => !leading_colon && segments@.len() == 1,
        FieldType::Other => false,
    }
}

/// Whether a field of the supported type `ty` is optional: its type is `Option<..>`.
pub open spec fn field_is_option(ty: FieldType) -> bool {
    match ty {
        FieldType::Path { leading_colon, segments } => segments@[0]@ == "Option"@,
        FieldType::Other => false,
    }
}

/// The resource type name that a field's targets have unless it is given:
/// the field's name with an `s` appended.
pub open spec fn default_resource_name(ident: Seq<char>) -> Seq<char> {
    ident + "s"@
}

/// The relationship that a declared field of supported type becomes.
pub open spec fn relation_field_spec(d: RelationFieldDecl) -> RelationFieldView {
    RelationFieldView {
        resource_name: match d.name {
            Some(n) => n@,
            None => default_resource_name(d.ident@),
        },
        relation_name: d.ident@,
        is_option: field_is_option(d.ty),
    }
}

/// The relationships that a relation holder declares, in declaration order.
#[derive(Debug, Clone)]
pub struct RelationsSchema {
    /// The name of the relation holder.
    pub name: String,
    pub fields: Vec<RelationField>,
}

/// Whether every field in `fields` is optional.
pub open spec fn all_optional_spec(fields: Seq<RelationFieldView>) -> bool {
    forall|i: int| 0 <= i < fields.len() ==> #[trigger] fields[i].is_option
}

impl FieldType {
    /// Whether a relation field may have this type; a schema with a field of
    /// any other type cannot be built.
    pub fn is_supported(&self) -> (r: bool)
        ensures
            r == supported_field_type(*self),
    {
        match self {
            FieldType::Path { leading_colon, segments } => !*leading_colon && segments.len() == 1,
            FieldType::Other => false,
        }
    }
}

impl RelationField {
    /// The relationship that `decl` declares.
    pub fn from_decl(decl: RelationFieldDecl) -> (r: RelationField)
        requires
            supported_field_type(decl.ty),
        ensures
            r@ == relation_field_spec(decl),
    {
        let RelationFieldDecl { ident, name, ty } = decl;
        let resource_name = match name {
            Some(n) => n,
            None => {
                let mut n = ident.clone();
                n.append("s");
                n
            },
        };
        let is_option = match ty {
            FieldType::Path { leading_colon: _, segments } => segments[0] == "Option".to_owned(),
            FieldType::Other => false,
        };
        RelationField { resource_name, relation_name: ident, is_option }
    }
}

impl RelationsSchema {
    /// The schema of the relation holder `name` with the fields `decls`, each
    /// of a supported type.
    pub fn from_fields(name: String, decls: Vec<RelationFieldDecl>) -> (r: RelationsSchema)
        requires
            forall|i: int| 0 <= i < decls@.len() ==> #[trigger] supported_field_type(decls@[i].ty),
        ensures
            r.name@ == name@,
            r.fields@.len() == decls@.len(),
            forall|i: int|
                0 <= i < decls@.len() ==> #[trigger] r.fields@[i]@ == relation_field_spec(decls@[i]),
    {
        let ghost ds = decls@;
        let mut rest = decls;
        let mut fields: Vec<RelationField> = Vec::new();
        while rest.len() > 0
            invariant
                fields@.len() + rest@.len() == ds.len(),
                rest@ == ds.subrange(fields@.len() as int, ds.len() as int),
                forall|i: int| 0 <= i < ds.len() ==> #[trigger] supported_field_type(ds[i].ty),
                forall|i: int|
                    0 <= i < fields@.len() ==> #[trigger] fields@[i]@ == relation_field_spec(ds[i]),
            decreases rest@.len(),
        {
            let ghost k = fields@.len() as int;
            let decl = rest.remove(0);
            assert(decl == ds[k]);
            fields.push(RelationField::from_decl(decl));
        }
        RelationsSchema { name, fields }
    }

    /// Whether every declared relationship is optional; then an absent
    /// relationships mapping reads as an empty one.
    pub fn all_optional(&self) -> (r: bool)
        ensures
            r == all_optional_spec(self.fields@.map_values(|f: RelationField| f@)),
    {
        let ghost views = self.fields@.map_values(|f: RelationField| f@);
        let mut i: usize = 0;
        while i < self.fields.len()
            invariant
                i <= self.fields@.len(),
                views == self.fields@.map_values(|f: RelationField| f@),
                forall|j: int| 0 <= j < i ==> #[trigger] views[j].is_option,
            decreases self.fields@.len() - i,
        {
            if !self.fields[i].is_option {
                assert(!views[i as int].is_option);
                return false;
            }
            i = i + 1;
        }
        true
    }
}

/// The relationships mapping of a request, ready to be read field by field.
///
/// An absent mapping reads as an empty one where every relationship is
/// optional, and is a bad request otherwise.
pub fn open_relationships(rels: Option<RelationshipMap>, all_optional: bool) -> (r: Result<
    RelationshipMap,
    Error,
>)
    ensures
        match rels {
            Some(m) => r matches Ok(o) && o@ == m@,
            None => if all_optional {
                r matches Ok(o) && o@ == Map::<Seq<char>, RelationshipView>::empty()
            } else {
                r matches Err(e) && e@ == bad_request_spec(missing_relationships_title())
            },
        },
{
    match rels {
        Some(m) => Ok(m),
        None => {
            if all_optional {
                Ok(RelationshipMap::new())
            } else {
                Err(Error::new_bad_request("missing mandatory relationships object"))
            }
        },
    }
}

/// A bad request for the absent mandatory relationship `name`.
fn missing_relationship(name: &str) -> (r: Error)
    ensures
        r@ == bad_request_spec(missing_relationship_title(name@)),
{
    let mut title = "missing mandatory relationship '".to_owned();
    title.append(name);
    title.append("'");
    Error::new_bad_request(title.as_str())
}

/// Takes the mandatory relationship `field` out of `rels` and reads it.
///
/// Its absence is a bad request; names that no field declares stay in `rels`.
pub fn take_mandatory<T: FromRelationship>(rels: &mut RelationshipMap, field: &RelationField) -> (r:
    Result<T, Error>)
    ensures
        final(rels)@ == old(rels)@.remove(field.relation_name@),
        !old(rels)@.contains_key(field.relation_name@) ==> (r matches Err(e) && e@
            == bad_request_spec(missing_relationship_title(field.relation_name@))),
        old(rels)@.contains_key(field.relation_name@) ==> {
            let d = old(rels)@[field.relation_name@];
            &&& (r is Ok <==> T::relationship_accepts(d))
            &&& (r matches Ok(v) ==> T::relationship_decodes_to(d, v))
            &&& (r matches Err(e) ==> e@ == bad_request_spec(T::relationship_rejection(d)))
        },
{
    match rels.remove(field.relation_name.as_str()) {
        Some(t) => T::from_relationship(t.data),
        None => Err(missing_relationship(field.relation_name.as_str())),
    }
}

/// Takes the optional relationship `field` out of `rels` and reads it; its
/// absence reads as `None`.
pub fn take_optional<T: FromRelationship>(rels: &mut RelationshipMap, field: &RelationField) -> (r:
    Result<Option<T>, Error>)
    ensures
        final(rels)@ == old(rels)@.remove(field.relation_name@),
        !old(rels)@.contains_key(field.relation_name@) ==> (r matches Ok(o) && o is None),
        old(rels)@.contains_key(field.relation_name@) ==> {
            let d = old(rels)@[field.relation_name@];
            &&& (r is Ok <==> T::relationship_accepts(d))
            &&& (r matches Ok(o) ==> (o matches Some(v) && T::relationship_decodes_to(d, v)))
            &&& (r matches Err(e) ==> e@ == bad_request_spec(T::relationship_rejection(d)))
        },
{
    match rels.remove(field.relation_name.as_str()) {
        Some(t) => match T::from_relationship(t.data) {
            Ok(v) => Ok(Some(v)),
            Err(e) => Err(e),
        },
        None => Ok(None),
    }
}

/// Stores the relationship to `value` under the mandatory relationship `field`.
pub fn put_mandatory<T: IntoRelationship>(rels: &mut RelationshipMap, field: &RelationField, value: T)
    ensures
        final(rels)@ == old(rels)@.insert(
            field.relation_name@,
            value.relationship_for(field.resource_name@),
        ),
{
    let data = RelationshipData::new(value.into_relationship(field.resource_name.as_str()));
    rels.insert(field.relation_name.clone(), data);
}

/// Stores the relationship to `value`, where it is present, under the
/// optional relationship `field`.
pub fn put_optional<T: IntoRelationship>(
    rels: &mut RelationshipMap,
    field: &RelationField,
    value: Option<T>,
)
    ensures
        match value {
            Some(v) => final(rels)@ == old(rels)@.insert(
                field.relation_name@,
                v.relationship_for(field.resource_name@),
            ),
            None => final(rels)@ == old(rels)@,
        },
{
    if let Some(v) = value {
        put_mandatory(rels, field, v);
    }
}

/// What `str::to_lowercase` makes of a text.
pub uninterp spec fn lower_of(s: Seq<char>) -> Seq<char>;

/// Relies on `str::to_lowercase`: the result depends on the characters alone.
#[verifier::external_body]
fn lowercase(s: &str) -> (r: String)
    ensures
        r@ == lower_of(s@),
{
    s.to_lowercase()
}

/// The view of a [`ResourceShape`].
pub struct ShapeView {
    pub name: Seq<char>,
    pub resource_type_name: Seq<char>,
    pub has_id: bool,
    pub has_attributes: bool,
    pub has_relations: bool,
}

/// Which roles the fields of an entity play, and the entity's type name.
#[derive(Debug, Clone)]
pub struct ResourceShape {
    /// The entity's name.
    pub name: String,
    /// The entity's resource type name, before lower-casing.
    pub resource_type_name: String,
    /// Whether a field named `id` carries the entity's id.
    pub has_id: bool,
    /// Whether a field named `attributes` carries the entity's attributes.
    pub has_attributes: bool,
    /// Whether a field named `relations` carries the entity's relation holder.
    pub has_relations: bool,
}

impl View for ResourceShape {
    type V = ShapeView;

    open spec fn view(&self) -> ShapeView {
        ShapeView {
            name: self.name@,
            resource_type_name: self.resource_type_name@,
            has_id: self.has_id,
            has_attributes: self.has_attributes,
            has_relations: self.has_relations,
        }
    }
}

/// Whether one of `fields` is named `f`.
pub open spec fn has_field(fields: Seq<String>, f: Seq<char>) -> bool {
    exists|i: int| 0 <= i < fields.len() && #[trigger] fields[i]@ == f
}

/// The type name of an entity: the one given, or else its name with an `s`
/// appended.
pub open spec fn resource_type_name_spec(name: Seq<char>, custom_name: Option<Seq<char>>) -> Seq<char> {
    match custom_name {
        Some(n) => n,
        None => name + "s"@,
    }
}

/// The title of the error for a request without the id that the entity needs.
pub open spec fn missing_id_title(resource_type_name: Seq<char>) -> Seq<char> {
    "missing required id field in request for resource "@ + resource_type_name
}

/// The title of the error for a request with an id that the entity cannot hold.
pub open spec fn id_not_allowed_title(resource_type_name: Seq<char>) -> Seq<char> {
    "'id' field not allowed in request for resource "@ + resource_type_name
}

/// The error, if any, with which a request with the id `id` is refused for
/// an entity of shape `shape`: an entity with an id needs one in the
/// request, and one without refuses it.
pub open spec fn presence_rejection(shape: ShapeView, id: Option<Seq<char>>) -> Option<ErrorView> {
    if shape.has_id && id is None {
        Some(bad_request_spec(missing_id_title(shape.resource_type_name)))
    } else if !shape.has_id && id is Some {
        Some(bad_request_spec(id_not_allowed_title(shape.resource_type_name)))
    } else {
        None
    }
}

/// The parts of an entity that a request yields: its id where the entity has
/// one, its attributes, and its relation holder where it has one.
pub struct RequestParts<I, A, R> {
    pub id: Option<I>,
    pub attributes: A,
    pub relations: Option<R>,
}

/// Whether `r` is the outcome of reading the id `id` of a request, once its
/// relationships were read as `relations`: an entity with an id reads it as
/// an `I`, where a bad request refuses unreadable text; the attributes pass
/// through unchanged.
pub open spec fn id_step<I: FromID, A, R>(
    shape: ShapeView,
    id: Option<Seq<char>>,
    attributes: A,
    relations: Option<R>,
    r: Result<RequestParts<I, A, R>, Error>,
) -> bool {
    if shape.has_id && !I::id_accepts(id->0) {
        r matches Err(e) && e@ == bad_request_spec(I::id_rejection(id->0))
    } else {
        &&& r matches Ok(p)
        &&& p.attributes == attributes
        &&& p.relations == relations
        &&& if shape.has_id {
            p.id matches Some(v) && I::id_decodes_to(id->0, v)
        } else {
            p.id is None
        }
    }
}

/// Whether `r` is the outcome of reading the request `req` for an entity of
/// shape `shape` whose id has type `I` and whose relation holder has type `R`.
///
/// First the presence of the id is checked; then the relationships are read,
/// by `R` for an entity with a relation holder and as no relationships at all
/// for one without; then the id is read. The first step that fails decides.
pub open spec fn request_decoding<I: FromID, A, R: FromRelationships>(
    shape: ShapeView,
    req: Request<A>,
    r: Result<RequestParts<I, A, R>, Error>,
) -> bool {
    let id = opt_id_view(req.data.id);
    match presence_rejection(shape, id) {
        Some(e) => r matches Err(x) && x@ == e,
        None => if shape.has_relations {
            exists|res: Result<R, Error>|
                #[trigger] call_ensures(R::from_relationships, (req.data.relationships,), res)
                    && match res {
                    Ok(h) => id_step(shape, id, req.data.attributes, Some(h), r),
                    Err(e) => r == Err::<RequestParts<I, A, R>, Error>(e),
                }
        } else {
            match unit_rejection(opt_map_view(req.data.relationships)) {
                Some(e) => r matches Err(x) && x@ == e,
                None => id_step(shape, id, req.data.attributes, None, r),
            }
        },
    }
}

/// Whether `r` is the resource of an entity of shape `shape` with the id text
/// `id`, the attributes `attributes` and the relation holder `relations`.
pub open spec fn response_encodes<A, R: IntoRelationships>(
    shape: ShapeView,
    id: Seq<char>,
    attributes: A,
    relations: Option<R>,
    r: ResourceResponse<A>,
) -> bool {
    &&& r.id@ == IdentifierView { id, typ: lower_of(shape.resource_type_name) }
    &&& r.attributes == attributes
    &&& match relations {
        Some(h) => call_ensures(R::into_relationships, (h,), r.relationships),
        None => r.relationships is None,
    }
}

impl ResourceShape {
    /// The shape of the entity `name` whose fields have the names `fields`;
    /// `custom_name` replaces the default type name.
    pub fn from_fields(name: String, custom_name: Option<String>, fields: &Vec<String>) -> (r:
        ResourceShape)
        ensures
            r.name@ == name@,
            r.resource_type_name@ == resource_type_name_spec(name@, opt_text(custom_name)),
            r.has_id == has_field(fields@, "id"@),
            r.has_attributes == has_field(fields@, "attributes"@),
            r.has_relations == has_field(fields@, "relations"@),
    {
        let resource_type_name = match custom_name {
            Some(n) => n,
            None => {
                let mut n = name.clone();
                n.append("s");
                n
            },
        };
        let id_name = "id".to_owned();
        let attributes_name = "attributes".to_owned();
        let relations_name = "relations".to_owned();
        let mut has_id = false;
        let mut has_attributes = false;
        let mut has_relations = false;
        proof {
            reveal_strlit("id");
            reveal_strlit("attributes");
            reveal_strlit("relations");
            assert("id"@.len() != "attributes"@.len());
            assert("id"@.len() != "relations"@.len());
            assert("attributes"@[0] != "relations"@[0]);
        }
        let mut i: usize = 0;
        while i < fields.len()
            invariant
                i <= fields@.len(),
                "id"@ != "attributes"@,
                "id"@ != "relations"@,
                "attributes"@ != "relations"@,
                id_name@ == "id"@,
                attributes_name@ == "attributes"@,
                relations_name@ == "relations"@,
                has_id == has_field(fields@.subrange(0, i as int), "id"@),
                has_attributes == has_field(fields@.subrange(0, i as int), "attributes"@),
                has_relations == has_field(fields@.subrange(0, i as int), "relations"@),
            decreases fields@.len() - i,
        {
            let ghost prev = fields@.subrange(0, i as int);
            let ghost next = fields@.subrange(0, i + 1);
            assert(next =~= prev.push(fields@[i as int]));
            assert(forall|f: Seq<char>|
                #[trigger] has_field(next, f) <==> has_field(prev, f) || fields@[i as int]@ == f) by {
                assert forall|f: Seq<char>| has_field(next, f) implies has_field(prev, f)
                    || fields@[i as int]@ == f by {
                    let j = choose|j: int| 0 <= j < next.len() && #[trigger] next[j]@ == f;
                    if j < i {
                        assert(prev[j] == next[j]);
                    }
                }
                assert forall|f: Seq<char>| has_field(prev, f) implies has_field(next, f) by {
                    let j = choose|j: int| 0 <= j < prev.len() && #[trigger] prev[j]@ == f;
                    assert(next[j] == prev[j]);
                }
                assert forall|f: Seq<char>| fields@[i as int]@ == f implies has_field(next, f) by {
                    assert(next[i as int] == fields@[i as int]);
                }
            }
            if fields[i] == id_name {
                has_id = true;
            } else if fields[i] == attributes_name {
                has_attributes = true;
            } else if fields[i] == relations_name {
                has_relations = true;
            }
            i = i + 1;
        }
        assert(fields@.subrange(0, i as int) =~= fields@);
        ResourceShape { name, resource_type_name, has_id, has_attributes, has_relations }
    }

    /// The resource type name on the wire: the type name, lower-cased.
    pub fn resource_type(&self) -> (r: String)
        ensures
            r@ == lower_of(self.resource_type_name@),
    {
        lowercase(self.resource_type_name.as_str())
    }

    /// A bad request whose title is `prefix` followed by the type name.
    fn refusal(&self, prefix: &str) -> (r: Error)
        ensures
            r@ == bad_request_spec(prefix@ + self.resource_type_name@),
    {
        let mut title = prefix.to_owned();
        title.append(self.resource_type_name.as_str());
        Error::new_bad_request(title.as_str())
    }

    /// Reads the id of a request once its relationships were read.
    fn read_id<I: FromID, A, R>(&self, id: Option<ID>, attributes: A, relations: Option<R>) -> (r:
        Result<RequestParts<I, A, R>, Error>)
        requires
            self.has_id == (id is Some),
        ensures
            id_step(self@, opt_id_view(id), attributes, relations, r),
    {
        let id = match id {
            Some(id) => match I::from_id(id) {
                Ok(v) => Some(v),
                Err(e) => {
                    return Err(e);
                },
            },
            None => None,
        };
        Ok(RequestParts { id, attributes, relations })
    }

    /// Reads the parts of an entity of this shape from a request.
    ///
    /// An entity with an id needs one in the request, and one without refuses
    /// it; then the relationships are read, by the relation holder `R` or, for
    /// an entity without one, as no relationships at all; then the id is read
    /// as an `I`. The attributes pass through unchanged.
    pub fn decode_request<I: FromID, A, R: FromRelationships>(&self, req: Request<A>) -> (r: Result<
        RequestParts<I, A, R>,
        Error,
    >)
        ensures
            request_decoding(self@, req, r),
    {
        let data = req.data;
        if self.has_id {
            if data.id.is_none() {
                return Err(self.refusal("missing required id field in request for resource "));
            }
        } else {
            if data.id.is_some() {
                return Err(self.refusal("'id' field not allowed in request for resource "));
            }
        }
        if self.has_relations {
            let res = R::from_relationships(data.relationships);
            match res {
                Ok(h) => {
                    let r = self.read_id(data.id, data.attributes, Some(h));
                    assert(call_ensures(R::from_relationships, (req.data.relationships,), res));
                    r
                },
                Err(e) => {
                    assert(call_ensures(R::from_relationships, (req.data.relationships,), res));
                    Err(e)
                },
            }
        } else {
            match crate::relations::expect_no_relationships(data.relationships) {
                Ok(_) => self.read_id(data.id, data.attributes, None),
                Err(e) => Err(e),
            }
        }
    }

    /// The resource of an entity of this shape with the given id, attributes
    /// and relation holder.
    pub fn encode_response<I: IntoID, A, R: IntoRelationships>(
        &self,
        id: I,
        attributes: A,
        relations: Option<R>,
    ) -> (r: ResourceResponse<A>)
        ensures
            response_encodes(self@, id.id_text(), attributes, relations, r),
    {
        let relationships = match relations {
            Some(h) => h.into_relationships(),
            None => None,
        };
        ResourceResponse {
            id: Identifier { id: id.into_id(), typ: self.resource_type() },
            attributes,
            relationships,
        }
    }
}

/// Decoding a request and encoding the entity it yields gives back the
/// request's attributes unchanged.
pub proof fn lemma_attributes_round_trip<I: FromID, A, R: FromRelationships, H: IntoRelationships>(
    shape: ShapeView,
    req: Request<A>,
    parts: RequestParts<I, A, R>,
    id: Seq<char>,
    relations: Option<H>,
    resp: ResourceResponse<A>,
)
    requires
        request_decoding(shape, req, Ok(parts)),
        response_encodes(shape, id, parts.attributes, relations, resp),
    ensures
        resp.attributes == req.data.attributes,
{
}

/// A request without an id is a bad request for an entity with an id, and a
/// request with an id is a bad request for an entity without one.
pub proof fn lemma_id_presence_enforced<I: FromID, A, R: FromRelationships>(
    shape: ShapeView,
    req: Request<A>,
    r: Result<RequestParts<I, A, R>, Error>,
)
    requires
        shape.has_id != (req.data.id is Some),
        request_decoding(shape, req, r),
    ensures
        r matches Err(e) && e.status == crate::wire::ErrorStatus::BadRequest,
{
}

} // verus!
