use jsonapi::schema::{open_relationships, put_mandatory, put_optional, take_mandatory, take_optional};
use jsonapi::{
    Error, ErrorStatus, FieldType, FromID, FromRelationship, FromRelationships, FromRequest,
    Identifier, IntoID, IntoRelationships, IntoResponse, JsonApi, Relationship, RelationField,
    RelationFieldDecl, RelationshipData, RelationshipMap, RelationsSchema, Request, ResourceRequest,
    ResourceResponse, ResourceShape, Response, ResponseType, Uuid, ID,
};

#[derive(Clone, Debug, PartialEq)]
struct SimpleAttributes {
    foo: String,
    bar: Option<isize>,
}

// A request entity with an id and attributes, and no relationships.
struct SimpleRequest {
    id: Uuid,
    attributes: SimpleAttributes,
}

impl FromRequest for SimpleRequest {
    type Attributes = SimpleAttributes;

    fn from_request(req: Request<Self::Attributes>) -> Result<Self, Error> {
        // no relationships may be passed: the holder is the unit type
        <()>::from_relationships(req.data.relationships)?;
        Ok(SimpleRequest {
            id: FromID::from_id(req.data.id.unwrap())?,
            attributes: req.data.attributes,
        })
    }
}

fn new_uuid() -> Uuid {
    Uuid(uuid::Uuid::new_v4().as_u128())
}

fn to_one(id: &str, typ: &str) -> RelationshipData {
    RelationshipData {
        data: Relationship::ToOne(Identifier { id: ID::new(id), typ: typ.to_owned() }),
    }
}

#[test]
fn test_simple_request() {
    let id = new_uuid();
    let mut req = Request {
        data: ResourceRequest {
            id: Some(id.into_id()),
            typ: "simple".into(),
            attributes: SimpleAttributes { foo: "testing".into(), bar: Some(123) },
            relationships: None,
        },
    };
    assert!(SimpleRequest::from_request(req.clone()).is_ok());
    req.data.id = Some(ID::new("foobarbaz")); // invalid UUID format
    assert!(SimpleRequest::from_request(req.clone()).is_err());
    req.data.id = Some(id.into_id());
    let mut relations = RelationshipMap::new();
    relations.insert("fake".to_owned(), to_one("test", "fake"));
    req.data.relationships = Some(relations);
    assert!(SimpleRequest::from_request(req.clone()).is_err());
}

struct SimpleResponse {
    id: Uuid,
    attributes: SimpleAttributes,
}

impl IntoResponse for SimpleResponse {
    type Attributes = SimpleAttributes;

    fn into_response(self) -> ResourceResponse<Self::Attributes> {
        ResourceResponse {
            id: Identifier { id: self.id.into_id(), typ: "simple".into() },
            attributes: self.attributes,
            relationships: None,
        }
    }
}

#[test]
fn test_simple_response() {
    let attrs = SimpleAttributes { foo: "foo".into(), bar: None };
    let id = new_uuid();
    let response = SimpleResponse { id, attributes: attrs };
    // finish with no included resources
    let doc = Response::<SimpleAttributes, Option<()>>::from_resource(response).finish();
    match doc.primary {
        ResponseType::Data(v) => {
            assert_eq!(v.len(), 1);
            assert_eq!(v[0].attributes.foo, "foo");
            assert_eq!(v[0].id.id.0, uuid::Uuid::from_u128(id.0).to_string());
        }
        ResponseType::Error(_) => panic!("expected data"),
    }
    assert!(doc.included.is_none());
}

// An entity whose shape is read from its field names.
struct ShapedRequest {
    id: Uuid,
    attributes: SimpleAttributes,
}

fn shaped_request_shape() -> ResourceShape {
    ResourceShape::from_fields(
        "SimpleRequest".to_owned(),
        None,
        &vec!["id".to_owned(), "attributes".to_owned()],
    )
}

impl FromRequest for ShapedRequest {
    type Attributes = SimpleAttributes;

    fn from_request(req: Request<Self::Attributes>) -> Result<Self, Error> {
        let parts = shaped_request_shape().decode_request::<Uuid, SimpleAttributes, ()>(req)?;
        Ok(ShapedRequest { id: parts.id.unwrap(), attributes: parts.attributes })
    }
}

#[test]
fn test_from_request() {
    let id = new_uuid();
    let mut req = Request {
        data: ResourceRequest {
            id: Some(id.into_id()),
            typ: "simple".into(),
            attributes: SimpleAttributes { foo: "test".into(), bar: Some(4) },
            relationships: None,
        },
    };
    let ok = ShapedRequest::from_request(req.clone()).unwrap_or_else(|_| panic!("refused"));
    assert_eq!(ok.id, id);
    assert_eq!(ok.attributes.foo, "test");
    req.data.id = Some(ID::new("foobar"));
    assert!(ShapedRequest::from_request(req.clone()).is_err());
    let mut relations = RelationshipMap::new();
    relations.insert("foo".into(), to_one("fake", "fakes"));
    req.data.relationships = Some(relations);
    req.data.id = Some(id.into_id());
    assert!(ShapedRequest::from_request(req.clone()).is_err());
}

fn plain_request(id: Option<&str>, rels: Option<RelationshipMap>) -> Request<SimpleAttributes> {
    Request {
        data: ResourceRequest {
            id: id.map(ID::new),
            typ: "simples".into(),
            attributes: SimpleAttributes { foo: "x".into(), bar: Some(-2) },
            relationships: rels,
        },
    }
}

fn bad_request_title<T>(r: Result<T, Error>) -> String {
    match r {
        Ok(_) => panic!("expected an error"),
        Err(e) => {
            assert_eq!(e.status, ErrorStatus::BadRequest);
            assert_eq!(e.code.as_deref(), Some("Bad Request"));
            e.title
        }
    }
}

#[test]
fn attributes_round_trip() {
    let shape = ResourceShape::from_fields(
        "Simple".to_owned(),
        None,
        &vec!["id".to_owned(), "attributes".to_owned()],
    );
    let req = plain_request(Some("17"), None);
    let sent = req.data.attributes.clone();
    let parts = match shape.decode_request::<usize, SimpleAttributes, ()>(req) {
        Ok(p) => p,
        Err(_) => panic!("refused"),
    };
    assert_eq!(parts.id, Some(17));
    let resp = shape.encode_response::<usize, SimpleAttributes, ()>(17, parts.attributes, None);
    assert_eq!(resp.attributes, sent);
    assert_eq!(resp.id.id.0, "17");
    assert_eq!(resp.id.typ, "simples");
    assert!(resp.relationships.is_none());
}

#[test]
fn mandatory_id_enforced() {
    let with_id = ResourceShape::from_fields(
        "Simple".to_owned(),
        None,
        &vec!["id".to_owned(), "attributes".to_owned()],
    );
    let title = bad_request_title(
        with_id.decode_request::<usize, SimpleAttributes, ()>(plain_request(None, None)),
    );
    assert_eq!(title, "missing required id field in request for resource Simples");
    let without_id =
        ResourceShape::from_fields("Simple".to_owned(), None, &vec!["attributes".to_owned()]);
    let title = bad_request_title(
        without_id.decode_request::<usize, SimpleAttributes, ()>(plain_request(Some("1"), None)),
    );
    assert_eq!(title, "'id' field not allowed in request for resource Simples");
    let parts = match without_id.decode_request::<usize, SimpleAttributes, ()>(plain_request(None, None)) {
        Ok(p) => p,
        Err(_) => panic!("refused"),
    };
    assert!(parts.id.is_none());
}

#[test]
fn shape_from_field_names() {
    let shape = ResourceShape::from_fields(
        "FakeResponse".to_owned(),
        None,
        &vec!["id".to_owned(), "relations".to_owned(), "other".to_owned()],
    );
    assert!(shape.has_id && shape.has_relations && !shape.has_attributes);
    assert_eq!(shape.resource_type_name, "FakeResponses");
    assert_eq!(shape.resource_type(), "fakeresponses");
    let custom = ResourceShape::from_fields(
        "FakeResponse".to_owned(),
        Some("Fakes".to_owned()),
        &vec![],
    );
    assert!(!custom.has_id && !custom.has_relations && !custom.has_attributes);
    assert_eq!(custom.resource_type(), "fakes");
}

// A relation holder with one mandatory relationship.
struct MandatoryRelations {
    simple: ID,
}

fn simple_field(is_option: bool) -> RelationsSchema {
    let segments = if is_option { vec!["Option".to_owned()] } else { vec!["ID".to_owned()] };
    let decl = RelationFieldDecl {
        ident: "simple".to_owned(),
        name: None,
        ty: FieldType::Path { leading_colon: false, segments },
    };
    RelationsSchema::from_fields("Relations".to_owned(), vec![decl])
}

impl FromRelationships for MandatoryRelations {
    fn from_relationships(rels: Option<RelationshipMap>) -> Result<Self, Error> {
        let schema = simple_field(false);
        let mut rels = open_relationships(rels, schema.all_optional())?;
        let simple = take_mandatory(&mut rels, &schema.fields[0])?;
        Ok(MandatoryRelations { simple })
    }
}

#[test]
fn mandatory_relationship_enforced() {
    let title = bad_request_title(MandatoryRelations::from_relationships(None));
    assert_eq!(title, "missing mandatory relationships object");
    let title = bad_request_title(MandatoryRelations::from_relationships(Some(RelationshipMap::new())));
    assert_eq!(title, "missing mandatory relationship 'simple'");
    let mut rels = RelationshipMap::new();
    rels.insert("simple".to_owned(), to_one("x", "fakes"));
    let holder = MandatoryRelations::from_relationships(Some(rels)).unwrap_or_else(|_| panic!());
    assert_eq!(holder.simple, ID::new("x"));
}

#[test]
fn undeclared_relationships_pass() {
    let mut rels = RelationshipMap::new();
    rels.insert("simple".to_owned(), to_one("x", "fakes"));
    rels.insert("other".to_owned(), to_one("y", "others"));
    let holder = MandatoryRelations::from_relationships(Some(rels)).unwrap_or_else(|_| panic!());
    assert_eq!(holder.simple, ID::new("x"));
}

#[test]
fn relations_on_entity_decode() {
    let shape = ResourceShape::from_fields(
        "Fake".to_owned(),
        None,
        &vec!["id".to_owned(), "relations".to_owned()],
    );
    let mut rels = RelationshipMap::new();
    rels.insert("simple".to_owned(), to_one("x", "fakes"));
    let parts = match shape
        .decode_request::<usize, SimpleAttributes, MandatoryRelations>(plain_request(Some("5"), Some(rels)))
    {
        Ok(p) => p,
        Err(_) => panic!("refused"),
    };
    assert_eq!(parts.id, Some(5));
    assert_eq!(parts.relations.map(|r| r.simple), Some(ID::new("x")));
    let title = bad_request_title(
        shape.decode_request::<usize, SimpleAttributes, MandatoryRelations>(plain_request(Some("5"), None)),
    );
    assert_eq!(title, "missing mandatory relationships object");
    // the relationships are read before the id
    let title = bad_request_title(
        shape.decode_request::<usize, SimpleAttributes, MandatoryRelations>(plain_request(Some("z"), None)),
    );
    assert_eq!(title, "missing mandatory relationships object");
}

// A relation holder with one optional relationship.
struct OptionalRelations {
    simple: Option<ID>,
}

impl FromRelationships for OptionalRelations {
    fn from_relationships(rels: Option<RelationshipMap>) -> Result<Self, Error> {
        let schema = simple_field(true);
        let mut rels = open_relationships(rels, schema.all_optional())?;
        let simple = take_optional(&mut rels, &schema.fields[0])?;
        Ok(OptionalRelations { simple })
    }
}

impl IntoRelationships for OptionalRelations {
    fn into_relationships(self) -> Option<RelationshipMap> {
        let schema = simple_field(true);
        let mut rels = RelationshipMap::new();
        put_optional(&mut rels, &schema.fields[0], self.simple);
        Some(rels)
    }
}

#[test]
fn optional_relationship() {
    let holder = OptionalRelations::from_relationships(None).unwrap_or_else(|_| panic!());
    assert!(holder.simple.is_none());
    let empty = OptionalRelations { simple: None }.into_relationships().unwrap();
    assert!(empty.is_empty());
    assert!(!empty.contains_key("simple"));
    let one = OptionalRelations { simple: Some(ID::new("abc")) }.into_relationships().unwrap();
    assert_eq!(one.len(), 1);
    match &one.get("simple").unwrap().data {
        Relationship::ToOne(i) => {
            assert_eq!(i.id.0, "abc");
            assert_eq!(i.typ, "simples");
        }
        Relationship::ToMany(_) => panic!("expected a to-one relationship"),
    }
    let mut rels = RelationshipMap::new();
    rels.insert("simple".to_owned(), to_one("q", "simples"));
    let holder = OptionalRelations::from_relationships(Some(rels)).unwrap_or_else(|_| panic!());
    assert_eq!(holder.simple, Some(ID::new("q")));
}

#[test]
fn mandatory_relationship_encoded() {
    let decl = RelationFieldDecl {
        ident: "owner".to_owned(),
        name: Some("people".to_owned()),
        ty: FieldType::Path { leading_colon: false, segments: vec!["usize".to_owned()] },
    };
    let schema = RelationsSchema::from_fields("Relations".to_owned(), vec![decl]);
    assert!(!schema.all_optional());
    let mut rels = RelationshipMap::new();
    put_mandatory(&mut rels, &schema.fields[0], vec![3usize, 4usize]);
    match &rels.get("owner").unwrap().data {
        Relationship::ToMany(v) => {
            assert_eq!(v.len(), 2);
            assert_eq!(v[0].id.0, "3");
            assert_eq!(v[1].id.0, "4");
            assert_eq!(v[1].typ, "people");
        }
        Relationship::ToOne(_) => panic!("expected a to-many relationship"),
    }
}

#[test]
fn relation_schema_refuses_types() {
    assert!(!FieldType::Other.is_supported());
    let qualified = FieldType::Path {
        leading_colon: false,
        segments: vec!["std".to_owned(), "Option".to_owned()],
    };
    assert!(!qualified.is_supported());
    let rooted = FieldType::Path { leading_colon: true, segments: vec!["Option".to_owned()] };
    assert!(!rooted.is_supported());
    let plain = FieldType::Path { leading_colon: false, segments: vec!["Uuid".to_owned()] };
    assert!(plain.is_supported());
    let field = RelationField::from_decl(RelationFieldDecl {
        ident: "tag".to_owned(),
        name: None,
        ty: FieldType::Path { leading_colon: false, segments: vec!["Option".to_owned()] },
    });
    assert_eq!(field.resource_name, "tags");
    assert_eq!(field.relation_name, "tag");
    assert!(field.is_option);
}

#[test]
fn unit_holder_rejects_unknowns() {
    let mut rels = RelationshipMap::new();
    rels.insert("foo".to_owned(), to_one("1", "foos"));
    let title = bad_request_title(<()>::from_relationships(Some(rels)));
    assert_eq!(title, "unexpected relationships for this resource type");
    assert!(<()>::from_relationships(None).is_ok());
    assert!(<()>::from_relationships(Some(RelationshipMap::new())).is_ok());
    assert!(().into_relationships().is_none());
}

#[test]
fn cardinality_mismatch() {
    let one = to_one("a", "t").data;
    let title = bad_request_title(<Vec<ID>>::from_relationship(one));
    assert_eq!(title, "invalid relationship: expected a to-many, got to-one");
    let many = Relationship::ToMany(vec![Identifier { id: ID::new("a"), typ: "t".into() }]);
    let title = bad_request_title(<ID>::from_relationship(many));
    assert_eq!(title, "invalid relationship: expected a to-one, got to-many");
    let many = Relationship::ToMany(vec![
        Identifier { id: ID::new("1"), typ: "t".into() },
        Identifier { id: ID::new("2"), typ: "t".into() },
    ]);
    let values = <Vec<usize>>::from_relationship(many).unwrap_or_else(|_| panic!());
    assert_eq!(values, vec![1, 2]);
    let bad = Relationship::ToMany(vec![
        Identifier { id: ID::new("1"), typ: "t".into() },
        Identifier { id: ID::new("b"), typ: "t".into() },
        Identifier { id: ID::new("c"), typ: "t".into() },
    ]);
    let title = bad_request_title(<Vec<usize>>::from_relationship(bad));
    assert_eq!(title, "invalid value for unsigned id value: b");
}

#[test]
fn id_decode_failure() {
    let title = bad_request_title(<usize>::from_id(ID::new("not-a-number")));
    assert_eq!(title, "invalid value for unsigned id value: not-a-number");
    let title = bad_request_title(<isize>::from_id(ID::new("1.5")));
    assert_eq!(title, "invalid value for integer id value: 1.5");
    let title = bad_request_title(<Uuid>::from_id(ID::new("foobarbaz")));
    assert!(title.starts_with("invalid value for UUID id value: "));
    assert!(title.len() > "invalid value for UUID id value: ".len());
}

#[test]
fn ids_decode() {
    assert_eq!(<usize>::from_id(ID::new("42")).ok(), Some(42));
    assert_eq!(<usize>::from_id(ID::new("+7")).ok(), Some(7));
    assert!(<usize>::from_id(ID::new("-7")).is_err());
    assert!(<usize>::from_id(ID::new("")).is_err());
    assert_eq!(<isize>::from_id(ID::new("-7")).ok(), Some(-7));
    assert_eq!(<String>::from_id(ID::new("any text")).ok(), Some("any text".to_owned()));
    assert_eq!(<ID>::from_id(ID::new("kept")).ok(), Some(ID::new("kept")));
    let u = uuid::Uuid::new_v4();
    let parsed = <Uuid>::from_id(ID::new(&u.to_string())).unwrap_or_else(|_| panic!());
    assert_eq!(parsed, Uuid(u.as_u128()));
}

#[test]
fn ids_encode() {
    assert_eq!(42usize.into_id(), ID::new("42"));
    assert_eq!((-7isize).into_id(), ID::new("-7"));
    assert_eq!("s".to_owned().into_id(), ID::new("s"));
    assert_eq!(<usize>::from_id(usize::MAX.into_id()).ok(), Some(usize::MAX));
    assert_eq!(<isize>::from_id(isize::MIN.into_id()).ok(), Some(isize::MIN));
    let u = uuid::Uuid::from_u128(0x0123_4567_89ab_cdef_0123_4567_89ab_cdef);
    assert_eq!(Uuid(u.as_u128()).into_id().0, "01234567-89ab-cdef-0123-456789abcdef");
    let back = <Uuid>::from_id(Uuid(u.as_u128()).into_id()).unwrap_or_else(|_| panic!());
    assert_eq!(back.0, u.as_u128());
}

#[test]
fn body_errors_are_bad_requests() {
    let r = JsonApi::<SimpleRequest>::from_body(Err("expected value at line 1".to_owned()));
    let title = bad_request_title(r.map(|j| j.into_inner().attributes));
    assert_eq!(title, "expected value at line 1");
    let id = new_uuid();
    let body = Request {
        data: ResourceRequest {
            id: Some(id.into_id()),
            typ: "simple".into(),
            attributes: SimpleAttributes { foo: "f".into(), bar: None },
            relationships: None,
        },
    };
    let j = JsonApi::<SimpleRequest>::from_body(Ok(body)).unwrap_or_else(|_| panic!());
    assert_eq!(j.get().id, id);
    assert_eq!(j.into_inner().attributes.foo, "f");
}

#[test]
fn request_clone_keeps_fields() {
    let mut rels = RelationshipMap::new();
    rels.insert("simple".to_owned(), to_one("x", "fakes"));
    let req = plain_request(Some("9"), Some(rels));
    let copy = req.clone();
    assert_eq!(copy.data.id, Some(ID::new("9")));
    assert_eq!(copy.data.typ, req.data.typ);
    assert_eq!(copy.data.attributes, req.data.attributes);
    let kept = copy.data.relationships.unwrap();
    assert_eq!(kept.len(), 1);
    assert!(kept.contains_key("simple"));
}
