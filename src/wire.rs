//! The JSON:API document types: identifiers, relationships and errors.
use crate::relmap::RelationshipMap;
use vstd::prelude::*;
use vstd::string::*;

verus! {

/// The wire text of a resource id.
#[derive(Debug, PartialEq, Eq, PartialOrd, Ord, Hash)]
pub struct ID(pub String);

impl View for ID {
    type V = Seq<char>;

    open spec fn view(&self) -> Seq<char> {
        self.0@
    }
}

impl Clone for ID {
    fn clone(&self) -> (r: ID)
        ensures
            r@ == self@,
    {
        ID(self.0.clone())
    }
}

impl ID {
    /// The id whose wire text is `text`.
    pub fn new(text: &str) -> (r: ID)
        ensures
            r@ == text@,
    {
        ID(text.to_owned())
    }

    /// The wire text of this id.
    pub fn as_str(&self) -> (r: &str)
        ensures
            r@ == self@,
    {
        self.0.as_str()
    }
}

/// The view of an [`Identifier`]: its id and its type name.
pub struct IdentifierView {
    pub id: Seq<char>,
    pub typ: Seq<char>,
}

/// A reference to one resource: its id and its type name.
#[derive(Debug)]
pub struct Identifier {
    pub id: ID,
    pub typ: String,
}

impl View for Identifier {
    type V = IdentifierView;

    open spec fn view(&self) -> IdentifierView {
        IdentifierView { id: self.id@, typ: self.typ@ }
    }
}

impl Clone for Identifier {
    fn clone(&self) -> (r: Identifier)
        ensures
            r@ == self@,
    {
        Identifier { id: self.id.clone(), typ: self.typ.clone() }
    }
}

/// The view of a [`Relationship`].
pub enum RelationshipView {
    ToOne(IdentifierView),
    ToMany(Seq<IdentifierView>),
}

/// The views of a sequence of identifiers.
pub open spec fn identifiers_view(s: Seq<Identifier>) -> Seq<IdentifierView> {
    s.map_values(|i: Identifier| i@)
}

/// The target of a relationship: one resource, or an ordered list of them.
#[derive(Debug)]
pub enum Relationship {
    ToOne(Identifier),
    ToMany(Vec<Identifier>),
}

impl View for Relationship {
    type V = RelationshipView;

    open spec fn view(&self) -> RelationshipView {
        match self {
            Relationship::ToOne(i) => RelationshipView::ToOne(i@),
            Relationship::ToMany(v) => RelationshipView::ToMany(identifiers_view(v@)),
        }
    }
}

/// Clones each identifier of `v`, in order.
fn clone_identifiers(v: &Vec<Identifier>) -> (r: Vec<Identifier>)
    ensures
        identifiers_view(r@) == identifiers_view(v@),
{
    let mut r: Vec<Identifier> = Vec::new();
    let mut i: usize = 0;
    while i < v.len()
        invariant
            i <= v.len(),
            identifiers_view(r@) == identifiers_view(v@.subrange(0, i as int)),
        decreases v.len() - i,
    {
        let c = v[i].clone();
        assert(c@ == v@[i as int]@);
        proof {
            let prev = r@;
            assert(identifiers_view(prev.push(c)) =~= identifiers_view(prev).push(c@));
            assert(v@.subrange(0, i + 1) =~= v@.subrange(0, i as int).push(v@[i as int]));
            assert(identifiers_view(v@.subrange(0, i + 1)) =~= identifiers_view(
                v@.subrange(0, i as int),
            ).push(v@[i as int]@));
        }
        r.push(c);
        i = i + 1;
    }
    assert(v@.subrange(0, i as int) =~= v@);
    r
}

impl Clone for Relationship {
    fn clone(&self) -> (r: Relationship)
        ensures
            r@ == self@,
    {
        match self {
            Relationship::ToOne(i) => Relationship::ToOne(i.clone()),
            Relationship::ToMany(v) => Relationship::ToMany(clone_identifiers(v)),
        }
    }
}

/// The value stored under a name in a relationships mapping.
#[derive(Debug)]
pub struct RelationshipData {
    pub data: Relationship,
}

impl View for RelationshipData {
    type V = RelationshipView;

    open spec fn view(&self) -> RelationshipView {
        self.data@
    }
}

impl Clone for RelationshipData {
    fn clone(&self) -> (r: RelationshipData)
        ensures
            r@ == self@,
    {
        RelationshipData { data: self.data.clone() }
    }
}

impl RelationshipData {
    /// Wraps a relationship as the value of a relationships mapping.
    pub fn new(data: Relationship) -> (r: RelationshipData)
        ensures
            r@ == data@,
    {
        RelationshipData { data }
    }
}

/// The view of an optional relationships mapping.
pub open spec fn opt_map_view(o: Option<RelationshipMap>) -> Option<Map<Seq<char>, RelationshipView>> {
    match o {
        Some(m) => Some(m@),
        None => None,
    }
}

/// The view of an optional id.
pub open spec fn opt_id_view(o: Option<ID>) -> Option<Seq<char>> {
    match o {
        Some(i) => Some(i@),
        None => None,
    }
}

/// A copy of an optional relationships mapping.
fn clone_relationships(m: &Option<RelationshipMap>) -> (r: Option<RelationshipMap>)
    ensures
        opt_map_view(r) == opt_map_view(*m),
{
    match m {
        Some(m) => Some(m.clone()),
        None => None,
    }
}

/// One outgoing resource: its identifier, attributes and relationships.
pub struct ResourceResponse<D> {
    pub id: Identifier,
    pub attributes: D,
    pub relationships: Option<RelationshipMap>,
}

impl<D: Clone> Clone for ResourceResponse<D> {
    /// A copy with the same identifier and relationships, and a clone of the attributes.
    fn clone(&self) -> (r: ResourceResponse<D>)
        ensures
            r.id@ == self.id@,
            cloned::<D>(self.attributes, r.attributes),
            opt_map_view(r.relationships) == opt_map_view(self.relationships),
    {
        ResourceResponse {
            id: self.id.clone(),
            attributes: self.attributes.clone(),
            relationships: clone_relationships(&self.relationships),
        }
    }
}

/// One incoming resource; creation requests may leave out its id.
pub struct ResourceRequest<D> {
    pub id: Option<ID>,
    pub typ: String,
    pub attributes: D,
    pub relationships: Option<RelationshipMap>,
}

impl<D: Clone> Clone for ResourceRequest<D> {
    /// A copy with the same id, type and relationships, and a clone of the attributes.
    fn clone(&self) -> (r: ResourceRequest<D>)
        ensures
            opt_id_view(r.id) == opt_id_view(self.id),
            r.typ@ == self.typ@,
            cloned::<D>(self.attributes, r.attributes),
            opt_map_view(r.relationships) == opt_map_view(self.relationships),
    {
        let id = match &self.id {
            Some(i) => Some(i.clone()),
            None => None,
        };
        ResourceRequest {
            id,
            typ: self.typ.clone(),
            attributes: self.attributes.clone(),
            relationships: clone_relationships(&self.relationships),
        }
    }
}

/// An incoming document, holding one resource.
pub struct Request<D> {
    pub data: ResourceRequest<D>,
}

impl<D: Clone> Clone for Request<D> {
    /// A copy with the same id, type and relationships, and a clone of the attributes.
    fn clone(&self) -> (r: Request<D>)
        ensures
            opt_id_view(r.data.id) == opt_id_view(self.data.id),
            r.data.typ@ == self.data.typ@,
            cloned::<D>(self.data.attributes, r.data.attributes),
            opt_map_view(r.data.relationships) == opt_map_view(self.data.relationships),
    {
        Request { data: self.data.clone() }
    }
}

/// The status of an error document; its wire text is the numeric code.
#[derive(Debug, Clone, Copy, PartialEq, Eq, Structural)]
pub enum ErrorStatus {
    BadRequest,
    Unauthorized,
    Forbidden,
    NotFound,
    Conflict,
    InternalError,
}

/// The HTTP status code that stands for each error status.
pub open spec fn status_code_spec(s: ErrorStatus) -> u16 {
    match s {
        ErrorStatus::BadRequest => 400,
        ErrorStatus::Unauthorized => 401,
        ErrorStatus::Forbidden => 403,
        ErrorStatus::NotFound => 404,
        ErrorStatus::Conflict => 409,
        ErrorStatus::InternalError => 500,
    }
}

/// The wire text of each error status: its numeric code as a string.
pub open spec fn status_text_spec(s: ErrorStatus) -> Seq<char> {
    match s {
        ErrorStatus::BadRequest => "400"@,
        ErrorStatus::Unauthorized => "401"@,
        ErrorStatus::Forbidden => "403"@,
        ErrorStatus::NotFound => "404"@,
        ErrorStatus::Conflict => "409"@,
        ErrorStatus::InternalError => "500"@,
    }
}

impl ErrorStatus {
    /// The numeric HTTP status code of this status.
    pub fn code(&self) -> (r: u16)
        ensures
            r == status_code_spec(*self),
    {
        match self {
            ErrorStatus::BadRequest => 400,
            ErrorStatus::Unauthorized => 401,
            ErrorStatus::Forbidden => 403,
            ErrorStatus::NotFound => 404,
            ErrorStatus::Conflict => 409,
            ErrorStatus::InternalError => 500,
        }
    }

    /// The wire text of this status, e.g. `400` for a bad request.
    pub fn wire_text(&self) -> (r: String)
        ensures
            r@ == status_text_spec(*self),
    {
        let t: &str = match self {
            ErrorStatus::BadRequest => "400",
            ErrorStatus::Unauthorized => "401",
            ErrorStatus::Forbidden => "403",
            ErrorStatus::NotFound => "404",
            ErrorStatus::Conflict => "409",
            ErrorStatus::InternalError => "500",
        };
        t.to_owned()
    }
}

/// The mathematical content of an [`Error`].
pub struct ErrorView {
    pub status: ErrorStatus,
    pub code: Option<Seq<char>>,
    pub title: Seq<char>,
    pub detail: Option<Seq<char>>,
}

/// The error that a constructor of [`Error`] builds for a status, its
/// human-readable code and a title.
pub open spec fn error_spec(status: ErrorStatus, code: Seq<char>, title: Seq<char>) -> ErrorView {
    ErrorView { status, code: Some(code), title, detail: None }
}

/// The error for a request of the wrong shape with the given title.
pub open spec fn bad_request_spec(title: Seq<char>) -> ErrorView {
    error_spec(ErrorStatus::BadRequest, "Bad Request"@, title)
}

/// A JSON:API error object.
#[derive(Debug, Clone)]
pub struct Error {
    pub status: ErrorStatus,
    /// A human-readable code, not the numeric one (that is `status`).
    pub code: Option<String>,
    pub title: String,
    pub detail: Option<String>,
}

/// The view of an optional string.
pub open spec fn opt_text(o: Option<String>) -> Option<Seq<char>> {
    match o {
        Some(s) => Some(s@),
        None => None,
    }
}

impl View for Error {
    type V = ErrorView;

    open spec fn view(&self) -> ErrorView {
        ErrorView {
            status: self.status,
            code: opt_text(self.code),
            title: self.title@,
            detail: opt_text(self.detail),
        }
    }
}

impl Error {
    fn with_status(status: ErrorStatus, code: &str, title: &str) -> (r: Error)
        ensures
            r@ == error_spec(status, code@, title@),
    {
        Error { status, code: Some(code.to_owned()), title: title.to_owned(), detail: None }
    }

    pub fn new_not_found(title: &str) -> (r: Error)
        ensures
            r@ == error_spec(ErrorStatus::NotFound, "Not Found"@, title@),
    {
        Error::with_status(ErrorStatus::NotFound, "Not Found", title)
    }

    pub fn new_bad_request(title: &str) -> (r: Error)
        ensures
            r@ == bad_request_spec(title@),
    {
        Error::with_status(ErrorStatus::BadRequest, "Bad Request", title)
    }

    pub fn new_internal_error(title: &str) -> (r: Error)
        ensures
            r@ == error_spec(ErrorStatus::InternalError, "Internal Server Error"@, title@),
    {
        Error::with_status(ErrorStatus::InternalError, "Internal Server Error", title)
    }

    pub fn new_forbidden(title: &str) -> (r: Error)
        ensures
            r@ == error_spec(ErrorStatus::Forbidden, "Forbidden"@, title@),
    {
        Error::with_status(ErrorStatus::Forbidden, "Forbidden", title)
    }

    pub fn new_unauthorized(title: &str) -> (r: Error)
        ensures
            r@ == error_spec(ErrorStatus::Unauthorized, "Unauthorized"@, title@),
    {
        Error::with_status(ErrorStatus::Unauthorized, "Unauthorized", title)
    }

    pub fn new_conflict(title: &str) -> (r: Error)
        ensures
            r@ == error_spec(ErrorStatus::Conflict, "Conflict"@, title@),
    {
        Error::with_status(ErrorStatus::Conflict, "Conflict", title)
    }

    /// The text `error "<status>": <title>` that describes this error.
    pub fn to_string(&self) -> (r: String)
        ensures
            r@ == "error \""@ + status_text_spec(self.status) + "\": "@ + self.title@,
    {
        let mut s = "error \"".to_owned();
        let st = self.status.wire_text();
        s.append(st.as_str());
        s.append("\": ");
        s.append(self.title.as_str());
        s
    }
}

} // verus!
