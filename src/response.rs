//! Assembly of response documents, and the capabilities that entities offer
//! to become resources or to be read from requests.
use crate::wire::{bad_request_spec, Error, Request, ResourceResponse};
use vstd::prelude::*;

verus! {

/// An entity that becomes one outgoing resource.
pub trait IntoResponse: Sized {
    type Attributes;

    /// The resource of this entity; this never fails.
    fn into_response(self) -> ResourceResponse<Self::Attributes>;
}

/// An entity that can be read from a request.
pub trait FromRequest: Sized {
    type Attributes;

    /// Reads the entity from a request, or refuses it with an error.
    fn from_request(req: Request<Self::Attributes>) -> Result<Self, Error>;
}

/// An entity with a resource type name that becomes a whole document.
pub trait Resource {
    type Attributes;

    type Relations;

    /// The entity's resource type name.
    fn resource_type_name() -> &'static str;

    /// The document that holds this entity.
    fn into_response(self) -> Response<Self::Attributes, Self::Relations>;
}

impl<D> IntoResponse for ResourceResponse<D> {
    type Attributes = D;

    fn into_response(self) -> ResourceResponse<D> {
        self
    }
}

/// The primary content of a document: resources, or errors.
pub enum ResponseType<D> {
    Data(Vec<ResourceResponse<D>>),
    Error(Vec<Error>),
}

/// A whole response document: its primary content and the resources included
/// beside it.
pub struct Response<P, I> {
    pub primary: ResponseType<P>,
    pub included: Option<Vec<ResourceResponse<I>>>,
}

/// The included resources of a document, in order; none where it has none.
pub open spec fn included_spec<I>(included: Option<Vec<ResourceResponse<I>>>) -> Seq<
    ResourceResponse<I>,
> {
    match included {
        Some(v) => v@,
        None => Seq::empty(),
    }
}

/// Whether `r` is a resource that `item` converts into.
pub open spec fn encodes<R: IntoResponse>(item: R, r: ResourceResponse<R::Attributes>) -> bool {
    call_ensures(R::into_response, (item,), r)
}

/// Whether `out` holds, in order, a resource that each of `items` converts into.
pub open spec fn all_encode<R: IntoResponse>(items: Seq<R>, out: Seq<ResourceResponse<R::Attributes>>) -> bool {
    &&& out.len() == items.len()
    &&& forall|j: int| 0 <= j < items.len() ==> #[trigger] encodes(items[j], out[j])
}

/// Converts each entity in `items` to its resource, in order.
fn responses<R: IntoResponse>(items: Vec<R>) -> (r: Vec<ResourceResponse<R::Attributes>>)
    ensures
        all_encode(items@, r@),
{
    let ghost all = items@;
    let mut rest = items;
    let mut out: Vec<ResourceResponse<R::Attributes>> = Vec::new();
    while rest.len() > 0
        invariant
            out@.len() + rest@.len() == all.len(),
            rest@ == all.subrange(out@.len() as int, all.len() as int),
            forall|j: int| 0 <= j < out@.len() ==> #[trigger] encodes(all[j], out@[j]),
        decreases rest@.len(),
    {
        let ghost k = out@.len() as int;
        let item = rest.remove(0);
        assert(item == all[k]);
        out.push(item.into_response());
    }
    out
}

impl<P, I> Response<P, I> {
    /// The document whose primary content is the resource of `resource`.
    pub fn from_resource<R: IntoResponse<Attributes = P>>(resource: R) -> (r: Response<P, I>)
        ensures
            r.primary matches ResponseType::Data(v) && v@.len() == 1 && encodes(resource, v@[0]),
            r.included is None,
    {
        let one = resource.into_response();
        let v = vec![one];
        Response { primary: ResponseType::Data(v), included: None }
    }

    /// The document whose primary content is the resources of `resources`, in order.
    pub fn from_resources<R: IntoResponse<Attributes = P>>(resources: Vec<R>) -> (r: Response<P, I>)
        ensures
            r.primary matches ResponseType::Data(v) && all_encode(resources@, v@),
            r.included is None,
    {
        Response { primary: ResponseType::Data(responses(resources)), included: None }
    }

    /// Appends the resource of `resource` to the included resources.
    pub fn include_one<Ex: IntoResponse<Attributes = I>>(self, resource: Ex) -> (r: Response<P, I>)
        ensures
            r.primary == self.primary,
            r.included is Some,
            included_spec(r.included).len() == included_spec(self.included).len() + 1,
            included_spec(r.included).drop_last() == included_spec(self.included),
            encodes(resource, included_spec(r.included).last()),
    {
        let one = resource.into_response();
        let mut s = self;
        match s.included {
            None => {
                let v = vec![one];
                assert(v@ =~= Seq::<ResourceResponse<I>>::empty().push(one));
                Response { primary: s.primary, included: Some(v) }
            },
            Some(mut v) => {
                v.push(one);
                Response { primary: s.primary, included: Some(v) }
            },
        }
    }

    /// Appends the resources of `resources` to the included resources, in order.
    pub fn include_many<Ex: IntoResponse<Attributes = I>>(self, resources: Vec<Ex>) -> (r: Response<
        P,
        I,
    >)
        ensures
            r.primary == self.primary,
            r.included is Some,
            included_spec(r.included).len() == included_spec(self.included).len()
                + resources@.len(),
            included_spec(r.included).subrange(0, included_spec(self.included).len() as int)
                == included_spec(self.included),
            all_encode(
                resources@,
                included_spec(r.included).subrange(
                    included_spec(self.included).len() as int,
                    included_spec(r.included).len() as int,
                ),
            ),
    {
        let mut more = responses(resources);
        match self.included {
            None => {
                assert(more@ =~= Seq::<ResourceResponse<I>>::empty() + more@);
                Response { primary: self.primary, included: Some(more) }
            },
            Some(mut v) => {
                v.append(&mut more);
                Response { primary: self.primary, included: Some(v) }
            },
        }
    }
}

impl<P> Response<P, Option<()>> {
    /// Ends a document that includes no resources; it is left as it is.
    pub fn finish(self) -> (r: Response<P, Option<()>>)
        ensures
            r == self,
    {
        self
    }
}

impl Response<(), ()> {
    /// The error document for `e`.
    pub fn from_error(e: Error) -> (r: Response<(), ()>)
        ensures
            r.primary matches ResponseType::Error(v) && v@ == seq![e],
            r.included is None,
    {
        Response { primary: ResponseType::Error(vec![e]), included: None }
    }

    /// The error document for the errors `v`, in order.
    pub fn from_errors(v: Vec<Error>) -> (r: Response<(), ()>)
        ensures
            r.primary matches ResponseType::Error(w) && w == v,
            r.included is None,
    {
        Response { primary: ResponseType::Error(v), included: None }
    }
}

/// Including two resources one after the other, beside a primary resource,
/// gives a document whose primary content is that resource alone and whose
/// included resources are the two, in the order of the calls.
pub proof fn lemma_include_order<P, I, R: IntoResponse<Attributes = P>, Ex: IntoResponse<
    Attributes = I,
>>(
    primary: R,
    a: Ex,
    b: Ex,
    first: Response<P, I>,
    second: Response<P, I>,
    third: Response<P, I>,
)
    requires
        first.primary matches ResponseType::Data(v) && v@.len() == 1 && encodes(primary, v@[0]),
        first.included is None,
        second.primary == first.primary,
        included_spec(second.included).len() == included_spec(first.included).len() + 1,
        included_spec(second.included).drop_last() == included_spec(first.included),
        encodes(a, included_spec(second.included).last()),
        third.primary == second.primary,
        included_spec(third.included).len() == included_spec(second.included).len() + 1,
        included_spec(third.included).drop_last() == included_spec(second.included),
        encodes(b, included_spec(third.included).last()),
    ensures
        third.primary matches ResponseType::Data(v) && v@.len() == 1 && encodes(primary, v@[0]),
        included_spec(third.included).len() == 2,
        encodes(a, included_spec(third.included)[0]),
        encodes(b, included_spec(third.included)[1]),
{
    let s2 = included_spec(second.included);
    let s3 = included_spec(third.included);
    assert(s2.len() == 1);
    assert(s3[0] == s3.drop_last()[0]);
}

/// A request entity read from a request body.
pub struct JsonApi<R>(pub R);

impl<R> JsonApi<R> {
    /// The entity.
    pub fn into_inner(self) -> (r: R)
        ensures
            r == self.0,
    {
        self.0
    }

    /// A reference to the entity.
    pub fn get(&self) -> (r: &R)
        ensures
            *r == self.0,
    {
        &self.0
    }
}

impl<T: FromRequest> JsonApi<T> {
    /// Reads the entity from a request body that was read and parsed, or from
    /// the text of the error that reading or parsing it gave; that error is a
    /// bad request, and the entity is not read.
    pub fn from_body(body: Result<Request<T::Attributes>, String>) -> (r: Result<JsonApi<T>, Error>)
        ensures
            match body {
                Err(msg) => r matches Err(e) && e@ == bad_request_spec(msg@),
                Ok(req) => exists|res: Result<T, Error>|
                    #[trigger] call_ensures(T::from_request, (req,), res) && match res {
                        Ok(v) => r matches Ok(j) && j.0 == v,
                        Err(e) => r == Err::<JsonApi<T>, Error>(e),
                    },
            },
    {
        match body {
            Err(msg) => Err(Error::new_bad_request(msg.as_str())),
            Ok(req) => {
                let ghost given = req;
                let res = T::from_request(req);
                assert(call_ensures(T::from_request, (given,), res));
                match res {
                    Ok(inner) => Ok(JsonApi(inner)),
                    Err(e) => Err(e),
                }
            },
        }
    }
}

} // verus!
