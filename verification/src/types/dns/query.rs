use vstd::prelude::*;

use crate::types::dns::name::Name;
use crate::types::rr::classes::Class;
use crate::types::rr::types::Type;

verus! {

/// Something a query can be made from.
pub trait ToQuery: Send + Sized {
    /// What [`ToQuery::to_query`] needs of the value.
    spec fn to_query_requires(&self) -> bool;

    /// The query that the value stands for.
    spec fn query_view(&self) -> QueryView;

    fn to_query(self) -> (q: Query)
        requires
            self.to_query_requires(),
        ensures
            q@ == self.query_view(),
    ;
}

/// A query: a name, a type and a class.
#[derive(Debug)]
pub struct Query {
    pub name: Name,
    pub ty: Type,
    pub class: Class,
}

/// The contents of a [`Query`].
pub struct QueryView {
    pub name: Seq<Seq<u8>>,
    pub ty: Type,
    pub class: Class,
}

impl View for Query {
    type V = QueryView;

    open spec fn view(&self) -> QueryView {
        QueryView { name: self.name@, ty: self.ty, class: self.class }
    }
}

impl Clone for Query {
    fn clone(&self) -> (r: Self)
        ensures
            r@ == self@,
    {
        Query { name: self.name.clone(), ty: self.ty, class: self.class }
    }
}

impl Query {
    pub fn new(name: Name, ty: Type, class: Class) -> (r: Self)
        ensures
            r@ == (QueryView { name: name@, ty, class }),
    {
        Self { name, ty, class }
    }
}

impl ToQuery for Query {
    open spec fn to_query_requires(&self) -> bool {
        true
    }

    open spec fn query_view(&self) -> QueryView {
        self@
    }

    fn to_query(self) -> (q: Query) {
        self
    }
}

impl ToQuery for (Name, Type, Class) {
    open spec fn to_query_requires(&self) -> bool {
        true
    }

    open spec fn query_view(&self) -> QueryView {
        QueryView { name: self.0@, ty: self.1, class: self.2 }
    }

    fn to_query(self) -> (q: Query) {
        let (name, ty, class) = self;
        Query::new(name, ty, class)
    }
}

impl<'a> ToQuery for (&'a Name, &'a Type, &'a Class) {
    open spec fn to_query_requires(&self) -> bool {
        true
    }

    open spec fn query_view(&self) -> QueryView {
        QueryView { name: self.0@, ty: *self.1, class: *self.2 }
    }

    fn to_query(self) -> (q: Query) {
        let (name, ty, class) = self;
        Query::new(name.clone(), *ty, *class)
    }
}

} // verus!
