//! Typed identifiers.
use std::marker::PhantomData;
use vstd::prelude::*;
use vstd::std_specs::cmp::PartialEqSpecImpl;

verus! {

/// The kind of identifier that names a service.
#[derive(Clone, Copy, Debug, PartialEq, Eq, Hash)]
pub struct ServiceId;

/// The kind of identifier that names a tag.
#[derive(Clone, Copy, Debug, PartialEq, Eq, Hash)]
pub struct TagId;

/// The kind of identifier that names a vendor.
#[derive(Clone, Copy, Debug, PartialEq, Eq, Hash)]
pub struct VendorId;

/// The kind of identifier that names an adapter.
#[derive(Clone, Copy, Debug, PartialEq, Eq, Hash)]
pub struct AdapterId;

/// The kind of identifier that names the nature of an extension value.
#[derive(Clone, Copy, Debug, PartialEq, Eq, Hash)]
pub struct KindId;

/// The kind of identifier that names a MIME type.
#[derive(Clone, Copy, Debug, PartialEq, Eq, Hash)]
pub struct MimeTypeId;

/// An opaque identifier. The parameter tells identifiers of different
/// kinds apart at compile time; two identifiers are the same when their
/// texts are.
#[derive(Debug, Hash)]
pub struct Id<T> {
    name: String,
    kind: PhantomData<T>,
}

impl<T> View for Id<T> {
    type V = Seq<char>;

    closed spec fn view(&self) -> Seq<char> {
        self.name@
    }
}

impl<T> DeepView for Id<T> {
    type V = Seq<char>;

    open spec fn deep_view(&self) -> Seq<char> {
        self@
    }
}

impl<T> Id<T> {
    pub fn new(id: &str) -> (r: Self)
        ensures
            r@ == id@,
    {
        Id { name: id.to_owned(), kind: PhantomData }
    }

    pub fn from_string(id: String) -> (r: Self)
        ensures
            r@ == id@,
    {
        Id { name: id, kind: PhantomData }
    }

    pub fn as_str(&self) -> (s: &str)
        ensures
            s@ == self@,
    {
        self.name.as_str()
    }

    pub fn to_string(&self) -> (s: String)
        ensures
            s@ == self@,
    {
        self.name.clone()
    }
}

impl<T> Clone for Id<T> {
    fn clone(&self) -> (r: Self)
        ensures
            r@ == self@,
    {
        Id { name: self.name.clone(), kind: PhantomData }
    }
}

impl<T> PartialEq for Id<T> {
    fn eq(&self, other: &Self) -> (r: bool) {
        self.name == other.name
    }
}

impl<T> PartialEqSpecImpl for Id<T> {
    open spec fn obeys_eq_spec() -> bool {
        true
    }

    open spec fn eq_spec(&self, other: &Self) -> bool {
        self@ == other@
    }
}

impl<T> Eq for Id<T> {

}

} // verus!
