//! The typestate request builder.
//!
//! Exactly one resolution strategy — catalog ID, ISBN, title, or title with
//! author — is chosen at the type level before a request can be executed, so
//! an unconfigured or doubly-configured request does not compile.

use vstd::prelude::*;

verus! {

/// A state of the request builder: one marker type per strategy.
pub trait RequestState {

}

/// No strategy chosen yet.
pub struct EmptyState;

/// Resolution by a known catalog ID.
pub struct IdState(String);

/// Resolution by ISBN.
pub struct IsbnState(String);

/// Resolution by title.
pub struct TitleState(String);

/// Resolution by title and author.
pub struct TitleWithAuthorState(String, String);

impl RequestState for EmptyState {

}

impl RequestState for IdState {

}

impl RequestState for IsbnState {

}

impl RequestState for TitleState {

}

impl RequestState for TitleWithAuthorState {

}

/// Builder for constructing a metadata request.
pub struct MetadataRequestBuilder<T: RequestState> {
    state: T,
}

impl Default for MetadataRequestBuilder<EmptyState> {
    fn default() -> (r: Self)
        ensures
            r == MetadataRequestBuilder::<EmptyState>::empty_spec(),
    {
        MetadataRequestBuilder::new()
    }
}

impl MetadataRequestBuilder<EmptyState> {
    /// The one value of the unconfigured builder.
    pub closed spec fn empty_spec() -> Self {
        MetadataRequestBuilder { state: EmptyState }
    }

    /// A builder with no strategy chosen.
    pub fn new() -> (r: Self)
        ensures
            r == MetadataRequestBuilder::<EmptyState>::empty_spec(),
    {
        MetadataRequestBuilder { state: EmptyState }
    }

    /// Chooses resolution by catalog ID.
    pub fn with_id(self, id: &str) -> (r: MetadataRequestBuilder<IdState>)
        ensures
            r.id_spec() == id@,
    {
        MetadataRequestBuilder { state: IdState(id.to_owned()) }
    }

    /// Chooses resolution by ISBN.
    pub fn with_isbn(self, isbn: &str) -> (r: MetadataRequestBuilder<IsbnState>)
        ensures
            r.isbn_spec() == isbn@,
    {
        MetadataRequestBuilder { state: IsbnState(isbn.to_owned()) }
    }

    /// Chooses resolution by title.
    pub fn with_title(self, title: &str) -> (r: MetadataRequestBuilder<TitleState>)
        ensures
            r.title_spec() == title@,
    {
        MetadataRequestBuilder { state: TitleState(title.to_owned()) }
    }
}

impl MetadataRequestBuilder<IdState> {
    /// The catalog ID this request resolves.
    pub closed spec fn id_spec(&self) -> Seq<char> {
        self.state.0@
    }

    /// The catalog ID this request resolves.
    pub fn id(&self) -> (r: &str)
        ensures
            r@ == self.id_spec(),
    {
        self.state.0.as_str()
    }
}

impl MetadataRequestBuilder<IsbnState> {
    /// The ISBN this request resolves.
    pub closed spec fn isbn_spec(&self) -> Seq<char> {
        self.state.0@
    }

    /// The ISBN this request resolves.
    pub fn isbn(&self) -> (r: &str)
        ensures
            r@ == self.isbn_spec(),
    {
        self.state.0.as_str()
    }
}

impl MetadataRequestBuilder<TitleState> {
    /// The title this request resolves.
    pub closed spec fn title_spec(&self) -> Seq<char> {
        self.state.0@
    }

    /// The title this request resolves.
    pub fn title(&self) -> (r: &str)
        ensures
            r@ == self.title_spec(),
    {
        self.state.0.as_str()
    }

    /// Adds an author to a title request for a more accurate search.
    pub fn with_author(self, author: &str) -> (r: MetadataRequestBuilder<TitleWithAuthorState>)
        ensures
            r.title_spec() == self.title_spec(),
            r.author_spec() == author@,
    {
        MetadataRequestBuilder { state: TitleWithAuthorState(self.state.0, author.to_owned()) }
    }
}

impl MetadataRequestBuilder<TitleWithAuthorState> {
    /// The title this request resolves.
    pub closed spec fn title_spec(&self) -> Seq<char> {
        self.state.0@
    }

    /// The author constraining this request.
    pub closed spec fn author_spec(&self) -> Seq<char> {
        self.state.1@
    }

    /// The title this request resolves.
    pub fn title(&self) -> (r: &str)
        ensures
            r@ == self.title_spec(),
    {
        self.state.0.as_str()
    }

    /// The author constraining this request.
    pub fn author(&self) -> (r: &str)
        ensures
            r@ == self.author_spec(),
    {
        self.state.1.as_str()
    }
}

} // verus!
