//! Where a listing is fetched from: addresses, read by `url`, and the
//! kinds of source they lead to.

use crate::text::{clone_opt, opt_view, same_text};
use vstd::prelude::*;

verus! {

/// Whether `url::Url::parse` accepts the text as an absolute address.
pub uninterp spec fn url_parses(text: Seq<char>) -> bool;

/// The address in the form in which `Url::as_str` writes it out.
pub uninterp spec fn url_href(text: Seq<char>) -> Seq<char>;

/// The scheme of the address, as `Url::scheme` gives it.
pub uninterp spec fn url_scheme(text: Seq<char>) -> Seq<char>;

/// The host of the address, as `Url::domain` gives it: there is one where
/// the host is a domain name.
pub uninterp spec fn url_domain(text: Seq<char>) -> Option<Seq<char>>;

/// `Url::parse`, then `Url::as_str`, `Url::scheme` and `Url::domain` of the
/// address. There is no result exactly when the text does not parse; the
/// three parts are those that the names above stand for.
#[verifier::external_body]
pub(crate) fn url_parts(text: &str) -> (r: Option<(String, String, Option<String>)>)
    ensures
        r is Some <==> url_parses(text@),
        r matches Some(parts) ==> parts.0@ == url_href(text@) && parts.1@ == url_scheme(text@)
            && opt_view(parts.2) == url_domain(text@),
{
    let url = url::Url::parse(text).ok()?;
    Some((url.as_str().to_owned(), url.scheme().to_owned(), url.domain().map(|d| d.to_owned())))
}

/// The address of a listing, with the parts that decide how it is fetched
/// and read.
#[derive(Debug, PartialEq, Eq)]
pub struct ListingUrl {
    pub href: String,
    pub scheme: String,
    pub domain: Option<String>,
}

/// A `ListingUrl` as plain values.
pub ghost struct ListingUrlView {
    pub href: Seq<char>,
    pub scheme: Seq<char>,
    pub domain: Option<Seq<char>>,
}

impl View for ListingUrl {
    type V = ListingUrlView;

    open spec fn view(&self) -> ListingUrlView {
        ListingUrlView {
            href: self.href@,
            scheme: self.scheme@,
            domain: opt_view(self.domain),
        }
    }
}

impl Clone for ListingUrl {
    fn clone(&self) -> (r: ListingUrl)
        ensures
            r@ == self@,
    {
        ListingUrl {
            href: self.href.clone(),
            scheme: self.scheme.clone(),
            domain: clone_opt(&self.domain),
        }
    }
}

/// Why a listing cannot be fetched.
#[derive(Debug, PartialEq, Eq)]
pub enum FetchError {
    /// The text is no absolute address.
    InvalidUrl,
    /// The address has a scheme that no source serves.
    UnsupportedScheme { scheme: String },
    /// The source could not be read.
    Unreadable { target: String },
}

/// A `FetchError` as plain values.
pub ghost enum FetchErrorView {
    InvalidUrl,
    UnsupportedScheme { scheme: Seq<char> },
    Unreadable { target: Seq<char> },
}

impl View for FetchError {
    type V = FetchErrorView;

    open spec fn view(&self) -> FetchErrorView {
        match *self {
            FetchError::InvalidUrl => FetchErrorView::InvalidUrl,
            FetchError::UnsupportedScheme { scheme } => FetchErrorView::UnsupportedScheme {
                scheme: scheme@,
            },
            FetchError::Unreadable { target } => FetchErrorView::Unreadable { target: target@ },
        }
    }
}

/// The address that a text writes.
pub open spec fn listing_url_of(text: Seq<char>) -> Result<ListingUrlView, FetchErrorView> {
    if url_parses(text) {
        Ok(
            ListingUrlView {
                href: url_href(text),
                scheme: url_scheme(text),
                domain: url_domain(text),
            },
        )
    } else {
        Err(FetchErrorView::InvalidUrl)
    }
}

impl ListingUrl {
    /// Reads an address.
    pub fn parse(text: &str) -> (r: Result<ListingUrl, FetchError>)
        ensures
            match r {
                Ok(url) => listing_url_of(text@) == Ok::<ListingUrlView, FetchErrorView>(url@),
                Err(e) => listing_url_of(text@) == Err::<ListingUrlView, FetchErrorView>(e@),
            },
    {
        match url_parts(text) {
            Some(parts) => Ok(ListingUrl { href: parts.0, scheme: parts.1, domain: parts.2 }),
            None => Err(FetchError::InvalidUrl),
        }
    }
}

/// A listing served over HTTPS.
#[derive(Debug, PartialEq, Eq)]
pub struct HttpSource {
    pub url: ListingUrl,
}

/// A listing kept in a local file.
#[derive(Debug, PartialEq, Eq)]
pub struct LocalFileSource {
    pub url: ListingUrl,
}

/// Where a listing is fetched from.
#[derive(Debug, PartialEq, Eq)]
pub enum Source {
    Http(HttpSource),
    LocalFile(LocalFileSource),
}

/// A `Source` as plain values.
pub ghost enum SourceView {
    Http(ListingUrlView),
    LocalFile(ListingUrlView),
}

impl View for Source {
    type V = SourceView;

    open spec fn view(&self) -> SourceView {
        match *self {
            Source::Http(s) => SourceView::Http(s.url@),
            Source::LocalFile(s) => SourceView::LocalFile(s.url@),
        }
    }
}

/// The source that serves an address: HTTPS for the scheme `https`, a
/// local file for the scheme `file`, and none for any other.
pub open spec fn source_of(url: ListingUrlView) -> Result<SourceView, FetchErrorView> {
    if url.scheme == "https"@ {
        Ok(SourceView::Http(url))
    } else if url.scheme == "file"@ {
        Ok(SourceView::LocalFile(url))
    } else {
        Err(FetchErrorView::UnsupportedScheme { scheme: url.scheme })
    }
}

impl HttpSource {
    /// The HTTPS source of an address whose scheme is `https`.
    pub fn from_url(url: &ListingUrl) -> (r: Result<HttpSource, FetchError>)
        ensures
            match r {
                Ok(s) => url@.scheme == "https"@ && s.url@ == url@,
                Err(e) => url@.scheme != "https"@ && e@ == (FetchErrorView::UnsupportedScheme {
                    scheme: url@.scheme,
                }),
            },
    {
        if same_text(url.scheme.as_str(), "https") {
            Ok(HttpSource { url: url.clone() })
        } else {
            Err(FetchError::UnsupportedScheme { scheme: url.scheme.clone() })
        }
    }
}

impl LocalFileSource {
    /// The local source of an address whose scheme is `file`.
    pub fn from_url(url: &ListingUrl) -> (r: Result<LocalFileSource, FetchError>)
        ensures
            match r {
                Ok(s) => url@.scheme == "file"@ && s.url@ == url@,
                Err(e) => url@.scheme != "file"@ && e@ == (FetchErrorView::UnsupportedScheme {
                    scheme: url@.scheme,
                }),
            },
    {
        if same_text(url.scheme.as_str(), "file") {
            Ok(LocalFileSource { url: url.clone() })
        } else {
            Err(FetchError::UnsupportedScheme { scheme: url.scheme.clone() })
        }
    }
}

impl Source {
    /// The source that serves an address.
    pub fn from_url(url: &ListingUrl) -> (r: Result<Source, FetchError>)
        ensures
            match r {
                Ok(s) => source_of(url@) == Ok::<SourceView, FetchErrorView>(s@),
                Err(e) => source_of(url@) == Err::<SourceView, FetchErrorView>(e@),
            },
    {
        if same_text(url.scheme.as_str(), "https") {
            Ok(Source::Http(HttpSource { url: url.clone() }))
        } else if same_text(url.scheme.as_str(), "file") {
            Ok(Source::LocalFile(LocalFileSource { url: url.clone() }))
        } else {
            Err(FetchError::UnsupportedScheme { scheme: url.scheme.clone() })
        }
    }

    /// The address that the source serves.
    pub fn url(&self) -> (r: &ListingUrl)
        ensures
            self@ == SourceView::Http(r@) || self@ == SourceView::LocalFile(r@),
    {
        match self {
            Source::Http(s) => &s.url,
            Source::LocalFile(s) => &s.url,
        }
    }
}

/// Something that content can be fetched from. Fetching is input and
/// output, so the sources of this library are fetched by their users.
pub trait Fetch {
    fn fetch(&self) -> Result<String, FetchError>;
}

} // verus!
