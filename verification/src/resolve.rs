//! The ability to find the bytes of a document addressed by IRI.
use vstd::prelude::*;

verus! {

/// Why a document could not be had, in words.
#[derive(Debug)]
pub struct ResolveError(String);

impl View for ResolveError {
    type V = Seq<char>;

    closed spec fn view(&self) -> Seq<char> {
        self.0@
    }
}

impl From<String> for ResolveError {
    fn from(other: String) -> (res: ResolveError)
        ensures
            res@ == other@,
    {
        ResolveError(other)
    }
}

impl vstd::std_specs::convert::FromSpecImpl<String> for ResolveError {
    open spec fn obeys_from_spec() -> bool {
        true
    }

    closed spec fn from_spec(other: String) -> Self {
        ResolveError(other)
    }
}

impl ResolveError {
    /// An error with the given message.
    pub fn new(message: &str) -> (res: Self)
        ensures
            res@ == message@,
    {
        ResolveError(message.to_owned())
    }

    /// The message.
    pub fn message(&self) -> (res: &str)
        ensures
            res@ == self@,
    {
        self.0.as_str()
    }
}

/// The prefix of `text` taken off, by `str::strip_prefix`. Claims, as the
/// standard library documents: if the text starts with the prefix, what
/// follows the prefix is returned; if not, nothing is.
#[verifier::external_body]
fn strip_prefix<'a>(text: &'a str, prefix: &str) -> (res: Option<&'a str>)
    ensures
        match res {
            Some(rest) => text@ == prefix@ + rest@,
            None => !prefix@.is_prefix_of(text@),
        },
{
    text.strip_prefix(prefix)
}

/// What the IRI of a document on IPFS starts with.
pub open spec fn ipfs_scheme() -> Seq<char> {
    "ipfs://ipfs/"@
}

/// The path of the content that an IRI on IPFS addresses: what follows
/// `ipfs://ipfs/`. An IRI that starts otherwise has a bad prefix.
pub fn ipfs_path(iri: &str) -> (res: Result<&str, ResolveError>)
    ensures
        match res {
            Ok(path) => iri@ == ipfs_scheme() + path@,
            Err(e) => !ipfs_scheme().is_prefix_of(iri@) && e@ == "bad prefix"@,
        },
{
    match strip_prefix(iri, "ipfs://ipfs/") {
        Some(path) => Ok(path),
        None => Err(ResolveError::new("bad prefix")),
    }
}

/// A resolver of documents: given an IRI, it finds the bytes of the
/// document, or fails.
///
/// Nothing is promised of the outcome: a resolver may go out to a network.
pub trait Resolve {
    /// Fetches a document.
    fn lookup(&mut self, iri: &str) -> Result<Vec<u8>, ResolveError>;
}

} // verus!
