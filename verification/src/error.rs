//! What can be wrong with a request before any remote call is made.

use vstd::prelude::*;
use vstd::string::StringExecFns;

verus! {

/// The reasons for which a request is refused.
#[derive(Debug)]
pub enum Error {
    /// No server and key are configured.
    NotLoggedIn,
    /// The user's home directory is not known.
    NoHomeDirectory,
    /// The asset identifier is no UUID.
    InvalidAssetId,
    /// A record of the selection has this identifier, which is no UUID.
    InvalidStoredAssetId(String),
    /// The search names nothing to search by.
    NoSearchFlag,
    /// A removal asks for an offset together with a tag or an album.
    TimezoneWithRemoteSearch,
    /// No tag, or more than one, goes by this name, or the one that does has
    /// an identifier that is no UUID.
    TagNotFound(String),
    /// No album goes by this name.
    AlbumNotFound(String),
    /// More than one album goes by this name.
    AlbumNotUnique(String),
    /// The one album of this name has an identifier that is no UUID.
    InvalidAlbumId(String),
}

/// The families of errors.
#[derive(Clone, Copy, Debug, PartialEq, Eq, Structural)]
pub enum ErrorKind {
    /// The request is malformed or contradicts itself.
    Validation,
    /// A name does not resolve to exactly one thing.
    NotFound,
}

/// An error as plain values.
pub ghost enum ErrorView {
    NotLoggedIn,
    NoHomeDirectory,
    InvalidAssetId,
    InvalidStoredAssetId(Seq<char>),
    NoSearchFlag,
    TimezoneWithRemoteSearch,
    TagNotFound(Seq<char>),
    AlbumNotFound(Seq<char>),
    AlbumNotUnique(Seq<char>),
    InvalidAlbumId(Seq<char>),
}

impl View for Error {
    type V = ErrorView;

    open spec fn view(&self) -> ErrorView {
        match self {
            Error::NotLoggedIn => ErrorView::NotLoggedIn,
            Error::NoHomeDirectory => ErrorView::NoHomeDirectory,
            Error::InvalidAssetId => ErrorView::InvalidAssetId,
            Error::InvalidStoredAssetId(id) => ErrorView::InvalidStoredAssetId(id@),
            Error::NoSearchFlag => ErrorView::NoSearchFlag,
            Error::TimezoneWithRemoteSearch => ErrorView::TimezoneWithRemoteSearch,
            Error::TagNotFound(name) => ErrorView::TagNotFound(name@),
            Error::AlbumNotFound(name) => ErrorView::AlbumNotFound(name@),
            Error::AlbumNotUnique(name) => ErrorView::AlbumNotUnique(name@),
            Error::InvalidAlbumId(name) => ErrorView::InvalidAlbumId(name@),
        }
    }
}

/// The family that `error` belongs to.
pub open spec fn kind_of(error: ErrorView) -> ErrorKind {
    match error {
        ErrorView::TagNotFound(_) | ErrorView::AlbumNotFound(_) | ErrorView::AlbumNotUnique(_) => {
            ErrorKind::NotFound
        },
        _ => ErrorKind::Validation,
    }
}

/// `name` between `head` and a closing quote.
pub open spec fn quoted(head: Seq<char>, name: Seq<char>) -> Seq<char> {
    head + name + seq!['\'']
}

/// The message that tells the user of `error`.
pub open spec fn message(error: ErrorView) -> Seq<char> {
    match error {
        ErrorView::NotLoggedIn => {
            "Not logged in. Use 'immichctl login <URL> --apikey <KEY>' to login."@
        },
        ErrorView::NoHomeDirectory => "Could not determine home directory"@,
        ErrorView::InvalidAssetId => "Invalid asset id, expected uuid"@,
        ErrorView::InvalidStoredAssetId(id) => "Invalid asset id '"@ + id + "', expected uuid"@,
        ErrorView::NoSearchFlag => "Please provide at least one search flag."@,
        ErrorView::TimezoneWithRemoteSearch => {
            "The --timezone option cannot be used together with other search options when multiple filters are applied."@
        },
        ErrorView::TagNotFound(name) => quoted("Tag not found or not unique: '"@, name),
        ErrorView::AlbumNotFound(name) => quoted("Album not found: '"@, name),
        ErrorView::AlbumNotUnique(name) => quoted("Album name is not unique: '"@, name),
        ErrorView::InvalidAlbumId(name) => quoted("Invalid album id, expected uuid: '"@, name),
    }
}

/// `name` between `head` and a closing quote.
fn quote(head: &str, name: &String) -> (text: String)
    ensures
        text@ == quoted(head@, name@),
{
    proof {
        reveal_strlit("'");
    }
    let mut text = String::from_str(head);
    text.append(name.as_str());
    text.append("'");
    text
}

impl Error {
    /// The family that the error belongs to.
    pub fn kind(&self) -> (kind: ErrorKind)
        ensures
            kind == kind_of(self@),
    {
        match self {
            Error::TagNotFound(_) | Error::AlbumNotFound(_) | Error::AlbumNotUnique(_) => {
                ErrorKind::NotFound
            },
            _ => ErrorKind::Validation,
        }
    }

    /// The message that tells the user of the error.
    pub fn to_string(&self) -> (text: String)
        ensures
            text@ == message(self@),
    {
        match self {
            Error::NotLoggedIn => String::from_str(
                "Not logged in. Use 'immichctl login <URL> --apikey <KEY>' to login.",
            ),
            Error::NoHomeDirectory => String::from_str("Could not determine home directory"),
            Error::InvalidAssetId => String::from_str("Invalid asset id, expected uuid"),
            Error::InvalidStoredAssetId(id) => {
                let mut text = String::from_str("Invalid asset id '");
                text.append(id.as_str());
                text.append("', expected uuid");
                text
            },
            Error::NoSearchFlag => String::from_str("Please provide at least one search flag."),
            Error::TimezoneWithRemoteSearch => String::from_str(
                "The --timezone option cannot be used together with other search options when multiple filters are applied.",
            ),
            Error::TagNotFound(name) => quote("Tag not found or not unique: '", name),
            Error::AlbumNotFound(name) => quote("Album not found: '", name),
            Error::AlbumNotUnique(name) => quote("Album name is not unique: '", name),
            Error::InvalidAlbumId(name) => quote("Invalid album id, expected uuid: '", name),
        }
    }
}

} // verus!
