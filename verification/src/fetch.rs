//! The fetch client's decisions: where a source is retrieved from, and what
//! counts as a failure. The retrieval itself, a network request or a file
//! read, is the caller's.

use vstd::prelude::*;
use vstd::string::StrSliceExecFns;
use crate::text::{chars_of, find_from, first_index, head_is, starts_with};

verus! {

/// Why a source could not be retrieved.
#[derive(Clone, Copy, Debug, PartialEq, Eq, Structural)]
pub enum FetchError {
    /// The source names a scheme other than `http`, `https` and `file`.
    UnsupportedScheme,
    /// The remote host could not be reached or answered without success.
    RemoteFailure,
    /// The local file is missing or cannot be read.
    LocalIo,
}

/// Where a source is retrieved from, as a mathematical value.
pub enum Route {
    /// A network GET of the URL.
    Remote(Seq<char>),
    /// A read of the local path.
    Local(Seq<char>),
}

/// Where a source is retrieved from.
#[derive(Clone, Debug, PartialEq, Eq)]
pub enum FetchPlan {
    /// A network GET of `url`, following redirects.
    Remote { url: String },
    /// A read of the local file at `path`.
    Local { path: String },
}

impl View for FetchPlan {
    type V = Route;

    open spec fn view(&self) -> Route {
        match self {
            FetchPlan::Remote { url } => Route::Remote(url@),
            FetchPlan::Local { path } => Route::Local(path@),
        }
    }
}

/// The scheme of a source: what stands before its first colon, if it has
/// one.
pub open spec fn scheme_of(source: Seq<char>) -> Option<Seq<char>> {
    let colon = first_index(source, ':');
    if colon < source.len() {
        Some(source.take(colon))
    } else {
        None
    }
}

/// What stands before the path in a `file` source.
pub open spec fn file_prefix() -> Seq<char> {
    "file://"@
}

/// The route to a source, by its scheme. A source with the scheme `http` or
/// `https` is fetched from the network as it stands. One with the scheme
/// `file` is read from the local path that follows `file://`; without that
/// prefix it names no file that could be read. A source with any other
/// scheme, or with none, is refused.
pub open spec fn route_of(source: Seq<char>) -> Result<Route, FetchError> {
    match scheme_of(source) {
        Some(scheme) => if scheme == "http"@ || scheme == "https"@ {
            Ok(Route::Remote(source))
        } else if scheme == "file"@ {
            if file_prefix().is_prefix_of(source) {
                Ok(Route::Local(source.skip(file_prefix().len() as int)))
            } else {
                Err(FetchError::LocalIo)
            }
        } else {
            Err(FetchError::UnsupportedScheme)
        },
        None => Err(FetchError::UnsupportedScheme),
    }
}

/// Decides by the scheme of `source` how it is retrieved.
pub fn plan_fetch(source: &str) -> (plan: Result<FetchPlan, FetchError>)
    ensures
        match plan {
            Ok(found) => route_of(source@) == Ok::<Route, FetchError>(found@),
            Err(error) => route_of(source@) == Err::<Route, FetchError>(error),
        },
{
    let chars = chars_of(source);
    let colon = find_from(&chars, 0, ':');
    assert(chars@.skip(0) =~= chars@);
    if colon == chars.len() {
        return Err(FetchError::UnsupportedScheme);
    }
    if head_is(&chars, colon, "http") || head_is(&chars, colon, "https") {
        Ok(FetchPlan::Remote { url: source.to_owned() })
    } else if head_is(&chars, colon, "file") {
        if starts_with(&chars, "file://") {
            proof {
                reveal_strlit("file://");
            }
            let path = source.substring_char(7, chars.len());
            assert(path@ == source@.skip(7));
            Ok(FetchPlan::Local { path: path.to_owned() })
        } else {
            Err(FetchError::LocalIo)
        }
    } else {
        Err(FetchError::UnsupportedScheme)
    }
}

/// What came of a retrieval.
#[derive(Clone, Debug, PartialEq, Eq)]
pub enum Retrieved {
    /// The remote host answered with `status` and `body`.
    Response { status: u16, body: Vec<u8> },
    /// The remote host gave no answer.
    Unreachable,
    /// The local file holds `bytes`.
    Read { bytes: Vec<u8> },
    /// The local file is missing or cannot be read.
    Unreadable,
}

/// Whether an HTTP status reports success.
pub open spec fn is_success(status: u16) -> bool {
    200 <= status <= 299
}

/// The bytes that a retrieval gave, or the error that it counts as: any
/// status but a successful one is a remote failure.
pub open spec fn concluded(retrieved: Retrieved) -> Result<Seq<u8>, FetchError> {
    match retrieved {
        Retrieved::Response { status, body } => if is_success(status) {
            Ok(body@)
        } else {
            Err(FetchError::RemoteFailure)
        },
        Retrieved::Unreachable => Err(FetchError::RemoteFailure),
        Retrieved::Read { bytes } => Ok(bytes@),
        Retrieved::Unreadable => Err(FetchError::LocalIo),
    }
}

/// Turns what came of a retrieval into the fetched bytes or a fetch error.
pub fn conclude(retrieved: Retrieved) -> (fetched: Result<Vec<u8>, FetchError>)
    ensures
        match fetched {
            Ok(bytes) => concluded(retrieved) == Ok::<Seq<u8>, FetchError>(bytes@),
            Err(error) => concluded(retrieved) == Err::<Seq<u8>, FetchError>(error),
        },
{
    match retrieved {
        Retrieved::Response { status, body } => {
            if 200 <= status && status <= 299 {
                Ok(body)
            } else {
                Err(FetchError::RemoteFailure)
            }
        },
        Retrieved::Unreachable => Err(FetchError::RemoteFailure),
        Retrieved::Read { bytes } => Ok(bytes),
        Retrieved::Unreadable => Err(FetchError::LocalIo),
    }
}

} // verus!
