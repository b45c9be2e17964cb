//! The address of the websocket endpoint.

use vstd::prelude::*;

verus! {

/// The error of `url::Url::parse`. Nothing is known of a value but that it
/// is one.
#[verifier::external_type_specification]
#[verifier::external_body]
pub struct ExParseError(url::ParseError);

/// The serialization of the absolute URL that `url::Url::parse` reads from
/// `address`, and nothing where it reads none.
pub uninterp spec fn parsed_address(address: Seq<char>) -> Option<Seq<char>>;

/// Calls `url::Url::parse` on `address` and turns the URL that it yields
/// into its serialization. The parser is a function of the text alone, so
/// the result is given a name; what the name is for a given text is the
/// parser's business.
#[verifier::external_body]
fn parse_url(address: &str) -> (parsed: Result<String, url::ParseError>)
    ensures
        match parsed {
            Ok(serialization) => parsed_address(address@) == Some(serialization@),
            Err(_) => parsed_address(address@).is_none(),
        },
{
    url::Url::parse(address).map(String::from)
}

/// Why no connection came about.
#[derive(Clone, Copy, Debug, PartialEq, Eq)]
pub enum ConnectError {
    /// The address is no absolute URL.
    InvalidAddress,
    /// The endpoint did not take the connection.
    Unreachable,
}

/// An address that was read as an absolute URL, in its normal form.
#[derive(Debug)]
pub struct Endpoint {
    address: String,
}

impl View for Endpoint {
    type V = Seq<char>;

    closed spec fn view(&self) -> Seq<char> {
        self.address@
    }
}

impl Endpoint {
    /// Reads `address` as an absolute URL. An address that is none is
    /// rejected, and for no other reason is one rejected.
    pub fn parse(address: &str) -> (endpoint: Result<Endpoint, ConnectError>)
        ensures
            match endpoint {
                Ok(e) => parsed_address(address@) == Some(e@),
                Err(error) => parsed_address(address@).is_none() && error == ConnectError::InvalidAddress,
            },
    {
        Endpoint::from_parsed(parse_url(address))
    }

    /// The endpoint for what the URL parser made of an address: the
    /// serialization that it gave, or `InvalidAddress` for any error of its.
    pub fn from_parsed(parsed: Result<String, url::ParseError>) -> (endpoint: Result<
        Endpoint,
        ConnectError,
    >)
        ensures
            match parsed {
                Ok(serialization) => endpoint matches Ok(e) && e@ == serialization@,
                Err(_) => endpoint == Err::<Endpoint, ConnectError>(ConnectError::InvalidAddress),
            },
    {
        match parsed {
            Ok(address) => Ok(Endpoint { address }),
            Err(_) => Err(ConnectError::InvalidAddress),
        }
    }

    /// The address, in its normal form.
    pub fn as_str(&self) -> (address: &str)
        ensures
            address@ == self@,
    {
        self.address.as_str()
    }
}

} // verus!
