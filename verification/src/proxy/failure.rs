//! From I/O failures to the errors that close a connection.

use crate::reporter::event::{Direction, SocketCloseError};
use vstd::prelude::*;
use vstd::string::to_string_from_display_ensures;

verus! {

/// The I/O error of the standard library, `std::io::Error`.
#[verifier::external_type_specification]
#[verifier::external_body]
pub struct ExIoError(std::io::Error);

/// Maps an I/O error met while forwarding in `direction` to the error that
/// closes the connection: the direction, and the description that the I/O
/// error displays.
pub fn map_io_error(direction: Direction, err: std::io::Error) -> (error: SocketCloseError)
    ensures
        error.0 == direction,
        to_string_from_display_ensures::<std::io::Error>(&err, error.1),
{
    SocketCloseError(direction, err.to_string())
}

} // verus!
