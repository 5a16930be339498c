//! The frontend client's side of the gRPC calls: the methods it calls and
//! the reader that streamed responses are handed to.

use vstd::prelude::*;

verus! {

/// The frontend service methods that the client calls.
#[derive(Clone, Copy, Debug, PartialEq, Eq, Structural)]
pub enum GrpcMethod {
    GetVersion,
    CreateDevice,
    DeleteChip,
    PatchDevice,
    ListDevice,
    Reset,
    ListCapture,
    PatchCapture,
    GetCapture,
}

/// What an application does with the chunks of a streamed response.
pub trait ClientResponseReadable {
    /// Processes one chunk of a streamed response.
    fn handle_chunk(&self, chunk: &[u8]);
}

/// Hands the chunks of a streamed response to the application's handler.
pub struct ClientResponseReader {
    /// The application's handler.
    pub handler: Box<dyn ClientResponseReadable>,
}

impl ClientResponseReader {
    /// Passes a chunk on to the handler.
    pub fn handle_chunk(&self, chunk: &[u8]) {
        self.handler.handle_chunk(chunk);
    }
}

} // verus!
