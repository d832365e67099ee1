//! The daemon's named pipe, as the forwarder connects to it.
use crate::editor::windows;
use vstd::prelude::*;

verus! {

/// Forwards to a named pipe.
pub struct WindowsJsonRPCForwarder {
    pub pipe_name: String,
}

impl WindowsJsonRPCForwarder {
    /// The name under which the pipe is opened.
    pub fn full_pipe_name(&self) -> (r: String)
        ensures
            r@ == windows::full_pipe_name(self.pipe_name@),
    {
        windows::pipe_name(self.pipe_name.as_str())
    }
}

} // verus!
