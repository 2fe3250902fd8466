//! The descriptor connections of a command: its redirections and the pipe
//! ends it was given.

use vstd::prelude::*;
use crate::redirect::Redirect;

verus! {

pub struct FileDescs {
    pub redirects: Vec<Redirect>,
    /// Read end of the pipe towards the next command, or -1.
    pub pipein: i32,
    /// Write end of the pipe towards the next command, or -1.
    pub pipeout: i32,
    /// Read end of the pipe from the previous command, or -1.
    pub prevpipein: i32,
}

impl FileDescs {
    /// No redirection and no pipe end is set.
    pub open spec fn unconnected(&self) -> bool {
        &&& self.redirects@.len() == 0
        &&& self.pipein == -1
        &&& self.pipeout == -1
        &&& self.prevpipein == -1
    }

    pub fn new() -> (f: FileDescs)
        ensures
            f.unconnected(),
    {
        FileDescs { redirects: Vec::new(), pipein: -1, pipeout: -1, prevpipein: -1 }
    }

    /// Whether a command with these connections can run inside the
    /// interpreter's own process.
    pub fn no_connection(&self) -> (b: bool)
        ensures
            b == self.unconnected(),
    {
        self.redirects.len() == 0 && self.pipein == -1 && self.pipeout == -1 && self.prevpipein
            == -1
    }

    pub fn set_pipe(&mut self, pin: i32, pout: i32, pprev: i32)
        ensures
            final(self).pipein == pin,
            final(self).pipeout == pout,
            final(self).prevpipein == pprev,
            final(self).redirects == old(self).redirects,
    {
        self.pipein = pin;
        self.pipeout = pout;
        self.prevpipein = pprev;
    }
}

} // verus!
