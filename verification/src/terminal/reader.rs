//! Reassembly of raw input chunks into one decodable command. A chunk that
//! is exactly the bracketed-paste start marker opens a collecting run; the
//! run accumulates every following chunk until one ends with the end
//! marker, so a paste split across reads is decoded as a single event.
use vstd::prelude::*;

use crate::terminal::ansi_in::{paste_end_seq, paste_start_seq};
use crate::text::{str_ends_with, str_eq};

verus! {

pub struct CmdAssembler {
    buffer: String,
    started: bool,
    collecting: bool,
}

impl CmdAssembler {
    pub closed spec fn buf_spec(&self) -> Seq<char> {
        self.buffer@
    }

    pub closed spec fn started_spec(&self) -> bool {
        self.started
    }

    pub closed spec fn collecting_spec(&self) -> bool {
        self.collecting
    }

    /// A fresh assembler, holding nothing.
    pub fn new() -> (a: Self)
        ensures
            !a.started_spec(),
            !a.collecting_spec(),
            a.buf_spec() == Seq::<char>::empty(),
    {
        CmdAssembler { buffer: String::new(), started: false, collecting: false }
    }

    /// Feeds one chunk. Returns whether the buffered command is complete:
    /// immediately, unless the first chunk was exactly the paste start
    /// marker, in which case chunks accumulate until one ends with the
    /// paste end marker.
    pub fn push(&mut self, chunk: &str) -> (done: bool)
        requires
            !old(self).started_spec() || old(self).collecting_spec(),
        ensures
            final(self).started_spec(),
            final(self).buf_spec() == old(self).buf_spec() + chunk@,
            !old(self).started_spec() ==> {
                &&& (final(self).collecting_spec() <==> chunk@ == paste_start_seq())
                &&& done == (chunk@ != paste_start_seq())
            },
            old(self).started_spec() ==> {
                &&& done == (chunk@.len() >= paste_end_seq().len() && chunk@.skip(
                    chunk@.len() - paste_end_seq().len(),
                ) == paste_end_seq())
                &&& final(self).collecting_spec() == !done
            },
    {
        proof {
            reveal_strlit("\x1B[200~");
            reveal_strlit("\x1B[201~");
            assert("\x1B[200~"@ =~= paste_start_seq());
            assert("\x1B[201~"@ =~= paste_end_seq());
        }
        if !self.started {
            self.started = true;
            self.buffer.append(chunk);
            if str_eq(chunk, "\x1B[200~") {
                self.collecting = true;
                false
            } else {
                self.collecting = false;
                true
            }
        } else {
            self.buffer.append(chunk);
            if str_ends_with(chunk, "\x1B[201~") {
                self.collecting = false;
                true
            } else {
                self.collecting = true;
                false
            }
        }
    }

    /// The assembled command text.
    pub fn take(self) -> (s: String)
        ensures
            s@ == self.buf_spec(),
    {
        self.buffer
    }
}

} // verus!
