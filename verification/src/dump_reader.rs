//! Splitting of a captured dump into frames.

use vstd::prelude::*;
use crate::byte_stuffing::DELIMITER;
use crate::framing::frames_after;
use crate::framing::frames_of;
use crate::framing::pending_after;

verus! {

/// Reader of a dump that was loaded as a whole.
pub struct DumpReader {}

impl DumpReader {
    /// A reader for one dump.
    pub fn new() -> (reader: Self) {
        Self {  }
    }

    /// Splits the bytes of a dump into its frames, in order. The bytes
    /// behind the last delimiter count as a frame where there are any.
    pub fn start_read(self, buffer: &[u8]) -> (packages: Vec<Vec<u8>>)
        ensures
            packages.deep_view() == frames_of(buffer@),
    {
        let mut packages: Vec<Vec<u8>> = Vec::new();
        let mut current_packet: Vec<u8> = Vec::new();
        let n: usize = buffer.len();
        let mut i: usize = 0;
        while i < n
            invariant
                i <= n,
                n == buffer@.len(),
                packages.deep_view() == frames_after(Seq::empty(), buffer@.subrange(0, i as int)),
                current_packet@ == pending_after(Seq::empty(), buffer@.subrange(0, i as int)),
            decreases n - i,
        {
            let byte: u8 = buffer[i];
            let ghost pending = current_packet@;
            assert(buffer@.subrange(0, i + 1).drop_last() =~= buffer@.subrange(0, i as int));
            if byte != DELIMITER {
                current_packet.push(byte);
            } else if current_packet.len() > 0 {
                let mut package: Vec<u8> = Vec::new();
                core::mem::swap(&mut package, &mut current_packet);
                assert(package.deep_view() =~= pending);
                packages.push(package);
            }
            i += 1;
        }
        assert(buffer@.subrange(0, n as int) =~= buffer@);
        if current_packet.len() > 0 {
            assert(current_packet.deep_view() =~= current_packet@);
            packages.push(current_packet);
        }
        packages
    }
}

} // verus!
