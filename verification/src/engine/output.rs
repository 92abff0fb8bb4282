//! Output frames: chunks of child output tagged with their stream and a
//! sequence number that orders them across streams.

use vstd::prelude::*;
use crate::engine::types::OutputStream;

verus! {

/// The current wall-clock time (`SystemTime::now`). Nothing is stated of
/// the value.
#[verifier::external_body]
pub(crate) fn now() -> std::time::SystemTime {
    std::time::SystemTime::now()
}

/// One chunk of output read from the child.
#[derive(Debug, Clone)]
pub struct OutputFrame {
    pub sequence: u64,
    pub captured_at: std::time::SystemTime,
    pub stream: OutputStream,
    pub bytes: Vec<u8>,
}

/// Hands out the current value of `current` and advances it by one.
pub fn next_sequence(current: &mut u64) -> (r: u64)
    requires
        *old(current) < u64::MAX,
    ensures
        r == *old(current),
        *final(current) == *old(current) + 1,
{
    let value = *current;
    *current = value + 1;
    value
}

/// Numbers frames in the order they are pushed, whatever their stream.
#[derive(Debug, Clone)]
pub struct OutputCollector {
    next_sequence: u64,
}

impl Default for OutputCollector {
    fn default() -> (r: Self)
        ensures
            r.next() == 0,
    {
        OutputCollector { next_sequence: 0 }
    }
}

impl OutputCollector {
    /// The sequence number the next frame gets.
    pub closed spec fn next(&self) -> u64 {
        self.next_sequence
    }

    pub fn new() -> (r: Self)
        ensures
            r.next() == 0,
    {
        OutputCollector { next_sequence: 0 }
    }

    fn push(&mut self, stream: OutputStream, bytes: &[u8]) -> (r: OutputFrame)
        requires
            old(self).next() < u64::MAX,
        ensures
            r.sequence == old(self).next(),
            final(self).next() == old(self).next() + 1,
            r.stream == stream,
            r.bytes@ == bytes@,
    {
        let sequence = next_sequence(&mut self.next_sequence);
        OutputFrame {
            sequence,
            captured_at: now(),
            stream,
            bytes: vstd::slice::slice_to_vec(bytes),
        }
    }

    /// A stdout frame; frames pushed one after another get consecutive
    /// sequence numbers.
    pub fn push_stdout(&mut self, bytes: &[u8]) -> (r: OutputFrame)
        requires
            old(self).next() < u64::MAX,
        ensures
            r.sequence == old(self).next(),
            final(self).next() == old(self).next() + 1,
            r.stream == OutputStream::Stdout,
            r.bytes@ == bytes@,
    {
        self.push(OutputStream::Stdout, bytes)
    }

    pub fn push_stderr(&mut self, bytes: &[u8]) -> (r: OutputFrame)
        requires
            old(self).next() < u64::MAX,
        ensures
            r.sequence == old(self).next(),
            final(self).next() == old(self).next() + 1,
            r.stream == OutputStream::Stderr,
            r.bytes@ == bytes@,
    {
        self.push(OutputStream::Stderr, bytes)
    }

    /// A frame of the merged stream of a pseudo-terminal.
    pub fn push_pty(&mut self, bytes: &[u8]) -> (r: OutputFrame)
        requires
            old(self).next() < u64::MAX,
        ensures
            r.sequence == old(self).next(),
            final(self).next() == old(self).next() + 1,
            r.stream == OutputStream::PtyMerged,
            r.bytes@ == bytes@,
    {
        self.push(OutputStream::PtyMerged, bytes)
    }
}

} // verus!
