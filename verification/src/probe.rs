//! A bench instrument: what arrives at a line rate, and whether it reads.
//!
//! A mismatched rate must still yield garbage *bytes*; none at all is the
//! layer where a flasher goes deaf.

use vstd::prelude::*;

use crate::frame::append_bytes;
use crate::text;
use crate::text::push_decimal;

verus! {

/// How many bytes a sample needs before no more are added.
pub const SAMPLE: usize = 40;

/// [`Probe`] with its sample as a sequence.
pub struct ProbeView {
    pub count: nat,
    pub sample: Seq<u8>,
}

/// The word that a chattering test program prints.
pub open spec fn hello() -> Seq<u8> {
    seq![0x68, 0x65, 0x6C, 0x6C, 0x6F]
}

/// The word stands at `i`.
pub open spec fn hello_at(s: Seq<u8>, i: int) -> bool {
    0 <= i && i + 5 <= s.len() && s.subrange(i, i + 5) == hello()
}

impl ProbeView {
    /// More bytes have come in: all are counted, and up to the first 40 of
    /// them are kept while the sample is short.
    pub open spec fn heard(self, bytes: Seq<u8>) -> ProbeView {
        ProbeView {
            count: self.count + bytes.len(),
            sample: if self.sample.len() < SAMPLE {
                self.sample + (if bytes.len() < SAMPLE {
                    bytes
                } else {
                    bytes.take(SAMPLE as int)
                })
            } else {
                self.sample
            },
        }
    }

    /// The sample holds the word.
    pub open spec fn legible(self) -> bool {
        exists|i: int| hello_at(self.sample, i)
    }
}

/// What has come in at one line rate.
#[derive(Debug)]
pub struct Probe {
    count: usize,
    sample: Vec<u8>,
}

impl View for Probe {
    type V = ProbeView;

    closed spec fn view(&self) -> ProbeView {
        ProbeView { count: self.count as nat, sample: self.sample@ }
    }
}

impl Probe {
    pub fn new() -> (p: Probe)
        ensures
            p@ == (ProbeView { count: 0, sample: seq![] }),
    {
        Probe { count: 0, sample: Vec::new() }
    }

    /// How many bytes have come in.
    pub fn count(&self) -> (n: usize)
        ensures
            n == self@.count,
    {
        self.count
    }

    /// Take what a read gave.
    pub fn heard(&mut self, bytes: &[u8])
        requires
            old(self)@.count + bytes@.len() <= usize::MAX,
        ensures
            final(self)@ == old(self)@.heard(bytes@),
    {
        self.count = self.count + bytes.len();
        if self.sample.len() < SAMPLE {
            if bytes.len() < SAMPLE {
                append_bytes(&mut self.sample, bytes);
            } else {
                let head: &[u8] = vstd::slice::slice_subrange(bytes, 0, SAMPLE);
                assert(head@ =~= bytes@.take(SAMPLE as int));
                append_bytes(&mut self.sample, head);
            }
        }
    }

    /// Does the sample read?
    pub fn legible(&self) -> (r: bool)
        ensures
            r == self@.legible(),
    {
        let n: usize = self.sample.len();
        let mut i: usize = 0;
        while i < n && n - i >= 5
            invariant
                n == self.sample@.len(),
                0 <= i <= n,
                forall|k: int| 0 <= k < i ==> !#[trigger] hello_at(self.sample@, k),
            decreases n - i,
        {
            let here: bool = self.sample[i] == 0x68 && self.sample[i + 1] == 0x65 && self.sample[i
                + 2] == 0x6C && self.sample[i + 3] == 0x6C && self.sample[i + 4] == 0x6F;
            let ghost w = self.sample@.subrange(i as int, i + 5);
            if here {
                assert(w =~= hello());
                assert(hello_at(self@.sample, i as int));
                return true;
            }
            assert(!hello_at(self.sample@, i as int)) by {
                if w == hello() {
                    assert(w[0] == 0x68 && w[1] == 0x65 && w[2] == 0x6C && w[3] == 0x6C && w[4]
                        == 0x6F);
                }
            }
            i = i + 1;
        }
        false
    }

    /// The line that tells of it.
    pub fn describe(&self, label: &str, secs: u64) -> (s: String)
        ensures
            s@ == label@ + ": "@ + text::decimal(self@.count) + " bytes in "@ + text::decimal(
                secs as nat,
            ) + "s, legible="@ + (if self@.legible() {
                "true"@
            } else {
                "false"@
            }),
    {
        let mut s: String = label.to_owned();
        s.append(": ");
        push_decimal(&mut s, self.count as u64);
        s.append(" bytes in ");
        push_decimal(&mut s, secs);
        s.append("s, legible=");
        if self.legible() {
            s.append("true");
        } else {
            s.append("false");
        }
        s
    }
}

} // verus!
