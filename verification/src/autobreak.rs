//! Line breaking for plain-text sample output: a line break goes in before a write that would make
//! a non-empty line longer than the line capacity.
use vstd::prelude::*;

verus! {

/// What one write adds to the output, and the length of the current line after it, when the
/// current line holds `line_len` bytes.
pub open spec fn break_before(line_len: nat, piece: Seq<u8>, capacity: nat) -> (Seq<u8>, nat) {
    if line_len > 0 && line_len + piece.len() > capacity {
        (seq![10u8] + piece, piece.len())
    } else {
        (piece, line_len + piece.len())
    }
}

/// Tracks the current line of a line-broken text output.
pub struct AutoBreak {
    line_capacity: usize,
    line_len: usize,
}

impl AutoBreak {
    /// The most bytes a line takes before a break goes in, unless one write alone is longer.
    pub closed spec fn capacity(&self) -> nat {
        self.line_capacity as nat
    }

    /// The length of the current line.
    pub closed spec fn current_line_len(&self) -> nat {
        self.line_len as nat
    }

    /// A fresh line breaker with an empty current line.
    pub fn new(line_capacity: usize) -> (r: AutoBreak)
        ensures
            r.capacity() == line_capacity,
            r.current_line_len() == 0,
    {
        AutoBreak { line_capacity, line_len: 0 }
    }

    /// Appends `piece` to `out`, with a line break before it where the line would grow too long.
    pub fn write(&mut self, out: &mut Vec<u8>, piece: &[u8])
        ensures
            final(self).capacity() == old(self).capacity(),
            final(out)@ == old(out)@ + break_before(
                old(self).current_line_len(),
                piece@,
                old(self).capacity(),
            ).0,
            final(self).current_line_len() == break_before(
                old(self).current_line_len(),
                piece@,
                old(self).capacity(),
            ).1,
    {
        let n = piece.len();
        let overflows = self.line_len > 0 && (self.line_len > self.line_capacity || n
            > self.line_capacity - self.line_len);
        if overflows {
            out.push(10u8);
            self.line_len = n;
        } else {
            self.line_len = self.line_len + n;
        }
        let ghost mid = out@;
        let mut i: usize = 0;
        while i < n
            invariant
                n == piece@.len(),
                i <= n,
                out@ == mid + piece@.take(i as int),
            decreases n - i,
        {
            out.push(piece[i]);
            i = i + 1;
            assert(out@ =~= mid + piece@.take(i as int));
        }
        assert(piece@.take(n as int) =~= piece@);
        assert(out@ =~= old(out)@ + break_before(
            old(self).current_line_len(),
            piece@,
            old(self).capacity(),
        ).0);
    }
}

} // verus!
