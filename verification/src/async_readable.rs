//! An input that plays back what it was told to: for trying out code that
//! reads from an input that is not always ready.

use vstd::prelude::*;

verus! {

/// What the input does when it is read once.
pub enum AsyncReadableAction {
    /// It is not ready.
    Pending,
    /// It gives these bytes, or as many of them as fit.
    Data(Vec<u8>),
    /// It fails with this error.
    Error(std::io::Error),
}

/// An input that does one of the given actions each time that it is read, and
/// has ended when none is left.
pub struct AsyncReadable(pub Vec<AsyncReadableAction>);

impl AsyncReadable {
    /// Reads once into `buf`: does the first action and forgets it.  Returns
    /// `None` where the input is not ready, else the number of bytes that
    /// were put at the front of `buf`, or the error.  An input without actions
    /// has ended: it gives no bytes.
    pub fn read(&mut self, buf: &mut [u8]) -> (r: Option<std::io::Result<usize>>)
        ensures
            final(buf)@.len() == old(buf)@.len(),
            old(self).0@.len() == 0 ==> final(self).0@ == old(self).0@ && final(buf)@ == old(buf)@
                && r == Some(Ok::<usize, std::io::Error>(0)),
            old(self).0@.len() > 0 ==> final(self).0@ == old(self).0@.drop_first()
                && match old(self).0@[0] {
                AsyncReadableAction::Pending => r is None && final(buf)@ == old(buf)@,
                AsyncReadableAction::Error(e) => r == Some(Err::<usize, std::io::Error>(e))
                    && final(buf)@ == old(buf)@,
                AsyncReadableAction::Data(bytes) => {
                    let n = vstd::math::min(bytes@.len() as int, old(buf)@.len() as int);
                    &&& r == Some(Ok::<usize, std::io::Error>(n as usize))
                    &&& final(buf)@ == bytes@.subrange(0, n) + old(buf)@.subrange(
                        n,
                        old(buf)@.len() as int,
                    )
                },
            },
    {
        if self.0.len() == 0 {
            return Some(Ok(0));
        }
        let action = self.0.remove(0);
        assert(self.0@ =~= old(self).0@.drop_first());
        match action {
            AsyncReadableAction::Pending => None,
            AsyncReadableAction::Error(e) => Some(Err(e)),
            AsyncReadableAction::Data(bytes) => {
                let n: usize = if bytes.len() < buf.len() {
                    bytes.len()
                } else {
                    buf.len()
                };
                let mut k: usize = 0;
                while k < n
                    invariant
                        k <= n,
                        n <= bytes@.len(),
                        n <= buf@.len(),
                        buf@.len() == old(buf)@.len(),
                        forall|m: int| 0 <= m < k ==> buf@[m] == bytes@[m],
                        forall|m: int| k <= m < buf@.len() ==> buf@[m] == old(buf)@[m],
                    decreases n - k,
                {
                    buf[k] = bytes[k];
                    k = k + 1;
                }
                assert(buf@ =~= bytes@.subrange(0, n as int) + old(buf)@.subrange(
                    n as int,
                    old(buf)@.len() as int,
                ));
                Some(Ok(n))
            },
        }
    }
}

} // verus!
