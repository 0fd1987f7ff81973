use vstd::prelude::*;
use crate::errors::DBError;

verus! {

/// The maximum number of live connections when the deployment names none:
/// explicit, never silently unlimited.
pub const DEFAULT_POOL_SIZE: u32 = 10;

/// A bounded pool of reusable connections, modeled by how many are live at
/// once. A caller that cannot be served within the wait bound fails with
/// `ConnectionError` instead of blocking forever, and every acquired
/// connection is given back when the operation holding it ends. The pool
/// holds no domain state: it is pure resource accounting.
pub struct ConnectionPool {
    pub max_size: u32,
    pub live: u32,
}

impl ConnectionPool {
    /// The pool never has more live connections than its bound.
    pub open spec fn wf(self) -> bool {
        self.live <= self.max_size && self.max_size >= 1
    }

    pub fn new(max_size: u32) -> (p: ConnectionPool)
        requires
            max_size >= 1,
        ensures
            p.wf(),
            p.max_size == max_size,
            p.live == 0,
    {
        ConnectionPool { max_size, live: 0 }
    }

    /// A pool of the explicit default size.
    pub fn with_default_size() -> (p: ConnectionPool)
        ensures
            p.wf(),
            p.max_size == DEFAULT_POOL_SIZE,
            p.live == 0,
    {
        ConnectionPool { max_size: DEFAULT_POOL_SIZE, live: 0 }
    }

    /// Hand out a connection while the bound leaves room. When every
    /// connection is taken, a waiter's bounded patience runs out and it is
    /// told `ConnectionError`; it is served again once some holder releases.
    pub fn acquire(&mut self) -> (r: Result<(), DBError>)
        requires
            old(self).wf(),
        ensures
            final(self).wf(),
            final(self).max_size == old(self).max_size,
            r is Ok <==> old(self).live < old(self).max_size,
            (old(self).live < old(self).max_size ==> final(self).live == old(self).live + 1),
            (old(self).live == old(self).max_size ==> final(self).live == old(self).live && (
            r matches Err(DBError::ConnectionError(d)) && d@
                == "timed out waiting for connection"@)),
    {
        if self.live < self.max_size {
            self.live = self.live + 1;
            Ok(())
        } else {
            Err(DBError::ConnectionError("timed out waiting for connection".to_owned()))
        }
    }

    /// Give a connection back; scoped acquisition guarantees the holder does
    /// so on every exit path, including failure paths.
    pub fn release(&mut self)
        requires
            old(self).wf(),
            old(self).live >= 1,
        ensures
            final(self).wf(),
            final(self).max_size == old(self).max_size,
            final(self).live == old(self).live - 1,
    {
        self.live = self.live - 1;
    }
}

} // verus!
