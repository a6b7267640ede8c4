//! A bidirectional byte-stream channel that one process can create and hand
//! to a child process across an exec-style spawn, using only a short textual
//! token passed as a command-line argument. `duplex_pipe` builds the channel:
//! a pair of endpoints kept by the creating process, never inherited by its
//! children, and a transfer package whose descriptors stay inheritable.
//! `DuplexPipeToSend::with_fds` renders the package as the token
//! `dpipe:<read-id>,<write-id>`; `duplex_pipe_from_string` adopts the named
//! descriptors in the receiving process, exactly once per token.

use vstd::prelude::*;

mod sys;
mod token;

pub use sys::Desc;
pub use sys::ShutdownHow;
pub use token::Error;
pub use token::dec_of;
pub use token::decode_spec;
pub use token::decode_token;
pub use token::encode_token;
pub use token::lemma_token_round_trip;
pub use token::parse_i32;
pub use token::parse_i32_spec;
pub use token::token_of;

use sys::close_desc;
use sys::dup_desc;
use sys::make_socketpair;
use sys::set_non_inheritable as clear_inherit;

use sys::sys_errno;
use sys::sys_read;
use sys::sys_shutdown;
use sys::sys_write;

verus! {

/// The read side of one duplex endpoint.
pub struct Recver {
    d: Desc,
}

/// The write side of one duplex endpoint.
pub struct Sender {
    d: Desc,
}

/// One side of an established channel: paired read and write access.
pub struct DuplexPipe {
    pub r: Recver,
    pub s: Sender,
}

/// The inheritable descriptor pair destined for a child process. Use
/// `with_fds` to obtain the token naming it while its descriptors are still
/// open, and spawn the child inside the closure; the descriptors are closed
/// when `with_fds` returns, their job done. The child adopts its own inherited
/// copies by handing the token to `duplex_pipe_from_string`, exactly once.
pub struct DuplexPipeToSend {
    r: Desc,
    s: Desc,
}

impl Recver {
    /// The descriptor number this read side holds.
    pub closed spec fn id(&self) -> int {
        self.d.id()
    }

    /// Whether a child spawned now would inherit this descriptor.
    pub closed spec fn is_inheritable(&self) -> bool {
        self.d.is_inheritable()
    }

    /// The descriptor number, as exec code sees it.
    pub fn raw_id(&self) -> (r: i32)
        ensures
            r as int == self.id(),
    {
        self.d.raw()
    }

    /// Reads into `buf[offset..]`; a result of zero with room available means
    /// the peer closed its write side (end of stream), not an error.
    pub fn read(&self, buf: &mut Vec<u8>, offset: usize) -> (r: Result<usize, Error>)
        requires
            offset <= old(buf).len(),
        ensures
            final(buf).len() == old(buf).len(),
            r matches Ok(n) ==> n <= old(buf).len() - offset,
            r matches Ok(n) ==> forall|i: int|
                (0 <= i < offset || offset + n <= i < old(buf).len()) ==> final(buf)[i] == old(
                    buf,
                )[i],
            r matches Err(e) ==> e is Os,
    {
        match sys_read(&self.d, buf, offset) {
            Ok(n) => Ok(n),
            Err(e) => Err(Error::Os(e)),
        }
    }

    /// Reads until exactly `n` bytes have arrived; `Eof` if the stream ends
    /// before they do.
    pub fn read_exact(&self, n: usize) -> (r: Result<Vec<u8>, Error>)
        ensures
            r matches Ok(v) ==> v.len() == n,
            r matches Err(e) ==> e is Os || e is Eof,
            n == 0 ==> r is Ok,
    {
        let mut buf: Vec<u8> = Vec::new();
        let mut i: usize = 0;
        while i < n
            invariant
                i <= n,
                buf.len() == i,
            decreases n - i,
        {
            buf.push(0u8);
            i += 1;
        }
        let mut got: usize = 0;
        while got < n
            invariant
                got <= n,
                buf.len() == n,
            decreases n - got,
        {
            match sys_read(&self.d, &mut buf, got) {
                Ok(nx) => {
                    if nx == 0 {
                        return Err(Error::Eof);
                    }
                    got += nx;
                },
                Err(e) => {
                    return Err(Error::Os(e));
                },
            }
        }
        Ok(buf)
    }

    /// Disables further receptions, transmissions, or both on the underlying
    /// stream.
    pub fn shutdown(&self, how: ShutdownHow) -> (r: Result<(), Error>)
        ensures
            r matches Err(e) ==> e is Os,
    {
        match sys_shutdown(&self.d, how) {
            Ok(()) => Ok(()),
            Err(e) => Err(Error::Os(e)),
        }
    }

    /// Releases the descriptor.
    pub fn close(self) -> (r: Result<(), Error>)
        ensures
            r matches Err(e) ==> e is Os,
    {
        match close_desc(self.d) {
            Ok(()) => Ok(()),
            Err(e) => Err(Error::Os(e)),
        }
    }
}

impl Sender {
    /// The descriptor number this write side holds.
    pub closed spec fn id(&self) -> int {
        self.d.id()
    }

    /// Whether a child spawned now would inherit this descriptor.
    pub closed spec fn is_inheritable(&self) -> bool {
        self.d.is_inheritable()
    }

    /// The descriptor number, as exec code sees it.
    pub fn raw_id(&self) -> (r: i32)
        ensures
            r as int == self.id(),
    {
        self.d.raw()
    }

    /// Offers `buf[offset..]` to the stream; returns how many bytes it took.
    pub fn write(&self, buf: &Vec<u8>, offset: usize) -> (r: Result<usize, Error>)
        requires
            offset <= buf.len(),
        ensures
            r matches Ok(n) ==> n <= buf.len() - offset,
            r matches Err(e) ==> e is Os,
    {
        match sys_write(&self.d, buf, offset) {
            Ok(n) => Ok(n),
            Err(e) => Err(Error::Os(e)),
        }
    }

    /// Writes all of `buf`, retrying partial writes; `WriteZero` if the
    /// stream stops taking bytes.
    pub fn write_all(&self, buf: &Vec<u8>) -> (r: Result<(), Error>)
        ensures
            r matches Err(e) ==> e is Os || e is WriteZero,
            buf.len() == 0 ==> r is Ok,
    {
        let mut off: usize = 0;
        while off < buf.len()
            invariant
                off <= buf.len(),
            decreases buf.len() - off,
        {
            match sys_write(&self.d, buf, off) {
                Ok(nx) => {
                    if nx == 0 {
                        return Err(Error::WriteZero);
                    }
                    off += nx;
                },
                Err(e) => {
                    return Err(Error::Os(e));
                },
            }
        }
        Ok(())
    }

    /// Disables further receptions, transmissions, or both on the underlying
    /// stream.
    pub fn shutdown(&self, how: ShutdownHow) -> (r: Result<(), Error>)
        ensures
            r matches Err(e) ==> e is Os,
    {
        match sys_shutdown(&self.d, how) {
            Ok(()) => Ok(()),
            Err(e) => Err(Error::Os(e)),
        }
    }

    /// Releases the descriptor.
    pub fn close(self) -> (r: Result<(), Error>)
        ensures
            r matches Err(e) ==> e is Os,
    {
        match close_desc(self.d) {
            Ok(()) => Ok(()),
            Err(e) => Err(Error::Os(e)),
        }
    }
}

impl DuplexPipeToSend {
    /// The descriptor number of the package's read side.
    pub closed spec fn r_id(&self) -> int {
        self.r.id()
    }

    /// The descriptor number of the package's write side.
    pub closed spec fn s_id(&self) -> int {
        self.s.id()
    }

    pub closed spec fn r_inheritable(&self) -> bool {
        self.r.is_inheritable()
    }

    pub closed spec fn s_inheritable(&self) -> bool {
        self.s.is_inheritable()
    }

    /// Renders the package as its token and hands it to `f` — spawn the child
    /// there, passing the token along. Encoding is repeatable and
    /// side-effect-free; it is decoding that must happen exactly once. When
    /// `f` returns, the package's descriptors are closed: the child holds its
    /// own inherited copies.
    pub fn with_fds<T, E, F: FnOnce(String) -> Result<T, E>>(self, f: F) -> (r: Result<T, E>)
        requires
            forall|t: String|
                t@ == token_of(self.r_id(), self.s_id()) ==> call_requires(f, (t,)),
        ensures
            exists|t: String|
                t@ == token_of(self.r_id(), self.s_id()) && call_ensures(f, (t,), r),
    {
        let tok = encode_token(self.r.raw(), self.s.raw());
        let out = f(tok);
        let _ = close_desc(self.r);
        let _ = close_desc(self.s);
        out
    }
}

/// Establishes the channel: one connected duplex primitive, each side's
/// descriptor duplicated so the creating process keeps one pair while the
/// other awaits transfer. The local pair's inheritance is disabled — no later
/// unrelated child can pick the channel up — while the transfer pair stays
/// inheritable for the intended child. A failure partway through closes
/// whatever was already allocated and reports the failing step's OS error.
pub fn duplex_pipe() -> (r: Result<(DuplexPipe, DuplexPipeToSend), Error>)
    ensures
        r matches Ok(p) ==> !p.0.r.is_inheritable() && !p.0.s.is_inheritable(),
        r matches Ok(p) ==> p.1.r_inheritable() && p.1.s_inheritable(),
        r matches Ok(p) ==> p.0.r.id() >= 0 && p.0.s.id() >= 0 && p.1.r_id() >= 0 && p.1.s_id()
            >= 0,
        r matches Ok(p) ==> p.0.r.id() != p.0.s.id() && p.1.r_id() != p.1.s_id() && p.0.r.id()
            != p.1.r_id(),
        r matches Err(e) ==> e is Os,
{
    let (mut mine, theirs) = match make_socketpair() {
        Ok(p) => p,
        Err(e) => {
            return Err(Error::Os(e));
        },
    };
    let mut mine2 = match dup_desc(&mine) {
        Ok(d) => d,
        Err(e) => {
            let _ = close_desc(mine);
            let _ = close_desc(theirs);
            return Err(Error::Os(e));
        },
    };
    let theirs2 = match dup_desc(&theirs) {
        Ok(d) => d,
        Err(e) => {
            let _ = close_desc(mine);
            let _ = close_desc(mine2);
            let _ = close_desc(theirs);
            return Err(Error::Os(e));
        },
    };
    match clear_inherit(&mut mine) {
        Ok(()) => (),
        Err(e) => {
            let _ = close_desc(mine);
            let _ = close_desc(mine2);
            let _ = close_desc(theirs);
            let _ = close_desc(theirs2);
            return Err(Error::Os(e));
        },
    }
    match clear_inherit(&mut mine2) {
        Ok(()) => (),
        Err(e) => {
            let _ = close_desc(mine);
            let _ = close_desc(mine2);
            let _ = close_desc(theirs);
            let _ = close_desc(theirs2);
            return Err(Error::Os(e));
        },
    }
    Ok(
        (
            DuplexPipe { r: Recver { d: mine }, s: Sender { d: mine2 } },
            DuplexPipeToSend { r: theirs, s: theirs2 },
        ),
    )
}

/// Adopts the endpoints a token names and disables their inheritance, so this
/// process's own future children do not inherit them in turn.
///
/// Caller obligations this routine cannot check: it must run in a process
/// that holds inherited copies of exactly the named descriptors — the same
/// process that rendered the token, or a child spawned while the transfer
/// package was still open — and it must run at most once per token, since the
/// OS may have reused a closed descriptor's number for an unrelated resource.
pub fn duplex_pipe_from_string(name: &str) -> (r: Result<DuplexPipe, Error>)
    ensures
        decode_spec(name@) matches Err(e) ==> r == Err::<DuplexPipe, Error>(e),
        decode_spec(name@) matches Ok(ids) ==> match r {
            Ok(dp) => dp.r.id() == ids.0 as int && dp.s.id() == ids.1 as int
                && !dp.r.is_inheritable() && !dp.s.is_inheritable(),
            Err(e) => e is Os,
        },
{
    let (rid, sid) = match decode_token(name) {
        Ok(p) => p,
        Err(e) => {
            return Err(e);
        },
    };
    let mut rd = Desc::adopt(rid);
    let mut sd = Desc::adopt(sid);
    match clear_inherit(&mut rd) {
        Ok(()) => (),
        Err(e) => {
            let _ = close_desc(rd);
            let _ = close_desc(sd);
            return Err(Error::Os(e));
        },
    }
    match clear_inherit(&mut sd) {
        Ok(()) => (),
        Err(e) => {
            let _ = close_desc(rd);
            let _ = close_desc(sd);
            return Err(Error::Os(e));
        },
    }
    Ok(DuplexPipe { r: Recver { d: rd }, s: Sender { d: sd } })
}

/// Disables inheritance of a descriptor: no child this process spawns from
/// now on will inherit it. The descriptor number never changes.
pub fn set_non_inheritable(x: &mut Desc) -> (r: Result<(), Error>)
    ensures
        final(x).id() == old(x).id(),
        r is Ok ==> !final(x).is_inheritable(),
        r is Err ==> final(x).is_inheritable() == old(x).is_inheritable(),
        r matches Err(e) ==> e is Os,
{
    match clear_inherit(x) {
        Ok(()) => Ok(()),
        Err(e) => Err(Error::Os(e)),
    }
}

/// Renders a descriptor's identifier in its textual form: the decimal number
/// a token carries for it.
pub fn to_string(x: &Desc) -> (r: String)
    ensures
        r@ == dec_of(x.id()),
{
    let mut s = String::new();
    token::push_i32(x.raw(), &mut s);
    proof {
        assert(s@ =~= dec_of(x.id()));
    }
    s
}

/// Reconstructs a descriptor from its textual identifier.
///
/// Caller obligation, as for `duplex_pipe_from_string`: the calling process
/// must hold an inherited copy of exactly this descriptor, adopted at most
/// once.
pub fn from_string(x: &str) -> (r: Result<Desc, Error>)
    ensures
        match r {
            Ok(d) => parse_i32_spec(x@) matches Some(v) && d.id() == v as int
                && d.is_inheritable(),
            Err(e) => parse_i32_spec(x@) is None && e == Error::BadNumber,
        },
{
    match token::parse_i32(x) {
        Some(v) => Ok(Desc::adopt(v)),
        None => Err(Error::BadNumber),
    }
}

/// Turns a C-style return value into a result: -1 means the call failed and
/// the thread's errno says why; anything else is the call's answer.
pub fn cvt(t: i32) -> (r: Result<i32, Error>)
    ensures
        t == -1 <==> r is Err,
        t != -1 ==> r == Ok::<i32, Error>(t),
        r matches Err(e) ==> e is Os,
{
    if t == -1 {
        Err(Error::Os(sys_errno()))
    } else {
        Ok(t)
    }
}

} // verus!
