use vstd::prelude::*;

verus! {

/// One raw OS descriptor: its number, together with a model of its
/// close-on-exec state. `inheritable` mirrors whether the descriptor would be
/// handed to a child process spawned by an exec-style primitive; the
/// functions below keep the model in step with the calls that change it.
pub struct Desc {
    fd: i32,
    inheritable: Ghost<bool>,
}

impl Desc {
    /// The descriptor number.
    pub closed spec fn id(&self) -> int {
        self.fd as int
    }

    /// Whether a child spawned now would inherit this descriptor.
    pub closed spec fn is_inheritable(&self) -> bool {
        self.inheritable@
    }

    /// Takes over a descriptor by number. A descriptor reaches this point
    /// either freshly created, duplicated, or inherited, and in each of those
    /// states its close-on-exec flag is unset — a set flag would have closed
    /// an inherited copy at exec, and creation and duplication start it
    /// cleared — so the descriptor is modelled inheritable until a flag
    /// change says otherwise.
    pub fn adopt(fd: i32) -> (d: Desc)
        ensures
            d.id() == fd as int,
            d.is_inheritable(),
    {
        Desc { fd, inheritable: Ghost(true) }
    }

    pub fn raw(&self) -> (r: i32)
        ensures
            r as int == self.id(),
    {
        self.fd
    }
}

/// Which direction of a duplex stream to shut down.
#[derive(Clone, Copy, Debug, PartialEq, Eq, Structural)]
pub enum ShutdownHow {
    Read,
    Write,
    Both,
}

/// Relies on nix::sys::socket::socketpair with AF_UNIX and SOCK_STREAM: on
/// success it returns two distinct, non-negative, cross-connected stream
/// descriptors. On failure it returns the OS errno.
#[verifier::external_body]
fn sys_socketpair() -> (r: Result<(i32, i32), i32>)
    ensures
        r matches Ok(p) ==> p.0 >= 0 && p.1 >= 0 && p.0 != p.1,
{
    match nix::sys::socket::socketpair(
        nix::sys::socket::AddressFamily::Unix,
        nix::sys::socket::SockType::Stream,
        None,
        nix::sys::socket::SockFlag::empty(),
    ) {
        Ok(p) => Ok(p),
        Err(e) => Err(e as i32),
    }
}

/// Relies on nix::unistd::dup: on success the new descriptor refers to the
/// same object, is non-negative and distinct from the argument, and does not
/// share its descriptor flags — its close-on-exec flag starts unset, whatever
/// the original's state. On failure it returns the OS errno.
#[verifier::external_body]
fn sys_dup(fd: i32) -> (r: Result<i32, i32>)
    ensures
        r matches Ok(n) ==> n >= 0 && n != fd,
{
    match nix::unistd::dup(fd) {
        Ok(n) => Ok(n),
        Err(e) => Err(e as i32),
    }
}

/// Relies on nix::fcntl::fcntl with F_SETFD(FD_CLOEXEC): on success the
/// descriptor's close-on-exec flag is set, so it is no longer inherited
/// across an exec-style spawn. The call changes only that flag, and changes
/// nothing when it fails (for one, on a bad descriptor), returning the OS
/// errno.
#[verifier::external_body]
fn sys_set_cloexec(fd: i32) -> (r: Result<(), i32>)
{
    match nix::fcntl::fcntl(fd, nix::fcntl::FcntlArg::F_SETFD(nix::fcntl::FdFlag::FD_CLOEXEC)) {
        Ok(_) => Ok(()),
        Err(e) => Err(e as i32),
    }
}

/// Relies on nix::unistd::close: releases the descriptor number. The result
/// is reported but nothing further is promised of it.
#[verifier::external_body]
fn sys_close(fd: i32) -> (r: Result<(), i32>)
{
    match nix::unistd::close(fd) {
        Ok(()) => Ok(()),
        Err(e) => Err(e as i32),
    }
}

/// Relies on nix::unistd::read: on success it has filled
/// `buf[offset..offset + n]` with the bytes read and touched nothing else in
/// the buffer; `n` never exceeds the room it was given. Zero bytes with room
/// available means the peer closed its write side. On failure it returns the
/// OS errno.
#[verifier::external_body]
pub(crate) fn sys_read(d: &Desc, buf: &mut Vec<u8>, offset: usize) -> (r: Result<usize, i32>)
    requires
        offset <= old(buf).len(),
    ensures
        final(buf).len() == old(buf).len(),
        r matches Ok(n) ==> n <= old(buf).len() - offset,
        r matches Ok(n) ==> forall|i: int|
            (0 <= i < offset || offset + n <= i < old(buf).len()) ==> final(buf)[i] == old(
                buf,
            )[i],
{
    match nix::unistd::read(d.fd, &mut buf[offset..]) {
        Ok(n) => Ok(n),
        Err(e) => Err(e as i32),
    }
}

/// Relies on nix::unistd::write: on success it returns how many of the bytes
/// in `buf[offset..]` were accepted, never more than were offered. On failure
/// it returns the OS errno.
#[verifier::external_body]
pub(crate) fn sys_write(d: &Desc, buf: &Vec<u8>, offset: usize) -> (r: Result<usize, i32>)
    requires
        offset <= buf.len(),
    ensures
        r matches Ok(n) ==> n <= buf.len() - offset,
{
    match nix::unistd::write(d.fd, &buf[offset..]) {
        Ok(n) => Ok(n),
        Err(e) => Err(e as i32),
    }
}

/// Relies on nix::sys::socket::shutdown: disables further receptions,
/// transmissions, or both on the stream the descriptor refers to. On failure
/// it returns the OS errno.
#[verifier::external_body]
pub(crate) fn sys_shutdown(d: &Desc, how: ShutdownHow) -> (r: Result<(), i32>)
{
    let h = match how {
        ShutdownHow::Read => nix::sys::socket::Shutdown::Read,
        ShutdownHow::Write => nix::sys::socket::Shutdown::Write,
        ShutdownHow::Both => nix::sys::socket::Shutdown::Both,
    };
    match nix::sys::socket::shutdown(d.fd, h) {
        Ok(()) => Ok(()),
        Err(e) => Err(e as i32),
    }
}

/// Relies on nix::errno::errno: returns the calling thread's current errno.
/// It depends on what the thread last did, so nothing is promised of it.
#[verifier::external_body]
pub(crate) fn sys_errno() -> (r: i32)
{
    nix::errno::errno()
}

/// Allocates the connected duplex primitive: two cross-connected stream
/// descriptors, both freshly created and therefore inheritable.
pub(crate) fn make_socketpair() -> (r: Result<(Desc, Desc), i32>)
    ensures
        r matches Ok(p) ==> p.0.id() >= 0 && p.1.id() >= 0 && p.0.id() != p.1.id()
            && p.0.is_inheritable() && p.1.is_inheritable(),
{
    match sys_socketpair() {
        Ok((a, b)) => Ok((Desc::adopt(a), Desc::adopt(b))),
        Err(e) => Err(e),
    }
}

/// Duplicates a descriptor. The duplicate does not share descriptor flags
/// with the original, so it starts inheritable whatever the original's state.
pub(crate) fn dup_desc(d: &Desc) -> (r: Result<Desc, i32>)
    ensures
        r matches Ok(n) ==> n.id() >= 0 && n.id() != d.id() && n.is_inheritable(),
{
    match sys_dup(d.raw()) {
        Ok(n) => Ok(Desc::adopt(n)),
        Err(e) => Err(e),
    }
}

/// Disables inheritance of `d`: on success the descriptor is no longer handed
/// to children this process spawns. The descriptor number never changes.
pub(crate) fn set_non_inheritable(d: &mut Desc) -> (r: Result<(), i32>)
    ensures
        final(d).id() == old(d).id(),
        r is Ok ==> !final(d).is_inheritable(),
        r is Err ==> final(d).is_inheritable() == old(d).is_inheritable(),
{
    match sys_set_cloexec(d.fd) {
        Ok(()) => {
            d.inheritable = Ghost(false);
            Ok(())
        },
        Err(e) => Err(e),
    }
}

/// Releases the descriptor.
pub(crate) fn close_desc(d: Desc) -> (r: Result<(), i32>)
{
    sys_close(d.fd)
}

} // verus!
