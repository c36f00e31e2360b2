//! Data addressed to or from a network socket
use no_std_net::SocketAddr;
use vstd::prelude::*;

verus! {

/// `no_std_net::SocketAddr`, carried through the library as an opaque value
#[verifier::external_type_specification]
#[verifier::external_body]
pub struct ExSocketAddr(SocketAddr);

/// `Clone` of `no_std_net::SocketAddr`, which is derived on a `Copy` type:
/// the clone is the same value.
pub assume_specification[ <SocketAddr as Clone>::clone ](a: &SocketAddr) -> (r: SocketAddr)
    ensures
        r == *a,
;

/// The `==` of `no_std_net::SocketAddr`. Its impls compare every field (the
/// IP address bytes, port, and for IPv6 flow info and scope id), so two
/// addresses compare equal exactly when they are the same value.
#[verifier::external_body]
pub(crate) fn same_addr(a: &SocketAddr, b: &SocketAddr) -> (r: bool)
    ensures
        r == (*a == *b),
{
    a == b
}

/// The address that reading `host` as an IP address (IPv4 or IPv6) and
/// pairing it with `port` gives, where the text is an IP address
pub uninterp spec fn host_socket_addr(host: Seq<char>, port: u16) -> Option<SocketAddr>;

/// `host.parse::<no_std_net::IpAddr>()` (the parser of `no_std_net` for an
/// IPv4 or IPv6 address), then `SocketAddr::new(ip, port)`. Both are pure
/// functions of their arguments; which texts parse is named, not stated.
#[verifier::external_body]
pub(crate) fn parse_host(host: &str, port: u16) -> (r: Option<SocketAddr>)
    ensures
        r == host_socket_addr(host@, port),
{
    host.parse::<no_std_net::IpAddr>().ok().map(|ip| SocketAddr::new(ip, port))
}

/// Data that came from a network socket, with the socket's address
#[derive(PartialEq, PartialOrd, Eq, Ord, Hash, Debug, Clone, Copy)]
pub struct Addrd<T>(pub T, pub SocketAddr);

impl<T> Addrd<T> {
    /// Borrow the contents of this addressed item
    pub fn as_ref(&self) -> (r: Addrd<&T>)
        ensures
            *r.0 == self.0,
            r.1 == self.1,
    {
        Addrd(&self.0, self.1)
    }

    /// Discard the address and get the data
    pub fn unwrap(self) -> (r: T)
        ensures
            r == self.0,
    {
        self.0
    }

    /// Map the data, keeping the address
    pub fn map<R, F: FnOnce(T) -> R>(self, f: F) -> (r: Addrd<R>)
        requires
            call_requires(f, (self.0,)),
        ensures
            call_ensures(f, (self.0,), r.0),
            r.1 == self.1,
    {
        Addrd(f(self.0), self.1)
    }

    /// Map the data, with a copy of the address
    pub fn map_with_addr<R, F: FnOnce(T, SocketAddr) -> R>(self, f: F) -> (r: Addrd<R>)
        requires
            call_requires(f, (self.0, self.1)),
        ensures
            call_ensures(f, (self.0, self.1), r.0),
            r.1 == self.1,
    {
        let addr = self.1;
        Addrd(f(self.0, addr), addr)
    }

    /// Borrow the data
    pub fn data(&self) -> (r: &T)
        ensures
            *r == self.0,
    {
        &self.0
    }

    /// Mutably borrow the data
    pub fn data_mut(&mut self) -> (r: &mut T)
        ensures
            *r == old(self).0,
            final(self).0 == *final(r),
            final(self).1 == old(self).1,
    {
        &mut self.0
    }

    /// Copy the socket address
    pub fn addr(&self) -> (r: SocketAddr)
        ensures
            r == self.1,
    {
        self.1
    }

    /// Turn the data and address into something else
    pub fn fold<R, F: FnOnce(T, SocketAddr) -> R>(self, f: F) -> (r: R)
        requires
            call_requires(f, (self.0, self.1)),
        ensures
            call_ensures(f, (self.0, self.1), r),
    {
        f(self.0, self.1)
    }
}

impl<T> AsMut<T> for Addrd<T> {
    fn as_mut(&mut self) -> (r: &mut T)
        ensures
            *r == old(self).0,
            final(self).0 == *final(r),
            final(self).1 == old(self).1,
    {
        &mut self.0
    }
}

} // verus!
