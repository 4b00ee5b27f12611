//! What a listener does with the connections that it accepts.
//!
//! A listener binds every address of the machine on its port. Where it has
//! a certificate and key, each accepted connection goes through the TLS
//! handshake first, and a connection whose handshake fails is dropped.

use vstd::prelude::*;
use crate::response::{decimal, decimal_digits};
use crate::server::{Server, identity};
use crate::text::{chars_of, text_of};

verus! {

/// The address that stands for every address of the machine, with the
/// colon that the port follows.
pub open spec fn any_address() -> Seq<char> {
    seq!['0', '.', '0', '.', '0', '.', '0', ':']
}

/// The address that a listener on `port` binds: `0.0.0.0:` and the port in
/// decimal digits.
pub open spec fn address_of(port: u16) -> Seq<char> {
    any_address() + Seq::new(decimal(port as nat).len(), |i: int| decimal(port as nat)[i] as char)
}

/// The address to bind for a listener on `port`.
pub fn bind_address(port: u16) -> (address: String)
    ensures
        address@ == address_of(port),
{
    let mut chars = chars_of("0.0.0.0:");
    proof {
        reveal_strlit("0.0.0.0:");
    }
    let digits = decimal_digits(port as u64);
    let mut i: usize = 0;
    while i < digits.len()
        invariant
            i <= digits@.len(),
            digits@ == decimal(port as nat),
            chars@ == any_address() + Seq::new(i as nat, |k: int| decimal(port as nat)[k] as char),
        decreases digits@.len() - i,
    {
        chars.push(digits[i] as char);
        assert(chars@ =~= any_address() + Seq::new(
            (i + 1) as nat,
            |k: int| decimal(port as nat)[k] as char,
        ));
        i += 1;
    }
    text_of(&chars)
}

/// What is done with a connection.
#[derive(Debug, Clone, Copy, PartialEq, Eq, Structural)]
pub enum Admission {
    /// Read a request from it and answer.
    Serve,
    /// Do the TLS handshake on it first.
    Handshake,
    /// Close it; the listener goes on with the next connection.
    Drop,
}

impl Server {
    /// The paths of the certificate and the key where the server has both:
    /// then its connections are served over TLS.
    pub fn tls_paths(&self) -> (paths: Option<(&str, &str)>)
        ensures
            match paths {
                Some((cert, key)) => identity(self@) == Some((cert@, key@)),
                None => identity(self@) is None,
            },
    {
        match (&self.cert, &self.key) {
            (Some(cert), Some(key)) => Some((cert.as_str(), key.as_str())),
            _ => None,
        }
    }

    /// What is done with a connection that was just accepted: the handshake
    /// where the server has a certificate and key, and else the request.
    pub fn on_accept(&self) -> (admission: Admission)
        ensures
            admission == if identity(self@) is Some {
                Admission::Handshake
            } else {
                Admission::Serve
            },
    {
        if self.tls_paths().is_some() {
            Admission::Handshake
        } else {
            Admission::Serve
        }
    }
}

/// What is done with a connection after its handshake: it is served where
/// the handshake succeeded and dropped where it failed.
pub fn after_handshake(succeeded: bool) -> (admission: Admission)
    ensures
        admission == if succeeded {
            Admission::Serve
        } else {
            Admission::Drop
        },
{
    if succeeded {
        Admission::Serve
    } else {
        Admission::Drop
    }
}

} // verus!
