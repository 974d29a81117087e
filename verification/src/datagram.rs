//! A datagram as the engine sees it: addressed bytes with an ECN mark.

use vstd::prelude::*;

use crate::inet::SocketAddr;
use crate::tos::{Ecn, Tos};

verus! {

#[derive(Debug, Clone)]
pub struct Datagram {
    pub src: SocketAddr,
    pub dst: SocketAddr,
    pub tos: Tos,
    pub payload: Vec<u8>,
}

impl Datagram {
    pub fn new(src: SocketAddr, dst: SocketAddr, tos: Tos, payload: Vec<u8>) -> (r: Datagram)
        ensures
            r.src == src,
            r.dst == dst,
            r.tos == tos,
            r.payload@ == payload@,
    {
        Datagram { src, dst, tos, payload }
    }

    pub fn source(&self) -> (r: SocketAddr)
        ensures
            r == self.src,
    {
        self.src
    }

    pub fn destination(&self) -> (r: SocketAddr)
        ensures
            r == self.dst,
    {
        self.dst
    }

    pub fn tos(&self) -> (r: Tos)
        ensures
            r == self.tos,
    {
        self.tos
    }

    pub fn set_tos(&mut self, tos: Tos)
        ensures
            final(self).tos == tos,
            final(self).src == old(self).src,
            final(self).dst == old(self).dst,
            final(self).payload@ == old(self).payload@,
    {
        self.tos = tos;
    }

    pub fn ecn(&self) -> (r: Ecn)
        ensures
            r == self.tos.ecn,
    {
        self.tos.ecn
    }

    pub fn len(&self) -> (r: usize)
        ensures
            r == self.payload@.len(),
    {
        self.payload.len()
    }

    pub fn is_empty(&self) -> (r: bool)
        ensures
            r == (self.payload@.len() == 0),
    {
        self.payload.len() == 0
    }

    pub fn payload(&self) -> (r: &Vec<u8>)
        ensures
            r@ == self.payload@,
    {
        &self.payload
    }
}

} // verus!
