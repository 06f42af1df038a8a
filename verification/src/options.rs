//! How a search is to be made.

use vstd::prelude::*;
use crate::addr::{IpAddress, SocketAddress};

verus! {

/// The time that a search may take where none is set, in milliseconds.
pub const DEFAULT_TIMEOUT: u64 = 10_000;

/// The time that a search waits for one reply where none is set, in milliseconds.
pub const RESPONSE_TIMEOUT: u64 = 5_000;

/// What `SearchOptions` hold.
pub ghost struct SearchOptionsView {
    /// The local address that the socket is bound to.
    pub bind_addr: SocketAddress,
    /// The address that the search request is sent to.
    pub broadcast_address: SocketAddress,
    /// The time that the search may take, in milliseconds.
    pub timeout: Option<u64>,
    /// The time that the search waits for one reply, in milliseconds.
    pub single_search_timeout: Option<u64>,
}

/// Gateway search configuration.
///
/// `SearchOptions::default()` should suffice for most situations. Times are
/// in milliseconds.
#[derive(Debug, Clone, Copy)]
pub struct SearchOptions {
    bind_addr: SocketAddress,
    broadcast_address: SocketAddress,
    timeout: Option<u64>,
    single_search_timeout: Option<u64>,
}

impl View for SearchOptions {
    type V = SearchOptionsView;

    closed spec fn view(&self) -> SearchOptionsView {
        SearchOptionsView {
            bind_addr: self.bind_addr,
            broadcast_address: self.broadcast_address,
            timeout: self.timeout,
            single_search_timeout: self.single_search_timeout,
        }
    }
}

/// The options that a search is made with where none are given: any local
/// address and port, the multicast group of the protocol, ten seconds for the
/// search and five for each reply.
pub open spec fn default_options() -> SearchOptionsView {
    SearchOptionsView {
        bind_addr: SocketAddress { ip: IpAddress::V4(0, 0, 0, 0), port: 0 },
        broadcast_address: SocketAddress { ip: IpAddress::V4(239, 255, 255, 250), port: 1900 },
        timeout: Some(DEFAULT_TIMEOUT),
        single_search_timeout: Some(RESPONSE_TIMEOUT),
    }
}

impl SearchOptions {
    /// Set bind address for UDP socket (defaults to all `0.0.0.0`)
    pub fn set_bind_addr(self, bind_addr: SocketAddress) -> (options: Self)
        ensures
            options@ == (SearchOptionsView { bind_addr, ..self@ }),
    {
        SearchOptions { bind_addr, ..self }
    }

    /// Set broadcast address for delivery packets (defaults to `239.255.255.250:1900`)
    pub fn set_broadcast_address(self, broadcast_address: SocketAddress) -> (options: Self)
        ensures
            options@ == (SearchOptionsView { broadcast_address, ..self@ }),
    {
        SearchOptions { broadcast_address, ..self }
    }

    /// Set timeout for a search iteration (defaults to 10s)
    pub fn set_timeout(self, timeout: Option<u64>) -> (options: Self)
        ensures
            options@ == (SearchOptionsView { timeout, ..self@ }),
    {
        SearchOptions { timeout, ..self }
    }

    /// Set timeout for a single search response (defaults to 5s)
    pub fn set_single_search_timeout(self, single_search_timeout: Option<u64>) -> (options: Self)
        ensures
            options@ == (SearchOptionsView { single_search_timeout, ..self@ }),
    {
        SearchOptions { single_search_timeout, ..self }
    }

    /// Bind address for UDP socket (defaults to all `0.0.0.0`)
    pub fn bind_addr(&self) -> (addr: SocketAddress)
        ensures
            addr == self@.bind_addr,
    {
        self.bind_addr
    }

    /// Broadcast address for discovery packets (defaults to `239.255.255.250:1900`)
    pub fn broadcast_address(&self) -> (addr: SocketAddress)
        ensures
            addr == self@.broadcast_address,
    {
        self.broadcast_address
    }

    /// Timeout for a search iteration (defaults to 10s)
    pub fn timeout(&self) -> (timeout: Option<u64>)
        ensures
            timeout == self@.timeout,
    {
        self.timeout
    }

    /// Timeout for a single search response (defaults to 5s)
    pub fn single_search_timeout(&self) -> (timeout: Option<u64>)
        ensures
            timeout == self@.single_search_timeout,
    {
        self.single_search_timeout
    }

    /// Whether the time for one reply, where both times are set, is no
    /// longer than the time for the search.
    pub fn is_consistent(&self) -> (consistent: bool)
        ensures
            consistent == match (self@.timeout, self@.single_search_timeout) {
                (Some(whole), Some(single)) => single <= whole,
                _ => true,
            },
    {
        match (self.timeout, self.single_search_timeout) {
            (Some(whole), Some(single)) => single <= whole,
            _ => true,
        }
    }
}

impl Default for SearchOptions {
    fn default() -> (options: Self)
        ensures
            options@ == default_options(),
    {
        SearchOptions {
            bind_addr: SocketAddress { ip: IpAddress::V4(0, 0, 0, 0), port: 0 },
            broadcast_address: SocketAddress { ip: IpAddress::V4(239, 255, 255, 250), port: 1900 },
            timeout: Some(DEFAULT_TIMEOUT),
            single_search_timeout: Some(RESPONSE_TIMEOUT),
        }
    }
}

} // verus!
