//! The numbers by which requests, transfers and searches are told apart.
use vstd::prelude::*;

verus! {

/// Our own number for a download.
#[derive(Debug, Clone, Copy, PartialEq, Eq, Hash, Structural)]
pub struct DownloadToken(pub u32);

/// The number of a search.
#[derive(Debug, Clone, Copy, PartialEq, Eq, Hash, Structural)]
pub struct SearchToken(pub u32);

/// The number by which a firewalled peer is asked to connect back.
#[derive(Debug, Clone, Copy, PartialEq, Eq, Hash, Structural)]
pub struct PierceToken(pub u32);

/// The number a peer gives to a transfer.
#[derive(Debug, Clone, Copy, PartialEq, Eq, Hash, Structural)]
pub struct PeerTransferToken(pub u32);

} // verus!
