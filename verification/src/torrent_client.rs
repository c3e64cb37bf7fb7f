//! The torrent record that every client reports, and the client kinds.
use vstd::prelude::*;
use crate::text::chars_eq;
use crate::text::chars_of;

verus! {

/// A torrent as the clients report it.  The fraction done is a
/// floating-point number; it is carried as the bit pattern of its IEEE-754
/// double (`f64::to_bits`), so `0` is `0.0`.
#[derive(Debug)]
pub struct Torrent {
    pub hash: String,
    pub name: String,
    pub progress_bits: u64,
    pub dlspeed: u64,
    pub state: String,
    pub size: u64,
    pub eta: i64,
    pub category: Option<String>,
    pub save_path: Option<String>,
    pub content_path: Option<String>,
    pub num_seeds: Option<i64>,
    pub num_peers: Option<i64>,
}

/// A torrent as plain values.
pub struct TorrentSpec {
    pub hash: Seq<char>,
    pub name: Seq<char>,
    pub progress_bits: u64,
    pub dlspeed: u64,
    pub state: Seq<char>,
    pub size: u64,
    pub eta: i64,
    pub category: Option<Seq<char>>,
    pub save_path: Option<Seq<char>>,
    pub content_path: Option<Seq<char>>,
    pub num_seeds: Option<i64>,
    pub num_peers: Option<i64>,
}

impl View for Torrent {
    type V = TorrentSpec;

    open spec fn view(&self) -> TorrentSpec {
        TorrentSpec {
            hash: self.hash@,
            name: self.name@,
            progress_bits: self.progress_bits,
            dlspeed: self.dlspeed,
            state: self.state@,
            size: self.size,
            eta: self.eta,
            category: self.category.deep_view(),
            save_path: self.save_path.deep_view(),
            content_path: self.content_path.deep_view(),
            num_seeds: self.num_seeds,
            num_peers: self.num_peers,
        }
    }
}

/// A copy of an optional string.
fn copy_opt(s: &Option<String>) -> (r: Option<String>)
    ensures
        r.deep_view() == s.deep_view(),
{
    match s {
        Some(v) => Some(v.clone()),
        None => None,
    }
}

impl Torrent {
    /// A copy of this torrent.
    pub fn copy(&self) -> (r: Torrent)
        ensures
            r@ == self@,
    {
        Torrent {
            hash: self.hash.clone(),
            name: self.name.clone(),
            progress_bits: self.progress_bits,
            dlspeed: self.dlspeed,
            state: self.state.clone(),
            size: self.size,
            eta: self.eta,
            category: copy_opt(&self.category),
            save_path: copy_opt(&self.save_path),
            content_path: copy_opt(&self.content_path),
            num_seeds: self.num_seeds,
            num_peers: self.num_peers,
        }
    }
}

/// The kinds of torrent client that can be driven.
#[derive(Debug, Clone, Copy, PartialEq, Eq, Structural)]
pub enum ClientKind {
    QBittorrent,
    Transmission,
    Aria2,
}

/// The kind of client that a configured type names: `transmission` and
/// `aria2` name theirs, anything else is qBittorrent.
pub open spec fn client_kind_of(t: Seq<char>) -> ClientKind {
    if t == "transmission"@ {
        ClientKind::Transmission
    } else if t == "aria2"@ {
        ClientKind::Aria2
    } else {
        ClientKind::QBittorrent
    }
}

/// The kind of client that `create_client` builds for a configured type.
pub fn client_kind(client_type: &str) -> (r: ClientKind)
    ensures
        r == client_kind_of(client_type@),
{
    let t = chars_of(client_type);
    let tr = chars_of("transmission");
    let ar = chars_of("aria2");
    if chars_eq(&t, &tr) {
        ClientKind::Transmission
    } else if chars_eq(&t, &ar) {
        ClientKind::Aria2
    } else {
        ClientKind::QBittorrent
    }
}

/// The message of clients that cannot download from a URL.
pub fn add_url_unsupported_message() -> (r: String)
    ensures
        r@ == "Direct URL download is not supported by this client. Try downloading the torrent file first."@,
{
    "Direct URL download is not supported by this client. Try downloading the torrent file first.".to_owned()
}

} // verus!
