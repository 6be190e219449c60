//! Local client settings and their update rules.
//!
//! `encrypt_at_rest`: whether to encrypt the user's own local data at rest
//! (off by default; received messages are always encrypted).
//! `friend_request_policy`: who may send the user a friend request.

use vstd::prelude::*;
use crate::strset::views;

verus! {

/// A rendezvous / mailbox node the user routes DMs through. `mine` marks the
/// user's own (or trusted) node.
#[derive(Debug, Clone, PartialEq, Eq)]
pub struct RendezvousNode {
    pub url: String,
    pub label: String,
    pub mine: bool,
}

/// Which Yggdrasil peers the mesh connects through.
#[derive(Debug, Clone, Copy, PartialEq, Eq, Structural)]
pub enum YggPeerMode {
    /// Peers hosted by the project.
    Authorized,
    /// Peers the user hosts themselves.
    Private,
    /// Community peers from the official public-peers lists (default).
    Public,
}

/// Who may send this user a friend request.
#[derive(Debug, Clone, Copy, PartialEq, Eq, Structural)]
pub enum FriendRequestPolicy {
    /// Anyone with the user's code can request (default).
    Everyone,
    /// Only people who share a tavern with the user.
    TavernMembers,
    /// Only friends of the user's friends.
    FriendsOfFriends,
    /// No one: the user can only add others, not be added.
    NoOne,
}

/// Default number of taverns this client will host at once.
pub const DEFAULT_MAX_HOSTED_TAVERNS: u32 = 16;

/// The default cap on hosted taverns.
pub fn default_max_hosted_taverns() -> (n: u32)
    ensures
        n == DEFAULT_MAX_HOSTED_TAVERNS,
{
    DEFAULT_MAX_HOSTED_TAVERNS
}

/// The cap the user asked for, clamped to `1..=200`.
pub open spec fn clamp_hosted_spec(max: u32) -> u32 {
    if max < 1 { 1 } else if max > 200 { 200 } else { max }
}

/// Persisted client settings.
#[derive(Debug, Clone)]
pub struct Settings {
    /// Encrypt the user's own messages at rest (received ones always are).
    pub encrypt_at_rest: bool,
    /// Who may send a friend request.
    pub friend_request_policy: FriendRequestPolicy,
    /// Run the Yggdrasil mesh node on launch.
    pub mesh_enabled: bool,
    /// The rendezvous / mailbox node to route DMs through, if any.
    pub rendezvous_node: Option<RendezvousNode>,
    /// Which Yggdrasil peers to connect through.
    pub ygg_peer_mode: YggPeerMode,
    /// User-hosted peer URIs (used in `Private` mode).
    pub ygg_private_peers: Vec<String>,
    /// Max number of taverns hosted at once (each uses a port from 50052 up).
    pub max_hosted_taverns: u32,
}

impl Default for Settings {
    fn default() -> (s: Self)
        ensures
            !s.encrypt_at_rest,
            s.friend_request_policy == FriendRequestPolicy::Everyone,
            !s.mesh_enabled,
            s.rendezvous_node is None,
            s.ygg_peer_mode == YggPeerMode::Public,
            s.ygg_private_peers@.len() == 0,
            s.max_hosted_taverns == DEFAULT_MAX_HOSTED_TAVERNS,
    {
        Settings {
            encrypt_at_rest: false,
            friend_request_policy: FriendRequestPolicy::Everyone,
            mesh_enabled: false,
            rendezvous_node: None,
            ygg_peer_mode: YggPeerMode::Public,
            ygg_private_peers: Vec::new(),
            max_hosted_taverns: DEFAULT_MAX_HOSTED_TAVERNS,
        }
    }
}

impl Settings {
    /// Snapshot of the Yggdrasil peer config (mode + private peers).
    pub fn ygg_config(&self) -> (r: (YggPeerMode, Vec<String>))
        ensures
            r.0 == self.ygg_peer_mode,
            views(r.1@) == views(self.ygg_private_peers@),
    {
        let mut peers: Vec<String> = Vec::new();
        let mut k: usize = 0;
        while k < self.ygg_private_peers.len()
            invariant
                k <= self.ygg_private_peers@.len(),
                views(peers@) == views(self.ygg_private_peers@).take(k as int),
            decreases self.ygg_private_peers@.len() - k,
        {
            let ghost before = views(peers@);
            let item = self.ygg_private_peers[k].clone();
            assert(item@ == self.ygg_private_peers@[k as int]@);
            peers.push(item);
            assert(views(peers@) =~= before.push(item@));
            assert(views(self.ygg_private_peers@).take(k + 1) =~= views(self.ygg_private_peers@).take(k as int).push(item@));
            k = k + 1;
        }
        assert(views(self.ygg_private_peers@).take(k as int) =~= views(self.ygg_private_peers@));
        (self.ygg_peer_mode, peers)
    }

    /// Set the Yggdrasil peer config; everything else is unchanged.
    pub fn store_ygg_config(&mut self, mode: YggPeerMode, private_peers: Vec<String>)
        ensures
            final(self).ygg_peer_mode == mode,
            final(self).ygg_private_peers == private_peers,
            final(self).encrypt_at_rest == old(self).encrypt_at_rest,
            final(self).friend_request_policy == old(self).friend_request_policy,
            final(self).mesh_enabled == old(self).mesh_enabled,
            final(self).rendezvous_node == old(self).rendezvous_node,
            final(self).max_hosted_taverns == old(self).max_hosted_taverns,
    {
        self.ygg_peer_mode = mode;
        self.ygg_private_peers = private_peers;
    }

    /// Set the mesh-enabled preference; everything else is unchanged.
    pub fn store_mesh_enabled(&mut self, enabled: bool)
        ensures
            *final(self) == (Settings { mesh_enabled: enabled, ..*old(self) }),
    {
        self.mesh_enabled = enabled;
    }

    /// Toggle "encrypt my own data at rest"; everything else is unchanged.
    pub fn set_encrypt_at_rest(&mut self, enabled: bool)
        ensures
            *final(self) == (Settings { encrypt_at_rest: enabled, ..*old(self) }),
    {
        self.encrypt_at_rest = enabled;
    }

    /// Set who may send a friend request; everything else is unchanged.
    pub fn set_friend_request_policy(&mut self, policy: FriendRequestPolicy)
        ensures
            *final(self) == (Settings { friend_request_policy: policy, ..*old(self) }),
    {
        self.friend_request_policy = policy;
    }

    /// Set the hosted-tavern cap, clamped to `1..=200`; everything else is
    /// unchanged.
    pub fn set_max_hosted_taverns(&mut self, max: u32)
        ensures
            *final(self) == (Settings { max_hosted_taverns: clamp_hosted_spec(max), ..*old(self) }),
    {
        let clamped = if max < 1 { 1 } else if max > 200 { 200 } else { max };
        self.max_hosted_taverns = clamped;
    }

    /// Set (or clear) the rendezvous node; everything else is unchanged.
    pub fn set_rendezvous_node(&mut self, node: Option<RendezvousNode>)
        ensures
            *final(self) == (Settings { rendezvous_node: node, ..*old(self) }),
    {
        self.rendezvous_node = node;
    }
}

} // verus!
