//! The servers this client is connected to at once, keyed by a client-chosen
//! server id, plus which one the UI is viewing. Switching servers only moves
//! `active`; the other sessions stay as they are.

use vstd::prelude::*;
use crate::text::str_eq;

verus! {

/// One connected server. `C` is the transport handle the commands talk through,
/// `E` the handle on this device's MLS engine for that server.
pub struct Session<C, E> {
    /// The connected transport (set by `connect`).
    pub channel: Option<C>,
    /// The endpoint URL this session connected to.
    pub endpoint: Option<String>,
    /// The server's pinned TLS certificate, if any.
    pub cert: Option<String>,
    /// The signed-in user's id on this server.
    pub user_id: Option<String>,
    /// The current access token.
    pub token: Option<String>,
    /// The long-lived refresh token.
    pub refresh_token: Option<String>,
    /// This device's MLS engine for this server (set at sign-in).
    pub engine: Option<E>,
}

impl<C, E> Session<C, E> {
    /// A session with nothing set: not connected, not signed in.
    pub open spec fn blank() -> Self {
        Session {
            channel: None,
            endpoint: None,
            cert: None,
            user_id: None,
            token: None,
            refresh_token: None,
            engine: None,
        }
    }

    /// A session with nothing set.
    pub fn empty() -> (s: Self)
        ensures
            s == Self::blank(),
    {
        Session {
            channel: None,
            endpoint: None,
            cert: None,
            user_id: None,
            token: None,
            refresh_token: None,
            engine: None,
        }
    }
}

/// Whether a session's user is `user`.
pub open spec fn belongs_to<C, E>(s: Session<C, E>, user: Seq<char>) -> bool {
    s.user_id matches Some(u) && u@ == user
}

/// Channel and token of a session, when both are set.
pub open spec fn creds_of<C, E>(s: Session<C, E>) -> Option<(C, Seq<char>)> {
    match (s.channel, s.token) {
        (Some(c), Some(t)) => Some((c, t@)),
        _ => None,
    }
}

/// The first position of `id` among `ids`, or -1.
pub open spec fn position_of(ids: Seq<Seq<char>>, id: Seq<char>) -> int
    decreases ids.len(),
{
    if ids.len() == 0 {
        -1
    } else if position_of(ids.drop_last(), id) >= 0 {
        position_of(ids.drop_last(), id)
    } else if ids.last() == id {
        ids.len() - 1
    } else {
        -1
    }
}

proof fn lemma_position_of(ids: Seq<Seq<char>>, id: Seq<char>)
    ensures
        -1 <= position_of(ids, id) < ids.len(),
        position_of(ids, id) >= 0 ==> ids[position_of(ids, id)] == id,
        position_of(ids, id) >= 0 ==> forall|j: int| 0 <= j < position_of(ids, id) ==> ids[j] != id,
        position_of(ids, id) == -1 <==> !ids.contains(id),
    decreases ids.len(),
{
    if ids.len() > 0 {
        lemma_position_of(ids.drop_last(), id);
        let p = position_of(ids.drop_last(), id);
        if p >= 0 {
            assert(ids.drop_last()[p] == ids[p]);
            assert forall|j: int| 0 <= j < p implies ids[j] != id by {
                assert(ids.drop_last()[j] == ids[j]);
            }
            assert(ids.contains(id));
        } else {
            assert forall|j: int| 0 <= j < ids.len() - 1 implies ids[j] != id by {
                assert(ids.drop_last()[j] == ids[j]);
                assert(!ids.drop_last().contains(id));
            }
            if ids.last() != id {
                assert(!ids.contains(id)) by {
                    if ids.contains(id) {
                        let k = choose|k: int| 0 <= k < ids.len() && ids[k] == id;
                        assert(ids.drop_last()[k] == ids[k]);
                    }
                }
            } else {
                assert(ids[ids.len() - 1] == id);
            }
        }
    }
}

/// The first session among `l` whose user is `user`.
pub open spec fn first_of_user<C, E>(l: Seq<Session<C, E>>, user: Seq<char>) -> Option<Session<C, E>>
    decreases l.len(),
{
    if l.len() == 0 {
        None
    } else if belongs_to(l[0], user) {
        Some(l[0])
    } else {
        first_of_user(l.drop_first(), user)
    }
}

/// All connected servers plus which one the UI is viewing.
pub struct Sessions<C, E> {
    servers: Vec<String>,
    sessions: Vec<Session<C, E>>,
    active: Option<String>,
}

impl<C, E> Sessions<C, E> {
    /// The server ids in the order they were first connected.
    pub closed spec fn ids(&self) -> Seq<Seq<char>> {
        self.servers@.map_values(|s: String| s@)
    }

    /// The sessions, position for position with `ids`.
    pub closed spec fn sessions(&self) -> Seq<Session<C, E>> {
        self.sessions@
    }

    /// The id of the server the UI is viewing, if any.
    pub closed spec fn active_id(&self) -> Option<Seq<char>> {
        match self.active {
            Some(a) => Some(a@),
            None => None,
        }
    }

    /// One session per server id, and no server id twice.
    pub closed spec fn wf(&self) -> bool {
        &&& self.sessions@.len() == self.servers@.len()
        &&& forall|i: int, j: int| 0 <= i < j < self.servers@.len() ==> self.ids()[i] != self.ids()[j]
    }

    /// The session for `id`, if connected.
    pub open spec fn session_of(&self, id: Seq<char>) -> Option<Session<C, E>> {
        let p = position_of(self.ids(), id);
        if p >= 0 {
            Some(self.sessions()[p])
        } else {
            None
        }
    }

    /// The session the UI is viewing, if it is connected.
    pub open spec fn active_session(&self) -> Option<Session<C, E>> {
        match self.active_id() {
            Some(a) => self.session_of(a),
            None => None,
        }
    }

    proof fn lemma_views(&self)
        ensures
            self.ids().len() == self.servers@.len(),
            forall|j: int| 0 <= j < self.servers@.len() ==> #[trigger] self.ids()[j] == self.servers@[j]@,
    {
    }

    /// No servers, none active.
    pub fn new() -> (s: Self)
        ensures
            s.wf(),
            s.ids() == Seq::<Seq<char>>::empty(),
            s.active_id() is None,
    {
        let s = Sessions { servers: Vec::new(), sessions: Vec::new(), active: None };
        assert(s.ids() =~= Seq::<Seq<char>>::empty());
        s
    }

    /// The server id the UI is viewing, if any.
    pub fn active_server(&self) -> (r: Option<&String>)
        ensures
            r matches Some(a) ==> self.active_id() == Some(a@),
            r is None <==> self.active_id() is None,
    {
        match &self.active {
            Some(a) => Some(a),
            None => None,
        }
    }

    /// The position of `id` among the servers, or `None`.
    fn find(&self, id: &str) -> (r: Option<usize>)
        ensures
            r matches Some(i) ==> i < self.servers@.len() && i == position_of(self.ids(), id@),
            r is None ==> position_of(self.ids(), id@) == -1,
    {
        proof {
            lemma_position_of(self.ids(), id@);
            self.lemma_views();
        }
        let mut i: usize = 0;
        while i < self.servers.len()
            invariant
                i <= self.servers@.len(),
                self.ids().len() == self.servers@.len(),
                forall|j: int| 0 <= j < self.servers@.len() ==> #[trigger] self.ids()[j] == self.servers@[j]@,
                forall|j: int| 0 <= j < i ==> self.ids()[j] != id@,
                -1 <= position_of(self.ids(), id@) < self.ids().len(),
                position_of(self.ids(), id@) >= 0 ==> self.ids()[position_of(self.ids(), id@)] == id@,
                position_of(self.ids(), id@) >= 0 ==> forall|j: int|
                    0 <= j < position_of(self.ids(), id@) ==> self.ids()[j] != id@,
                position_of(self.ids(), id@) == -1 <==> !self.ids().contains(id@),
            decreases self.servers@.len() - i,
        {
            if str_eq(self.servers[i].as_str(), id) {
                proof {
                    assert(self.ids()[i as int] == id@);
                    assert(self.ids().contains(id@));
                }
                return Some(i);
            }
            i = i + 1;
        }
        proof {
            if self.ids().contains(id@) {
                let k = choose|k: int| 0 <= k < self.ids().len() && self.ids()[k] == id@;
                assert(self.ids()[k] != id@);
            }
        }
        None
    }

    /// The session the UI is viewing, if any.
    pub fn active(&self) -> (r: Option<&Session<C, E>>)
        requires
            self.wf(),
        ensures
            r matches Some(s) ==> self.active_session() == Some(*s),
            r is None <==> self.active_session() is None,
    {
        match &self.active {
            Some(a) => match self.find(a.as_str()) {
                Some(i) => Some(&self.sessions[i]),
                None => None,
            },
            None => None,
        }
    }

    /// The session for `id`, created empty if absent. The ids stay as they
    /// were, with `id` added at the end if it was new; the active server and
    /// the other sessions are unchanged.
    pub fn entry(&mut self, id: &str) -> (s: &mut Session<C, E>)
        requires
            old(self).wf(),
        ensures
            *s == (match old(self).session_of(id@) {
                Some(x) => x,
                None => Session::blank(),
            }),
            final(self).wf(),
            final(self).active_id() == old(self).active_id(),
            final(self).ids() == (if old(self).ids().contains(id@) {
                old(self).ids()
            } else {
                old(self).ids().push(id@)
            }),
            final(self).session_of(id@) == Some(*final(s)),
            forall|k: Seq<char>| k != id@ ==> final(self).session_of(k) == old(self).session_of(k),
    {
        proof {
            lemma_position_of(self.ids(), id@);
        }
        let ghost ids0 = self.ids();
        let i = match self.find(id) {
            Some(i) => i,
            None => {
                self.servers.push(id.to_string());
                self.sessions.push(Session::empty());
                proof {
                    assert(self.ids() =~= ids0.push(id@));
                    lemma_position_of(self.ids(), id@);
                    assert(self.ids()[ids0.len() as int] == id@);
                    assert forall|a: int, b: int| 0 <= a < b < self.servers@.len() implies self.ids()[a] != self.ids()[b] by {
                        if b == ids0.len() {
                            assert(self.ids()[a] == ids0[a]);
                        } else {
                            assert(self.ids()[a] == ids0[a] && self.ids()[b] == ids0[b]);
                        }
                    }
                    assert forall|k: Seq<char>| k != id@ implies position_of(self.ids(), k) == position_of(ids0, k) by {
                        reveal_with_fuel(position_of, 2);
                        assert(self.ids().drop_last() =~= ids0);
                    }
                }
                self.servers.len() - 1
            },
        };
        proof {
            lemma_position_of(self.ids(), id@);
            self.lemma_views();
            assert(self.ids()[i as int] == id@);
            assert(self.sessions@.len() == self.ids().len());
            assert forall|k: Seq<char>| k != id@ implies self.session_of(k) == old(self).session_of(k)
                && position_of(self.ids(), k) != i as int
                && position_of(self.ids(), k) < self.sessions@.len() by {
                lemma_position_of(self.ids(), k);
                lemma_position_of(ids0, k);
            }
        }
        &mut self.sessions[i]
    }

    /// The active session's channel, if connected.
    pub fn active_channel(&self) -> (r: Option<&C>)
        requires
            self.wf(),
        ensures
            r matches Some(c) ==> self.active_session() matches Some(x) && x.channel == Some(*c),
            r is None <==> (self.active_session() matches Some(x) ==> x.channel is None),
    {
        match self.active() {
            Some(s) => match &s.channel {
                Some(c) => Some(c),
                None => None,
            },
            None => None,
        }
    }

    /// The active session's channel and access token, if signed in.
    pub fn active_channel_token(&self) -> (r: Option<(&C, &String)>)
        requires
            self.wf(),
        ensures
            r matches Some((c, t)) ==> self.active_session() matches Some(x) && creds_of(x) == Some((*c, t@)),
            r is None <==> (self.active_session() matches Some(x) ==> creds_of(x) is None),
    {
        match self.active() {
            Some(s) => match (&s.channel, &s.token) {
                (Some(c), Some(t)) => Some((c, t)),
                _ => None,
            },
            None => None,
        }
    }

    /// Channel and token of the first connected session signed in as `user_id`.
    pub fn creds_for_user(&self, user_id: &str) -> (r: Option<(&C, &String)>)
        requires
            self.wf(),
        ensures
            r matches Some((c, t)) ==> first_of_user(self.sessions(), user_id@) matches Some(x)
                && creds_of(x) == Some((*c, t@)),
            r is None <==> (first_of_user(self.sessions(), user_id@) matches Some(x) ==> creds_of(x) is None),
    {
        let mut i: usize = 0;
        assert(self.sessions@.skip(0) =~= self.sessions@);
        while i < self.sessions.len()
            invariant
                i <= self.sessions@.len(),
                first_of_user(self.sessions(), user_id@) == first_of_user(self.sessions@.skip(i as int), user_id@),
            decreases self.sessions@.len() - i,
        {
            let s = &self.sessions[i];
            proof {
                assert(self.sessions@.skip(i as int)[0] == self.sessions@[i as int]);
                assert(self.sessions@.skip(i as int).drop_first() =~= self.sessions@.skip(i + 1));
            }
            let mine = match &s.user_id {
                Some(u) => str_eq(u.as_str(), user_id),
                None => false,
            };
            if mine {
                return match (&s.channel, &s.token) {
                    (Some(c), Some(t)) => Some((c, t)),
                    _ => None,
                };
            }
            i = i + 1;
        }
        None
    }

    /// The server id the UI is viewing, or an error when none is.
    pub fn active_server_id(&self) -> (r: Result<String, String>)
        ensures
            r matches Ok(a) ==> self.active_id() == Some(a@),
            r matches Err(e) ==> self.active_id() is None && e@ == "not connected to a server"@,
    {
        match &self.active {
            Some(a) => Ok(a.clone()),
            None => Err("not connected to a server".to_string()),
        }
    }

    /// The active session's channel, or an error when not connected.
    pub fn require_channel(&self) -> (r: Result<&C, String>)
        requires
            self.wf(),
        ensures
            r matches Ok(c) ==> self.active_session() matches Some(x) && x.channel == Some(*c),
            r matches Err(e) ==> (self.active_session() matches Some(x) ==> x.channel is None)
                && e@ == "not connected to a server"@,
    {
        match self.active_channel() {
            Some(c) => Ok(c),
            None => Err("not connected to a server".to_string()),
        }
    }

    /// The active session's channel and token, or an error when not signed in.
    pub fn require_session(&self) -> (r: Result<(&C, &String), String>)
        requires
            self.wf(),
        ensures
            r matches Ok((c, t)) ==> self.active_session() matches Some(x) && creds_of(x) == Some((*c, t@)),
            r matches Err(e) ==> (self.active_session() matches Some(x) ==> creds_of(x) is None)
                && e@ == "not connected / not logged in"@,
    {
        match self.active_channel_token() {
            Some(ct) => Ok(ct),
            None => Err("not connected / not logged in".to_string()),
        }
    }

    /// Channel and token of the home server's session, or an error when not
    /// signed in there.
    pub fn home_creds(&self) -> (r: Result<(&C, &String), String>)
        requires
            self.wf(),
        ensures
            r matches Ok((c, t)) ==> self.session_of("home"@) matches Some(x) && creds_of(x) == Some((*c, t@)),
            r matches Err(e) ==> (self.session_of("home"@) matches Some(x) ==> creds_of(x) is None)
                && e@ == "not signed in to your home server"@,
    {
        match self.find("home") {
            Some(i) => match (&self.sessions[i].channel, &self.sessions[i].token) {
                (Some(c), Some(t)) => Ok((c, t)),
                _ => Err("not signed in to your home server".to_string()),
            },
            None => Err("not signed in to your home server".to_string()),
        }
    }

    /// Make `server_id` the one the UI is viewing; an error when not connected
    /// to it. The sessions themselves are untouched either way.
    pub fn set_active_server(&mut self, server_id: String) -> (r: Result<(), String>)
        requires
            old(self).wf(),
        ensures
            final(self).wf(),
            final(self).ids() == old(self).ids(),
            final(self).sessions() == old(self).sessions(),
            r is Ok <==> old(self).ids().contains(server_id@),
            r is Ok ==> final(self).active_id() == Some(server_id@),
            r matches Err(e) ==> final(self).active_id() == old(self).active_id()
                && e@ == "not connected to that server"@,
    {
        proof {
            lemma_position_of(self.ids(), server_id@);
        }
        match self.find(server_id.as_str()) {
            Some(_) => {
                self.active = Some(server_id);
                Ok(())
            },
            None => Err("not connected to that server".to_string()),
        }
    }

    /// Record a new connection to `server_id` and make it the one the UI is
    /// viewing. A session already held for that id keeps its sign-in.
    pub fn connect(&mut self, server_id: String, channel: C, endpoint: String, cert: Option<String>)
        requires
            old(self).wf(),
        ensures
            final(self).wf(),
            final(self).active_id() == Some(server_id@),
            final(self).ids() == (if old(self).ids().contains(server_id@) {
                old(self).ids()
            } else {
                old(self).ids().push(server_id@)
            }),
            final(self).session_of(server_id@) == Some({
                let prior = match old(self).session_of(server_id@) {
                    Some(x) => x,
                    None => Session::blank(),
                };
                Session { channel: Some(channel), endpoint: Some(endpoint), cert: cert, ..prior }
            }),
            forall|k: Seq<char>| k != server_id@ ==> final(self).session_of(k) == old(self).session_of(k),
    {
        let s = self.entry(server_id.as_str());
        s.channel = Some(channel);
        s.endpoint = Some(endpoint);
        s.cert = cert;
        self.active = Some(server_id);
    }

    /// Put a fresh sign-in, with the MLS engine it set up, on the session the
    /// UI is viewing and give back its server id; an error when no server is
    /// active.
    pub fn sign_in_active(&mut self, user_id: String, token: String, refresh_token: String, engine: E) -> (r: Result<String, String>)
        requires
            old(self).wf(),
        ensures
            final(self).wf(),
            final(self).active_id() == old(self).active_id(),
            r is Ok <==> old(self).active_id() is Some,
            r matches Ok(id) ==> old(self).active_id() == Some(id@),
            r matches Err(e) ==> e@ == "not connected"@ && *final(self) == *old(self),
            r is Ok ==> final(self).ids() == old(self).ids(),
            r matches Ok(id) ==> final(self).session_of(id@) == (match old(self).session_of(id@) {
                Some(x) => Some(Session {
                    user_id: Some(user_id),
                    token: Some(token),
                    refresh_token: Some(refresh_token),
                    engine: Some(engine),
                    ..x
                }),
                None => None,
            }),
            r matches Ok(id) ==> forall|k: Seq<char>| k != id@ ==> final(self).session_of(k) == old(self).session_of(k),
    {
        let id = match &self.active {
            Some(a) => a.clone(),
            None => return Err("not connected".to_string()),
        };
        proof {
            lemma_position_of(self.ids(), id@);
        }
        if self.find(id.as_str()).is_some() {
            let s = self.entry(id.as_str());
            s.user_id = Some(user_id);
            s.token = Some(token);
            s.refresh_token = Some(refresh_token);
            s.engine = Some(engine);
        }
        Ok(id)
    }

    /// The access token held for `server_id`, if any.
    pub fn current_token(&self, server_id: &str) -> (r: Option<&String>)
        requires
            self.wf(),
        ensures
            r matches Some(t) ==> self.session_of(server_id@) matches Some(x) && x.token == Some(*t),
            r is None <==> (self.session_of(server_id@) matches Some(x) ==> x.token is None),
    {
        match self.find(server_id) {
            Some(i) => match &self.sessions[i].token {
                Some(t) => Some(t),
                None => None,
            },
            None => None,
        }
    }

    /// The refresh token held for `server_id`, if any.
    pub fn refresh_token_of(&self, server_id: &str) -> (r: Option<&String>)
        requires
            self.wf(),
        ensures
            r matches Some(t) ==> self.session_of(server_id@) matches Some(x) && x.refresh_token == Some(*t),
            r is None <==> (self.session_of(server_id@) matches Some(x) ==> x.refresh_token is None),
    {
        match self.find(server_id) {
            Some(i) => match &self.sessions[i].refresh_token {
                Some(t) => Some(t),
                None => None,
            },
            None => None,
        }
    }

    /// Store what a token refresh for `server_id` gave back: the new access
    /// token, and the rotated refresh token unless the server sent none. A
    /// server no longer connected is left alone.
    pub fn store_refreshed(&mut self, server_id: &str, access_token: String, refresh_token: String)
        requires
            old(self).wf(),
        ensures
            final(self).wf(),
            final(self).ids() == old(self).ids(),
            final(self).active_id() == old(self).active_id(),
            final(self).session_of(server_id@) == (match old(self).session_of(server_id@) {
                Some(x) => Some(Session {
                    token: Some(access_token),
                    refresh_token: if refresh_token@.len() > 0 { Some(refresh_token) } else { x.refresh_token },
                    ..x
                }),
                None => None,
            }),
            forall|k: Seq<char>| k != server_id@ ==> final(self).session_of(k) == old(self).session_of(k),
    {
        proof {
            lemma_position_of(self.ids(), server_id@);
        }
        if self.find(server_id).is_some() {
            let keep = refresh_token.as_str().is_empty();
            let s = self.entry(server_id);
            s.token = Some(access_token);
            if !keep {
                s.refresh_token = Some(refresh_token);
            }
        }
    }

    /// Register a session already signed in on `server_id` (such as a guest
    /// session on a contact's host). It becomes the one the UI views only when
    /// `make_active`: a background reconnect never takes the view.
    pub fn register_signed_in(
        &mut self,
        server_id: String,
        channel: C,
        endpoint: String,
        cert: Option<String>,
        user_id: String,
        token: String,
        refresh_token: String,
        engine: E,
        make_active: bool,
    )
        requires
            old(self).wf(),
        ensures
            final(self).wf(),
            final(self).active_id() == (if make_active {
                Some(server_id@)
            } else {
                old(self).active_id()
            }),
            final(self).ids() == (if old(self).ids().contains(server_id@) {
                old(self).ids()
            } else {
                old(self).ids().push(server_id@)
            }),
            final(self).session_of(server_id@) == Some(Session {
                channel: Some(channel),
                endpoint: Some(endpoint),
                cert: cert,
                user_id: Some(user_id),
                token: Some(token),
                refresh_token: Some(refresh_token),
                engine: Some(engine),
            }),
            forall|k: Seq<char>| k != server_id@ ==> final(self).session_of(k) == old(self).session_of(k),
    {
        let s = self.entry(server_id.as_str());
        s.channel = Some(channel);
        s.endpoint = Some(endpoint);
        s.cert = cert;
        s.user_id = Some(user_id);
        s.token = Some(token);
        s.refresh_token = Some(refresh_token);
        s.engine = Some(engine);
        if make_active {
            self.active = Some(server_id);
        }
    }
}

} // verus!
