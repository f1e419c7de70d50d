//! The server-side session dispatcher.
//!
//! One reader consumes datagrams; each decoded message is routed to the
//! session of its (peer, hash) pair, creating a receiver session for a hash
//! first seen, bounding how many sessions run at once, and disposing of a
//! session when it reaches its terminal phase. Sessions are isolated:
//! routing a message to one pair never touches the session of another.

use vstd::prelude::*;

use crate::machine::{
    acts_view, fresh_receiver, fresh_sender, on_ack_spec, on_chunk_spec,
    on_done_spec, on_export_spec, on_nak_spec, on_sync_nack_spec, on_sync_spec, on_timeout_spec,
    Action, ActionView, Phase, Role, Session, SessionView, MAX_STRIKES,
};
use crate::message::{str_to_string, Message, MessageView};
use crate::storage::{clone_string, contains_hash, lookup, lookup_or_empty, Storage};
use crate::store::StoreView;

verus! {

/// One live session and the peer it talks to.
struct SessionEntry {
    peer: String,
    session: Session,
}

/// The dispatcher: the live sessions of one server socket.
pub struct Dispatcher {
    sessions: Vec<SessionEntry>,
    limit: usize,
}

/// Some live session belongs to this (peer, hash) pair.
pub open spec fn contains_session(
    s: Seq<(Seq<char>, SessionView)>,
    p: Seq<char>,
    h: Seq<char>,
) -> bool {
    exists|i: int| 0 <= i < s.len() && s[i].0 == p && s[i].1.hash == h
}

/// The position of the (peer, hash) pair's session (unique in a well-formed
/// dispatcher).
pub open spec fn session_index(s: Seq<(Seq<char>, SessionView)>, p: Seq<char>, h: Seq<char>) -> int {
    choose|i: int| 0 <= i < s.len() && s[i].0 == p && s[i].1.hash == h
}

/// The (peer, hash) pair's session, if one is live.
pub open spec fn lookup_session(
    s: Seq<(Seq<char>, SessionView)>,
    p: Seq<char>,
    h: Seq<char>,
) -> Option<SessionView> {
    if contains_session(s, p, h) {
        Some(s[session_index(s, p, h)].1)
    } else {
        None
    }
}

/// The hash a message is routed by; an import request has none.
pub open spec fn route_key(m: MessageView) -> Option<Seq<char>> {
    match m {
        MessageView::Sync { hash, .. } => Some(hash),
        MessageView::SyncNack { hash, .. } => Some(hash),
        MessageView::Chunk { hash, .. } => Some(hash),
        MessageView::Ack { hash } => Some(hash),
        MessageView::Nak { hash, .. } => Some(hash),
        MessageView::Import { .. } => None,
        MessageView::Export { hash, .. } => Some(hash),
        MessageView::Done { hash } => Some(hash),
    }
}

/// What routing one message to one session does: the session's own
/// transition, role-guarded, with the hash's store alongside and the
/// replies the step yields.
pub open spec fn step_spec(s: SessionView, known: bool, st: StoreView, m: MessageView) -> (
    SessionView,
    StoreView,
    Seq<ActionView>,
) {
    match m {
        MessageView::Sync { num_chunks, .. } => {
            let r = on_sync_spec(s, st, num_chunks);
            (r.0, st, r.1)
        },
        MessageView::SyncNack { missing, .. } => if s.role == Role::Sender {
            let r = on_sync_nack_spec(s, known, st, missing);
            (r.0, st, r.1)
        } else {
            (s, st, Seq::empty())
        },
        MessageView::Chunk { index, bytes, .. } => on_chunk_spec(s, st, index, bytes),
        MessageView::Ack { .. } => {
            let r = on_ack_spec(s);
            (r.0, st, r.1)
        },
        MessageView::Nak { reason, .. } => {
            let r = on_nak_spec(s, reason);
            (r.0, st, r.1)
        },
        MessageView::Export { path, mode, .. } => {
            let r = on_export_spec(s, st, path, mode);
            (r.0, st, r.1)
        },
        MessageView::Done { .. } => if s.role == Role::Sender {
            let r = on_done_spec(s);
            (r.0, st, r.1)
        } else {
            (s, st, Seq::empty())
        },
        MessageView::Import { .. } => (s, st, Seq::empty()),
    }
}

impl View for Dispatcher {
    type V = Seq<(Seq<char>, SessionView)>;

    closed spec fn view(&self) -> Seq<(Seq<char>, SessionView)> {
        Seq::new(
            self.sessions@.len(),
            |i: int| (self.sessions@[i].peer@, self.sessions@[i].session@),
        )
    }
}

impl Dispatcher {
    /// Every pair owns at most one session, no session lingers past its
    /// terminal phase, and none has used up its timeout budget.
    pub open spec fn wf(&self) -> bool {
        &&& forall|i: int, j: int|
            0 <= i < j < self@.len() ==> !(self@[i].0 == self@[j].0 && self@[i].1.hash
                == self@[j].1.hash)
        &&& forall|i: int| 0 <= i < self@.len() ==> self@[i].1.phase != Phase::Terminal
        &&& forall|i: int| 0 <= i < self@.len() ==> self@[i].1.strikes < MAX_STRIKES
    }

    /// How many sessions may run at once.
    pub closed spec fn cap(&self) -> nat {
        self.limit as nat
    }

    /// A dispatcher with no live session and the given session bound.
    pub fn new(limit: usize) -> (r: Self)
        ensures
            r@ == Seq::<(Seq<char>, SessionView)>::empty(),
            r.wf(),
            r.cap() == limit,
    {
        let r = Dispatcher { sessions: Vec::new(), limit };
        proof {
            assert(r@ =~= Seq::<(Seq<char>, SessionView)>::empty());
        }
        r
    }

    /// The position of the (peer, hash) pair's session, if one is live.
    fn find(&self, peer: &String, hash: &String) -> (r: Option<usize>)
        ensures
            r matches Some(i) ==> i < self@.len() && self@[i as int].0 == peer@
                && self@[i as int].1.hash == hash@,
            r is None ==> !contains_session(self@, peer@, hash@),
    {
        let mut i: usize = 0;
        while i < self.sessions.len()
            invariant
                i <= self@.len(),
                forall|j: int|
                    0 <= j < i ==> !(self@[j].0 == peer@ && self@[j].1.hash == hash@),
            decreases self@.len() - i,
        {
            if self.sessions[i].peer == *peer && self.sessions[i].session.hash == *hash {
                return Some(i);
            }
            i = i + 1;
        }
        None
    }

    /// Steps the session at `i` with the message, then disposes of it if it
    /// reached its terminal phase.
    fn step_at(&mut self, store: &mut Storage, i: usize, msg: Message) -> (acts: Vec<Action>)
        requires
            old(self).wf(),
            old(store).wf(),
            i < old(self)@.len(),
        ensures
            final(self).wf(),
            final(store).wf(),
            final(self).cap() == old(self).cap(),
            forall|p: Seq<char>, h: Seq<char>|
                !(p == old(self)@[i as int].0 && h == old(self)@[i as int].1.hash)
                    ==> lookup_session(final(self)@, p, h) == lookup_session(old(self)@, p, h),
            forall|g: Seq<char>|
                g != old(self)@[i as int].1.hash ==> lookup(final(store)@, g) == lookup(
                    old(store)@,
                    g,
                ),
            ({
                let pre = old(self)@[i as int];
                let r = step_spec(
                    pre.1,
                    contains_hash(old(store)@, pre.1.hash),
                    lookup_or_empty(old(store)@, pre.1.hash),
                    msg@,
                );
                lookup_session(final(self)@, pre.0, pre.1.hash) == (
                if r.0.phase == Phase::Terminal {
                    None::<SessionView>
                } else {
                    Some(r.0)
                }) && lookup_or_empty(final(store)@, pre.1.hash) == r.1 && acts_view(acts@) == r.2
            }),
    {
        let ghost pre = self@;
        let entry = &mut self.sessions[i];
        let acts = match msg {
            Message::Sync { hash: _, num_chunks } => entry.session.on_sync(store, num_chunks),
            Message::SyncNack { hash: _, missing } => {
                match entry.session.role {
                    Role::Sender => entry.session.on_sync_nack(store, &missing),
                    Role::Receiver => Vec::new(),
                }
            },
            Message::Chunk { hash: _, index, bytes } => entry.session.on_chunk(
                store,
                index,
                bytes,
            ),
            Message::Ack { hash: _ } => entry.session.on_ack(),
            Message::Nak { hash: _, reason } => entry.session.on_nak(&reason),
            Message::Export { hash: _, path, mode } => entry.session.on_export(store, path, mode),
            Message::Done { hash: _ } => {
                match entry.session.role {
                    Role::Sender => entry.session.on_done(),
                    Role::Receiver => Vec::new(),
                }
            },
            Message::Import { path: _ } => Vec::new(),
        };
        proof {
            assert(self@ =~= pre.update(i as int, (pre[i as int].0, self@[i as int].1)));
            lemma_update_session(pre, self@, i as int);
        }
        let done = match self.sessions[i].session.phase {
            Phase::Terminal => true,
            _ => false,
        };
        if done {
            let ghost mid = self@;
            let _ = self.sessions.remove(i);
            proof {
                assert(self@ =~= mid.remove(i as int));
                lemma_remove_session(mid, self@, i as int);
            }
        }
        acts
    }

    /// Routes one decoded message: an import request asks the caller to
    /// stage the file, any other message reaches its (peer, hash) session,
    /// created on first sight as a receiver when the bound allows and
    /// refused with a busy `nak` otherwise; a gap list for an unknown hash
    /// is refused with an unknown-hash `nak`. Sessions of every other pair
    /// are untouched.
    pub fn route(&mut self, store: &mut Storage, peer: &String, msg: Message) -> (acts: Vec<
        Action,
    >)
        requires
            old(self).wf(),
            old(store).wf(),
        ensures
            final(self).wf(),
            final(store).wf(),
            final(self).cap() == old(self).cap(),
            forall|p: Seq<char>, h: Seq<char>|
                !(p == peer@ && route_key(msg@) == Some(h)) ==> lookup_session(final(self)@, p, h)
                    == lookup_session(old(self)@, p, h),
            forall|g: Seq<char>|
                route_key(msg@) != Some(g) ==> crate::storage::lookup(final(store)@, g)
                    == crate::storage::lookup(old(store)@, g),
            msg@ matches MessageView::Import { path } ==> final(self)@ == old(
                self,
            )@ && final(store)@ == old(store)@ && acts_view(acts@) == seq![
                ActionView::StageFile { path },
            ],
            msg@ matches MessageView::SyncNack { hash, missing } ==> (
            !contains_session(old(self)@, peer@, hash) ==> final(self)@ == old(self)@
                && final(store)@ == old(store)@ && acts_view(acts@) == seq![
                ActionView::Send(
                    MessageView::Nak {
                        hash,
                        reason: crate::errors::ProtocolError::UnknownHash.spec_message(),
                    },
                ),
            ]),
            ({
                match route_key(msg@) {
                    Some(h) => (!(msg@ is SyncNack) && !(msg@ is Import) && !contains_session(
                        old(self)@,
                        peer@,
                        h,
                    ) && old(self)@.len() >= old(self).cap()) ==> final(self)@ == old(self)@
                        && final(store)@ == old(store)@ && acts_view(acts@) == seq![
                        ActionView::Send(MessageView::Nak { hash: h, reason: "busy"@ }),
                    ],
                    None => true,
                }
            }),
            ({
                match route_key(msg@) {
                    Some(h) => {
                        let pre_sess = match lookup_session(old(self)@, peer@, h) {
                            Some(s) => s,
                            None => fresh_receiver(h),
                        };
                        let r = step_spec(
                            pre_sess,
                            contains_hash(old(store)@, h),
                            lookup_or_empty(old(store)@, h),
                            msg@,
                        );
                        (contains_session(old(self)@, peer@, h) || (!(msg@ is SyncNack) && old(
                            self,
                        )@.len() < old(self).cap())) ==> (lookup_session(final(self)@, peer@, h)
                            == (if r.0.phase == Phase::Terminal {
                            None::<SessionView>
                        } else {
                            Some(r.0)
                        }) && lookup_or_empty(final(store)@, h) == r.1 && acts_view(acts@) == r.2)
                    },
                    None => true,
                }
            }),
    {
        let hash = match &msg {
            Message::Import { path } => {
                let mut acts: Vec<Action> = Vec::new();
                acts.push(Action::StageFile { path: clone_string(path) });
                return acts;
            },
            Message::Sync { hash, .. } => clone_string(hash),
            Message::SyncNack { hash, .. } => clone_string(hash),
            Message::Chunk { hash, .. } => clone_string(hash),
            Message::Ack { hash } => clone_string(hash),
            Message::Nak { hash, .. } => clone_string(hash),
            Message::Export { hash, .. } => clone_string(hash),
            Message::Done { hash } => clone_string(hash),
        };
        proof {
            assert(route_key(msg@) == Some(hash@));
        }
        match self.find(peer, &hash) {
            Some(i) => {
                proof {
                    lemma_session_at(self@, i as int);
                }
                self.step_at(store, i, msg)
            },
            None => {
                let nack_for_unknown = match &msg {
                    Message::SyncNack { .. } => true,
                    _ => false,
                };
                if nack_for_unknown {
                    let mut acts: Vec<Action> = Vec::new();
                    acts.push(
                        Action::Send(
                            Message::Nak {
                                hash,
                                reason: crate::machine::error_reason(
                                    crate::errors::ProtocolError::UnknownHash,
                                ),
                            },
                        ),
                    );
                    return acts;
                }
                if self.sessions.len() >= self.limit {
                    let mut acts: Vec<Action> = Vec::new();
                    acts.push(
                        Action::Send(Message::Nak { hash, reason: str_to_string("busy") }),
                    );
                    return acts;
                }
                let ghost pre = self@;
                let session = Session::new_receiver(hash);
                self.sessions.push(SessionEntry { peer: clone_string(peer), session });
                proof {
                    assert(self@ =~= pre.push((peer@, self@[pre.len() as int].1)));
                    lemma_push_session(pre, self@);
                }
                let i = self.sessions.len() - 1;
                self.step_at(store, i, msg)
            },
        }
    }

    /// A receive deadline expired for the (peer, hash) session: step its
    /// timeout, disposing of it when it gives up. Other pairs are untouched.
    pub fn timeout(&mut self, store: &Storage, peer: &String, hash: &String) -> (acts: Vec<
        Action,
    >)
        requires
            old(self).wf(),
            store.wf(),
        ensures
            final(self).wf(),
            final(self).cap() == old(self).cap(),
            forall|p: Seq<char>, h: Seq<char>|
                !(p == peer@ && h == hash@) ==> lookup_session(final(self)@, p, h)
                    == lookup_session(old(self)@, p, h),
            ({
                match lookup_session(old(self)@, peer@, hash@) {
                    Some(sess) => {
                        let r = on_timeout_spec(sess, lookup_or_empty(store@, hash@));
                        lookup_session(final(self)@, peer@, hash@) == (
                        if r.0.phase == Phase::Terminal {
                            None::<SessionView>
                        } else {
                            Some(r.0)
                        }) && acts_view(acts@) == r.1
                    },
                    None => final(self)@ == old(self)@ && acts@.len() == 0,
                }
            }),
    {
        match self.find(peer, hash) {
            Some(i) => {
                let ghost pre = self@;
                proof {
                    lemma_session_at(pre, i as int);
                }
                let entry = &mut self.sessions[i];
                let acts = entry.session.on_timeout(store);
                proof {
                    assert(self@ =~= pre.update(i as int, (pre[i as int].0, self@[i as int].1)));
                    lemma_update_session(pre, self@, i as int);
                }
                let done = match self.sessions[i].session.phase {
                    Phase::Terminal => true,
                    _ => false,
                };
                if done {
                    let ghost mid = self@;
                    let _ = self.sessions.remove(i);
                    proof {
                        assert(self@ =~= mid.remove(i as int));
                        lemma_remove_session(mid, self@, i as int);
                    }
                }
                acts
            },
            None => Vec::new(),
        }
    }

    /// A local shutdown: cancel every live session and collect the `nak`s
    /// to send.
    pub fn cancel_all(&mut self) -> (acts: Vec<Action>)
        requires
            old(self).wf(),
        ensures
            final(self).wf(),
            final(self)@.len() == 0,
            final(self).cap() == old(self).cap(),
            acts_view(acts@) == Seq::new(
                old(self)@.len(),
                |k: int|
                    ActionView::Send(
                        MessageView::Nak {
                            hash: old(self)@[old(self)@.len() - 1 - k].1.hash,
                            reason: crate::errors::ProtocolError::Cancelled.spec_message(),
                        },
                    ),
            ),
    {
        let ghost whole = old(self)@;
        let mut acts: Vec<Action> = Vec::new();
        while self.sessions.len() > 0
            invariant
                self.wf(),
                self.cap() == old(self).cap(),
                self@.len() <= whole.len(),
                self@ == whole.take(self@.len() as int),
                acts_view(acts@) == Seq::new(
                    (whole.len() - self@.len()) as nat,
                    |k: int|
                        ActionView::Send(
                            MessageView::Nak {
                                hash: whole[whole.len() - 1 - k].1.hash,
                                reason: crate::errors::ProtocolError::Cancelled.spec_message(),
                            },
                        ),
                ),
            decreases self.sessions@.len(),
        {
            let ghost pre = self@;
            let i = self.sessions.len() - 1;
            let entry = &mut self.sessions[i];
            let mut more = entry.session.cancel();
            let ghost acts_pre = acts@;
            let ghost more_pre = more@;
            acts.append(&mut more);
            proof {
                assert(self@ =~= pre.update(i as int, (pre[i as int].0, self@[i as int].1)));
            }
            let ghost mid = self@;
            let _ = self.sessions.remove(i);
            proof {
                assert(self@ =~= mid.remove(i as int));
                assert(self@ =~= whole.take(self@.len() as int));
                assert forall|p: int, q: int|
                    0 <= p < q < self@.len() implies !(self@[p].0 == self@[q].0 && self@[p].1.hash
                    == self@[q].1.hash) by {
                    assert(mid[p] == self@[p] && mid[q] == self@[q]);
                }
                assert(pre[i as int].1 == whole[i as int].1);
                assert(acts_view(acts@) =~= acts_view(acts_pre) + acts_view(more_pre));
                assert(acts_view(acts@) =~= Seq::new(
                    (whole.len() - self@.len()) as nat,
                    |k: int|
                        ActionView::Send(
                            MessageView::Nak {
                                hash: whole[whole.len() - 1 - k].1.hash,
                                reason: crate::errors::ProtocolError::Cancelled.spec_message(),
                            },
                        ),
                ));
            }
        }
        proof {
            assert(self@.len() == 0);
            assert(acts_view(acts@) =~= Seq::new(
                whole.len(),
                |k: int|
                    ActionView::Send(
                        MessageView::Nak {
                            hash: whole[whole.len() - 1 - k].1.hash,
                            reason: crate::errors::ProtocolError::Cancelled.spec_message(),
                        },
                    ),
            ));
        }
        acts
    }

    /// After staging a file for an import request, open the sender session
    /// that pushes it to the requesting peer and announce the transfer.
    pub fn announce(&mut self, peer: &String, hash: &String, num_chunks: u32) -> (acts: Vec<
        Action,
    >)
        requires
            old(self).wf(),
        ensures
            final(self).wf(),
            final(self).cap() == old(self).cap(),
            forall|p: Seq<char>, h: Seq<char>|
                !(p == peer@ && h == hash@) ==> lookup_session(final(self)@, p, h)
                    == lookup_session(old(self)@, p, h),
            lookup_session(final(self)@, peer@, hash@) == Some(
                fresh_sender(hash@, num_chunks, None),
            ),
            acts_view(acts@) == seq![
                ActionView::Send(MessageView::Sync { hash: hash@, num_chunks }),
            ],
    {
        let (session, acts) = Session::new_sender(clone_string(hash), num_chunks, None);
        match self.find(peer, hash) {
            Some(i) => {
                let ghost pre = self@;
                self.sessions[i].session = session;
                proof {
                    assert(self@ =~= pre.update(i as int, (pre[i as int].0, self@[i as int].1)));
                    lemma_update_session(pre, self@, i as int);
                }
                acts
            },
            None => {
                let ghost pre = self@;
                self.sessions.push(SessionEntry { peer: clone_string(peer), session });
                proof {
                    assert(self@ =~= pre.push((peer@, self@[pre.len() as int].1)));
                    lemma_push_session(pre, self@);
                }
                acts
            },
        }
    }
}

/// An entry of a well-formed dispatcher is the one its pair's lookup finds.
proof fn lemma_session_at(s: Seq<(Seq<char>, SessionView)>, i: int)
    requires
        0 <= i < s.len(),
        forall|p: int, q: int|
            0 <= p < q < s.len() ==> !(s[p].0 == s[q].0 && s[p].1.hash == s[q].1.hash),
    ensures
        contains_session(s, s[i].0, s[i].1.hash),
        session_index(s, s[i].0, s[i].1.hash) == i,
        lookup_session(s, s[i].0, s[i].1.hash) == Some(s[i].1),
{
    assert(contains_session(s, s[i].0, s[i].1.hash));
    let j = session_index(s, s[i].0, s[i].1.hash);
    if i < j {
        assert(!(s[i].0 == s[j].0 && s[i].1.hash == s[j].1.hash));
    } else if j < i {
        assert(!(s[j].0 == s[i].0 && s[j].1.hash == s[i].1.hash));
    }
}

/// Replacing one entry's session, hash kept, moves only that pair's lookup.
proof fn lemma_update_session(
    pre: Seq<(Seq<char>, SessionView)>,
    post: Seq<(Seq<char>, SessionView)>,
    i: int,
)
    requires
        0 <= i < pre.len(),
        post == pre.update(i, (pre[i].0, post[i].1)),
        post[i].1.hash == pre[i].1.hash,
        forall|p: int, q: int|
            0 <= p < q < pre.len() ==> !(pre[p].0 == pre[q].0 && pre[p].1.hash == pre[q].1.hash),
    ensures
        forall|p: int, q: int|
            0 <= p < q < post.len() ==> !(post[p].0 == post[q].0 && post[p].1.hash
                == post[q].1.hash),
        lookup_session(post, pre[i].0, pre[i].1.hash) == Some(post[i].1),
        forall|p: Seq<char>, h: Seq<char>|
            !(p == pre[i].0 && h == pre[i].1.hash) ==> lookup_session(post, p, h)
                == lookup_session(pre, p, h),
{
    assert(forall|k: int|
        0 <= k < post.len() ==> post[k].0 == pre[k].0 && post[k].1.hash == pre[k].1.hash);
    assert forall|p: Seq<char>, h: Seq<char>|
        !(p == pre[i].0 && h == pre[i].1.hash) implies lookup_session(post, p, h)
        == lookup_session(pre, p, h) by {
        if contains_session(pre, p, h) {
            let k = session_index(pre, p, h);
            assert(post[k].0 == p && post[k].1.hash == h);
            assert(contains_session(post, p, h));
            let k2 = session_index(post, p, h);
            if k2 < k {
                assert(!(post[k2].0 == post[k].0 && post[k2].1.hash == post[k].1.hash));
            } else if k < k2 {
                assert(!(post[k].0 == post[k2].0 && post[k].1.hash == post[k2].1.hash));
            }
            assert(k2 == k);
            assert(k != i);
            assert(post[k].1 == pre[k].1);
        } else {
            assert(!contains_session(post, p, h)) by {
                if contains_session(post, p, h) {
                    let k = session_index(post, p, h);
                    assert(pre[k].0 == p && pre[k].1.hash == h);
                }
            }
        }
    }
}

/// Appending a session under a pair not yet present moves only that pair's
/// lookup.
proof fn lemma_push_session(pre: Seq<(Seq<char>, SessionView)>, post: Seq<(Seq<char>, SessionView)>)
    requires
        post.len() == pre.len() + 1,
        forall|k: int| 0 <= k < pre.len() ==> post[k] == pre[k],
        !contains_session(pre, post[post.len() - 1].0, post[post.len() - 1].1.hash),
        forall|p: int, q: int|
            0 <= p < q < pre.len() ==> !(pre[p].0 == pre[q].0 && pre[p].1.hash == pre[q].1.hash),
    ensures
        forall|p: int, q: int|
            0 <= p < q < post.len() ==> !(post[p].0 == post[q].0 && post[p].1.hash
                == post[q].1.hash),
        forall|p: Seq<char>, h: Seq<char>|
            !(p == post[post.len() - 1].0 && h == post[post.len() - 1].1.hash)
                ==> lookup_session(post, p, h) == lookup_session(pre, p, h),
{
    let last = post.len() - 1;
    assert forall|p: int, q: int|
        0 <= p < q < post.len() implies !(post[p].0 == post[q].0 && post[p].1.hash
        == post[q].1.hash) by {
        if q == last {
            if post[p].0 == post[last].0 && post[p].1.hash == post[last].1.hash {
                assert(contains_session(pre, post[last].0, post[last].1.hash));
            }
        }
    }
    assert forall|p: Seq<char>, h: Seq<char>|
        !(p == post[last].0 && h == post[last].1.hash) implies lookup_session(post, p, h)
        == lookup_session(pre, p, h) by {
        if contains_session(pre, p, h) {
            let k = session_index(pre, p, h);
            assert(post[k].0 == p && post[k].1.hash == h);
            assert(contains_session(post, p, h));
            let k2 = session_index(post, p, h);
            if k2 < k {
                assert(!(post[k2].0 == post[k].0 && post[k2].1.hash == post[k].1.hash));
            } else if k < k2 && k2 < last {
                assert(!(post[k].0 == post[k2].0 && post[k].1.hash == post[k2].1.hash));
            }
            assert(k2 == k);
        } else {
            assert(!contains_session(post, p, h)) by {
                if contains_session(post, p, h) {
                    let k = session_index(post, p, h);
                    assert(k < last ==> pre[k].0 == p && pre[k].1.hash == h);
                }
            }
        }
    }
}

/// Disposing of one entry removes only that pair's lookup.
proof fn lemma_remove_session(
    pre: Seq<(Seq<char>, SessionView)>,
    post: Seq<(Seq<char>, SessionView)>,
    i: int,
)
    requires
        0 <= i < pre.len(),
        post == pre.remove(i),
        forall|p: int, q: int|
            0 <= p < q < pre.len() ==> !(pre[p].0 == pre[q].0 && pre[p].1.hash == pre[q].1.hash),
    ensures
        forall|k: int| 0 <= k < post.len() ==> (post[k] == pre[k] || post[k] == pre[k + 1]),
        forall|p: int, q: int|
            0 <= p < q < post.len() ==> !(post[p].0 == post[q].0 && post[p].1.hash
                == post[q].1.hash),
        lookup_session(post, pre[i].0, pre[i].1.hash) is None,
        forall|p: Seq<char>, h: Seq<char>|
            !(p == pre[i].0 && h == pre[i].1.hash) ==> lookup_session(post, p, h)
                == lookup_session(pre, p, h),
{
    assert(!contains_session(post, pre[i].0, pre[i].1.hash)) by {
        if contains_session(post, pre[i].0, pre[i].1.hash) {
            let k = session_index(post, pre[i].0, pre[i].1.hash);
            let k0 = if k < i {
                k
            } else {
                k + 1
            };
            assert(pre[k0] == post[k]);
            if k0 < i {
                assert(!(pre[k0].0 == pre[i].0 && pre[k0].1.hash == pre[i].1.hash));
            } else {
                assert(!(pre[i].0 == pre[k0].0 && pre[i].1.hash == pre[k0].1.hash));
            }
        }
    }
    assert forall|p: int, q: int|
        0 <= p < q < post.len() implies !(post[p].0 == post[q].0 && post[p].1.hash
        == post[q].1.hash) by {
        let p0 = if p < i {
            p
        } else {
            p + 1
        };
        let q0 = if q < i {
            q
        } else {
            q + 1
        };
        assert(post[p] == pre[p0] && post[q] == pre[q0]);
    }
    assert forall|p: Seq<char>, h: Seq<char>|
        !(p == pre[i].0 && h == pre[i].1.hash) implies lookup_session(post, p, h)
        == lookup_session(pre, p, h) by {
        if contains_session(pre, p, h) {
            let k = session_index(pre, p, h);
            assert(k != i);
            let k1 = if k < i {
                k
            } else {
                k - 1
            };
            assert(post[k1] == pre[k]);
            assert(contains_session(post, p, h));
            let k2 = session_index(post, p, h);
            if k2 < k1 {
                assert(!(post[k2].0 == post[k1].0 && post[k2].1.hash == post[k1].1.hash));
            } else if k1 < k2 {
                assert(!(post[k1].0 == post[k2].0 && post[k1].1.hash == post[k2].1.hash));
            }
            assert(k2 == k1);
        } else {
            assert(!contains_session(post, p, h)) by {
                if contains_session(post, p, h) {
                    let k = session_index(post, p, h);
                    let k0 = if k < i {
                        k
                    } else {
                        k + 1
                    };
                    assert(pre[k0] == post[k]);
                }
            }
        }
    }
}

} // verus!
