//! The per-session protocol state machine.
//!
//! One session drives one transfer between one peer pair, stepped by inbound
//! messages and timer events. Each step mutates the session (and, for chunk
//! arrivals, the staging area) and returns the actions the caller must
//! perform: datagrams to send, a file to write, a transfer to report
//! complete. The caller owns the socket and the clock; the machine owns
//! every decision.

use vstd::prelude::*;

use crate::errors::ProtocolError;
use crate::message::{Message, MessageView};
use crate::storage::{clone_string, contains_hash, lookup, lookup_or_empty, Storage};
use crate::store::{
    complete, concat_upto, chunk_content, has_chunk, missing_spec, put_spec, StoreView,
};

verus! {

/// How many consecutive timeouts a session tolerates before it gives up.
pub const MAX_STRIKES: u32 = 5;

/// Which side of the transfer this session drives.
#[derive(Clone, Copy, PartialEq, Eq, Structural, Debug)]
pub enum Role {
    /// The side pushing chunks.
    Sender,
    /// The side collecting chunks and writing the file.
    Receiver,
}

/// Where a session stands in its lifecycle.
#[derive(Clone, Copy, PartialEq, Eq, Structural, Debug)]
pub enum Phase {
    /// Created, nothing exchanged yet.
    Idle,
    /// The missing set is being negotiated.
    Negotiating,
    /// Chunks are in flight.
    Transferring,
    /// No gap is left; the final export is pending or sent.
    Finalizing,
    /// The session is over; `outcome` says how.
    Terminal,
}

/// Where the receiver writes the finished file.
pub struct ExportTarget {
    /// The target path.
    pub path: String,
    /// The POSIX permission bits to reapply.
    pub mode: u32,
}

/// What a step asks the caller to do.
pub enum Action {
    /// Send this message to the session's peer.
    Send(Message),
    /// Write the finished file.
    WriteFile {
        /// The target path.
        path: String,
        /// The POSIX permission bits to set.
        mode: u32,
        /// The reassembled bytes.
        data: Vec<u8>,
    },
    /// Read the named local file and stage it, then announce it with a sync.
    StageFile {
        /// The source path.
        path: String,
    },
    /// The transfer is complete from this side's point of view.
    Complete,
}

/// What a step asks the caller to do, as contracts see it.
pub enum ActionView {
    /// Send this message.
    Send(MessageView),
    /// Write the finished file.
    WriteFile {
        /// The target path.
        path: Seq<char>,
        /// The permission bits.
        mode: u32,
        /// The reassembled bytes.
        data: Seq<u8>,
    },
    /// Read and stage the named local file.
    StageFile {
        /// The source path.
        path: Seq<char>,
    },
    /// The transfer is complete.
    Complete,
}

impl View for Action {
    type V = ActionView;

    open spec fn view(&self) -> ActionView {
        match self {
            Action::Send(m) => ActionView::Send(m@),
            Action::WriteFile { path, mode, data } => ActionView::WriteFile {
                path: path@,
                mode: *mode,
                data: data@,
            },
            Action::StageFile { path } => ActionView::StageFile { path: path@ },
            Action::Complete => ActionView::Complete,
        }
    }
}

/// The views of a list of actions.
pub open spec fn acts_view(s: Seq<Action>) -> Seq<ActionView> {
    s.map_values(|a: Action| a@)
}

/// One transfer session.
pub struct Session {
    /// Which side this session drives.
    pub role: Role,
    /// The transfer identifier.
    pub hash: String,
    /// The chunk count, once known.
    pub num_chunks: Option<u32>,
    /// The export target, once known.
    pub target: Option<ExportTarget>,
    /// Consecutive timeouts seen.
    pub strikes: u32,
    /// Where the session stands.
    pub phase: Phase,
    /// Why the session ended, when it failed.
    pub outcome: Option<ProtocolError>,
    /// Whether the peer has acknowledged full receipt.
    pub acked: bool,
}

/// One transfer session, as contracts see it.
pub struct SessionView {
    /// Which side this session drives.
    pub role: Role,
    /// The transfer identifier.
    pub hash: Seq<char>,
    /// The chunk count, once known.
    pub num_chunks: Option<u32>,
    /// The export target, once known.
    pub target: Option<(Seq<char>, u32)>,
    /// Consecutive timeouts seen.
    pub strikes: u32,
    /// Where the session stands.
    pub phase: Phase,
    /// Why the session ended, when it failed.
    pub outcome: Option<ProtocolError>,
    /// Whether the peer has acknowledged full receipt.
    pub acked: bool,
}

impl View for Session {
    type V = SessionView;

    open spec fn view(&self) -> SessionView {
        SessionView {
            role: self.role,
            hash: self.hash@,
            num_chunks: self.num_chunks,
            target: match &self.target {
                Some(t) => Some((t.path@, t.mode)),
                None => None,
            },
            strikes: self.strikes,
            phase: self.phase,
            outcome: self.outcome,
            acked: self.acked,
        }
    }
}

/// The receiver's declaration of what it still needs.
pub open spec fn nack_view(hash: Seq<char>, missing: Seq<u32>) -> ActionView {
    ActionView::Send(MessageView::SyncNack { hash, missing })
}

/// What finalizing yields once no gap is left: the file write and the
/// `done` on success, the `nak` and the error on a hash mismatch.
pub open spec fn finalize_spec(
    hash: Seq<char>,
    st: StoreView,
    n: int,
    path: Seq<char>,
    mode: u32,
) -> (Seq<ActionView>, Option<ProtocolError>) {
    if crate::hashing::hash_of(concat_upto(st, n)) == hash {
        (
            seq![
                ActionView::WriteFile { path, mode, data: concat_upto(st, n) },
                ActionView::Send(MessageView::Done { hash }),
            ],
            None,
        )
    } else {
        (
            seq![
                ActionView::Send(
                    MessageView::Nak {
                        hash,
                        reason: ProtocolError::HashMismatch.spec_message(),
                    },
                ),
            ],
            Some(ProtocolError::HashMismatch),
        )
    }
}

/// The session a first datagram for a new hash opens.
pub open spec fn fresh_receiver(hash: Seq<char>) -> SessionView {
    SessionView {
        role: Role::Receiver,
        hash,
        num_chunks: None,
        target: None,
        strikes: 0,
        phase: Phase::Idle,
        outcome: None,
        acked: false,
    }
}

/// The session that pushes a staged file.
pub open spec fn fresh_sender(
    hash: Seq<char>,
    num_chunks: u32,
    target: Option<(Seq<char>, u32)>,
) -> SessionView {
    SessionView {
        role: Role::Sender,
        hash,
        num_chunks: Some(num_chunks),
        target,
        strikes: 0,
        phase: Phase::Negotiating,
        outcome: None,
        acked: false,
    }
}

/// What receiving a sync does: learn the chunk count, declare the gap list,
/// and acknowledge full receipt at once when nothing is missing.
pub open spec fn on_sync_spec(s: SessionView, st: StoreView, num_chunks: u32) -> (
    SessionView,
    Seq<ActionView>,
) {
    let miss = missing_spec(st, num_chunks as int);
    if miss.len() == 0 {
        (
            SessionView { num_chunks: Some(num_chunks), strikes: 0, phase: Phase::Finalizing, ..s },
            seq![
                nack_view(s.hash, miss),
                ActionView::Send(MessageView::Ack { hash: s.hash }),
            ],
        )
    } else {
        (
            SessionView {
                num_chunks: Some(num_chunks),
                strikes: 0,
                phase: Phase::Negotiating,
                ..s
            },
            seq![nack_view(s.hash, miss)],
        )
    }
}

/// What receiving one chunk does to the session, to the hash's store, and
/// to the peer: the write, the fresh gap list, the acknowledgment when the
/// list empties, and the finalize once a target is known.
pub open spec fn on_chunk_spec(s: SessionView, st: StoreView, index: u32, bytes: Seq<u8>) -> (
    SessionView,
    StoreView,
    Seq<ActionView>,
) {
    match s.num_chunks {
        None => (s, st, Seq::empty()),
        Some(n) => if index >= n {
            (s, st, Seq::empty())
        } else {
            let st1 = put_spec(st, index as int, bytes);
            let miss = missing_spec(st1, n as int);
            if miss.len() != 0 {
                (
                    SessionView { strikes: 0, phase: Phase::Transferring, ..s },
                    st1,
                    seq![nack_view(s.hash, miss)],
                )
            } else {
                let declared = seq![
                    nack_view(s.hash, miss),
                    ActionView::Send(MessageView::Ack { hash: s.hash }),
                ];
                match s.target {
                    None => (
                        SessionView { strikes: 0, phase: Phase::Finalizing, ..s },
                        st1,
                        declared,
                    ),
                    Some(t) => {
                        let fr = finalize_spec(s.hash, st1, n as int, t.0, t.1);
                        (
                            SessionView {
                                strikes: 0,
                                phase: Phase::Terminal,
                                outcome: fr.1,
                                ..s
                            },
                            st1,
                            declared + fr.0,
                        )
                    },
                }
            }
        },
    }
}

/// What receiving the export order does: record the target, and finalize at
/// once when no gap is left.
pub open spec fn on_export_spec(s: SessionView, st: StoreView, path: Seq<char>, mode: u32) -> (
    SessionView,
    Seq<ActionView>,
) {
    match s.num_chunks {
        Some(n) => if complete(st, n as int) {
            let fr = finalize_spec(s.hash, st, n as int, path, mode);
            (
                SessionView {
                    target: Some((path, mode)),
                    phase: Phase::Terminal,
                    outcome: fr.1,
                    ..s
                },
                fr.0,
            )
        } else {
            (SessionView { target: Some((path, mode)), ..s }, Seq::empty())
        },
        None => (SessionView { target: Some((path, mode)), ..s }, Seq::empty()),
    }
}

/// What receiving the peer's gap list does at the sender: the export order
/// or the completion report when nothing is missing, one chunk message per
/// requested index otherwise, and a fatal `nak` for an unknown hash or a
/// vacant slot.
pub open spec fn on_sync_nack_spec(
    s: SessionView,
    known: bool,
    st: StoreView,
    missing: Seq<u32>,
) -> (SessionView, Seq<ActionView>) {
    if missing.len() == 0 {
        match s.target {
            Some(t) => (
                SessionView { strikes: 0, phase: Phase::Finalizing, ..s },
                seq![
                    ActionView::Send(
                        MessageView::Export { hash: s.hash, path: t.0, mode: t.1 },
                    ),
                ],
            ),
            None => (
                SessionView { strikes: 0, phase: Phase::Terminal, outcome: None, ..s },
                seq![ActionView::Complete],
            ),
        }
    } else if !known {
        (
            SessionView {
                strikes: 0,
                phase: Phase::Terminal,
                outcome: Some(ProtocolError::UnknownHash),
                ..s
            },
            seq![
                ActionView::Send(
                    MessageView::Nak {
                        hash: s.hash,
                        reason: ProtocolError::UnknownHash.spec_message(),
                    },
                ),
            ],
        )
    } else if forall|k: int| 0 <= k < missing.len() ==> has_chunk(st, missing[k] as int) {
        (
            SessionView { strikes: 0, phase: Phase::Transferring, ..s },
            Seq::new(
                missing.len(),
                |k: int|
                    ActionView::Send(
                        MessageView::Chunk {
                            hash: s.hash,
                            index: missing[k],
                            bytes: chunk_content(st, missing[k] as int),
                        },
                    ),
            ),
        )
    } else {
        (
            SessionView {
                strikes: 0,
                phase: Phase::Terminal,
                outcome: Some(ProtocolError::MissingChunk),
                ..s
            },
            seq![
                ActionView::Send(
                    MessageView::Nak {
                        hash: s.hash,
                        reason: ProtocolError::MissingChunk.spec_message(),
                    },
                ),
            ],
        )
    }
}

/// What receiving the peer's acknowledgment does: record it.
pub open spec fn on_ack_spec(s: SessionView) -> (SessionView, Seq<ActionView>) {
    (SessionView { acked: true, ..s }, Seq::empty())
}

/// What receiving the final `done` does: the transfer is over.
pub open spec fn on_done_spec(s: SessionView) -> (SessionView, Seq<ActionView>) {
    (
        SessionView { phase: Phase::Terminal, outcome: None, ..s },
        seq![ActionView::Complete],
    )
}

/// What receiving a fatal `nak` does: terminate with the matching error.
pub open spec fn on_nak_spec(s: SessionView, reason: Seq<char>) -> (SessionView, Seq<ActionView>) {
    (
        SessionView {
            phase: Phase::Terminal,
            outcome: Some(spec_error_of_reason(reason)),
            ..s
        },
        Seq::empty(),
    )
}

/// What a deadline expiry does: the sender re-initiates from its sync, the
/// receiver re-sends its gap list, and the strike budget ends the session.
pub open spec fn on_timeout_spec(s: SessionView, st: StoreView) -> (SessionView, Seq<ActionView>) {
    if s.strikes + 1 >= MAX_STRIKES {
        (
            SessionView {
                strikes: (s.strikes + 1) as u32,
                phase: Phase::Terminal,
                outcome: Some(ProtocolError::PeerUnresponsive),
                ..s
            },
            Seq::empty(),
        )
    } else {
        let bumped = SessionView { strikes: (s.strikes + 1) as u32, ..s };
        match s.num_chunks {
            None => (bumped, Seq::empty()),
            Some(n) => if s.role == Role::Sender {
                (
                    bumped,
                    seq![
                        ActionView::Send(MessageView::Sync { hash: s.hash, num_chunks: n }),
                    ],
                )
            } else {
                (bumped, seq![nack_view(s.hash, missing_spec(st, n as int))])
            },
        }
    }
}

/// What a local shutdown does: tell the peer and drop the session.
pub open spec fn cancel_spec(s: SessionView) -> (SessionView, Seq<ActionView>) {
    (
        SessionView {
            phase: Phase::Terminal,
            outcome: Some(ProtocolError::Cancelled),
            ..s
        },
        seq![
            ActionView::Send(
                MessageView::Nak { hash: s.hash, reason: ProtocolError::Cancelled.spec_message() },
            ),
        ],
    )
}

impl Session {
    /// A fresh receiver session for one hash, created on the first datagram
    /// from a peer.
    pub fn new_receiver(hash: String) -> (r: Session)
        ensures
            r@ == fresh_receiver(hash@),
    {
        Session {
            role: Role::Receiver,
            hash,
            num_chunks: None,
            target: None,
            strikes: 0,
            phase: Phase::Idle,
            outcome: None,
            acked: false,
        }
    }

    /// A fresh sender session for a staged file, with or without an export
    /// target; the caller sends the returned sync announcement.
    pub fn new_sender(hash: String, num_chunks: u32, target: Option<ExportTarget>) -> (r: (
        Session,
        Vec<Action>,
    ))
        ensures
            r.0@ == fresh_sender(
                hash@,
                num_chunks,
                match target {
                    Some(t) => Some((t.path@, t.mode)),
                    None => None::<(Seq<char>, u32)>,
                },
            ),
            acts_view(r.1@) == seq![
                ActionView::Send(MessageView::Sync { hash: hash@, num_chunks }),
            ],
    {
        let ghost h = hash@;
        let announce = Message::Sync { hash: clone_string(&hash), num_chunks };
        let session = Session {
            role: Role::Sender,
            hash,
            num_chunks: Some(num_chunks),
            target,
            strikes: 0,
            phase: Phase::Negotiating,
            outcome: None,
            acked: false,
        };
        let mut acts: Vec<Action> = Vec::new();
        acts.push(Action::Send(announce));
        proof {
            assert(acts_view(acts@) =~= seq![
                ActionView::Send(MessageView::Sync { hash: h, num_chunks }),
            ]);
        }
        (session, acts)
    }

    /// Receives a transfer announcement: learn the chunk count, compute the
    /// gap list against the staging area, declare it to the peer, and
    /// acknowledge full receipt at once when nothing is missing.
    pub fn on_sync(&mut self, store: &Storage, num_chunks: u32) -> (acts: Vec<Action>)
        requires
            store.wf(),
            old(self).phase != Phase::Terminal,
        ensures
            ({
                let r = on_sync_spec(
                    old(self)@,
                    lookup_or_empty(store@, old(self)@.hash),
                    num_chunks,
                );
                final(self)@ == r.0 && acts_view(acts@) == r.1
            }),
    {
        let ghost st = lookup_or_empty(store@, old(self)@.hash);
        let missing = store.missing(&self.hash, num_chunks);
        let empty = missing.len() == 0;
        self.num_chunks = Some(num_chunks);
        self.strikes = 0;
        self.phase = if empty {
            Phase::Finalizing
        } else {
            Phase::Negotiating
        };
        let reply = Message::SyncNack { hash: clone_string(&self.hash), missing };
        let mut acts: Vec<Action> = Vec::new();
        acts.push(Action::Send(reply));
        if empty {
            acts.push(Action::Send(Message::Ack { hash: clone_string(&self.hash) }));
            proof {
                assert(acts_view(acts@) =~= seq![
                    nack_view(old(self)@.hash, missing_spec(st, num_chunks as int)),
                    ActionView::Send(MessageView::Ack { hash: old(self)@.hash }),
                ]);
            }
        } else {
            proof {
                assert(acts_view(acts@) =~= seq![
                    nack_view(old(self)@.hash, missing_spec(st, num_chunks as int)),
                ]);
            }
        }
        acts
    }

    /// Finalizes a complete transfer: reassemble, verify, and either write
    /// the file and send `done`, or send a `nak` on a hash mismatch.
    fn finalize(&mut self, store: &Storage, path: &String, mode: u32) -> (acts: Vec<Action>)
        requires
            store.wf(),
            old(self).num_chunks is Some,
            complete(
                lookup_or_empty(store@, old(self)@.hash),
                old(self).num_chunks.unwrap() as int,
            ),
        ensures
            ({
                let fr = finalize_spec(
                    old(self)@.hash,
                    lookup_or_empty(store@, old(self)@.hash),
                    old(self).num_chunks.unwrap() as int,
                    path@,
                    mode,
                );
                final(self)@ == (SessionView {
                    phase: Phase::Terminal,
                    outcome: fr.1,
                    ..old(self)@
                }) && acts_view(acts@) == fr.0
            }),
    {
        let n = match self.num_chunks {
            Some(n) => n,
            None => 0,  // unreachable: num_chunks is known here
        };
        let mut acts: Vec<Action> = Vec::new();
        match store.export(&self.hash, n) {
            Ok(data) => {
                acts.push(Action::WriteFile { path: clone_string(path), mode, data });
                acts.push(Action::Send(Message::Done { hash: clone_string(&self.hash) }));
                self.phase = Phase::Terminal;
                self.outcome = None;
                proof {
                    let fr = finalize_spec(
                        old(self)@.hash,
                        lookup_or_empty(store@, old(self)@.hash),
                        old(self).num_chunks.unwrap() as int,
                        path@,
                        mode,
                    );
                    assert(acts_view(acts@) =~= fr.0);
                }
            },
            Err(_) => {
                acts.push(
                    Action::Send(
                        Message::Nak {
                            hash: clone_string(&self.hash),
                            reason: error_reason(ProtocolError::HashMismatch),
                        },
                    ),
                );
                self.phase = Phase::Terminal;
                self.outcome = Some(ProtocolError::HashMismatch);
                proof {
                    let fr = finalize_spec(
                        old(self)@.hash,
                        lookup_or_empty(store@, old(self)@.hash),
                        old(self).num_chunks.unwrap() as int,
                        path@,
                        mode,
                    );
                    assert(acts_view(acts@) =~= fr.0);
                }
            },
        }
        acts
    }

    /// Receives one chunk: write it, recompute the gap list, declare it to
    /// the peer, and finalize as soon as no gap is left and a target is
    /// known. A chunk out of range, or one arriving before any sync, is
    /// dropped. Duplicate chunks overwrite identically and out-of-order
    /// chunks are accepted: the store ends the same whatever the order.
    pub fn on_chunk(&mut self, store: &mut Storage, index: u32, bytes: Vec<u8>) -> (acts: Vec<
        Action,
    >)
        requires
            old(store).wf(),
            old(self).phase != Phase::Terminal,
        ensures
            final(store).wf(),
            ({
                let h = old(self)@.hash;
                let r = on_chunk_spec(old(self)@, lookup_or_empty(old(store)@, h), index, bytes@);
                final(self)@ == r.0 && lookup_or_empty(final(store)@, h) == r.1 && acts_view(acts@)
                    == r.2 && (forall|g: Seq<char>|
                    g != h ==> lookup(final(store)@, g) == lookup(old(store)@, g))
            }),
    {
        let n = match self.num_chunks {
            Some(n) => n,
            None => {
                return Vec::new();
            },
        };
        if index >= n {
            return Vec::new();
        }
        store.put(&self.hash, index, bytes);
        let missing = store.missing(&self.hash, n);
        self.strikes = 0;
        let ghost h = old(self)@.hash;
        let ghost st1 = lookup_or_empty(store@, h);
        let empty = missing.len() == 0;
        let reply = Message::SyncNack { hash: clone_string(&self.hash), missing };
        let mut acts: Vec<Action> = Vec::new();
        acts.push(Action::Send(reply));
        if !empty {
            self.phase = Phase::Transferring;
            proof {
                assert(acts_view(acts@) =~= seq![nack_view(h, missing_spec(st1, n as int))]);
            }
            return acts;
        }
        acts.push(Action::Send(Message::Ack { hash: clone_string(&self.hash) }));
        let target = match &self.target {
            None => {
                self.phase = Phase::Finalizing;
                proof {
                    assert(acts_view(acts@) =~= seq![
                        nack_view(h, missing_spec(st1, n as int)),
                        ActionView::Send(MessageView::Ack { hash: h }),
                    ]);
                }
                return acts;
            },
            Some(t) => ExportTarget { path: clone_string(&t.path), mode: t.mode },
        };
        proof {
            crate::store::lemma_missing_spec_correct(st1, n as int);
            assert forall|i: int| 0 <= i < n as int implies has_chunk(st1, i) by {
                if !has_chunk(st1, i) {
                    assert(missing_spec(st1, n as int).contains(i as u32));
                }
            }
        }
        let mut more = self.finalize(store, &target.path, target.mode);
        let ghost acts_before = acts@;
        let ghost more_before = more@;
        acts.append(&mut more);
        proof {
            assert(acts_view(acts@) =~= acts_view(acts_before) + acts_view(more_before));
            assert(acts_view(acts_before) =~= seq![
                nack_view(h, missing_spec(st1, n as int)),
                ActionView::Send(MessageView::Ack { hash: h }),
            ]);
        }
        acts
    }

    /// Receives the export order: record the target, and finalize at once
    /// if no gap is left; otherwise keep collecting chunks.
    pub fn on_export(&mut self, store: &Storage, path: String, mode: u32) -> (acts: Vec<Action>)
        requires
            store.wf(),
            old(self).phase != Phase::Terminal,
        ensures
            ({
                let r = on_export_spec(
                    old(self)@,
                    lookup_or_empty(store@, old(self)@.hash),
                    path@,
                    mode,
                );
                final(self)@ == r.0 && acts_view(acts@) == r.1
            }),
    {
        self.target = Some(ExportTarget { path: clone_string(&path), mode });
        let n = match self.num_chunks {
            Some(n) => n,
            None => {
                return Vec::new();
            },
        };
        let gaps = store.missing(&self.hash, n);
        if gaps.len() != 0 {
            proof {
                let st = lookup_or_empty(store@, old(self)@.hash);
                crate::store::lemma_missing_spec_correct(st, n as int);
                let x = missing_spec(st, n as int)[0];
                assert(missing_spec(st, n as int).contains(x));
                assert(x < n && !has_chunk(st, x as int));
                assert(!complete(st, n as int)) by {
                    if complete(st, n as int) {
                        assert(has_chunk(st, x as int));
                    }
                }
            }
            return Vec::new();
        }
        proof {
            let st = lookup_or_empty(store@, old(self)@.hash);
            crate::store::lemma_missing_spec_correct(st, n as int);
            assert forall|i: int| 0 <= i < n as int implies has_chunk(st, i) by {
                if !has_chunk(st, i) {
                    assert(missing_spec(st, n as int).contains(i as u32));
                }
            }
        }
        self.finalize(store, &path, mode)
    }
}

impl Session {
    /// Receives the peer's gap list. An empty list means the peer holds
    /// everything: send the export order, or report the push complete. A
    /// non-empty list is answered with one chunk message per requested
    /// index, in the order requested; a list for a hash never staged here
    /// is answered with an unknown-hash `nak`, and a request for a vacant
    /// slot is fatal.
    pub fn on_sync_nack(&mut self, store: &Storage, missing: &Vec<u32>) -> (acts: Vec<Action>)
        requires
            store.wf(),
            old(self).phase != Phase::Terminal,
            old(self).role == Role::Sender,
        ensures
            ({
                let r = on_sync_nack_spec(
                    old(self)@,
                    contains_hash(store@, old(self)@.hash),
                    lookup_or_empty(store@, old(self)@.hash),
                    missing@,
                );
                final(self)@ == r.0 && acts_view(acts@) == r.1
            }),
    {
        let ghost h = old(self)@.hash;
        let ghost st = lookup_or_empty(store@, h);
        self.strikes = 0;
        if missing.len() == 0 {
            match &self.target {
                Some(t) => {
                    let msg = Message::Export {
                        hash: clone_string(&self.hash),
                        path: clone_string(&t.path),
                        mode: t.mode,
                    };
                    self.phase = Phase::Finalizing;
                    let mut acts: Vec<Action> = Vec::new();
                    acts.push(Action::Send(msg));
                    proof {
                        assert(acts_view(acts@) =~= seq![
                            ActionView::Send(
                                MessageView::Export {
                                    hash: h,
                                    path: old(self)@.target.unwrap().0,
                                    mode: old(self)@.target.unwrap().1,
                                },
                            ),
                        ]);
                    }
                    return acts;
                },
                None => {
                    self.phase = Phase::Terminal;
                    self.outcome = None;
                    let mut acts: Vec<Action> = Vec::new();
                    acts.push(Action::Complete);
                    proof {
                        assert(acts_view(acts@) =~= seq![ActionView::Complete]);
                    }
                    return acts;
                },
            }
        }
        if !store.contains(&self.hash) {
            self.phase = Phase::Terminal;
            self.outcome = Some(ProtocolError::UnknownHash);
            let mut acts: Vec<Action> = Vec::new();
            acts.push(
                Action::Send(
                    Message::Nak {
                        hash: clone_string(&self.hash),
                        reason: error_reason(ProtocolError::UnknownHash),
                    },
                ),
            );
            proof {
                assert(acts_view(acts@) =~= seq![
                    ActionView::Send(
                        MessageView::Nak {
                            hash: h,
                            reason: ProtocolError::UnknownHash.spec_message(),
                        },
                    ),
                ]);
            }
            return acts;
        }
        let mut acts: Vec<Action> = Vec::new();
        let mut k: usize = 0;
        while k < missing.len()
            invariant
                store.wf(),
                k <= missing@.len(),
                missing@.len() != 0,
                contains_hash(store@, h),
                self.hash@ == h,
                st == lookup_or_empty(store@, h),
                forall|j: int| 0 <= j < k ==> has_chunk(st, missing@[j] as int),
                acts@.len() == k,
                forall|j: int|
                    0 <= j < k ==> acts@[j]@ == ActionView::Send(
                        MessageView::Chunk {
                            hash: h,
                            index: missing@[j],
                            bytes: chunk_content(st, missing@[j] as int),
                        },
                    ),
                self@ == (SessionView { strikes: 0, ..old(self)@ }),
            decreases missing@.len() - k,
        {
            let idx = missing[k];
            match store.load(&self.hash, idx) {
                Ok(bytes) => {
                    acts.push(
                        Action::Send(
                            Message::Chunk { hash: clone_string(&self.hash), index: idx, bytes },
                        ),
                    );
                },
                Err(_) => {
                    self.phase = Phase::Terminal;
                    self.outcome = Some(ProtocolError::MissingChunk);
                    let mut nak: Vec<Action> = Vec::new();
                    nak.push(
                        Action::Send(
                            Message::Nak {
                                hash: clone_string(&self.hash),
                                reason: error_reason(ProtocolError::MissingChunk),
                            },
                        ),
                    );
                    proof {
                        assert(!has_chunk(st, missing@[k as int] as int));
                        assert(!(forall|j: int|
                            0 <= j < missing@.len() ==> has_chunk(st, missing@[j] as int))) by {
                            if forall|j: int|
                                0 <= j < missing@.len() ==> has_chunk(st, missing@[j] as int) {
                                assert(has_chunk(st, missing@[k as int] as int));
                            }
                        }
                        assert(acts_view(nak@) =~= seq![
                            ActionView::Send(
                                MessageView::Nak {
                                    hash: h,
                                    reason: ProtocolError::MissingChunk.spec_message(),
                                },
                            ),
                        ]);
                    }
                    return nak;
                },
            }
            k = k + 1;
        }
        self.phase = Phase::Transferring;
        proof {
            assert(acts_view(acts@) =~= Seq::new(
                missing@.len(),
                |j: int|
                    ActionView::Send(
                        MessageView::Chunk {
                            hash: h,
                            index: missing@[j],
                            bytes: chunk_content(st, missing@[j] as int),
                        },
                    ),
            ));
        }
        acts
    }

    /// Receives the peer's acknowledgment that everything arrived and
    /// verified; the session only records it.
    pub fn on_ack(&mut self) -> (acts: Vec<Action>)
        ensures
            final(self)@ == on_ack_spec(old(self)@).0,
            acts_view(acts@) == on_ack_spec(old(self)@).1,
    {
        self.acked = true;
        Vec::new()
    }

    /// Receives the final `done`: the export completed at the peer, and the
    /// transfer is over.
    pub fn on_done(&mut self) -> (acts: Vec<Action>)
        requires
            old(self).role == Role::Sender,
        ensures
            final(self)@ == on_done_spec(old(self)@).0,
            acts_view(acts@) == on_done_spec(old(self)@).1,
    {
        self.phase = Phase::Terminal;
        self.outcome = None;
        let mut acts: Vec<Action> = Vec::new();
        acts.push(Action::Complete);
        proof {
            assert(acts_view(acts@) =~= seq![ActionView::Complete]);
        }
        acts
    }

    /// Receives a fatal `nak`: the session terminates with the matching
    /// local error kind.
    pub fn on_nak(&mut self, reason: &String) -> (acts: Vec<Action>)
        ensures
            final(self)@ == on_nak_spec(old(self)@, reason@).0,
            acts_view(acts@) == on_nak_spec(old(self)@, reason@).1,
    {
        self.phase = Phase::Terminal;
        self.outcome = Some(error_of_reason(reason));
        Vec::new()
    }

    /// A receive deadline expired. The sender re-initiates from its sync,
    /// the receiver re-sends its gap list; after `MAX_STRIKES` consecutive
    /// timeouts the session terminates as peer-unresponsive.
    pub fn on_timeout(&mut self, store: &Storage) -> (acts: Vec<Action>)
        requires
            store.wf(),
            old(self).phase != Phase::Terminal,
            old(self).strikes < MAX_STRIKES,
        ensures
            ({
                let r = on_timeout_spec(old(self)@, lookup_or_empty(store@, old(self)@.hash));
                final(self)@ == r.0 && acts_view(acts@) == r.1
            }),
    {
        self.strikes = self.strikes + 1;
        if self.strikes >= MAX_STRIKES {
            self.phase = Phase::Terminal;
            self.outcome = Some(ProtocolError::PeerUnresponsive);
            return Vec::new();
        }
        let n = match self.num_chunks {
            Some(n) => n,
            None => {
                return Vec::new();
            },
        };
        let mut acts: Vec<Action> = Vec::new();
        match self.role {
            Role::Sender => {
                acts.push(
                    Action::Send(
                        Message::Sync { hash: clone_string(&self.hash), num_chunks: n },
                    ),
                );
                proof {
                    assert(acts_view(acts@) =~= seq![
                        ActionView::Send(
                            MessageView::Sync { hash: old(self)@.hash, num_chunks: n },
                        ),
                    ]);
                }
            },
            Role::Receiver => {
                let gaps = store.missing(&self.hash, n);
                acts.push(
                    Action::Send(
                        Message::SyncNack { hash: clone_string(&self.hash), missing: gaps },
                    ),
                );
                proof {
                    assert(acts_view(acts@) =~= seq![
                        nack_view(
                            old(self)@.hash,
                            missing_spec(lookup_or_empty(store@, old(self)@.hash), n as int),
                        ),
                    ]);
                }
            },
        }
        acts
    }

    /// A local shutdown: tell the peer the transfer is abandoned and drop
    /// the session state.
    pub fn cancel(&mut self) -> (acts: Vec<Action>)
        ensures
            final(self)@ == cancel_spec(old(self)@).0,
            acts_view(acts@) == cancel_spec(old(self)@).1,
    {
        self.phase = Phase::Terminal;
        self.outcome = Some(ProtocolError::Cancelled);
        let mut acts: Vec<Action> = Vec::new();
        acts.push(
            Action::Send(
                Message::Nak {
                    hash: clone_string(&self.hash),
                    reason: error_reason(ProtocolError::Cancelled),
                },
            ),
        );
        proof {
            assert(acts_view(acts@) =~= seq![
                ActionView::Send(
                    MessageView::Nak {
                        hash: old(self)@.hash,
                        reason: ProtocolError::Cancelled.spec_message(),
                    },
                ),
            ]);
        }
        acts
    }
}

/// The local error kind a `nak` reason names.
pub open spec fn spec_error_of_reason(s: Seq<char>) -> ProtocolError {
    if s == ProtocolError::HashMismatch.spec_message() {
        ProtocolError::HashMismatch
    } else if s == ProtocolError::MissingChunk.spec_message() {
        ProtocolError::MissingChunk
    } else if s == ProtocolError::BadFrame.spec_message() {
        ProtocolError::BadFrame
    } else if s == ProtocolError::UnknownHash.spec_message() {
        ProtocolError::UnknownHash
    } else if s == ProtocolError::PeerUnresponsive.spec_message() {
        ProtocolError::PeerUnresponsive
    } else if s == ProtocolError::Cancelled.spec_message() {
        ProtocolError::Cancelled
    } else if s == ProtocolError::Overrun.spec_message() {
        ProtocolError::Overrun
    } else {
        ProtocolError::Io
    }
}

/// The local error kind a `nak` reason names.
pub fn error_of_reason(reason: &String) -> (r: ProtocolError)
    ensures
        r == spec_error_of_reason(reason@),
{
    if crate::message::str_eq(reason.as_str(), ProtocolError::HashMismatch.message()) {
        ProtocolError::HashMismatch
    } else if crate::message::str_eq(reason.as_str(), ProtocolError::MissingChunk.message()) {
        ProtocolError::MissingChunk
    } else if crate::message::str_eq(reason.as_str(), ProtocolError::BadFrame.message()) {
        ProtocolError::BadFrame
    } else if crate::message::str_eq(reason.as_str(), ProtocolError::UnknownHash.message()) {
        ProtocolError::UnknownHash
    } else if crate::message::str_eq(reason.as_str(), ProtocolError::PeerUnresponsive.message()) {
        ProtocolError::PeerUnresponsive
    } else if crate::message::str_eq(reason.as_str(), ProtocolError::Cancelled.message()) {
        ProtocolError::Cancelled
    } else if crate::message::str_eq(reason.as_str(), ProtocolError::Overrun.message()) {
        ProtocolError::Overrun
    } else {
        ProtocolError::Io
    }
}

/// Delivering the same chunk twice yields the same result as delivering it
/// once: the store ends identical, and with it the gap list the receiver
/// declares afterwards.
pub proof fn lemma_duplicate_chunk_tolerance(st: StoreView, index: int, bytes: Seq<u8>, n: int)
    requires
        0 <= index,
    ensures
        put_spec(put_spec(st, index, bytes), index, bytes) == put_spec(st, index, bytes),
        missing_spec(put_spec(put_spec(st, index, bytes), index, bytes), n) == missing_spec(
            put_spec(st, index, bytes),
            n,
        ),
{
    crate::store::lemma_put_idempotent(st, index, bytes);
}

/// Over a lossless channel the receiver hands back a byte-identical copy:
/// once every chunk of a staged file has arrived, finalizing writes exactly
/// the file's bytes at the target and reports `done` — the reassembled copy
/// passes the hash check because chunking and ordered concatenation are
/// inverses.
pub proof fn lemma_lossless_transfer(data: Seq<u8>, path: Seq<char>, mode: u32)
    ensures
        finalize_spec(
            crate::hashing::hash_of(data),
            crate::store::staged(data),
            crate::store::chunks_of(data).len() as int,
            path,
            mode,
        ) == (
            seq![
                ActionView::WriteFile { path, mode, data },
                ActionView::Send(MessageView::Done { hash: crate::hashing::hash_of(data) }),
            ],
            None::<ProtocolError>,
        ),
{
    crate::store::lemma_chunks_concat(data);
}

/// The wire reason for an error, as a fresh string.
pub fn error_reason(e: ProtocolError) -> (r: String)
    ensures
        r@ == e.spec_message(),
{
    crate::message::str_to_string(e.message())
}

} // verus!
