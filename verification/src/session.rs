//! The HTTP/2 stream multiplexer, modelled as a per-connection state
//! machine.
//!
//! The frame codec itself is an external collaborator: the caller reads
//! frame batches from the wire, lets the codec report which stream
//! identifiers newly reached a dispatchable state, and feeds those results
//! in here. This module owns the decisions: when the connection-local
//! SETTINGS are considered sent, which stream identifiers actually get
//! dispatched (each at most once), and when the frame loop must stop.

use vstd::prelude::*;

verus! {

/// The locally chosen HPACK dynamic-table bound, also announced as the
/// header-table size in the SETTINGS frame.
pub const HEADER_TABLE_SIZE: u32 = 16777215;

/// The locally chosen initial flow-control window.
pub const INITIAL_WINDOW_SIZE: u32 = 65535;

/// The locally chosen maximum frame size.
pub const MAX_FRAME_SIZE: u32 = 65535;

/// The HPACK dynamic-table size a session starts with before the local
/// SETTINGS take effect, as the protocol prescribes.
pub const DEFAULT_TABLE_SIZE: u32 = 4096;

/// The stream identifier conventionally given to the HTTP/1.1 request
/// that carried an `h2c` upgrade.
pub const UPGRADE_STREAM_ID: u32 = 1;

/// The SETTINGS configuration sent on every HTTP/2 connection. A `None`
/// leaves that setting at its protocol default.
pub struct FrameSettings {
    pub header_table_size: Option<u32>,
    pub enable_push: Option<bool>,
    pub max_concurrent_streams: Option<u32>,
    pub initial_window_size: Option<u32>,
    pub max_frame_size: Option<u32>,
    pub max_header_list_size: Option<u32>,
}

/// The fixed local SETTINGS: header-table size, initial window size and
/// max frame size are pinned; enable_push and max_concurrent_streams stay
/// at their protocol defaults.
pub fn server_settings() -> (s: FrameSettings)
    ensures
        s.header_table_size == Some(HEADER_TABLE_SIZE),
        s.enable_push is None,
        s.max_concurrent_streams is None,
        s.initial_window_size == Some(INITIAL_WINDOW_SIZE),
        s.max_frame_size == Some(MAX_FRAME_SIZE),
        s.max_header_list_size is None,
{
    FrameSettings {
        header_table_size: Some(HEADER_TABLE_SIZE),
        enable_push: None,
        max_concurrent_streams: None,
        initial_window_size: Some(INITIAL_WINDOW_SIZE),
        max_frame_size: Some(MAX_FRAME_SIZE),
        max_header_list_size: None,
    }
}

/// Where a session stands in its lifecycle.
pub enum Phase {
    /// Preface and SETTINGS exchange still to be completed.
    Init,
    /// Frame batches are being read and streams dispatched.
    Running,
    /// The peer closed or the read failed; nothing further happens.
    Closed,
}

/// The multiplexer's view of one HTTP/2 connection: its lifecycle phase,
/// whether the local SETTINGS went out, the configured HPACK table bound,
/// and every stream identifier dispatched so far, in dispatch order.
pub struct Session {
    pub phase: Phase,
    pub settings_sent: bool,
    pub hpack_max: u32,
    pub dispatched: Vec<u32>,
}

impl Session {
    /// No stream identifier is ever dispatched twice, and nothing is
    /// dispatched before the local SETTINGS went out.
    pub open spec fn wf(self) -> bool {
        &&& forall|i: int, j: int|
            0 <= i < j < self.dispatched@.len() ==> self.dispatched@[i] != self.dispatched@[j]
        &&& self.dispatched@.len() > 0 ==> self.settings_sent
        &&& self.settings_sent ==> !(self.phase is Init)
    }

    pub open spec fn spec_dispatched(self, id: u32) -> bool {
        self.dispatched@.contains(id)
    }

    /// A fresh session: handshake pending, nothing sent, nothing
    /// dispatched, HPACK table at its protocol default.
    pub fn new() -> (s: Session)
        ensures
            s.phase is Init,
            !s.settings_sent,
            s.hpack_max == DEFAULT_TABLE_SIZE,
            s.dispatched@ =~= Seq::<u32>::empty(),
            s.wf(),
    {
        Session { phase: Phase::Init, settings_sent: false, hpack_max: DEFAULT_TABLE_SIZE, dispatched: Vec::new() }
    }

    /// The preface went through and the local SETTINGS frame went out:
    /// enter the running phase and pin the HPACK dynamic table to the
    /// announced bound. Nothing has been dispatched yet.
    pub fn complete_init(&mut self, table_size: u32)
        requires
            old(self).phase is Init,
            old(self).wf(),
        ensures
            final(self).phase is Running,
            final(self).settings_sent,
            final(self).hpack_max == table_size,
            final(self).dispatched@ == old(self).dispatched@,
            final(self).wf(),
    {
        self.phase = Phase::Running;
        self.settings_sent = true;
        self.hpack_max = table_size;
    }

    pub fn contains_stream(&self, id: u32) -> (b: bool)
        ensures
            b == self.spec_dispatched(id),
    {
        let n = self.dispatched.len();
        let mut i: usize = 0;
        while i < n
            invariant
                n == self.dispatched@.len(),
                i <= n,
                forall|j: int| 0 <= j < i ==> self.dispatched@[j] != id,
            decreases n - i,
        {
            if self.dispatched[i] == id {
                return true;
            }
            i += 1;
        }
        false
    }

    /// One frame batch was applied and the codec reported the stream
    /// identifiers that newly reached a dispatchable state. Returns the
    /// ones to hand to fresh stream tasks now: exactly the reported
    /// identifiers not dispatched before, first occurrence each, in
    /// report order; they are recorded as dispatched.
    pub fn dispatch_batch(&mut self, newly: &Vec<u32>) -> (d: Vec<u32>)
        requires
            old(self).phase is Running,
            old(self).settings_sent,
            old(self).wf(),
        ensures
            final(self).dispatched@ == old(self).dispatched@ + d@,
            final(self).phase == old(self).phase,
            final(self).settings_sent == old(self).settings_sent,
            final(self).hpack_max == old(self).hpack_max,
            final(self).wf(),
            forall|k: int|
                0 <= k < d@.len() ==> newly@.contains(#[trigger] d@[k])
                    && !old(self).spec_dispatched(d@[k]),
            forall|i: int, j: int| 0 <= i < j < d@.len() ==> d@[i] != d@[j],
            forall|id: u32|
                newly@.contains(id) && !old(self).spec_dispatched(id) ==> d@.contains(id),
    {
        let n = newly.len();
        let mut d: Vec<u32> = Vec::new();
        let mut i: usize = 0;
        while i < n
            invariant
                n == newly@.len(),
                i <= n,
                self.phase == old(self).phase,
                self.settings_sent == old(self).settings_sent,
                self.hpack_max == old(self).hpack_max,
                self.phase is Running,
                self.settings_sent,
                old(self).wf(),
                self.dispatched@ == old(self).dispatched@ + d@,
                self.wf(),
                forall|k: int|
                    0 <= k < d@.len() ==> newly@.contains(#[trigger] d@[k])
                        && !old(self).spec_dispatched(d@[k]),
                forall|a: int, b: int| 0 <= a < b < d@.len() ==> d@[a] != d@[b],
                forall|j: int|
                    0 <= j < i && !old(self).spec_dispatched(newly@[j]) ==> d@.contains(
                        #[trigger] newly@[j],
                    ),
            decreases n - i,
        {
            let id = newly[i];
            proof {
                assert(newly@.contains(newly@[i as int]));
            }
            let ghost pre_dispatched = self.dispatched@;
            let ghost pre_d = d@;
            if !self.contains_stream(id) {
                proof {
                    if old(self).spec_dispatched(id) {
                        let m = choose|m: int|
                            0 <= m < old(self).dispatched@.len() && old(self).dispatched@[m]
                                == id;
                        assert(pre_dispatched[m] == id);
                        assert(pre_dispatched.contains(id));
                    }
                }
                self.dispatched.push(id);
                d.push(id);
                proof {
                    assert(self.dispatched@ =~= old(self).dispatched@ + d@);
                    assert(d@.contains(id)) by {
                        assert(d@.last() == id);
                    }
                    assert forall|k: int|
                        0 <= k < d@.len() implies newly@.contains(#[trigger] d@[k]) && !old(
                        self,
                    ).spec_dispatched(d@[k]) by {
                        if k < d@.len() - 1 {
                            assert(d@[k] == pre_d[k]);
                        } else {
                            assert(d@[k] == id);
                        }
                    }
                    assert forall|a: int, b: int| 0 <= a < b < d@.len() implies d@[a] != d@[b] by {
                        if b == d@.len() - 1 {
                            assert(d@[a] == pre_d[a]);
                            if pre_d[a] == id {
                                assert(pre_dispatched[old(self).dispatched@.len() + a] == id);
                                assert(pre_dispatched.contains(id));
                            }
                        } else {
                            assert(d@[a] == pre_d[a]);
                            assert(d@[b] == pre_d[b]);
                        }
                    }
                    assert forall|a: int, b: int|
                        0 <= a < b < self.dispatched@.len() implies self.dispatched@[a]
                        != self.dispatched@[b] by {
                        if b == self.dispatched@.len() - 1 {
                            assert(self.dispatched@[b] == id);
                            assert(self.dispatched@[a] == pre_dispatched[a]);
                            if pre_dispatched[a] == id {
                                assert(pre_dispatched.contains(id));
                            }
                        } else {
                            assert(self.dispatched@[a] == pre_dispatched[a]);
                            assert(self.dispatched@[b] == pre_dispatched[b]);
                        }
                    }
                }
            } else {
                proof {
                    assert(pre_dispatched.contains(id));
                    let m = choose|m: int|
                        0 <= m < pre_dispatched.len() && pre_dispatched[m] == id;
                    if m < old(self).dispatched@.len() {
                        assert(old(self).dispatched@[m] == id);
                        assert(old(self).spec_dispatched(id));
                    } else {
                        assert(pre_d[m - old(self).dispatched@.len()] == id);
                        assert(d@.contains(id));
                    }
                }
            }
            proof {
                assert forall|j: int|
                    0 <= j < i + 1 && !old(self).spec_dispatched(newly@[j]) implies d@.contains(
                    #[trigger] newly@[j],
                ) by {
                    if j < i {
                        let k = choose|k: int| 0 <= k < pre_d.len() && pre_d[k] == newly@[j];
                        assert(d@[k] == newly@[j]);
                    }
                }
            }
            i += 1;
        }
        d
    }

    /// The outcome of waiting for the next frame batch: a batch of `n`
    /// frames arrived when `ok` holds, the read failed otherwise. The
    /// loop goes on exactly for a successful, non-empty batch; an empty
    /// batch means the peer closed, and a failure is treated the same
    /// way, so the session leaves the running phase for good.
    pub fn on_read(&mut self, ok: bool, n: usize) -> (go_on: bool)
        requires
            old(self).phase is Running,
            old(self).wf(),
        ensures
            go_on == (ok && n > 0),
            go_on ==> *final(self) == *old(self),
            !go_on ==> final(self).phase is Closed,
            final(self).settings_sent == old(self).settings_sent,
            final(self).hpack_max == old(self).hpack_max,
            final(self).dispatched@ == old(self).dispatched@,
            final(self).wf(),
    {
        if ok && n > 0 {
            true
        } else {
            self.phase = Phase::Closed;
            false
        }
    }

    /// Open a session out of an accepted `h2c` upgrade: the handshake the
    /// codec's upgrade path performs is completed with the announced
    /// header-table bound, and the upgrading request itself is dispatched
    /// first, as stream 1, before any other stream.
    pub fn start_h2c() -> (r: (Session, u32))
        ensures
            r.1 == UPGRADE_STREAM_ID,
            r.0.phase is Running,
            r.0.settings_sent,
            r.0.hpack_max == HEADER_TABLE_SIZE,
            r.0.dispatched@ =~= seq![UPGRADE_STREAM_ID],
            r.0.wf(),
    {
        let mut s = Session::new();
        s.complete_init(HEADER_TABLE_SIZE);
        let first: Vec<u32> = vec![UPGRADE_STREAM_ID];
        let d = s.dispatch_batch(&first);
        proof {
            assert(first@ =~= seq![UPGRADE_STREAM_ID]);
            assert(first@.contains(UPGRADE_STREAM_ID)) by {
                assert(first@[0] == UPGRADE_STREAM_ID);
            }
            assert(d@.contains(UPGRADE_STREAM_ID));
            let m = choose|m: int| 0 <= m < d@.len() && d@[m] == UPGRADE_STREAM_ID;
            assert(forall|k: int| 0 <= k < d@.len() ==> first@.contains(#[trigger] d@[k]));
            assert(forall|k: int| 0 <= k < d@.len() ==> d@[k] == UPGRADE_STREAM_ID);
            assert(d@.len() == 1) by {
                if d@.len() > 1 {
                    assert(d@[0] != d@[1]);
                }
            }
            assert(s.dispatched@ =~= seq![UPGRADE_STREAM_ID]);
        }
        (s, UPGRADE_STREAM_ID)
    }
}

/// A stream identifier is dispatched at most once: what two successive
/// frame-batch steps dispatch is disjoint, and each step dispatches only
/// identifiers its own batch made dispatchable and that were never
/// dispatched before.
pub proof fn lemma_dispatch_at_most_once(
    pre: Session,
    mid: Session,
    post: Session,
    newly1: Seq<u32>,
    d1: Seq<u32>,
    newly2: Seq<u32>,
    d2: Seq<u32>,
)
    requires
        mid.dispatched@ == pre.dispatched@ + d1,
        post.dispatched@ == mid.dispatched@ + d2,
        forall|k: int| 0 <= k < d1.len() ==> newly1.contains(#[trigger] d1[k]) && !pre.spec_dispatched(d1[k]),
        forall|k: int| 0 <= k < d2.len() ==> newly2.contains(#[trigger] d2[k]) && !mid.spec_dispatched(d2[k]),
    ensures
        forall|id: u32| !(d1.contains(id) && d2.contains(id)),
        forall|id: u32| #[trigger] d1.contains(id) ==> newly1.contains(id),
        forall|id: u32| #[trigger] d2.contains(id) ==> newly2.contains(id),
{
    assert forall|id: u32| !(d1.contains(id) && d2.contains(id)) by {
        if d1.contains(id) && d2.contains(id) {
            let a = choose|a: int| 0 <= a < d1.len() && d1[a] == id;
            assert(mid.dispatched@[pre.dispatched@.len() + a] == id);
            assert(mid.spec_dispatched(id));
            let b = choose|b: int| 0 <= b < d2.len() && d2[b] == id;
            assert(!mid.spec_dispatched(d2[b]));
        }
    }
}

/// The local SETTINGS frame precedes every stream dispatch: a session
/// that has dispatched anything has sent them.
pub proof fn lemma_settings_before_dispatch(s: Session)
    requires
        s.wf(),
        s.dispatched@.len() > 0,
    ensures
        s.settings_sent,
{
}

} // verus!
