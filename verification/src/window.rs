use vstd::prelude::*;

use crate::models::{PendingPlayerOpen, WindowSizeState};
use crate::text::str_eq;

verus! {

/// The smallest width the main window may take.
pub const WINDOW_MIN_WIDTH: u32 = 1280;

/// The smallest height the main window may take.
pub const WINDOW_MIN_HEIGHT: u32 = 720;

/// The geometry the main window opens with: the minimums shrunk to the
/// screen; the saved size, else a large default on a large screen and the
/// minimum elsewhere; the choice raised to the minimums and capped at the
/// screen.
pub open spec fn spec_initial_window_size(
    screen: Option<(u32, u32)>,
    saved: Option<(u32, u32)>,
) -> (u32, u32, u32, u32) {
    let min_w: u32 = match screen {
        Some((sw, _)) => if WINDOW_MIN_WIDTH < sw {
            WINDOW_MIN_WIDTH
        } else {
            sw
        },
        None => WINDOW_MIN_WIDTH,
    };
    let min_h: u32 = match screen {
        Some((_, sh)) => if WINDOW_MIN_HEIGHT < sh {
            WINDOW_MIN_HEIGHT
        } else {
            sh
        },
        None => WINDOW_MIN_HEIGHT,
    };
    let default: (u32, u32) = match screen {
        Some((sw, sh)) => if sw >= 1920 && sh >= 1080 {
            (1920u32, 1080u32)
        } else {
            (1280u32, 720u32)
        },
        None => (1280u32, 720u32),
    };
    let chosen: (u32, u32) = match saved {
        Some(s) => s,
        None => default,
    };
    let w1: u32 = if chosen.0 > min_w {
        chosen.0
    } else {
        min_w
    };
    let h1: u32 = if chosen.1 > min_h {
        chosen.1
    } else {
        min_h
    };
    let w2: u32 = match screen {
        Some((sw, _)) => if w1 < sw {
            w1
        } else {
            sw
        },
        None => w1,
    };
    let h2: u32 = match screen {
        Some((_, sh)) => if h1 < sh {
            h1
        } else {
            sh
        },
        None => h1,
    };
    (min_w, min_h, w2, h2)
}

/// Chooses the main window's opening geometry: the minimum size to enforce
/// and the size to open at.
pub fn initial_window_size(screen: Option<(u32, u32)>, saved: Option<(u32, u32)>) -> (r: (
    u32,
    u32,
    u32,
    u32,
))
    ensures
        r == spec_initial_window_size(screen, saved),
{
    let min_w: u32 = match screen {
        Some((sw, _)) => if WINDOW_MIN_WIDTH < sw {
            WINDOW_MIN_WIDTH
        } else {
            sw
        },
        None => WINDOW_MIN_WIDTH,
    };
    let min_h: u32 = match screen {
        Some((_, sh)) => if WINDOW_MIN_HEIGHT < sh {
            WINDOW_MIN_HEIGHT
        } else {
            sh
        },
        None => WINDOW_MIN_HEIGHT,
    };
    let default: (u32, u32) = match screen {
        Some((sw, sh)) => if sw >= 1920 && sh >= 1080 {
            (1920u32, 1080u32)
        } else {
            (1280u32, 720u32)
        },
        None => (1280u32, 720u32),
    };
    let chosen: (u32, u32) = match saved {
        Some(s) => s,
        None => default,
    };
    let w1: u32 = if chosen.0 > min_w {
        chosen.0
    } else {
        min_w
    };
    let h1: u32 = if chosen.1 > min_h {
        chosen.1
    } else {
        min_h
    };
    let w2: u32 = match screen {
        Some((sw, _)) => if w1 < sw {
            w1
        } else {
            sw
        },
        None => w1,
    };
    let h2: u32 = match screen {
        Some((_, sh)) => if h1 < sh {
            h1
        } else {
            sh
        },
        None => h1,
    };
    (min_w, min_h, w2, h2)
}

/// Decides whether a resize is worth persisting: a degenerate size and a size
/// already remembered are not; anything else is, and is remembered.
pub fn window_resize_should_save(state: &mut WindowSizeState, width: u32, height: u32) -> (r:
    bool)
    ensures
        r == (width != 0 && height != 0 && old(state).last_saved != Some((width, height))),
        final(state).last_saved == (if r {
            Some((width, height))
        } else {
            old(state).last_saved
        }),
        final(state).last_position == old(state).last_position,
{
    if width == 0 || height == 0 {
        return false;
    }
    match state.last_saved {
        Some((lw, lh)) => {
            if lw == width && lh == height {
                return false;
            }
        },
        None => {},
    }
    state.last_saved = Some((width, height));
    true
}

/// Decides whether a move is worth persisting: a position already remembered
/// is not; anything else is, and is remembered.
pub fn window_move_should_save(state: &mut WindowSizeState, x: i32, y: i32) -> (r: bool)
    ensures
        r == (old(state).last_position != Some((x, y))),
        final(state).last_position == Some((x, y)) || !r,
        final(state).last_position == (if r {
            Some((x, y))
        } else {
            old(state).last_position
        }),
        final(state).last_saved == old(state).last_saved,
{
    match state.last_position {
        Some((lx, ly)) => {
            if lx == x && ly == y {
                return false;
            }
        },
        None => {},
    }
    state.last_position = Some((x, y));
    true
}

pub struct PendingPlayerOpenV {
    pub id: Seq<char>,
    pub file_path: Option<Seq<char>>,
}

impl DeepView for PendingPlayerOpen {
    type V = PendingPlayerOpenV;

    open spec fn deep_view(&self) -> PendingPlayerOpenV {
        PendingPlayerOpenV { id: self.id@, file_path: self.file_path.deep_view() }
    }
}

/// The open requests queued per window label.
pub struct PendingPlayerOpenState {
    pub pending: Vec<(String, PendingPlayerOpen)>,
}

/// The request queued under a label: the first binding, scanning in order.
pub open spec fn pend_get(s: Seq<(Seq<char>, PendingPlayerOpenV)>, k: Seq<char>) -> Option<
    PendingPlayerOpenV,
>
    decreases s.len(),
{
    if s.len() == 0 {
        None
    } else if s[0].0 == k {
        Some(s[0].1)
    } else {
        pend_get(s.drop_first(), k)
    }
}

/// The bindings with every entry for `k` dropped.
pub open spec fn pend_remove(s: Seq<(Seq<char>, PendingPlayerOpenV)>, k: Seq<char>) -> Seq<
    (Seq<char>, PendingPlayerOpenV),
>
    decreases s.len(),
{
    if s.len() == 0 {
        s
    } else if s[0].0 == k {
        pend_remove(s.drop_first(), k)
    } else {
        seq![s[0]] + pend_remove(s.drop_first(), k)
    }
}

/// Removal drops exactly the asked-for label.
pub proof fn lemma_pend_remove(s: Seq<(Seq<char>, PendingPlayerOpenV)>, k: Seq<char>)
    ensures
        pend_get(pend_remove(s, k), k) is None,
        forall|k2: Seq<char>| k2 != k ==> pend_get(pend_remove(s, k), k2) == pend_get(s, k2),
    decreases s.len(),
{
    if s.len() > 0 {
        lemma_pend_remove(s.drop_first(), k);
        if s[0].0 == k {
            assert(pend_remove(s, k) == pend_remove(s.drop_first(), k));
            assert forall|k2: Seq<char>| k2 != k implies pend_get(pend_remove(s, k), k2)
                == pend_get(s, k2) by {
                assert(pend_get(pend_remove(s.drop_first(), k), k2) == pend_get(
                    s.drop_first(),
                    k2,
                ));
                assert(pend_get(s, k2) == pend_get(s.drop_first(), k2));
            }
        } else {
            let r = seq![s[0]] + pend_remove(s.drop_first(), k);
            assert(pend_remove(s, k) == r);
            assert(r[0] == s[0]);
            assert(r.drop_first() =~= pend_remove(s.drop_first(), k));
            assert(pend_get(r, k) is None);
            assert forall|k2: Seq<char>| k2 != k implies pend_get(pend_remove(s, k), k2)
                == pend_get(s, k2) by {
                assert(pend_get(pend_remove(s.drop_first(), k), k2) == pend_get(
                    s.drop_first(),
                    k2,
                ));
                if k2 == s[0].0 {
                    assert(pend_get(r, k2) == Some(r[0].1));
                    assert(pend_get(s, k2) == Some(s[0].1));
                } else {
                    assert(pend_get(r, k2) == pend_get(r.drop_first(), k2));
                    assert(pend_get(s, k2) == pend_get(s.drop_first(), k2));
                }
            }
        }
    }
}

impl DeepView for PendingPlayerOpenState {
    type V = Seq<(Seq<char>, PendingPlayerOpenV)>;

    open spec fn deep_view(&self) -> Seq<(Seq<char>, PendingPlayerOpenV)> {
        Seq::new(
            self.pending@.len(),
            |i: int| (self.pending@[i].0@, self.pending@[i].1.deep_view()),
        )
    }
}

impl PendingPlayerOpenState {
    /// An empty queue.
    pub fn new() -> (r: PendingPlayerOpenState)
        ensures
            r.deep_view() =~= Seq::<(Seq<char>, PendingPlayerOpenV)>::empty(),
    {
        PendingPlayerOpenState { pending: Vec::new() }
    }

    /// How many labels hold a queued request.
    pub fn len(&self) -> (r: usize)
        ensures
            r == self.deep_view().len(),
    {
        self.pending.len()
    }

    /// The request queued under a label.
    #[verifier::loop_isolation(false)]
    pub fn get(&self, label: &str) -> (r: Option<&PendingPlayerOpen>)
        ensures
            match r {
                Some(p) => pend_get(self.deep_view(), label@) == Some(p.deep_view()),
                None => pend_get(self.deep_view(), label@) is None,
            },
    {
        let ghost pv = self.deep_view();
        proof {
            assert(pv.skip(0) =~= pv);
        }
        let n = self.pending.len();
        for i in 0..n
            invariant
                n == self.pending@.len(),
                pv == self.deep_view(),
                pend_get(pv, label@) == pend_get(pv.skip(i as int), label@),
        {
            proof {
                assert(pv.skip(i as int)[0] == pv[i as int]);
                assert(pv.skip(i as int).drop_first() =~= pv.skip(i as int + 1));
            }
            if str_eq(self.pending[i].0.as_str(), label) {
                return Some(&self.pending[i].1);
            }
        }
        proof {
            assert(pv.skip(n as int) =~= Seq::<(Seq<char>, PendingPlayerOpenV)>::empty());
        }
        None
    }

    /// Drops whatever is queued under a label, handing it back.
    #[verifier::loop_isolation(false)]
    pub fn take(&mut self, label: &str) -> (r: Option<PendingPlayerOpen>)
        ensures
            r.deep_view() == pend_get(old(self).deep_view(), label@),
            final(self).deep_view() == pend_remove(old(self).deep_view(), label@),
    {
        let taken = match self.get(label) {
            Some(p) => Some(
                PendingPlayerOpen {
                    id: p.id.clone(),
                    file_path: match &p.file_path {
                        Some(f) => Some(f.clone()),
                        None => None,
                    },
                },
            ),
            None => None,
        };
        let ghost pv = self.deep_view();
        let n = self.pending.len();
        let mut kept: Vec<(String, PendingPlayerOpen)> = Vec::new();
        proof {
            assert(Seq::new(kept@.len(), |i: int| (kept@[i].0@, kept@[i].1.deep_view())) =~= Seq::<
                (Seq<char>, PendingPlayerOpenV),
            >::empty());
            assert(pv.skip(0) =~= pv);
            assert(Seq::new(kept@.len(), |i: int| (kept@[i].0@, kept@[i].1.deep_view()))
                + pend_remove(pv, label@) =~= pend_remove(pv, label@));
        }
        for i in 0..n
            invariant
                n == self.pending@.len(),
                pv == self.deep_view(),
                pend_remove(pv, label@) == Seq::new(
                    kept@.len(),
                    |t: int| (kept@[t].0@, kept@[t].1.deep_view()),
                ) + pend_remove(pv.skip(i as int), label@),
        {
            let ghost kv = Seq::new(kept@.len(), |t: int| (kept@[t].0@, kept@[t].1.deep_view()));
            proof {
                assert(pv.skip(i as int)[0] == pv[i as int]);
                assert(pv.skip(i as int).drop_first() =~= pv.skip(i as int + 1));
            }
            if !str_eq(self.pending[i].0.as_str(), label) {
                let pair = (
                    self.pending[i].0.clone(),
                    PendingPlayerOpen {
                        id: self.pending[i].1.id.clone(),
                        file_path: match &self.pending[i].1.file_path {
                            Some(f) => Some(f.clone()),
                            None => None,
                        },
                    },
                );
                kept.push(pair);
                proof {
                    let kv2 = Seq::new(
                        kept@.len(),
                        |t: int| (kept@[t].0@, kept@[t].1.deep_view()),
                    );
                    assert(kv2 =~= kv + seq![pv[i as int]]);
                    assert(kv2 + pend_remove(pv.skip(i as int + 1), label@) =~= kv + (seq![
                        pv[i as int],
                    ] + pend_remove(pv.skip(i as int + 1), label@)));
                }
            }
        }
        proof {
            assert(pv.skip(n as int) =~= Seq::<(Seq<char>, PendingPlayerOpenV)>::empty());
            assert(Seq::new(kept@.len(), |t: int| (kept@[t].0@, kept@[t].1.deep_view()))
                + pend_remove(Seq::<(Seq<char>, PendingPlayerOpenV)>::empty(), label@) =~= Seq::new(
                kept@.len(),
                |t: int| (kept@[t].0@, kept@[t].1.deep_view()),
            ));
        }
        self.pending = kept;
        taken
    }

    /// Queues a request under a label, replacing an older one.
    pub fn insert(&mut self, label: &str, request: PendingPlayerOpen)
        ensures
            pend_get(final(self).deep_view(), label@) == Some(request.deep_view()),
            forall|k2: Seq<char>|
                k2 != label@ ==> pend_get(final(self).deep_view(), k2) == pend_get(
                    old(self).deep_view(),
                    k2,
                ),
    {
        let ghost pv = self.deep_view();
        let _ = self.take(label);
        let ghost removed = self.deep_view();
        let ghost rv = request.deep_view();
        let pair = (label.to_owned(), request);
        self.pending.push(pair);
        proof {
            assert(self.deep_view() =~= removed + seq![(label@, rv)]);
            lemma_pend_remove(pv, label@);
            lemma_pend_get_push(removed, label@, rv, label@);
            assert forall|k2: Seq<char>| k2 != label@ implies pend_get(self.deep_view(), k2)
                == pend_get(pv, k2) by {
                lemma_pend_get_push(removed, label@, rv, k2);
            }
        }
    }
}

/// Appending a fresh binding serves lookups that found nothing before.
pub proof fn lemma_pend_get_push(
    s: Seq<(Seq<char>, PendingPlayerOpenV)>,
    k: Seq<char>,
    v: PendingPlayerOpenV,
    k2: Seq<char>,
)
    ensures
        pend_get(s + seq![(k, v)], k2) == (match pend_get(s, k2) {
            Some(p) => Some(p),
            None => if k2 == k {
                Some(v)
            } else {
                None
            },
        }),
    decreases s.len(),
{
    if s.len() == 0 {
        let r = s + seq![(k, v)];
        assert(r[0] == (k, v));
        assert(r.drop_first() =~= Seq::<(Seq<char>, PendingPlayerOpenV)>::empty());
        assert(pend_get(r.drop_first(), k2) is None);
    } else {
        lemma_pend_get_push(s.drop_first(), k, v, k2);
        let r = s + seq![(k, v)];
        assert(r[0] == s[0]);
        assert(r.drop_first() =~= s.drop_first() + seq![(k, v)]);
        if k2 == s[0].0 {
            assert(pend_get(r, k2) == Some(r[0].1));
            assert(pend_get(s, k2) == Some(s[0].1));
        } else {
            assert(pend_get(r, k2) == pend_get(r.drop_first(), k2));
            assert(pend_get(s, k2) == pend_get(s.drop_first(), k2));
            assert(pend_get(r.drop_first(), k2) == pend_get(s.drop_first() + seq![(k, v)], k2));
        }
    }
}

/// Queues a player-open request for a window that is still starting.
pub fn set_pending_player_open(
    state: &mut PendingPlayerOpenState,
    label: &str,
    id: String,
    file_path: Option<String>,
)
    ensures
        pend_get(final(state).deep_view(), label@) == Some(
            PendingPlayerOpenV { id: id@, file_path: file_path.deep_view() },
        ),
        forall|k2: Seq<char>|
            k2 != label@ ==> pend_get(final(state).deep_view(), k2) == pend_get(
                old(state).deep_view(),
                k2,
            ),
{
    let ghost expected = PendingPlayerOpenV { id: id@, file_path: file_path.deep_view() };
    let request = PendingPlayerOpen { id, file_path };
    proof {
        assert(request.deep_view() == expected);
    }
    state.insert(label, request);
}

/// Hands out and clears whatever was queued for a window.
pub fn take_pending_player_open(state: &mut PendingPlayerOpenState, label: &str) -> (r: Option<
    PendingPlayerOpen,
>)
    ensures
        r.deep_view() == pend_get(old(state).deep_view(), label@),
        final(state).deep_view() == pend_remove(old(state).deep_view(), label@),
{
    state.take(label)
}

} // verus!
