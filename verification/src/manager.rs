//! The room registry: one entry per live game loop, keyed by game code.

use vstd::prelude::*;
use crate::code::GameCode;
use crate::settings::GameMode;

verus! {

/// One registry entry: the room's code, its mode, and the caller's handle
/// for the loop's inbound mailbox.
pub type GameEntry = (GameCode, GameMode, u64);

/// Whether some entry carries this code.
pub open spec fn has_code(s: Seq<GameEntry>, code: GameCode) -> bool {
    exists|i: int| 0 <= i < s.len() && s[i].0 == code
}

/// Codes are unique: each maps to exactly one live loop.
pub open spec fn registry_wf(s: Seq<GameEntry>) -> bool {
    forall|i: int, j: int| 0 <= i < j < s.len() ==> s[i].0 != s[j].0
}

/// The entries kept when the room under `code` is reaped.
pub open spec fn keep_pred(code: GameCode) -> spec_fn(GameEntry) -> bool {
    |e: GameEntry| e.0 != code
}

/// The registry of live rooms. The caller owns the actual mailboxes, keyed
/// by the `u64` handles stored here.
#[derive(Debug)]
pub struct GameManager {
    games: Vec<GameEntry>,
}

impl GameManager {
    /// The registry as a sequence of entries.
    pub closed spec fn view(&self) -> Seq<GameEntry> {
        self.games@
    }

    /// An empty registry.
    pub fn new() -> (r: Self)
        ensures
            r@.len() == 0,
            registry_wf(r@),
    {
        GameManager { games: Vec::new() }
    }

    /// Register a new room under `code`. Fails, changing nothing, when the
    /// code is already taken; the caller retries with a fresh random code.
    #[verifier::loop_isolation(false)]
    pub fn add_game(&mut self, code: GameCode, mode: GameMode, handle: u64) -> (ok: bool)
        requires
            registry_wf(old(self)@),
        ensures
            ok == !has_code(old(self)@, code),
            ok ==> final(self)@ == old(self)@.push((code, mode, handle)),
            !ok ==> final(self)@ == old(self)@,
            registry_wf(final(self)@),
    {
        let n = self.games.len();
        let mut i: usize = 0;
        while i < n
            invariant
                n == self.games@.len(),
                i <= n,
                forall|j: int| 0 <= j < i ==> self.games@[j].0 != code,
            decreases n - i,
        {
            if self.games[i].0.value() == code.value() {
                proof {
                    assert(self.games@[i as int].0 == code);
                    assert(has_code(self@, code));
                }
                return false;
            }
            i = i + 1;
        }
        self.games.push((code, mode, handle));
        true
    }

    /// The mode and mailbox handle of the room with this code, if any.
    #[verifier::loop_isolation(false)]
    pub fn get_game(&self, code: GameCode) -> (r: Option<(GameMode, u64)>)
        ensures
            match r {
                Some((mode, handle)) => exists|i: int|
                    0 <= i < self@.len() && self@[i] == (code, mode, handle),
                None => !has_code(self@, code),
            },
    {
        let n = self.games.len();
        let mut i: usize = 0;
        while i < n
            invariant
                n == self.games@.len(),
                i <= n,
                forall|j: int| 0 <= j < i ==> self.games@[j].0 != code,
            decreases n - i,
        {
            let (c, mode, handle) = self.games[i];
            if c.value() == code.value() {
                proof {
                    assert(self@[i as int] == (code, mode, handle));
                }
                return Some((mode, handle));
            }
            i = i + 1;
        }
        None
    }

    /// Drop the entry for this code, if any: the loop has ended and the room
    /// is reaped. Other entries are kept as they are.
    #[verifier::loop_isolation(false)]
    pub fn remove_game(&mut self, code: GameCode)
        requires
            registry_wf(old(self)@),
        ensures
            final(self)@ == old(self)@.filter(keep_pred(code)),
            !has_code(final(self)@, code),
            registry_wf(final(self)@),
    {
        let ghost g0 = self.games@;
        let ghost pred = keep_pred(code);
        let n = self.games.len();
        let mut out: Vec<GameEntry> = Vec::new();
        let mut i: usize = 0;
        proof {
            reveal(Seq::filter);
            assert(g0.take(0).filter(pred) =~= Seq::<GameEntry>::empty());
        }
        while i < n
            invariant
                n == g0.len(),
                self.games@ == g0,
                registry_wf(g0),
                i <= n,
                out@ == g0.take(i as int).filter(pred),
                registry_wf(out@),
                forall|k: int| 0 <= k < out@.len() ==> (#[trigger] out@[k]).0 != code,
                forall|k: int|
                    0 <= k < out@.len() ==> exists|j: int| 0 <= j < i && #[trigger] out@[k] == g0[j],
            decreases n - i,
        {
            proof {
                reveal(Seq::filter);
                assert(g0.take(i as int + 1).drop_last() =~= g0.take(i as int));
                assert(g0.take(i as int + 1).last() == g0[i as int]);
            }
            let ghost out0 = out@;
            let (c, mode, handle) = self.games[i];
            if c.value() != code.value() {
                out.push((c, mode, handle));
                proof {
                    assert((c, mode, handle) == g0[i as int]);
                    assert(pred(g0[i as int]));
                    assert forall|k: int|
                        0 <= k < out@.len() implies exists|j: int|
                        0 <= j < i + 1 && #[trigger] out@[k] == g0[j] by {
                        if k < out0.len() {
                            assert(out@[k] == out0[k]);
                        } else {
                            assert(out@[k] == g0[i as int]);
                        }
                    }
                    assert forall|a: int, b: int|
                        0 <= a < b < out@.len() implies (#[trigger] out@[a]).0
                        != (#[trigger] out@[b]).0 by {
                        if b == out0.len() {
                            let j = choose|j: int| 0 <= j < i && out0[a] == g0[j];
                            assert(out@[a] == g0[j]);
                            assert(out@[b] == g0[i as int]);
                            assert(g0[j].0 != g0[i as int].0);
                        } else {
                            assert(out@[a] == out0[a]);
                            assert(out@[b] == out0[b]);
                        }
                    }
                }
            } else {
                proof {
                    assert(!pred(g0[i as int]));
                }
            }
            i = i + 1;
        }
        self.games = out;
        proof {
            assert(g0.take(n as int) =~= g0);
        }
    }
}

} // verus!
