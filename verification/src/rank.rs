//! Dense ranking of final scores, highest score first.

use vstd::prelude::*;
use crate::messages::{Score, ScoreV, view_scores};

verus! {

broadcast use {
    vstd::seq_lib::group_to_multiset_ensures,
    vstd::multiset::group_multiset_axioms,
};

/// A well-formed scoreboard: scores never increase down the board, the first
/// rank is one, tied scores share a rank, and the rank after a strictly
/// smaller score is the previous rank plus one.
pub open spec fn scoreboard_wf(s: Seq<ScoreV>) -> bool {
    &&& (s.len() > 0 ==> s[0].rank == 1)
    &&& forall|i: int| 0 < i < s.len() ==> s[i - 1].score >= #[trigger] s[i].score
    &&& forall|i: int|
        0 < i < s.len() ==> #[trigger] s[i].rank == if s[i].score == s[i - 1].score {
            s[i - 1].rank as int
        } else {
            s[i - 1].rank + 1
        }
}

/// The pair a scoreboard row was made from.
pub open spec fn score_pair(s: Score) -> (String, u32) {
    (s.nickname, s.score)
}

/// The model of a scoreboard row: nickname characters and score.
pub open spec fn row_pair(s: Score) -> (Seq<char>, u32) {
    (s.nickname@, s.score)
}

/// The model of one input entry: nickname characters and score.
pub open spec fn entry_pair(p: (String, u32)) -> (Seq<char>, u32) {
    (p.0@, p.1)
}

/// Index of an entry with the greatest score.
fn find_max(entries: &Vec<(String, u32)>) -> (m: usize)
    requires
        entries@.len() > 0,
    ensures
        m < entries@.len(),
        forall|k: int| 0 <= k < entries@.len() ==> entries@[k].1 <= entries@[m as int].1,
{
    let mut m: usize = 0;
    let n = entries.len();
    let mut i: usize = 1;
    while i < n
        invariant
            n == entries@.len(),
            m < i <= n,
            forall|k: int| 0 <= k < i ==> entries@[k].1 <= entries@[m as int].1,
        decreases n - i,
    {
        if entries[i].1 > entries[m].1 {
            m = i;
        }
        i = i + 1;
    }
    m
}

/// Rank the given (nickname, score) entries: sort by score descending and
/// assign dense one-based ranks, tied scores sharing a rank. The rows of the
/// result carry exactly the given entries, reordered.
#[verifier::loop_isolation(false)]
pub fn compute_scores(entries: Vec<(String, u32)>) -> (r: Vec<Score>)
    requires
        entries@.len() < 0xffff_ffff,
    ensures
        r@.len() == entries@.len(),
        scoreboard_wf(view_scores(r@)),
        r@.map_values(|s: Score| score_pair(s)).to_multiset() == entries@.to_multiset(),
        r@.map_values(|s: Score| row_pair(s)).to_multiset() == entries@.map_values(
            |p: (String, u32)| entry_pair(p),
        ).to_multiset(),
{
    let ghost m0 = entries@.to_multiset();
    let ghost m0v = entries@.map_values(|p: (String, u32)| entry_pair(p)).to_multiset();
    let ghost n0 = entries@.len();
    let mut rest = entries;
    let mut out: Vec<Score> = Vec::new();
    let mut rank: u32 = 0;
    let mut prev_score: u32 = 0;
    while rest.len() > 0
        invariant
            out@.len() + rest@.len() == n0,
            out@.map_values(|s: Score| score_pair(s)).to_multiset().add(rest@.to_multiset())
                == m0,
            out@.map_values(|s: Score| row_pair(s)).to_multiset().add(
                rest@.map_values(|p: (String, u32)| entry_pair(p)).to_multiset(),
            ) == m0v,
            scoreboard_wf(view_scores(out@)),
            rank as int <= out@.len(),
            out@.len() > 0 ==> rank == out@[out@.len() - 1].rank && prev_score == out@[out@.len()
                - 1].score,
            forall|k: int|
                0 <= k < rest@.len() && out@.len() > 0 ==> #[trigger] rest@[k].1 <= prev_score,
        decreases rest@.len(),
    {
        let ghost out0 = out@;
        let ghost out_pairs = out@.map_values(|s: Score| score_pair(s));
        let ghost out_rows = out@.map_values(|s: Score| row_pair(s));
        let ghost rest0 = rest@;
        let ghost rank0 = rank;
        let ghost prev0 = prev_score;
        let m = find_max(&rest);
        let e = rest.remove(m);
        let ghost x = rest0[m as int];
        if out.len() == 0 {
            rank = 1;
        } else if e.1 < prev_score {
            rank = rank + 1;
        }
        prev_score = e.1;
        let s = Score { rank, nickname: e.0, score: e.1 };
        proof {
            assert(e == x);
            assert(score_pair(s) == x);
            assert(rest0.to_multiset().count(x) > 0) by {
                assert(rest0.contains(x)) by {
                    assert(rest0[m as int] == x);
                }
            }
            assert(rest@.to_multiset() == rest0.to_multiset().remove(x));

            let xv = entry_pair(x);
            let rows0 = rest0.map_values(|p: (String, u32)| entry_pair(p));
            assert(rest@.map_values(|p: (String, u32)| entry_pair(p)) =~= rows0.remove(m as int));
            assert(rows0[m as int] == xv);
            assert(rows0.to_multiset().count(xv) > 0) by {
                assert(rows0.contains(xv)) by {
                    assert(rows0[m as int] == xv);
                }
            }
            assert(rows0.remove(m as int).to_multiset() == rows0.to_multiset().remove(xv));
        }
        out.push(s);
        proof {
            assert(out@.map_values(|s2: Score| score_pair(s2)) =~= out_pairs.push(x));
            assert(out_pairs.push(x).to_multiset() == out_pairs.to_multiset().insert(x));
            assert(out_pairs.to_multiset().insert(x).add(rest0.to_multiset().remove(x)) =~= m0);

            let xv = entry_pair(x);
            let rows0 = rest0.map_values(|p: (String, u32)| entry_pair(p));
            assert(row_pair(s) == xv);
            assert(out@.map_values(|s2: Score| row_pair(s2)) =~= out_rows.push(xv));
            assert(out_rows.push(xv).to_multiset() == out_rows.to_multiset().insert(xv));
            assert(out_rows.to_multiset().insert(xv).add(rows0.to_multiset().remove(xv)) =~= m0v);

            let vs = view_scores(out@);
            let vs0 = view_scores(out0);
            assert(vs =~= vs0.push(s@));
            assert(vs.len() > 0 && vs[0].rank == 1) by {
                if out0.len() == 0 {
                    assert(vs[0] == s@);
                } else {
                    assert(vs[0] == vs0[0]);
                }
            }
            assert forall|i: int|
                0 < i < vs.len() implies vs[i - 1].score >= #[trigger] vs[i].score && vs[i].rank
                == (if vs[i].score == vs[i - 1].score {
                vs[i - 1].rank as int
            } else {
                vs[i - 1].rank + 1
            }) by {
                if i < vs.len() - 1 {
                    assert(vs[i - 1] == vs0[i - 1]);
                    assert(vs[i] == vs0[i]);
                } else {
                    assert(vs[i] == s@);
                    assert(vs[i - 1] == vs0[out0.len() - 1]);
                    assert(vs0[out0.len() - 1].rank == rank0);
                    assert(vs0[out0.len() - 1].score == prev0);
                    assert(e.1 <= prev0);
                }
            }
            assert(scoreboard_wf(vs));

            assert forall|k: int|
                0 <= k < rest@.len() implies #[trigger] rest@[k].1 <= prev_score by {
                if k < m {
                    assert(rest@[k] == rest0[k]);
                } else {
                    assert(rest@[k] == rest0[k + 1]);
                }
                assert(prev_score == rest0[m as int].1);
            }
        }
    }
    proof {
        let pairs = out@.map_values(|s: Score| score_pair(s)).to_multiset();
        assert forall|x: (String, u32)| pairs.count(x) == m0.count(x) by {
            assert(!rest@.contains(x));
            assert(rest@.to_multiset().count(x) == 0);
            assert(pairs.add(rest@.to_multiset()).count(x) == pairs.count(x) + rest@.to_multiset().count(x));
        }
        assert(pairs =~= m0);

        let rows = out@.map_values(|s: Score| row_pair(s)).to_multiset();
        let rrows = rest@.map_values(|p: (String, u32)| entry_pair(p));
        assert forall|x: (Seq<char>, u32)| rows.count(x) == m0v.count(x) by {
            assert(rrows.len() == 0);
            assert(!rrows.contains(x));
            assert(rrows.to_multiset().count(x) == 0);
            assert(rows.add(rrows.to_multiset()).count(x) == rows.count(x) + rrows.to_multiset().count(x));
        }
        assert(rows =~= m0v);
    }
    out
}

} // verus!
