//! Leaderboard ranks: ordering a guild's profiles by XP and recording rank history.
use crate::leveling::{LevelingError, ProfileView, UserProfile};
use crate::leveling_ops::LevelingService;
use vstd::prelude::*;

verus! {

/// The views of a sequence of profiles.
pub open spec fn profiles_view(v: Seq<UserProfile>) -> Seq<ProfileView> {
    v.map_values(|p: UserProfile| p@)
}

/// Where `x` goes in an XP-descending list: before the first profile with less XP.
pub open spec fn insert_pos(s: Seq<ProfileView>, x: ProfileView) -> int
    decreases s.len(),
{
    if s.len() == 0 {
        0
    } else if s[0].total_xp < x.total_xp {
        0
    } else {
        1 + insert_pos(s.drop_first(), x)
    }
}

/// Profiles ordered by XP, most first; equal XP keeps the order given.
pub open spec fn by_xp(s: Seq<ProfileView>) -> Seq<ProfileView>
    decreases s.len(),
{
    if s.len() == 0 {
        s
    } else {
        let t = by_xp(s.drop_last());
        t.insert(insert_pos(t, s.last()), s.last())
    }
}

/// A profile's rank fields once it holds `rank`.
pub open spec fn ranked(p: ProfileView, rank: u32) -> ProfileView {
    ProfileView {
        best_rank: if rank < p.best_rank { rank } else { p.best_rank },
        rank_improvement: if p.previous_rank != 999 && p.previous_rank > rank && (p.previous_rank - rank)
            > p.rank_improvement {
            (p.previous_rank - rank) as u32
        } else {
            p.rank_improvement
        },
        previous_rank: rank,
        ..p
    }
}

/// Non-increasing XP along the sequence.
pub open spec fn xp_descending(s: Seq<ProfileView>) -> bool {
    forall|i: int, j: int| 0 <= i < j < s.len() ==> s[i].total_xp >= s[j].total_xp
}

proof fn lemma_insert_pos_bounds(s: Seq<ProfileView>, x: ProfileView)
    ensures
        0 <= insert_pos(s, x) <= s.len(),
        forall|k: int| 0 <= k < insert_pos(s, x) ==> s[k].total_xp >= x.total_xp,
        insert_pos(s, x) < s.len() ==> s[insert_pos(s, x)].total_xp < x.total_xp,
    decreases s.len(),
{
    if s.len() > 0 && s[0].total_xp >= x.total_xp {
        lemma_insert_pos_bounds(s.drop_first(), x);
        assert forall|k: int| 0 <= k < insert_pos(s, x) implies s[k].total_xp >= x.total_xp by {
            if k > 0 {
                assert(s[k] == s.drop_first()[k - 1]);
            }
        }
    }
}

/// The XP order really is sorted, most XP first.
pub proof fn lemma_by_xp_sorted(s: Seq<ProfileView>)
    ensures
        xp_descending(by_xp(s)),
        by_xp(s).len() == s.len(),
    decreases s.len(),
{
    if s.len() > 0 {
        let t = by_xp(s.drop_last());
        lemma_by_xp_sorted(s.drop_last());
        let x = s.last();
        let k = insert_pos(t, x);
        lemma_insert_pos_bounds(t, x);
        let u = t.insert(k, x);
        assert forall|i: int, j: int| 0 <= i < j < u.len() implies u[i].total_xp >= u[j].total_xp by {
            if j < k {
            } else if i > k {
                assert(u[i] == t[i - 1] && u[j] == t[j - 1]);
            } else if i == k {
                assert(u[j] == t[j - 1]);
                assert(t[k].total_xp < x.total_xp);
                if j - 1 > k {
                    assert(t[k].total_xp >= t[j - 1].total_xp);
                }
            } else {
                assert(i < k);
                if j == k {
                } else {
                    assert(u[j] == t[j - 1]);
                    assert(t[i].total_xp >= t[j - 1].total_xp);
                }
            }
        }
    }
}

/// The XP order holds exactly the given profiles.
pub proof fn lemma_by_xp_permutation(s: Seq<ProfileView>)
    ensures
        by_xp(s).to_multiset() =~= s.to_multiset(),
    decreases s.len(),
{
    broadcast use vstd::multiset::group_multiset_axioms, vstd::seq_lib::group_to_multiset_ensures;
    if s.len() > 0 {
        let t = by_xp(s.drop_last());
        lemma_by_xp_permutation(s.drop_last());
        lemma_insert_pos_bounds(t, s.last());
        let k = insert_pos(t, s.last());
        vstd::seq_lib::lemma_seq_union_to_multiset_commutative(t.subrange(0, k), t.subrange(k, t.len() as int));
        assert(t.insert(k, s.last()) =~= t.subrange(0, k).push(s.last()) + t.subrange(k, t.len() as int));
        assert(t =~= t.subrange(0, k) + t.subrange(k, t.len() as int));
        vstd::seq_lib::lemma_multiset_commutative(t.subrange(0, k).push(s.last()), t.subrange(k, t.len() as int));
        vstd::seq_lib::lemma_multiset_commutative(t.subrange(0, k), t.subrange(k, t.len() as int));
        assert(s =~= s.drop_last().push(s.last()));
    }
}

/// Profiles in XP order with their rank fields updated (rank 1 holds the most XP).
pub open spec fn reranked(s: Seq<ProfileView>) -> Seq<ProfileView> {
    let t = by_xp(s);
    Seq::new(t.len(), |k: int| ranked(t[k], (k + 1) as u32))
}

/// What re-ranking records for each profile, in XP order: its new rank as the previous
/// rank, the better of its best rank and the new one, and a rank improvement that never
/// goes down. A profile never ranked before (previous rank 999) keeps its improvement;
/// one that climbs from a real previous rank records the climb when it beats the best so far.
pub proof fn lemma_rank_history(s: Seq<ProfileView>)
    requires
        s.len() < u32::MAX,
    ensures
        reranked(s).len() == s.len(),
        forall|k: int|
            0 <= k < s.len() ==> {
                let before = #[trigger] by_xp(s)[k];
                let after = reranked(s)[k];
                let rank = k + 1;
                &&& after.previous_rank == rank
                &&& after.best_rank == (if rank < before.best_rank { rank } else { before.best_rank as int })
                &&& after.rank_improvement >= before.rank_improvement
                &&& before.previous_rank == 999 ==> after.rank_improvement == before.rank_improvement
                &&& before.previous_rank <= rank ==> after.rank_improvement == before.rank_improvement
                &&& (before.previous_rank != 999 && before.previous_rank - rank > before.rank_improvement)
                    ==> after.rank_improvement == before.previous_rank - rank
                &&& after.total_xp == before.total_xp
                &&& after.user_id == before.user_id
            },
{
    lemma_by_xp_sorted(s);
    assert forall|k: int| 0 <= k < s.len() implies ({
        let before = #[trigger] by_xp(s)[k];
        let after = reranked(s)[k];
        let rank = k + 1;
        &&& after.previous_rank == rank
        &&& after.best_rank == (if rank < before.best_rank { rank } else { before.best_rank as int })
        &&& after.rank_improvement >= before.rank_improvement
        &&& before.previous_rank == 999 ==> after.rank_improvement == before.rank_improvement
        &&& before.previous_rank <= rank ==> after.rank_improvement == before.rank_improvement
        &&& (before.previous_rank != 999 && before.previous_rank - rank > before.rank_improvement)
            ==> after.rank_improvement == before.previous_rank - rank
        &&& after.total_xp == before.total_xp
        &&& after.user_id == before.user_id
    }) by {
        assert(((k + 1) as u32) as int == k + 1);
        assert(reranked(s)[k] == ranked(by_xp(s)[k], (k + 1) as u32));
    }
}

fn take_first(v: &mut Vec<UserProfile>) -> (x: UserProfile)
    requires
        old(v).len() > 0,
    ensures
        x == old(v)@[0],
        final(v)@ == old(v)@.drop_first(),
{
    v.remove(0)
}

fn position_for(out: &Vec<UserProfile>, xp: u64, Ghost(x): Ghost<ProfileView>) -> (k: usize)
    requires
        x.total_xp == xp,
    ensures
        k == insert_pos(profiles_view(out@), x),
{
    let ghost sv = profiles_view(out@);
    let mut k: usize = 0;
    assert(sv.skip(0) =~= sv);
    while k < out.len()
        invariant
            k <= out.len(),
            sv == profiles_view(out@),
            x.total_xp == xp,
            insert_pos(sv, x) == k + insert_pos(sv.skip(k as int), x),
        decreases out.len() - k,
    {
        assert(sv.skip(k as int)[0] == sv[k as int]);
        assert(sv.skip(k as int).drop_first() =~= sv.skip(k + 1));
        if out[k].total_xp < xp {
            return k;
        }
        k = k + 1;
    }
    assert(sv.skip(k as int).len() == 0);
    k
}

impl LevelingService {
    /// Orders a guild's profiles by XP (most first, ties in the given order) and updates
    /// each profile's best rank, rank improvement and previous rank. Every returned profile
    /// is to be saved.
    pub fn recalculate_and_update_ranks(&self, guild_id: u64, profiles: Vec<UserProfile>) -> (r: Result<
        Vec<UserProfile>,
        LevelingError,
    >)
        requires
            profiles.len() < u32::MAX,
        ensures
            guild_id == 0 ==> r matches Err(LevelingError::InvalidId),
            guild_id != 0 ==> (r matches Ok(v) && profiles_view(v@) == reranked(
                profiles_view(profiles@),
            )),
    {
        if guild_id == 0 {
            return Err(LevelingError::InvalidId);
        }
        let ghost input = profiles_view(profiles@);
        let mut rest = profiles;
        let mut sorted: Vec<UserProfile> = Vec::new();
        let ghost mut n: int = 0;
        while rest.len() > 0
            invariant
                0 <= n <= input.len(),
                profiles_view(rest@) == input.skip(n),
                profiles_view(sorted@) == by_xp(input.take(n)),
            decreases rest.len(),
        {
            let ghost old_rest = rest@;
            let x = take_first(&mut rest);
            proof {
                assert(profiles_view(old_rest)[0] == old_rest[0]@);
                assert(input.skip(n)[0] == x@);
                assert(profiles_view(rest@) =~= profiles_view(old_rest).drop_first());
                assert(profiles_view(rest@) =~= input.skip(n + 1));
                assert(input.take(n + 1).drop_last() =~= input.take(n));
                assert(input.take(n + 1).last() == x@);
            }
            let k = position_for(&sorted, x.total_xp, Ghost(x@));
            proof {
                lemma_insert_pos_bounds(profiles_view(sorted@), x@);
            }
            let ghost before = sorted@;
            sorted.insert(k, x);
            proof {
                assert(profiles_view(sorted@) =~= profiles_view(before).insert(k as int, x@));
                n = n + 1;
            }
        }
        assert(input.take(n) =~= input) by {
            assert(input.skip(n).len() == 0);
        }
        let ghost t = by_xp(input);
        proof {
            lemma_by_xp_sorted(input);
        }
        let mut result: Vec<UserProfile> = Vec::new();
        let mut rank: u32 = 1;
        while sorted.len() > 0
            invariant
                1 <= rank,
                rank - 1 <= t.len(),
                t.len() == input.len(),
                input.len() < u32::MAX,
                profiles_view(sorted@) == t.skip(rank - 1),
                profiles_view(result@) == Seq::new(
                    (rank - 1) as nat,
                    |k: int| ranked(t[k], (k + 1) as u32),
                ),
            decreases sorted.len(),
        {
            let ghost old_sorted = sorted@;
            let mut p = take_first(&mut sorted);
            proof {
                assert(profiles_view(old_sorted)[0] == old_sorted[0]@);
                assert(t.skip(rank - 1)[0] == p@);
                assert(profiles_view(sorted@) =~= profiles_view(old_sorted).drop_first());
                assert(profiles_view(sorted@) =~= t.skip(rank as int));
            }
            let ghost pv = p@;
            let previous_rank = p.previous_rank;
            let best_rank = p.best_rank;
            if rank < best_rank {
                p.best_rank = rank;
            }
            if previous_rank != 999 && previous_rank > rank {
                let improvement = previous_rank - rank;
                if improvement > p.rank_improvement {
                    p.rank_improvement = improvement;
                }
            }
            p.previous_rank = rank;
            assert(p@ =~= ranked(pv, rank));
            let ghost before = result@;
            let ghost pnew = p@;
            assert(pv == t[rank - 1]);
            result.push(p);
            proof {
                assert(profiles_view(result@) =~= profiles_view(before).push(pnew));
                assert(((rank - 1) + 1) as u32 == rank);
                assert(profiles_view(result@) =~= Seq::new(
                    rank as nat,
                    |k: int| ranked(t[k], (k + 1) as u32),
                ));
            }
            rank = rank + 1;
        }
        assert(profiles_view(result@) =~= reranked(input));
        Ok(result)
    }
}

} // verus!
