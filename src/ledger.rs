//! The submission ledger of one task: each worker's vote in arrival order,
//! and the per-hash vote counts kept up to date with every vote.
use vstd::prelude::*;

use crate::bytes::bytes_eq;

verus! {

/// One worker's vote: the digest it computed for the task.
#[derive(Clone, Debug, PartialEq, Eq)]
pub struct Submission {
    pub worker: Vec<u8>,
    pub hash: Vec<u8>,
}

impl View for Submission {
    type V = (Seq<u8>, Seq<u8>);

    open spec fn view(&self) -> (Seq<u8>, Seq<u8>) {
        (self.worker@, self.hash@)
    }
}

/// The number of workers that voted for one digest.
#[derive(Clone, Debug, PartialEq, Eq)]
pub struct HashTally {
    pub hash: Vec<u8>,
    pub count: usize,
}

/// Votes as (worker, digest) pairs, in arrival order.
pub open spec fn submissions_view(s: Seq<Submission>) -> Seq<(Seq<u8>, Seq<u8>)> {
    s.map_values(|x: Submission| x@)
}

/// How many of `subs` voted for digest `h`.
pub open spec fn votes_for(subs: Seq<(Seq<u8>, Seq<u8>)>, h: Seq<u8>) -> nat
    decreases subs.len(),
{
    if subs.len() == 0 {
        0
    } else {
        votes_for(subs.drop_last(), h) + if subs.last().1 == h {
            1nat
        } else {
            0nat
        }
    }
}

/// Whether worker `w` has a vote in `subs`.
pub open spec fn has_submitted(subs: Seq<(Seq<u8>, Seq<u8>)>, w: Seq<u8>) -> bool {
    exists|i: int| 0 <= i < subs.len() && #[trigger] subs[i].0 == w
}

/// No worker appears twice in `subs`.
pub open spec fn workers_distinct(subs: Seq<(Seq<u8>, Seq<u8>)>) -> bool {
    forall|i: int, j: int| 0 <= i < j < subs.len() ==> #[trigger] subs[i].0 != #[trigger] subs[j].0
}

/// The vote count of every digest that received at least one vote.
pub open spec fn frequencies(subs: Seq<(Seq<u8>, Seq<u8>)>) -> Map<Seq<u8>, nat> {
    Map::new(|h: Seq<u8>| votes_for(subs, h) > 0, |h: Seq<u8>| votes_for(subs, h))
}

/// The count recorded for `h` in `m`, zero where there is none.
pub open spec fn count_in(m: Map<Seq<u8>, nat>, h: Seq<u8>) -> nat {
    if m.dom().contains(h) {
        m[h]
    } else {
        0
    }
}

/// The tallies as a map from digest to count.
pub open spec fn tally_map(t: Seq<HashTally>) -> Map<Seq<u8>, nat>
    decreases t.len(),
{
    if t.len() == 0 {
        Map::empty()
    } else {
        tally_map(t.drop_last()).insert(t.last().hash@, t.last().count as nat)
    }
}

/// Each digest has at most one tally.
pub open spec fn tally_hashes_distinct(t: Seq<HashTally>) -> bool {
    forall|i: int, j: int| 0 <= i < j < t.len() ==> #[trigger] t[i].hash@ != #[trigger] t[j].hash@
}

/// One more vote adds one to the count of its digest and leaves the others.
pub proof fn lemma_votes_push(subs: Seq<(Seq<u8>, Seq<u8>)>, v: (Seq<u8>, Seq<u8>), h: Seq<u8>)
    ensures
        votes_for(subs.push(v), h) == votes_for(subs, h) + if v.1 == h {
            1nat
        } else {
            0nat
        },
{
    assert(subs.push(v).drop_last() =~= subs);
}

/// A digest never has more votes than there are submissions.
pub proof fn lemma_votes_bounded(subs: Seq<(Seq<u8>, Seq<u8>)>, h: Seq<u8>)
    ensures
        votes_for(subs, h) <= subs.len(),
    decreases subs.len(),
{
    if subs.len() > 0 {
        lemma_votes_bounded(subs.drop_last(), h);
    }
}

/// A digest with a vote is the digest of some submission.
pub proof fn lemma_voted_hash_submitted(subs: Seq<(Seq<u8>, Seq<u8>)>, h: Seq<u8>)
    requires
        votes_for(subs, h) > 0,
    ensures
        exists|i: int| 0 <= i < subs.len() && #[trigger] subs[i].1 == h,
    decreases subs.len(),
{
    if subs.last().1 != h {
        lemma_voted_hash_submitted(subs.drop_last(), h);
        let i = choose|i: int| 0 <= i < subs.len() - 1 && #[trigger] subs.drop_last()[i].1 == h;
        assert(subs[i].1 == h);
    }
}

/// The digest of a submission has at least one vote.
pub proof fn lemma_submitted_hash_voted(subs: Seq<(Seq<u8>, Seq<u8>)>, i: int)
    requires
        0 <= i < subs.len(),
    ensures
        votes_for(subs, subs[i].1) > 0,
    decreases subs.len(),
{
    if i < subs.len() - 1 {
        lemma_submitted_hash_voted(subs.drop_last(), i);
    }
}

/// Two different digests share the submissions between them.
pub proof fn lemma_votes_disjoint(subs: Seq<(Seq<u8>, Seq<u8>)>, h1: Seq<u8>, h2: Seq<u8>)
    requires
        h1 != h2,
    ensures
        votes_for(subs, h1) + votes_for(subs, h2) <= subs.len(),
    decreases subs.len(),
{
    if subs.len() > 0 {
        lemma_votes_disjoint(subs.drop_last(), h1, h2);
    }
}

/// With distinct digests, the map holds exactly the tallied digests and
/// their counts.
pub proof fn lemma_tally_map_contents(t: Seq<HashTally>)
    requires
        tally_hashes_distinct(t),
    ensures
        forall|k: Seq<u8>|
            #[trigger] tally_map(t).dom().contains(k) <==> exists|j: int|
                0 <= j < t.len() && #[trigger] t[j].hash@ == k,
        forall|j: int| 0 <= j < t.len() ==> #[trigger] tally_map(t)[t[j].hash@] == t[j].count,
    decreases t.len(),
{
    if t.len() > 0 {
        let p = t.drop_last();
        lemma_tally_map_contents(p);
        assert(tally_map(t) == tally_map(p).insert(t.last().hash@, t.last().count as nat));
        assert forall|k: Seq<u8>| #[trigger] tally_map(t).dom().contains(k) implies exists|j: int|
            0 <= j < t.len() && #[trigger] t[j].hash@ == k by {
            if k != t.last().hash@ {
                assert(tally_map(p).dom().contains(k));
                let j = choose|j: int| 0 <= j < p.len() && #[trigger] p[j].hash@ == k;
                assert(p[j] == t[j]);
                assert(t[j].hash@ == k);
            } else {
                assert(t[t.len() - 1].hash@ == k);
            }
        }
        assert forall|k: Seq<u8>|
            (exists|j: int| 0 <= j < t.len() && #[trigger] t[j].hash@ == k) implies #[trigger] tally_map(
            t,
        ).dom().contains(k) by {
            let j = choose|j: int| 0 <= j < t.len() && #[trigger] t[j].hash@ == k;
            if j < t.len() - 1 {
                assert(p[j] == t[j]);
                assert(p[j].hash@ == k);
            }
        }
        assert forall|j: int| 0 <= j < t.len() implies #[trigger] tally_map(t)[t[j].hash@]
            == t[j].count by {
            if j < t.len() - 1 {
                assert(p[j] == t[j]);
                assert(t[j].hash@ != t[t.len() - 1].hash@);
                assert(tally_map(p)[p[j].hash@] == p[j].count);
            }
        }
    }
}

/// Changing the count of one tally changes that digest's count alone.
pub proof fn lemma_tally_map_update(t: Seq<HashTally>, j: int, x: HashTally)
    requires
        tally_hashes_distinct(t),
        0 <= j < t.len(),
        x.hash@ == t[j].hash@,
    ensures
        tally_hashes_distinct(t.update(j, x)),
        tally_map(t.update(j, x)) == tally_map(t).insert(x.hash@, x.count as nat),
{
    let u = t.update(j, x);
    assert(tally_hashes_distinct(u)) by {
        assert forall|a: int, b: int| 0 <= a < b < u.len() implies #[trigger] u[a].hash@
            != #[trigger] u[b].hash@ by {
            assert(u[a].hash@ == t[a].hash@);
            assert(u[b].hash@ == t[b].hash@);
        }
    }
    lemma_tally_map_contents(t);
    lemma_tally_map_contents(u);
    let m = tally_map(t).insert(x.hash@, x.count as nat);
    assert forall|k: Seq<u8>| #[trigger] tally_map(u).dom().contains(k) <==> m.dom().contains(k) by {
        if tally_map(u).dom().contains(k) {
            let i = choose|i: int| 0 <= i < u.len() && #[trigger] u[i].hash@ == k;
            assert(t[i].hash@ == k);
        }
        if m.dom().contains(k) && k != x.hash@ {
            let i = choose|i: int| 0 <= i < t.len() && #[trigger] t[i].hash@ == k;
            assert(u[i].hash@ == k);
        }
        if k == x.hash@ {
            assert(u[j].hash@ == k);
        }
    }
    assert forall|k: Seq<u8>| #[trigger] tally_map(u).dom().contains(k) implies tally_map(u)[k]
        == m[k] by {
        let i = choose|i: int| 0 <= i < u.len() && #[trigger] u[i].hash@ == k;
        assert(tally_map(u)[u[i].hash@] == u[i].count);
        if i != j {
            assert(t[i] == u[i]);
        }
    }
    assert(tally_map(u) =~= m);
}

/// Whether `worker` has already voted.
pub fn worker_has_submitted(subs: &Vec<Submission>, worker: &Vec<u8>) -> (r: bool)
    ensures
        r == has_submitted(submissions_view(subs@), worker@),
{
    let ghost sv = submissions_view(subs@);
    let mut i: usize = 0;
    while i < subs.len()
        invariant
            i <= subs@.len(),
            sv == submissions_view(subs@),
            forall|k: int| 0 <= k < i ==> sv[k].0 != worker@,
        decreases subs@.len() - i,
    {
        if bytes_eq(&subs[i].worker, worker) {
            assert(sv[i as int].0 == worker@);
            return true;
        }
        i += 1;
    }
    false
}

/// The index of the tally of `hash`, if it has one.
pub fn tally_position(tallies: &Vec<HashTally>, hash: &Vec<u8>) -> (r: Option<usize>)
    ensures
        r matches Some(j) ==> j < tallies@.len() && tallies@[j as int].hash@ == hash@,
        r is None ==> forall|j: int| 0 <= j < tallies@.len() ==> #[trigger] tallies@[j].hash@ != hash@,
{
    let mut i: usize = 0;
    while i < tallies.len()
        invariant
            i <= tallies@.len(),
            forall|k: int| 0 <= k < i ==> #[trigger] tallies@[k].hash@ != hash@,
        decreases tallies@.len() - i,
    {
        if bytes_eq(&tallies[i].hash, hash) {
            return Some(i);
        }
        i += 1;
    }
    None
}

/// The recorded vote count of `hash`.
pub fn frequency_of(tallies: &Vec<HashTally>, hash: &Vec<u8>) -> (r: usize)
    requires
        tally_hashes_distinct(tallies@),
    ensures
        r as nat == count_in(tally_map(tallies@), hash@),
{
    proof {
        lemma_tally_map_contents(tallies@);
    }
    match tally_position(tallies, hash) {
        Some(j) => tallies[j].count,
        None => 0,
    }
}

/// Adds one vote for `hash`.
pub fn record_vote(tallies: &mut Vec<HashTally>, hash: &Vec<u8>)
    requires
        tally_hashes_distinct(old(tallies)@),
        count_in(tally_map(old(tallies)@), hash@) < usize::MAX,
    ensures
        tally_hashes_distinct(final(tallies)@),
        tally_map(final(tallies)@) == tally_map(old(tallies)@).insert(
            hash@,
            count_in(tally_map(old(tallies)@), hash@) + 1,
        ),
{
    proof {
        lemma_tally_map_contents(tallies@);
    }
    match tally_position(tallies, hash) {
        Some(j) => {
            let ghost t0 = tallies@;
            let c = tallies[j].count;
            tallies[j].count = c + 1;
            proof {
                assert(tallies@ == t0.update(j as int, tallies@[j as int]));
                lemma_tally_map_update(t0, j as int, tallies@[j as int]);
            }
        },
        None => {
            let ghost t0 = tallies@;
            tallies.push(HashTally { hash: crate::bytes::copy_bytes(hash), count: 1 });
            assert(tallies@.drop_last() =~= t0);
        },
    }
}

} // verus!
