use counter::Counter;
use vstd::prelude::*;
use vstd::string::StringExecFns;
use crate::job::{worker_names, WorkerResult};
use crate::text_utils::{decimal, push_decimal, truncated_text, TruncateWithEllipsis};

verus! {

/// The counting collection of the `counter` crate. Opaque here: what it
/// holds is spoken of through `counter_entries`.
#[verifier::external_type_specification]
#[verifier::external_body]
#[verifier::reject_recursive_types(T)]
#[verifier::reject_recursive_types(N)]
pub struct ExCounter<T: std::hash::Hash + Eq, N>(Counter<T, N>);

/// What a counter of texts holds: each text it has an entry for, with
/// its count.
pub uninterp spec fn counter_entries(c: Counter<String, usize>) -> Map<Seq<char>, nat>;

/// The count that `entries` gives `key`: zero where it has no entry.
pub open spec fn count_in(entries: Map<Seq<char>, nat>, key: Seq<char>) -> nat {
    if entries.contains_key(key) {
        entries[key]
    } else {
        0
    }
}

/// Whether `listing` names each entry of `entries` once, with its count.
pub open spec fn lists_entries(listing: Seq<(String, usize)>, entries: Map<Seq<char>, nat>)
    -> bool {
    &&& forall|i: int, j: int|
        0 <= i < j < listing.len() ==> (#[trigger] listing[i]).0@ != (#[trigger] listing[j]).0@
    &&& forall|i: int|
        0 <= i < listing.len() ==> entries.contains_key((#[trigger] listing[i]).0@)
            && entries[listing[i].0@] == listing[i].1
    &&& forall|key: Seq<char>| #[trigger]
        entries.contains_key(key) ==> exists|i: int|
            0 <= i < listing.len() && (#[trigger] listing[i]).0@ == key
}

/// The entries of a counter that holds nothing.
pub open spec fn no_entries() -> Map<Seq<char>, nat> {
    Map::empty()
}

/// `Counter::new` of the `counter` crate: a counter without entries.
#[verifier::external_body]
fn counter_new() -> (fresh: Counter<String, usize>)
    ensures
        counter_entries(fresh) == no_entries(),
{
    Counter::new()
}

/// Indexing a counter mutably, `IndexMut::index_mut` of the `counter`
/// crate: the place that holds the count of `key`, which is made with a
/// zero in it where the counter had no entry for `key`. What is left in
/// that place is the count of `key` afterwards; no other entry changes.
#[verifier::external_body]
fn counter_slot<'a>(c: &'a mut Counter<String, usize>, key: &String) -> (slot: &'a mut usize)
    ensures
        *slot == count_in(counter_entries(*old(c)), key@),
        counter_entries(*final(c)) == counter_entries(*old(c)).insert(key@, *final(slot) as nat),
{
    &mut c[key]
}

/// `Counter::most_common` of the `counter` crate: every entry of the
/// counter, once, with its count. The crate sorts them by falling count
/// and leaves the order among equal counts open; nothing is claimed of
/// the order here.
#[verifier::external_body]
fn counter_most_common(c: &Counter<String, usize>) -> (listing: Vec<(String, usize)>)
    ensures
        lists_entries(listing@, counter_entries(*c)),
{
    c.most_common()
}

/// How often `name` occurs in `names`.
pub open spec fn occurrences(names: Seq<Seq<char>>, name: Seq<char>) -> nat
    decreases names.len(),
{
    if names.len() == 0 {
        0
    } else {
        occurrences(names.drop_last(), name) + if names.last() == name {
            1nat
        } else {
            0nat
        }
    }
}

/// Whether `i` is the place at which `name` occurs first in `names`.
pub open spec fn is_first_seen(names: Seq<Seq<char>>, name: Seq<char>, i: int) -> bool {
    &&& 0 <= i < names.len()
    &&& names[i] == name
    &&& forall|j: int| 0 <= j < i ==> #[trigger] names[j] != name
}

/// The tally of `names`: each name that occurs, with how often it does.
pub open spec fn tally_of(names: Seq<Seq<char>>) -> Map<Seq<char>, nat> {
    Map::new(|name: Seq<char>| names.contains(name), |name: Seq<char>| occurrences(names, name))
}

/// One worker's share of a job.
pub struct WorkerShare {
    pub worker: String,
    /// How many results the worker contributed.
    pub count: usize,
    /// The place of the worker's first result among all results.
    pub first_seen: usize,
}

/// A share as its contracts see it.
pub struct ShareView {
    pub worker: Seq<char>,
    pub count: nat,
    pub first_seen: nat,
}

impl View for WorkerShare {
    type V = ShareView;

    open spec fn view(&self) -> ShareView {
        ShareView {
            worker: self.worker@,
            count: self.count as nat,
            first_seen: self.first_seen as nat,
        }
    }
}

/// The shares of `shares`, each by its view.
pub open spec fn share_views(shares: Seq<WorkerShare>) -> Seq<ShareView> {
    Seq::new(shares.len(), |i: int| shares[i]@)
}

/// Whether `share` tells the truth about a worker of `names`.
pub open spec fn describes(names: Seq<Seq<char>>, share: ShareView) -> bool {
    &&& is_first_seen(names, share.worker, share.first_seen as int)
    &&& share.count == occurrences(names, share.worker)
}

/// Whether `a` is shown before `b`: the larger count first, and among
/// equal counts the worker that was seen first.
pub open spec fn ranks_before(a: ShareView, b: ShareView) -> bool {
    a.count > b.count || (a.count == b.count && a.first_seen < b.first_seen)
}

/// Whether `ranking` is the attribution of `names`: a true share for
/// every worker that occurs, in the order in which they are shown.
pub open spec fn is_ranking(names: Seq<Seq<char>>, ranking: Seq<ShareView>) -> bool {
    &&& forall|i: int| 0 <= i < ranking.len() ==> describes(names, #[trigger] ranking[i])
    &&& forall|k: int| 0 <= k < names.len() ==> holds_worker(ranking, #[trigger] names[k])
    &&& forall|i: int, j: int|
        0 <= i < j < ranking.len() ==> ranks_before(#[trigger] ranking[i], #[trigger] ranking[j])
}

/// Whether `ranking` has a share for `worker`.
pub open spec fn holds_worker(ranking: Seq<ShareView>, worker: Seq<char>) -> bool {
    exists|i: int| 0 <= i < ranking.len() && (#[trigger] ranking[i]).worker == worker
}

/// Whether one of the first `n` items of `listing` is for `worker`.
spec fn listed_among(listing: Seq<(String, usize)>, n: int, worker: Seq<char>) -> bool {
    exists|k: int| 0 <= k < n && (#[trigger] listing[k]).0@ == worker
}

pub proof fn lemma_occurrences_bound(names: Seq<Seq<char>>, name: Seq<char>)
    ensures
        occurrences(names, name) <= names.len(),
        !names.contains(name) ==> occurrences(names, name) == 0,
    decreases names.len(),
{
    if names.len() > 0 {
        lemma_occurrences_bound(names.drop_last(), name);
        if !names.contains(name) {
            assert(names.last() != name);
            assert forall|i: int| 0 <= i < names.drop_last().len() implies names.drop_last()[i]
                != name by {
                assert(names.drop_last()[i] == names[i]);
            }
        }
    }
}

/// Counts each worker of `results` in a counter.
pub fn tally_workers(results: &Vec<WorkerResult>) -> (tally: Counter<String, usize>)
    ensures
        counter_entries(tally) == tally_of(worker_names(results@)),
{
    let ghost names = worker_names(results@);
    let mut tally = counter_new();
    let mut i: usize = 0;
    assert(counter_entries(tally) =~= tally_of(names.take(0)));
    while i < results.len()
        invariant
            i <= results.len(),
            names == worker_names(results@),
            counter_entries(tally) == tally_of(names.take(i as int)),
        decreases results.len() - i,
    {
        let ghost before = counter_entries(tally);
        let ghost seen = names.take(i as int);
        let ghost key = names[i as int];
        proof {
            lemma_occurrences_bound(seen, key);
        }
        let slot = counter_slot(&mut tally, &results[i].worker_name);
        *slot = *slot + 1;
        i = i + 1;
        proof {
            let now_seen = names.take(i as int);
            assert(now_seen.drop_last() == seen);
            assert(now_seen.last() == key);
            assert forall|name: Seq<char>| now_seen.contains(name) == (seen.contains(name) || name
                == key) by {
                if seen.contains(name) {
                    let j = choose|j: int| 0 <= j < seen.len() && seen[j] == name;
                    assert(now_seen[j] == name);
                }
                if name == key {
                    assert(now_seen[i - 1] == name);
                }
                if now_seen.contains(name) {
                    let j = choose|j: int| 0 <= j < now_seen.len() && now_seen[j] == name;
                    if j < seen.len() {
                        assert(seen[j] == name);
                    }
                }
            }
            assert(counter_entries(tally) =~= tally_of(now_seen));
        }
    }
    assert(names.take(results.len() as int) == names);
    tally
}

/// The place at which `worker` occurs first among the workers of
/// `results`, if it occurs at all.
pub fn first_seen_index(results: &Vec<WorkerResult>, worker: &String) -> (place: Option<usize>)
    ensures
        match place {
            Some(i) => is_first_seen(worker_names(results@), worker@, i as int),
            None => !worker_names(results@).contains(worker@),
        },
{
    let ghost names = worker_names(results@);
    let mut i: usize = 0;
    while i < results.len()
        invariant
            i <= results.len(),
            names == worker_names(results@),
            forall|j: int| 0 <= j < i ==> #[trigger] names[j] != worker@,
        decreases results.len() - i,
    {
        if results[i].worker_name == *worker {
            assert(names[i as int] == worker@);
            return Some(i);
        }
        i = i + 1;
    }
    None
}

/// The place in `ranked` at which a share with `count` and `first_seen`
/// belongs: before the first share that it is shown before.
fn insertion_point(ranked: &Vec<WorkerShare>, count: usize, first_seen: usize) -> (p: usize)
    ensures
        p <= ranked.len(),
        forall|j: int|
            0 <= j < p ==> !((#[trigger] ranked[j]).count < count || (ranked[j].count == count
                && first_seen < ranked[j].first_seen)),
        p < ranked.len() ==> ranked[p as int].count < count || (ranked[p as int].count == count
            && first_seen < ranked[p as int].first_seen),
{
    let mut p: usize = 0;
    while p < ranked.len()
        invariant
            p <= ranked.len(),
            forall|j: int|
                0 <= j < p ==> !((#[trigger] ranked[j]).count < count || (ranked[j].count
                    == count && first_seen < ranked[j].first_seen)),
        decreases ranked.len() - p,
    {
        if ranked[p].count < count || (ranked[p].count == count && first_seen
            < ranked[p].first_seen) {
            return p;
        }
        p = p + 1;
    }
    p
}

/// The attribution of a job: one share for each worker that contributed,
/// the larger share first, and among equal shares the worker first that
/// was seen first.
pub fn rank_workers(results: &Vec<WorkerResult>) -> (ranked: Vec<WorkerShare>)
    ensures
        is_ranking(worker_names(results@), share_views(ranked@)),
{
    let ghost names = worker_names(results@);
    let tally = tally_workers(results);
    let listing = counter_most_common(&tally);
    let mut ranked: Vec<WorkerShare> = Vec::new();
    let mut i: usize = 0;
    while i < listing.len()
        invariant
            i <= listing.len(),
            names == worker_names(results@),
            lists_entries(listing@, tally_of(names)),
            forall|j: int| 0 <= j < ranked.len() ==> describes(names, (#[trigger] ranked[j])@),
            forall|j: int|
                0 <= j < ranked.len() ==> listed_among(
                    listing@,
                    i as int,
                    (#[trigger] ranked[j]).worker@,
                ),
            forall|k: int|
                0 <= k < i ==> holds_worker(share_views(ranked@), (#[trigger] listing[k]).0@),
            forall|a: int, b: int|
                0 <= a < b < ranked.len() ==> ranks_before(
                    (#[trigger] ranked[a])@,
                    (#[trigger] ranked[b])@,
                ),
        decreases listing.len() - i,
    {
        let worker = listing[i].0.clone();
        let count = listing[i].1;
        assert(tally_of(names).contains_key(listing[i as int].0@));
        let first_seen = match first_seen_index(results, &worker) {
            Some(place) => place,
            None => vstd::pervasive::unreached(),
        };
        let share = WorkerShare { worker, count, first_seen };
        let p = insertion_point(&ranked, count, first_seen);
        let ghost before = ranked@;
        ranked.insert(p, share);
        proof {
            let new = share@;
            assert forall|j: int| 0 <= j < before.len() implies (#[trigger] before[j]).worker@
                != new.worker && before[j].first_seen != new.first_seen by {
                assert(listed_among(listing@, i as int, before[j].worker@));
                let k = choose|k: int| 0 <= k < i && (#[trigger] listing[k]).0@ == before[j].worker@;
                assert(listing[k].0@ != listing[i as int].0@);
                assert(describes(names, before[j]@));
            }
            assert forall|j: int| 0 <= j < ranked.len() implies listed_among(
                listing@,
                i + 1,
                (#[trigger] ranked[j]).worker@,
            ) by {
                if j < p {
                    assert(ranked[j] == before[j]);
                    assert(listed_among(listing@, i as int, before[j].worker@));
                    let k = choose|k: int|
                        0 <= k < i && (#[trigger] listing[k]).0@ == before[j].worker@;
                    assert(listing[k].0@ == ranked[j].worker@);
                } else if j == p {
                    assert(listing[i as int].0@ == ranked[j].worker@);
                } else {
                    assert(ranked[j] == before[j - 1]);
                    assert(listed_among(listing@, i as int, before[j - 1].worker@));
                    let k = choose|k: int|
                        0 <= k < i && (#[trigger] listing[k]).0@ == before[j - 1].worker@;
                    assert(listing[k].0@ == ranked[j].worker@);
                }
            }
            assert forall|k: int| 0 <= k < i + 1 implies holds_worker(
                share_views(ranked@),
                (#[trigger] listing[k]).0@,
            ) by {
                if k < i {
                    assert(holds_worker(share_views(before), listing[k].0@));
                    let j = choose|j: int|
                        0 <= j < share_views(before).len() && (#[trigger] share_views(
                            before,
                        )[j]).worker == listing[k].0@;
                    if j < p {
                        assert(share_views(ranked@)[j].worker == listing[k].0@);
                    } else {
                        assert(ranked@[j + 1] == before[j]);
                        assert(share_views(ranked@)[j + 1].worker == listing[k].0@);
                    }
                } else {
                    assert(share_views(ranked@)[p as int].worker == listing[k].0@);
                }
            }
            assert forall|a: int, b: int| 0 <= a < b < ranked.len() implies ranks_before(
                (#[trigger] ranked[a])@,
                (#[trigger] ranked[b])@,
            ) by {
                let at = |x: int|
                    if x < p {
                        x
                    } else {
                        x - 1
                    };
                if a != p {
                    assert(ranked[a] == before[at(a)]);
                }
                if b != p {
                    assert(ranked[b] == before[at(b)]);
                }
                if a != p && b != p {
                    assert(ranks_before(before[at(a)]@, before[at(b)]@));
                } else if a == p {
                    assert(ranks_before(new, before[p as int]@));
                    if b > p + 1 {
                        assert(ranks_before(before[p as int]@, before[b - 1]@));
                    }
                } else {
                    assert(before[a].worker@ != new.worker);
                }
            }
            assert forall|j: int| 0 <= j < ranked.len() implies describes(
                names,
                (#[trigger] ranked[j])@,
            ) by {
                if j < p {
                    assert(ranked[j] == before[j]);
                } else if j > p {
                    assert(ranked[j] == before[j - 1]);
                }
            }
        }
        i = i + 1;
    }
    proof {
        let ranking = share_views(ranked@);
        assert forall|k: int| 0 <= k < names.len() implies holds_worker(
            ranking,
            #[trigger] names[k],
        ) by {
            assert(names.contains(names[k]));
            assert(tally_of(names).contains_key(names[k]));
            let x = choose|x: int| 0 <= x < listing.len() && (#[trigger] listing[x]).0@ == names[k];
            assert(holds_worker(ranking, listing[x].0@));
        }
        assert forall|j: int| 0 <= j < ranking.len() implies describes(
            names,
            #[trigger] ranking[j],
        ) by {
            assert(describes(names, ranked[j]@));
        }
        assert forall|a: int, b: int| 0 <= a < b < ranking.len() implies ranks_before(
            #[trigger] ranking[a],
            #[trigger] ranking[b],
        ) by {
            assert(ranks_before(ranked[a]@, ranked[b]@));
        }
    }
    ranked
}

/// Two rankings that are sorted and hold the same shares are one.
proof fn lemma_sorted_shares_agree(r1: Seq<ShareView>, r2: Seq<ShareView>)
    requires
        forall|i: int, j: int|
            0 <= i < j < r1.len() ==> ranks_before(#[trigger] r1[i], #[trigger] r1[j]),
        forall|i: int, j: int|
            0 <= i < j < r2.len() ==> ranks_before(#[trigger] r2[i], #[trigger] r2[j]),
        forall|i: int| 0 <= i < r1.len() ==> r2.contains(#[trigger] r1[i]),
        forall|i: int| 0 <= i < r2.len() ==> r1.contains(#[trigger] r2[i]),
    ensures
        r1 == r2,
    decreases r1.len(),
{
    if r1.len() == 0 {
        if r2.len() > 0 {
            assert(r1.contains(r2[0]));
        }
        assert(r1 =~= r2);
    } else {
        assert(r2.contains(r1[0]));
        let p = choose|p: int| 0 <= p < r2.len() && r2[p] == r1[0];
        assert(r1.contains(r2[0]));
        let q = choose|q: int| 0 <= q < r1.len() && r1[q] == r2[0];
        if p > 0 {
            assert(ranks_before(r2[0], r2[p]));
            if q > 0 {
                assert(ranks_before(r1[0], r1[q]));
            }
        }
        assert(r1[0] == r2[0]);
        let t1 = r1.drop_first();
        let t2 = r2.drop_first();
        assert forall|i: int| 0 <= i < t1.len() implies t2.contains(#[trigger] t1[i]) by {
            assert(t1[i] == r1[i + 1]);
            assert(r2.contains(r1[i + 1]));
            let j = choose|j: int| 0 <= j < r2.len() && r2[j] == r1[i + 1];
            assert(ranks_before(r1[0], r1[i + 1]));
            assert(t2[j - 1] == r2[j]);
        }
        assert forall|i: int| 0 <= i < t2.len() implies t1.contains(#[trigger] t2[i]) by {
            assert(t2[i] == r2[i + 1]);
            assert(r1.contains(r2[i + 1]));
            let j = choose|j: int| 0 <= j < r1.len() && r1[j] == r2[i + 1];
            assert(ranks_before(r2[0], r2[i + 1]));
            assert(t1[j - 1] == r1[j]);
        }
        assert forall|i: int, j: int| 0 <= i < j < t1.len() implies ranks_before(
            #[trigger] t1[i],
            #[trigger] t1[j],
        ) by {
            assert(ranks_before(r1[i + 1], r1[j + 1]));
        }
        assert forall|i: int, j: int| 0 <= i < j < t2.len() implies ranks_before(
            #[trigger] t2[i],
            #[trigger] t2[j],
        ) by {
            assert(ranks_before(r2[i + 1], r2[j + 1]));
        }
        lemma_sorted_shares_agree(t1, t2);
        assert(r1 =~= seq![r1[0]] + t1);
        assert(r2 =~= seq![r2[0]] + t2);
    }
}

/// Every share of one ranking of `names` is a share of any other.
proof fn lemma_ranking_shares_recur(names: Seq<Seq<char>>, r1: Seq<ShareView>, r2: Seq<ShareView>)
    requires
        is_ranking(names, r1),
        is_ranking(names, r2),
    ensures
        forall|i: int| 0 <= i < r1.len() ==> r2.contains(#[trigger] r1[i]),
{
    assert forall|i: int| 0 <= i < r1.len() implies r2.contains(#[trigger] r1[i]) by {
        let share = r1[i];
        assert(describes(names, share));
        let k = share.first_seen as int;
        assert(holds_worker(r2, names[k]));
        let j = choose|j: int| 0 <= j < r2.len() && (#[trigger] r2[j]).worker == share.worker;
        assert(describes(names, r2[j]));
        let k2 = r2[j].first_seen as int;
        if k2 < k {
            assert(names[k2] != share.worker);
        }
        if k < k2 {
            assert(names[k] != r2[j].worker);
        }
        assert(r2[j] == share);
    }
}

/// The workers of a job have one attribution: two rankings of the same
/// results are equal, share by share.
pub proof fn lemma_ranking_is_unique(
    names: Seq<Seq<char>>,
    r1: Seq<ShareView>,
    r2: Seq<ShareView>,
)
    requires
        is_ranking(names, r1),
        is_ranking(names, r2),
    ensures
        r1 == r2,
{
    lemma_ranking_shares_recur(names, r1, r2);
    lemma_ranking_shares_recur(names, r2, r1);
    lemma_sorted_shares_agree(r1, r2);
}

/// Characters of a worker's name that an attribution shows at most.
pub const MAX_WORKER_CHARS: usize = 64;

/// How one share is shown: the worker's name, cut down where it is too
/// long, and behind it the count in brackets where it is more than one.
pub open spec fn share_text(share: ShareView) -> Seq<char> {
    truncated_text(share.worker, MAX_WORKER_CHARS as nat) + if share.count > 1 {
        seq![' ', '('] + decimal(share.count) + seq![')']
    } else {
        Seq::<char>::empty()
    }
}

/// How a ranking is shown: its shares in order, a comma and a blank
/// between two of them.
pub open spec fn attribution_text(ranking: Seq<ShareView>) -> Seq<char>
    decreases ranking.len(),
{
    if ranking.len() == 0 {
        Seq::<char>::empty()
    } else if ranking.len() == 1 {
        share_text(ranking[0])
    } else {
        attribution_text(ranking.drop_last()) + seq![',', ' '] + share_text(ranking.last())
    }
}

/// The text that names the workers of a job, in the order of `shares`.
pub fn attribution(shares: &Vec<WorkerShare>) -> (text: String)
    ensures
        text@ == attribution_text(share_views(shares@)),
{
    let ghost ranking = share_views(shares@);
    let mut text = String::new();
    let mut i: usize = 0;
    while i < shares.len()
        invariant
            i <= shares.len(),
            ranking == share_views(shares@),
            text@ == attribution_text(ranking.take(i as int)),
        decreases shares.len() - i,
    {
        if i > 0 {
            text.push(',');
            text.push(' ');
        }
        let name = shares[i].worker.clone().truncate_with_ellipsis(MAX_WORKER_CHARS);
        text.append(name.as_str());
        if shares[i].count > 1 {
            text.push(' ');
            text.push('(');
            push_decimal(&mut text, shares[i].count as u128);
            text.push(')');
        }
        proof {
            let now = ranking.take(i + 1);
            assert(now.drop_last() == ranking.take(i as int));
            assert(now.last() == shares[i as int]@);
            assert(text@ =~= attribution_text(now));
        }
        i = i + 1;
    }
    assert(ranking.take(shares.len() as int) == ranking);
    text
}

} // verus!
