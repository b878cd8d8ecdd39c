//! The example plugin's log: how many times each client requested each path.

use vstd::prelude::*;

use crate::text::{chars_eq, chars_of, nat_decimal, push_all, string_of, u128_decimal};

verus! {

/// The index of the first entry for `ip` and `path`, or the number of entries.
pub open spec fn entry_index(entries: Seq<(Seq<char>, Seq<char>, u64)>, ip: Seq<char>, path: Seq<char>) -> int
    decreases entries.len(),
{
    if entries.len() == 0 {
        0
    } else if entry_index(entries.drop_last(), ip, path) < entries.len() - 1 {
        entry_index(entries.drop_last(), ip, path)
    } else if entries.last().0 == ip && entries.last().1 == path {
        entries.len() - 1
    } else {
        entries.len() as int
    }
}

/// How many times `ip` requested `path`.
pub open spec fn count_in(entries: Seq<(Seq<char>, Seq<char>, u64)>, ip: Seq<char>, path: Seq<char>) -> u64 {
    let k = entry_index(entries, ip, path);
    if 0 <= k < entries.len() {
        entries[k].2
    } else {
        0
    }
}

/// The entries once `ip` requested `path` once more: its entry counts one
/// more, or a new entry counts one.
pub open spec fn recorded(entries: Seq<(Seq<char>, Seq<char>, u64)>, ip: Seq<char>, path: Seq<char>) -> Seq<
    (Seq<char>, Seq<char>, u64),
> {
    let k = entry_index(entries, ip, path);
    if 0 <= k < entries.len() {
        entries.update(k, (ip, path, (entries[k].2 + 1) as u64))
    } else {
        entries.push((ip, path, 1u64))
    }
}

/// The entries after each request in `calls` (client address, path) was
/// recorded in turn, from none.
pub open spec fn replayed(calls: Seq<(Seq<char>, Seq<char>)>) -> Seq<(Seq<char>, Seq<char>, u64)>
    decreases calls.len(),
{
    if calls.len() == 0 {
        Seq::empty()
    } else {
        recorded(replayed(calls.drop_last()), calls.last().0, calls.last().1)
    }
}

/// How many of `calls` are requests of `path` by `ip`.
pub open spec fn calls_of(calls: Seq<(Seq<char>, Seq<char>)>, ip: Seq<char>, path: Seq<char>) -> nat
    decreases calls.len(),
{
    if calls.len() == 0 {
        0
    } else {
        calls_of(calls.drop_last(), ip, path) + if calls.last() == (ip, path) {
            1nat
        } else {
            0nat
        }
    }
}

/// Whether no two entries are for the same address and path.
pub open spec fn unique_keys(entries: Seq<(Seq<char>, Seq<char>, u64)>) -> bool {
    forall|i: int, j: int|
        0 <= i < j < entries.len() ==> !(entries[i].0 == entries[j].0 && entries[i].1
            == entries[j].1)
}

/// The request counts of the example plugin, per client address and path.
pub struct IpLog {
    entries: Vec<(String, String, u64)>,
}

impl View for IpLog {
    type V = Seq<(Seq<char>, Seq<char>, u64)>;

    closed spec fn view(&self) -> Seq<(Seq<char>, Seq<char>, u64)> {
        self.entries.deep_view()
    }
}

proof fn lemma_entry_index_bounds(entries: Seq<(Seq<char>, Seq<char>, u64)>, ip: Seq<char>, path: Seq<char>)
    ensures
        0 <= entry_index(entries, ip, path) <= entries.len(),
        entry_index(entries, ip, path) < entries.len() ==> entries[entry_index(entries, ip, path)].0
            == ip && entries[entry_index(entries, ip, path)].1 == path,
        forall|j: int|
            0 <= j < entry_index(entries, ip, path) ==> !(entries[j].0 == ip && entries[j].1 == path),
    decreases entries.len(),
{
    if entries.len() > 0 {
        lemma_entry_index_bounds(entries.drop_last(), ip, path);
        assert forall|j: int| 0 <= j < entries.len() - 1 implies entries.drop_last()[j] == entries[j] by {}
    }
}

proof fn lemma_entry_index_first(entries: Seq<(Seq<char>, Seq<char>, u64)>, ip: Seq<char>, path: Seq<char>, k: int)
    requires
        0 <= k <= entries.len(),
        k < entries.len() ==> entries[k].0 == ip && entries[k].1 == path,
        forall|j: int| 0 <= j < k ==> !(entries[j].0 == ip && entries[j].1 == path),
    ensures
        entry_index(entries, ip, path) == k,
{
    lemma_entry_index_bounds(entries, ip, path);
}

proof fn lemma_recorded_counts(v: Seq<(Seq<char>, Seq<char>, u64)>, ip: Seq<char>, path: Seq<char>)
    requires
        count_in(v, ip, path) < u64::MAX,
    ensures
        forall|ip2: Seq<char>, path2: Seq<char>|
            #[trigger] count_in(recorded(v, ip, path), ip2, path2) == if ip2 == ip && path2 == path {
                (count_in(v, ip, path) + 1) as u64
            } else {
                count_in(v, ip2, path2)
            },
{
    lemma_entry_index_bounds(v, ip, path);
    let k = entry_index(v, ip, path);
    let v1 = recorded(v, ip, path);
    assert forall|ip2: Seq<char>, path2: Seq<char>| true implies #[trigger] count_in(v1, ip2, path2) == if ip2 == ip && path2 == path {
        (count_in(v, ip, path) + 1) as u64
    } else {
        count_in(v, ip2, path2)
    } by {
        lemma_entry_index_bounds(v, ip2, path2);
        let j = entry_index(v, ip2, path2);
        if ip2 == ip && path2 == path {
            lemma_entry_index_first(v1, ip2, path2, k);
        } else if k < v.len() {
            assert(j != k);
            lemma_entry_index_first(v1, ip2, path2, j);
        } else if j < v.len() {
            lemma_entry_index_first(v1, ip2, path2, j);
        } else {
            lemma_entry_index_first(v1, ip2, path2, v1.len() as int);
        }
    }
}

proof fn lemma_calls_of_bound(calls: Seq<(Seq<char>, Seq<char>)>, ip: Seq<char>, path: Seq<char>)
    ensures
        calls_of(calls, ip, path) <= calls.len(),
    decreases calls.len(),
{
    if calls.len() > 0 {
        lemma_calls_of_bound(calls.drop_last(), ip, path);
    }
}

/// After a run of requests recorded from an empty log, the count of an address
/// and path is the number of those requests that were of that path by that
/// address.
pub proof fn law_count_is_number_of_requests(
    calls: Seq<(Seq<char>, Seq<char>)>,
    ip: Seq<char>,
    path: Seq<char>,
)
    requires
        calls.len() < u64::MAX,
    ensures
        count_in(replayed(calls), ip, path) == calls_of(calls, ip, path),
    decreases calls.len(),
{
    if calls.len() == 0 {
        lemma_entry_index_bounds(replayed(calls), ip, path);
    } else {
        let prev = calls.drop_last();
        let (ip1, path1) = calls.last();
        law_count_is_number_of_requests(prev, ip, path);
        law_count_is_number_of_requests(prev, ip1, path1);
        lemma_calls_of_bound(prev, ip1, path1);
        lemma_recorded_counts(replayed(prev), ip1, path1);
        assert(count_in(recorded(replayed(prev), ip1, path1), ip, path) == if ip == ip1 && path
            == path1 {
            (count_in(replayed(prev), ip1, path1) + 1) as u64
        } else {
            count_in(replayed(prev), ip, path)
        });
    }
}

/// Recording a request never gives two entries for the same address and path.
pub proof fn law_record_keeps_keys_unique(
    v: Seq<(Seq<char>, Seq<char>, u64)>,
    ip: Seq<char>,
    path: Seq<char>,
)
    requires
        unique_keys(v),
    ensures
        unique_keys(recorded(v, ip, path)),
{
    lemma_entry_index_bounds(v, ip, path);
    let k = entry_index(v, ip, path);
    let v1 = recorded(v, ip, path);
    assert forall|i: int, j: int| 0 <= i < j < v1.len() implies !(v1[i].0 == v1[j].0 && v1[i].1
        == v1[j].1) by {
        if k < v.len() {
            assert(v1[i].0 == v[i].0 && v1[i].1 == v[i].1);
            assert(v1[j].0 == v[j].0 && v1[j].1 == v[j].1);
        } else if j == v.len() {
            assert(v1[i] == v[i]);
        } else {
            assert(v1[i] == v[i] && v1[j] == v[j]);
        }
    }
}

impl IpLog {
    /// How many times `ip` requested `path`.
    pub open spec fn count_of(&self, ip: Seq<char>, path: Seq<char>) -> u64 {
        count_in(self@, ip, path)
    }

    /// An empty log.
    pub fn new() -> (log: IpLog)
        ensures
            log@ == Seq::<(Seq<char>, Seq<char>, u64)>::empty(),
            forall|ip: Seq<char>, path: Seq<char>| log.count_of(ip, path) == 0,
    {
        let log = IpLog { entries: Vec::new() };
        proof {
            assert(log@ =~= Seq::<(Seq<char>, Seq<char>, u64)>::empty());
        }
        log
    }

    fn find(&self, ip: &[char], path: &[char]) -> (k: usize)
        ensures
            k == entry_index(self@, ip@, path@),
    {
        let ghost v = self@;
        let mut k: usize = 0;
        while k < self.entries.len()
            invariant
                0 <= k <= self.entries@.len(),
                v == self@,
                v.len() == self.entries@.len(),
                forall|j: int| 0 <= j < k ==> !(v[j].0 == ip@ && v[j].1 == path@),
            decreases self.entries.len() - k,
        {
            let e = &self.entries[k];
            proof {
                assert(v[k as int] == (e.0@, e.1@, e.2));
            }
            if chars_eq(&chars_of(e.0.as_str()), ip) && chars_eq(&chars_of(e.1.as_str()), path) {
                proof {
                    lemma_entry_index_first(v, ip@, path@, k as int);
                }
                return k;
            }
            k = k + 1;
        }
        proof {
            lemma_entry_index_first(v, ip@, path@, k as int);
        }
        k
    }

    /// How many times `ip` requested `path`.
    pub fn count(&self, ip: &str, path: &str) -> (n: u64)
        ensures
            n == self.count_of(ip@, path@),
    {
        let k = self.find(&chars_of(ip), &chars_of(path));
        if k < self.entries.len() {
            self.entries[k].2
        } else {
            0
        }
    }

    /// Counts one more request of `path` by `ip` (see `recorded`), and returns
    /// the new count; every other count stays as it was.
    pub fn record(&mut self, ip: &str, path: &str) -> (n: u64)
        requires
            old(self).count_of(ip@, path@) < u64::MAX,
        ensures
            final(self)@ == recorded(old(self)@, ip@, path@),
            n == old(self).count_of(ip@, path@) + 1,
            final(self).count_of(ip@, path@) == n,
            forall|ip2: Seq<char>, path2: Seq<char>|
                !(ip2 == ip@ && path2 == path@) ==> final(self).count_of(ip2, path2) == old(
                    self,
                ).count_of(ip2, path2),
    {
        let ghost v0 = self@;
        let k = self.find(&chars_of(ip), &chars_of(path));
        proof {
            lemma_entry_index_bounds(v0, ip@, path@);
            lemma_recorded_counts(v0, ip@, path@);
        }
        if k < self.entries.len() {
            let n = self.entries[k].2 + 1;
            let ip_s = string_of(&chars_of(ip));
            let path_s = string_of(&chars_of(path));
            self.entries.set(k, (ip_s, path_s, n));
            proof {
                assert(self@ =~= recorded(v0, ip@, path@));
            }
            n
        } else {
            let ip_s = string_of(&chars_of(ip));
            let path_s = string_of(&chars_of(path));
            self.entries.push((ip_s, path_s, 1));
            proof {
                assert(self@ =~= recorded(v0, ip@, path@));
            }
            1
        }
    }
}

/// The line the example plugin prints for a request it logged.
pub open spec fn logged_line(ip: Seq<char>, path: Seq<char>, count: u64) -> Seq<char> {
    "[example_plugin] Request logged: IP = "@ + ip + ", Path = "@ + path + ", Count = "@
        + nat_decimal(count as nat)
}

/// The line the example plugin prints for a request it logged (see `logged_line`).
pub fn log_line(ip: &str, path: &str, count: u64) -> (s: String)
    ensures
        s@ == logged_line(ip@, path@, count),
{
    let mut t = chars_of("[example_plugin] Request logged: IP = ");
    push_all(&mut t, &chars_of(ip));
    push_all(&mut t, &chars_of(", Path = "));
    push_all(&mut t, &chars_of(path));
    push_all(&mut t, &chars_of(", Count = "));
    push_all(&mut t, &u128_decimal(count as u128));
    string_of(&t)
}

} // verus!
