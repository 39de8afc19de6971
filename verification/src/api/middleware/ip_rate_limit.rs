//! A limit on requests per minute and address.

use crate::clock::minute_now;
use dashmap::DashMap;
use vstd::prelude::*;

verus! {

/// `dashmap`'s concurrent hash map.
#[verifier::external_type_specification]
#[verifier::external_body]
#[verifier::reject_recursive_types(K)]
#[verifier::reject_recursive_types(V)]
#[verifier::reject_recursive_types(S)]
pub struct ExDashMap<K, V, S>(dashmap::DashMap<K, V, S>);

/// What a map of counters holds: the requests of each address in each minute.
pub uninterp spec fn hits(m: DashMap<(String, String), u64>) -> Map<(Seq<char>, Seq<char>), u64>;

/// `DashMap::new`: an empty map.
#[verifier::external_body]
fn no_hits() -> (r: DashMap<(String, String), u64>)
    ensures
        hits(r) =~= map![],
{
    DashMap::new()
}

/// `DashMap::get`, and the value behind the guard that it returns.
#[verifier::external_body]
fn get_hits(m: &DashMap<(String, String), u64>, key: &(String, String)) -> (r: Option<u64>)
    ensures
        match r {
            Some(n) => hits(*m).contains_key((key.0@, key.1@)) && hits(*m)[(key.0@, key.1@)] == n,
            None => !hits(*m).contains_key((key.0@, key.1@)),
        },
{
    m.get(key).map(|n| *n)
}

/// `DashMap::insert`: sets the value of a key and changes nothing else.
#[verifier::external_body]
fn set_hits(m: &mut DashMap<(String, String), u64>, key: (String, String), n: u64)
    ensures
        hits(*final(m)) == hits(*old(m)).insert((key.0@, key.1@), n),
{
    m.insert(key, n);
}

/// Counts requests per address and minute.
pub struct IpRateLimiter {
    counts: DashMap<(String, String), u64>,
    limit_rpm: u32,
}

/// The counters: the requests of each address in each minute.
pub type Counters = Map<(Seq<char>, Seq<char>), u64>;

pub open spec fn count_of(c: Counters, ip: Seq<char>, minute: Seq<char>) -> u64 {
    if c.contains_key((ip, minute)) {
        c[(ip, minute)]
    } else {
        0
    }
}

/// One more than a counter, which stays at the largest number.
pub open spec fn one_more(n: u64) -> u64 {
    if n < u64::MAX {
        (n + 1) as u64
    } else {
        n
    }
}

/// The counters after one more request.
pub open spec fn counted_once(c: Counters, ip: Seq<char>, minute: Seq<char>) -> Counters {
    c.insert((ip, minute), one_more(count_of(c, ip, minute)))
}

impl IpRateLimiter {
    pub closed spec fn counters(&self) -> Counters {
        hits(self.counts)
    }

    pub closed spec fn limit(&self) -> u32 {
        self.limit_rpm
    }

    /// A limiter without any requests yet. A limit of 0 is none.
    pub fn new(limit_rpm: u32) -> (r: IpRateLimiter)
        ensures
            r.limit() == limit_rpm,
            r.counters() == Map::<(Seq<char>, Seq<char>), u64>::empty(),
    {
        let counts = no_hits();
        assert(hits(counts) =~= Map::<(Seq<char>, Seq<char>), u64>::empty());
        IpRateLimiter { counts, limit_rpm }
    }

    /// Counts a request in the given minute, and says whether it is allowed.
    pub fn check_in(&mut self, ip: &str, minute: &str) -> (r: bool)
        ensures
            final(self).limit() == old(self).limit(),
            old(self).limit() == 0 ==> r && final(self).counters() == old(self).counters(),
            old(self).limit() > 0 ==> {
                &&& final(self).counters() == counted_once(old(self).counters(), ip@, minute@)
                &&& r == (one_more(count_of(old(self).counters(), ip@, minute@))
                    <= old(self).limit())
            },
    {
        if self.limit_rpm == 0 {
            return true;
        }
        let key = (ip.to_owned(), minute.to_owned());
        let before: u64 = match get_hits(&self.counts, &key) {
            Some(n) => n,
            None => 0,
        };
        let n: u64 = if before < u64::MAX {
            before + 1
        } else {
            before
        };
        set_hits(&mut self.counts, key, n);
        n <= self.limit_rpm as u64
    }

    /// Counts a request in the current minute, and says whether it is allowed.
    pub fn check_and_increment(&mut self, ip: &str) -> (r: bool)
        ensures
            final(self).limit() == old(self).limit(),
            old(self).limit() == 0 ==> r && final(self).counters() == old(self).counters(),
            old(self).limit() > 0 ==> exists|minute: Seq<char>|
                {
                    &&& final(self).counters() == #[trigger] counted_once(
                        old(self).counters(),
                        ip@,
                        minute,
                    )
                    &&& r == (one_more(count_of(old(self).counters(), ip@, minute))
                        <= old(self).limit())
                },
    {
        let minute = minute_now();
        self.check_in(ip, minute.as_str())
    }
}

/// The counters after a run of requests from one address within a minute.
pub open spec fn after_requests(c: Counters, ip: Seq<char>, minute: Seq<char>, n: nat) -> Counters
    decreases n,
{
    if n == 0 {
        c
    } else {
        counted_once(after_requests(c, ip, minute, (n - 1) as nat), ip, minute)
    }
}

/// Of the requests of one address within a minute, exactly the first `limit`
/// are allowed.
pub proof fn limit_is_exact(ip: Seq<char>, minute: Seq<char>, n: nat, limit: u32)
    requires
        n <= u32::MAX,
    ensures
        count_of(
            after_requests(Map::<(Seq<char>, Seq<char>), u64>::empty(), ip, minute, n),
            ip,
            minute,
        ) == n,
        n > 0 ==> ((one_more(
            count_of(
                after_requests(
                    Map::<(Seq<char>, Seq<char>), u64>::empty(),
                    ip,
                    minute,
                    (n - 1) as nat,
                ),
                ip,
                minute,
            ),
        ) <= limit) <==> n <= limit),
    decreases n,
{
    if n > 0 {
        limit_is_exact(ip, minute, (n - 1) as nat, limit);
    }
}

/// Requests from one address do not count against another, nor in another
/// minute.
pub proof fn addresses_are_counted_apart(
    c: Counters,
    ip: Seq<char>,
    minute: Seq<char>,
    other_ip: Seq<char>,
    other_minute: Seq<char>,
)
    requires
        ip != other_ip || minute != other_minute,
    ensures
        count_of(counted_once(c, ip, minute), other_ip, other_minute) == count_of(
            c,
            other_ip,
            other_minute,
        ),
{
}

/// A request is counted once, for its address and its minute, up to the largest count there
/// is; an address not met before counts as none.
pub proof fn requests_are_counted_once(c: Counters, ip: Seq<char>, minute: Seq<char>)
    ensures
        !c.contains_key((ip, minute)) ==> count_of(c, ip, minute) == 0,
        count_of(c, ip, minute) < u64::MAX ==> count_of(counted_once(c, ip, minute), ip, minute) == count_of(
            c,
            ip,
            minute,
        ) + 1,
        count_of(c, ip, minute) == u64::MAX ==> count_of(counted_once(c, ip, minute), ip, minute)
            == u64::MAX,
{
}

} // verus!
