//! Joining a network: whom to try, and the cache of contacts that worked.

use vstd::prelude::*;
use crate::common::Token;
use crate::net::addr::Endpoint;

verus! {

/// The seconds one candidate is given to answer.
pub const CANDIDATE_TIMEOUT_SECS: u64 = 10;

/// The seconds a whole bootstrap, and a whole direct connect, is given.
pub const OVERALL_TIMEOUT_SECS: u64 = 60;

/// `first` and `second` taken in turn, starting with `first`; where one runs
/// out, the rest of the other follows.
pub open spec fn interleaved<T>(first: Seq<T>, second: Seq<T>) -> Seq<T>
    decreases first.len() + second.len(),
{
    if first.len() == 0 {
        second
    } else {
        seq![first[0]] + interleaved(second, first.skip(1))
    }
}

/// The contacts a bootstrap tries, in order: the cached contacts and the
/// hard-coded ones in turn, starting with the cache.
pub open spec fn spec_candidates(cached: Seq<Endpoint>, hard_coded: Seq<Endpoint>) -> Seq<
    Endpoint,
> {
    interleaved(cached, hard_coded)
}

/// Interleaving drops nothing and invents nothing: the result is as long as
/// both lists together.
pub proof fn lemma_interleaved_len<T>(first: Seq<T>, second: Seq<T>)
    ensures
        interleaved(first, second).len() == first.len() + second.len(),
    decreases first.len() + second.len(),
{
    if first.len() > 0 {
        lemma_interleaved_len(second, first.skip(1));
    }
}

/// Unfolds two turns of an interleaving.
proof fn lemma_interleaved_step<T>(first: Seq<T>, second: Seq<T>, i: int)
    requires
        0 <= i,
        i <= first.len(),
        i <= second.len(),
    ensures
        interleaved(first, second) == interleaved(first.take(i), second.take(i)) + interleaved(
            first.skip(i),
            second.skip(i),
        ),
    decreases i,
{
    if i == 0 {
        assert(first.skip(0) =~= first);
        assert(second.skip(0) =~= second);
    } else {
        // interleaved(f, s) = [f0] + interleaved(s, f') = [f0, s0] + interleaved(f', s')
        let f1 = first.skip(1);
        let s1 = second.skip(1);
        assert(interleaved(first, second) == seq![first[0]] + interleaved(second, f1));
        lemma_interleaved_step(f1, s1, i - 1);
        let ft = first.take(i);
        let st = second.take(i);
        assert(interleaved(ft, st) == seq![ft[0]] + interleaved(st, ft.skip(1)));
        assert(ft.skip(1) =~= f1.take(i - 1));
        assert(st.skip(1) =~= s1.take(i - 1));
        assert(f1.skip(i - 1) =~= first.skip(i));
        assert(s1.skip(i - 1) =~= second.skip(i));
    }
}

/// The contacts to try: `cached` and `hard_coded` in turn, starting with
/// the cache.
pub fn candidates(cached: &Vec<Endpoint>, hard_coded: &Vec<Endpoint>) -> (list: Vec<Endpoint>)
    ensures
        list@ == spec_candidates(cached@, hard_coded@),
{
    let mut list: Vec<Endpoint> = Vec::new();
    let mut i: usize = 0;
    while i < cached.len() && i < hard_coded.len()
        invariant
            i <= cached.len(),
            i <= hard_coded.len(),
            list@ == interleaved(cached@.take(i as int), hard_coded@.take(i as int)),
        decreases cached.len() - i,
    {
        proof {
            let c = cached@.take(i + 1);
            let h = hard_coded@.take(i + 1);
            lemma_interleaved_step(c, h, i as int);
            assert(c.take(i as int) =~= cached@.take(i as int));
            assert(h.take(i as int) =~= hard_coded@.take(i as int));
            assert(c.skip(i as int) =~= seq![cached@[i as int]]);
            assert(h.skip(i as int) =~= seq![hard_coded@[i as int]]);
            let c1 = seq![cached@[i as int]];
            let h1 = seq![hard_coded@[i as int]];
            assert(interleaved(h1, c1.skip(1)) == seq![h1[0]] + interleaved(
                c1.skip(1),
                h1.skip(1),
            ));
        }
        list.push(cached[i]);
        list.push(hard_coded[i]);
        i = i + 1;
    }
    let ghost both = list@;
    let ghost n = i as int;
    proof {
        lemma_interleaved_step(cached@, hard_coded@, n);
    }
    let mut j: usize = i;
    while j < cached.len()
        invariant
            i <= j <= cached.len(),
            list@ == both + cached@.subrange(i as int, j as int),
        decreases cached.len() - j,
    {
        list.push(cached[j]);
        j = j + 1;
    }
    let ghost with_cached = list@;
    let mut k: usize = i;
    while k < hard_coded.len()
        invariant
            i <= k <= hard_coded.len(),
            list@ == with_cached + hard_coded@.subrange(i as int, k as int),
        decreases hard_coded.len() - k,
    {
        list.push(hard_coded[k]);
        k = k + 1;
    }
    proof {
        let c = cached@.skip(n);
        let h = hard_coded@.skip(n);
        // One of the two rests is empty.
        if c.len() > 0 {
            lemma_interleaved_rest(c);
            assert(h =~= Seq::<Endpoint>::empty());
        }
    }
    list
}

/// A list interleaved with nothing is the list.
proof fn lemma_interleaved_rest<T>(first: Seq<T>)
    ensures
        interleaved(first, Seq::<T>::empty()) == first,
{
    if first.len() > 0 {
        assert(interleaved(first, Seq::<T>::empty()) == seq![first[0]] + interleaved(
            Seq::<T>::empty(),
            first.skip(1),
        ));
    }
}

/// The abstract state of a bootstrap cache.
pub struct CacheView {
    /// The contacts, the one that worked longest ago first.
    pub contacts: Seq<Endpoint>,
    /// The most contacts the cache holds.
    pub capacity: nat,
}

impl CacheView {
    /// No contact is held twice, and no more are held than fit.
    pub open spec fn wf(self) -> bool {
        self.contacts.no_duplicates() && self.contacts.len() <= self.capacity
    }

    /// Whether the cache changes when `contact` worked: it does unless the
    /// contact is held already, or the cache holds nothing at all.
    pub open spec fn takes(self, contact: Endpoint) -> bool {
        !self.contacts.contains(contact) && self.capacity > 0
    }

    /// The cache after `contact` worked. A contact that is held already
    /// changes nothing. A new one goes behind the others, and where the
    /// cache is full the oldest makes room for it.
    pub open spec fn insert(self, contact: Endpoint) -> CacheView {
        if !self.takes(contact) {
            self
        } else if self.contacts.len() < self.capacity {
            CacheView { contacts: self.contacts.push(contact), ..self }
        } else {
            CacheView { contacts: self.contacts.skip(1).push(contact), ..self }
        }
    }

    /// The cache that a snapshot gives: its contacts put in one by one.
    pub open spec fn loaded(snapshot: Seq<Endpoint>, capacity: nat) -> CacheView
        decreases snapshot.len(),
    {
        if snapshot.len() == 0 {
            CacheView { contacts: Seq::empty(), capacity }
        } else {
            CacheView::loaded(snapshot.drop_last(), capacity).insert(snapshot.last())
        }
    }
}

/// Putting a contact into a cache keeps it free of duplicates and within
/// its bound, and the contact is in it afterwards unless the cache holds
/// nothing at all.
pub proof fn lemma_insert_keeps_cache(cache: CacheView, contact: Endpoint)
    requires
        cache.wf(),
    ensures
        cache.insert(contact).wf(),
        cache.insert(contact).capacity == cache.capacity,
        cache.capacity > 0 ==> cache.insert(contact).contacts.contains(contact),
{
    let after = cache.insert(contact).contacts;
    if cache.takes(contact) {
        assert(after[after.len() - 1] == contact);
        assert forall|i: int, j: int|
            0 <= i < after.len() && 0 <= j < after.len() && i != j implies after[i]
            != after[j] by {}
    }
}

/// A cache made of a snapshot is free of duplicates and within its bound,
/// whatever the snapshot holds.
pub proof fn lemma_loaded_cache_is_wf(snapshot: Seq<Endpoint>, capacity: nat)
    ensures
        CacheView::loaded(snapshot, capacity).wf(),
        CacheView::loaded(snapshot, capacity).capacity == capacity,
    decreases snapshot.len(),
{
    if snapshot.len() > 0 {
        lemma_loaded_cache_is_wf(snapshot.drop_last(), capacity);
        lemma_insert_keeps_cache(
            CacheView::loaded(snapshot.drop_last(), capacity),
            snapshot.last(),
        );
    }
}

/// The contacts that bootstrapping worked with of late.
pub struct BootstrapCache {
    contacts: Vec<Endpoint>,
    capacity: usize,
}

impl View for BootstrapCache {
    type V = CacheView;

    closed spec fn view(&self) -> CacheView {
        CacheView { contacts: self.contacts@, capacity: self.capacity as nat }
    }
}

impl BootstrapCache {
    /// An empty cache for at most `capacity` contacts.
    pub fn new(capacity: usize) -> (cache: BootstrapCache)
        ensures
            cache@.wf(),
            cache@ == (CacheView { contacts: Seq::empty(), capacity: capacity as nat }),
    {
        BootstrapCache { contacts: Vec::new(), capacity }
    }

    /// The cache that the stored snapshot gives. A snapshot that could not
    /// be read counts as an empty one.
    pub fn load(snapshot: Option<Vec<Endpoint>>, capacity: usize) -> (cache: BootstrapCache)
        ensures
            cache@.wf(),
            cache@ == CacheView::loaded(
                match snapshot {
                    Some(stored) => stored@,
                    None => Seq::empty(),
                },
                capacity as nat,
            ),
    {
        let mut cache = BootstrapCache::new(capacity);
        match snapshot {
            None => {},
            Some(stored) => {
                let mut i: usize = 0;
                while i < stored.len()
                    invariant
                        i <= stored.len(),
                        cache@.wf(),
                        cache@ == CacheView::loaded(stored@.take(i as int), capacity as nat),
                    decreases stored.len() - i,
                {
                    proof {
                        assert(stored@.take(i + 1).drop_last() =~= stored@.take(i as int));
                    }
                    let _ = cache.insert(stored[i]);
                    i = i + 1;
                }
                proof {
                    assert(stored@.take(i as int) =~= stored@);
                }
            },
        }
        cache
    }

    /// The contacts, the one that worked longest ago first.
    pub fn contacts(&self) -> (contacts: &Vec<Endpoint>)
        ensures
            contacts@ == self@.contacts,
    {
        &self.contacts
    }

    /// Whether `contact` is held.
    pub fn contains(&self, contact: Endpoint) -> (held: bool)
        ensures
            held == self@.contacts.contains(contact),
    {
        let mut i: usize = 0;
        while i < self.contacts.len()
            invariant
                i <= self.contacts.len(),
                forall|j: int| 0 <= j < i ==> self.contacts@[j] != contact,
            decreases self.contacts.len() - i,
        {
            if self.contacts[i] == contact {
                return true;
            }
            i = i + 1;
        }
        false
    }

    /// Notes that bootstrapping off `contact` worked. Returns whether the
    /// cache changed, which is when it is to be written to storage.
    pub fn insert(&mut self, contact: Endpoint) -> (changed: bool)
        requires
            old(self)@.wf(),
        ensures
            final(self)@.wf(),
            final(self)@ == old(self)@.insert(contact),
            changed == old(self)@.takes(contact),
    {
        if self.capacity == 0 || self.contains(contact) {
            return false;
        }
        if self.contacts.len() >= self.capacity {
            let _ = self.contacts.remove(0);
        }
        self.contacts.push(contact);
        true
    }
}

/// The contact that the attempt `token` went to: that of the first of
/// `attempts` under that token.
pub open spec fn contact_of(attempts: Seq<(Token, Endpoint)>, token: Token) -> Option<Endpoint>
    decreases attempts.len(),
{
    if attempts.len() == 0 {
        None
    } else if attempts[0].0 == token {
        Some(attempts[0].1)
    } else {
        contact_of(attempts.skip(1), token)
    }
}

/// Notes in `cache` the contact that a bootstrap was won with: the one that
/// the attempt `winner` of `attempts` went to. Returns whether the cache
/// changed, which is when it is to be written to storage. A winner that is
/// none of the attempts changes nothing.
pub fn remember(
    cache: &mut BootstrapCache,
    attempts: &Vec<(Token, Endpoint)>,
    winner: Token,
) -> (changed: bool)
    requires
        old(cache)@.wf(),
    ensures
        final(cache)@.wf(),
        final(cache)@ == (match contact_of(attempts@, winner) {
            Some(contact) => old(cache)@.insert(contact),
            None => old(cache)@,
        }),
        changed == (match contact_of(attempts@, winner) {
            Some(contact) => old(cache)@.takes(contact),
            None => false,
        }),
{
    let mut i: usize = 0;
    assert(attempts@.skip(0) =~= attempts@);
    while i < attempts.len()
        invariant
            i <= attempts.len(),
            contact_of(attempts@, winner) == contact_of(attempts@.skip(i as int), winner),
            *cache == *old(cache),
            cache@.wf(),
        decreases attempts.len() - i,
    {
        proof {
            assert(attempts@.skip(i as int).skip(1) =~= attempts@.skip(i + 1));
        }
        if attempts[i].0 == winner {
            return cache.insert(attempts[i].1);
        }
        i = i + 1;
    }
    false
}

} // verus!
