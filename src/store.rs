//! The key-unique listing store and the settlement engine shared by every
//! kind of listing.

use vstd::prelude::*;
use near_sdk::AccountId;

verus! {

/// Why a call on the store was refused. A refused call changes nothing.
#[derive(Debug, Clone, Copy, PartialEq, Eq)]
pub enum MarketError {
    /// A listing needs a non-empty identifier.
    EmptyListingId,
    /// A listing with the same identifier is already stored.
    DuplicateListing,
    /// No listing has the identifier named by a settlement.
    ListingNotFound,
    /// The attached value differs from the amount the listing requires.
    AmountMismatch,
    /// One of the listing's counters would pass its largest value.
    CounterOverflow,
}

/// The one outbound payment a successful settlement asks the host to make.
#[derive(Debug, Clone, PartialEq, Eq)]
pub struct Transfer {
    pub receiver: AccountId,
    pub amount: u128,
}

/// What the store and the settlement engine need of a listing: its key, its
/// owner, the amount one settlement must carry and how one settlement
/// advances its counters.
pub trait Settled: Sized {
    spec fn key(&self) -> Seq<char>;

    spec fn owner(&self) -> AccountId;

    /// The exact value a settlement of this listing must carry.
    spec fn required(&self) -> u128;

    /// Whether the counters have room for one more settlement.
    spec fn can_settle(&self) -> bool;

    /// The listing after one more settlement.
    spec fn settled(&self) -> Self;

    /// `later` has the same identity, owner and terms as `self`, and no
    /// counter of it is smaller.
    spec fn advanced_to(&self, later: &Self) -> bool;

    proof fn lemma_advanced_reflexive(&self)
        ensures
            self.advanced_to(self),
    ;

    proof fn lemma_advanced_transitive(&self, b: &Self, c: &Self)
        requires
            self.advanced_to(b),
            b.advanced_to(c),
        ensures
            self.advanced_to(c),
    ;

    proof fn lemma_settled_advances(&self)
        requires
            self.can_settle(),
        ensures
            self.advanced_to(&self.settled()),
            self.settled().key() == self.key(),
    ;

    fn id_ref(&self) -> (r: &String)
        ensures
            r@ == self.key(),
    ;

    fn owner_id(&self) -> (r: AccountId)
        ensures
            r == self.owner(),
    ;

    fn required_amount(&self) -> (r: u128)
        ensures
            r == self.required(),
    ;

    fn has_room(&self) -> (r: bool)
        ensures
            r == self.can_settle(),
    ;

    fn record_settlement(&mut self)
        requires
            old(self).can_settle(),
        ensures
            *final(self) == old(self).settled(),
    ;

    fn duplicate(&self) -> (r: Self)
        ensures
            r == *self,
    ;
}

pub open spec fn has_key<L: Settled>(s: Seq<L>, key: Seq<char>) -> bool {
    exists|i: int| 0 <= i < s.len() && #[trigger] s[i].key() == key
}

pub open spec fn key_index<L: Settled>(s: Seq<L>, key: Seq<char>) -> int {
    choose|i: int| 0 <= i < s.len() && #[trigger] s[i].key() == key
}

/// The listing stored under `key`, if any.
pub open spec fn lookup<L: Settled>(s: Seq<L>, key: Seq<char>) -> Option<L> {
    if has_key(s, key) {
        Some(s[key_index(s, key)])
    } else {
        None
    }
}

pub open spec fn unique_keys<L: Settled>(s: Seq<L>) -> bool {
    forall|i: int, j: int|
        0 <= i < s.len() && 0 <= j < s.len() && i != j ==> #[trigger] s[i].key() != #[trigger] s[j].key()
}

/// The outcome of adding `item` to a store holding `s`.
pub open spec fn create_result<L: Settled>(s: Seq<L>, item: L) -> Result<(), MarketError> {
    if item.key().len() == 0 {
        Err(MarketError::EmptyListingId)
    } else if has_key(s, item.key()) {
        Err(MarketError::DuplicateListing)
    } else {
        Ok(())
    }
}

/// The listings after adding `item` to a store holding `s`.
pub open spec fn after_create<L: Settled>(s: Seq<L>, item: L) -> Seq<L> {
    if create_result(s, item) is Ok {
        s.push(item)
    } else {
        s
    }
}

/// The outcome of settling the listing under `key` with `amount` attached.
pub open spec fn settle_result<L: Settled>(s: Seq<L>, key: Seq<char>, amount: u128) -> Result<
    Transfer,
    MarketError,
> {
    match lookup(s, key) {
        None => Err(MarketError::ListingNotFound),
        Some(l) => if amount != l.required() {
            Err(MarketError::AmountMismatch)
        } else if !l.can_settle() {
            Err(MarketError::CounterOverflow)
        } else {
            Ok(Transfer { receiver: l.owner(), amount })
        },
    }
}

/// The listings after settling the listing under `key` with `amount` attached.
pub open spec fn after_settle<L: Settled>(s: Seq<L>, key: Seq<char>, amount: u128) -> Seq<L> {
    if settle_result(s, key, amount) is Ok {
        s.update(key_index(s, key), s[key_index(s, key)].settled())
    } else {
        s
    }
}

/// A mutating call on a store, taken as a value.
pub enum StoreCall<L> {
    Create(L),
    Settle(Seq<char>, u128),
}

/// The listings after `c` on a store holding `s`, whether or not it succeeds.
pub open spec fn apply<L: Settled>(s: Seq<L>, c: StoreCall<L>) -> Seq<L> {
    match c {
        StoreCall::Create(item) => after_create(s, item),
        StoreCall::Settle(key, amount) => after_settle(s, key, amount),
    }
}

/// The listings after the calls `calls`, in order, on a store holding `s`.
pub open spec fn run<L: Settled>(s: Seq<L>, calls: Seq<StoreCall<L>>) -> Seq<L>
    decreases calls.len(),
{
    if calls.len() == 0 {
        s
    } else {
        run(apply(s, calls[0]), calls.drop_first())
    }
}

/// Every listing of `s` is still in `t`, with the same identity, owner and
/// terms, and none of its counters is smaller.
pub open spec fn only_advanced<L: Settled>(s: Seq<L>, t: Seq<L>) -> bool {
    forall|k: Seq<char>| #[trigger]
        has_key(s, k) ==> has_key(t, k) && lookup(s, k).unwrap().advanced_to(&lookup(t, k).unwrap())
}

proof fn lemma_index_of<L: Settled>(s: Seq<L>, i: int)
    requires
        unique_keys(s),
        0 <= i < s.len(),
    ensures
        has_key(s, s[i].key()),
        key_index(s, s[i].key()) == i,
        lookup(s, s[i].key()) == Some(s[i]),
{
    let k = s[i].key();
    assert(has_key(s, k));
    let j = key_index(s, k);
    assert(s[j].key() == k);
}

pub(crate) proof fn lemma_create_step<L: Settled>(s: Seq<L>, item: L)
    requires
        unique_keys(s),
    ensures
        unique_keys(after_create(s, item)),
        only_advanced(s, after_create(s, item)),
{
    let t = after_create(s, item);
    if create_result(s, item) is Ok {
        assert forall|a: int, b: int|
            0 <= a < t.len() && 0 <= b < t.len() && a != b implies #[trigger] t[a].key()
            != #[trigger] t[b].key() by {
            if a == s.len() {
                assert(t[b] == s[b]);
            } else if b == s.len() {
                assert(t[a] == s[a]);
            } else {
                assert(t[a] == s[a] && t[b] == s[b]);
            }
        }
    }
    assert forall|k: Seq<char>| #[trigger]
        has_key(s, k) implies has_key(t, k) && lookup(s, k).unwrap().advanced_to(
        &lookup(t, k).unwrap(),
    ) by {
        let i = key_index(s, k);
        lemma_index_of(s, i);
        assert(t[i] == s[i]);
        lemma_index_of(t, i);
        s[i].lemma_advanced_reflexive();
    }
}

proof fn lemma_settle_step<L: Settled>(s: Seq<L>, key: Seq<char>, amount: u128)
    requires
        unique_keys(s),
    ensures
        unique_keys(after_settle(s, key, amount)),
        only_advanced(s, after_settle(s, key, amount)),
{
    let t = after_settle(s, key, amount);
    let x = key_index(s, key);
    if settle_result(s, key, amount) is Ok {
        s[x].lemma_settled_advances();
        assert forall|a: int, b: int|
            0 <= a < t.len() && 0 <= b < t.len() && a != b implies #[trigger] t[a].key()
            != #[trigger] t[b].key() by {
            assert(t[a].key() == s[a].key());
            assert(t[b].key() == s[b].key());
        }
    }
    assert forall|k: Seq<char>| #[trigger]
        has_key(s, k) implies has_key(t, k) && lookup(s, k).unwrap().advanced_to(
        &lookup(t, k).unwrap(),
    ) by {
        let i = key_index(s, k);
        lemma_index_of(s, i);
        assert(t[i].key() == s[i].key());
        lemma_index_of(t, i);
        if settle_result(s, key, amount) is Ok && i == x {
            s[i].lemma_settled_advances();
        } else {
            s[i].lemma_advanced_reflexive();
        }
    }
}

proof fn lemma_apply_step<L: Settled>(s: Seq<L>, c: StoreCall<L>)
    requires
        unique_keys(s),
    ensures
        unique_keys(apply(s, c)),
        only_advanced(s, apply(s, c)),
{
    match c {
        StoreCall::Create(item) => lemma_create_step(s, item),
        StoreCall::Settle(key, amount) => lemma_settle_step(s, key, amount),
    }
}

/// Whatever calls are made, in whatever order, no two listings ever share an
/// identifier, and every listing already stored stays, keeps its identity,
/// owner and terms, and none of its counters decreases.
pub proof fn lemma_calls_only_advance<L: Settled>(s: Seq<L>, calls: Seq<StoreCall<L>>)
    requires
        unique_keys(s),
    ensures
        unique_keys(run(s, calls)),
        only_advanced(s, run(s, calls)),
    decreases calls.len(),
{
    if calls.len() == 0 {
        assert forall|k: Seq<char>| #[trigger]
            has_key(s, k) implies has_key(s, k) && lookup(s, k).unwrap().advanced_to(
            &lookup(s, k).unwrap(),
        ) by {
            lookup(s, k).unwrap().lemma_advanced_reflexive();
        }
    } else {
        let m = apply(s, calls[0]);
        lemma_apply_step(s, calls[0]);
        lemma_calls_only_advance(m, calls.drop_first());
        let t = run(s, calls);
        assert forall|k: Seq<char>| #[trigger]
            has_key(s, k) implies has_key(t, k) && lookup(s, k).unwrap().advanced_to(
            &lookup(t, k).unwrap(),
        ) by {
            assert(has_key(m, k));
            lookup(s, k).unwrap().lemma_advanced_transitive(
                &lookup(m, k).unwrap(),
                &lookup(t, k).unwrap(),
            );
        }
    }
}

/// Adding a listing under an identifier already stored is refused and
/// leaves the store as it was.
pub proof fn lemma_duplicate_refused<L: Settled>(s: Seq<L>, item: L)
    requires
        unique_keys(s),
        item.key().len() > 0,
        has_key(s, item.key()),
    ensures
        create_result(s, item) == Err::<(), MarketError>(MarketError::DuplicateListing),
        after_create(s, item) == s,
        lookup(after_create(s, item), item.key()) == lookup(s, item.key()),
{
}

/// Right after a successful creation, the store holds the new listing under
/// its identifier.
pub proof fn lemma_read_after_create<L: Settled>(s: Seq<L>, item: L)
    requires
        unique_keys(s),
        create_result(s, item) is Ok,
    ensures
        lookup(after_create(s, item), item.key()) == Some(item),
{
    lemma_create_step(s, item);
    lemma_index_of(s.push(item), s.len() as int);
}

/// Right after a successful settlement, the store holds the listing with its
/// counters advanced once.
pub proof fn lemma_read_after_settle<L: Settled>(s: Seq<L>, key: Seq<char>, amount: u128)
    requires
        unique_keys(s),
        settle_result(s, key, amount) is Ok,
    ensures
        lookup(after_settle(s, key, amount), key) == Some(lookup(s, key).unwrap().settled()),
{
    let x = key_index(s, key);
    lemma_settle_step(s, key, amount);
    s[x].lemma_settled_advances();
    lemma_index_of(after_settle(s, key, amount), x);
}

/// A settlement of a stored listing whose counters have room succeeds exactly
/// when the attached amount is the one the listing requires; any other
/// amount leaves the store unchanged.
pub proof fn lemma_settle_exact<L: Settled>(s: Seq<L>, key: Seq<char>, amount: u128)
    requires
        unique_keys(s),
        has_key(s, key),
        lookup(s, key).unwrap().can_settle(),
    ensures
        settle_result(s, key, amount) is Ok <==> amount == lookup(s, key).unwrap().required(),
        amount != lookup(s, key).unwrap().required() ==> after_settle(s, key, amount) == s,
{
}

/// Listings kept in the order they were created, no two under one key.
pub struct ListingStore<L> {
    entries: Vec<L>,
}

impl<L: Settled> View for ListingStore<L> {
    type V = Seq<L>;

    closed spec fn view(&self) -> Seq<L> {
        self.entries@
    }
}

impl<L: Settled> ListingStore<L> {
    pub open spec fn wf(&self) -> bool {
        unique_keys(self@)
    }

    pub fn new() -> (r: Self)
        ensures
            r@ == Seq::<L>::empty(),
            r.wf(),
    {
        ListingStore { entries: Vec::new() }
    }

    /// The position of the listing under `key`, if any.
    fn position(&self, key: &String) -> (r: Option<usize>)
        requires
            self.wf(),
        ensures
            r is None <==> !has_key(self@, key@),
            r matches Some(i) ==> i == key_index(self@, key@) && i < self@.len() && self@[i as int].key()
                == key@,
    {
        let mut i: usize = 0;
        while i < self.entries.len()
            invariant
                i <= self.entries@.len(),
                self.entries@ == self@,
                self.wf(),
                forall|j: int| 0 <= j < i ==> #[trigger] self@[j].key() != key@,
            decreases self.entries@.len() - i,
        {
            let id = self.entries[i].id_ref();
            if id.eq(key) {
                proof {
                    assert(self@[i as int].key() == key@);
                    assert(has_key(self@, key@));
                    let k = key_index(self@, key@);
                    assert(self@[k].key() == key@);
                    assert(k == i as int);
                }
                return Some(i);
            }
            i = i + 1;
        }
        None
    }

    /// The listing stored under `key`, if any.
    pub fn get(&self, key: &String) -> (r: Option<L>)
        requires
            self.wf(),
        ensures
            r == lookup(self@, key@),
    {
        match self.position(key) {
            Some(i) => Some(self.entries[i].duplicate()),
            None => None,
        }
    }

    /// Every listing, in the order of creation.
    pub fn list_all(&self) -> (r: Vec<L>)
        ensures
            r@ == self@,
    {
        let mut out: Vec<L> = Vec::new();
        let mut i: usize = 0;
        while i < self.entries.len()
            invariant
                i <= self.entries@.len(),
                out@ == self.entries@.subrange(0, i as int),
            decreases self.entries@.len() - i,
        {
            out.push(self.entries[i].duplicate());
            i = i + 1;
            assert(out@ =~= self.entries@.subrange(0, i as int));
        }
        assert(out@ =~= self.entries@);
        out
    }

    /// Adds a new listing; an empty or already stored identifier is refused.
    pub fn create(&mut self, item: L) -> (r: Result<(), MarketError>)
        requires
            old(self).wf(),
        ensures
            final(self).wf(),
            r == create_result(old(self)@, item),
            final(self)@ == after_create(old(self)@, item),
    {
        if item.id_ref().as_str().is_empty() {
            return Err(MarketError::EmptyListingId);
        }
        match self.position(item.id_ref()) {
            Some(_) => Err(MarketError::DuplicateListing),
            None => {
                self.entries.push(item);
                Ok(())
            },
        }
    }

    /// Settles the listing under `key` with `amount` attached: on success its
    /// counters advance once and the payment of `amount` to its owner is
    /// returned for the host to schedule.
    pub fn settle(&mut self, key: &String, amount: u128) -> (r: Result<Transfer, MarketError>)
        requires
            old(self).wf(),
        ensures
            final(self).wf(),
            r == settle_result(old(self)@, key@, amount),
            final(self)@ == after_settle(old(self)@, key@, amount),
    {
        let i = match self.position(key) {
            Some(i) => i,
            None => return Err(MarketError::ListingNotFound),
        };
        if amount != self.entries[i].required_amount() {
            return Err(MarketError::AmountMismatch);
        }
        if !self.entries[i].has_room() {
            return Err(MarketError::CounterOverflow);
        }
        let mut item = self.entries[i].duplicate();
        let receiver = item.owner_id();
        proof {
            item.lemma_settled_advances();
        }
        item.record_settlement();
        self.entries.set(i, item);
        proof {
            let s = old(self)@;
            assert forall|a: int, b: int|
                0 <= a < self@.len() && 0 <= b < self@.len() && a != b implies #[trigger] self@[a].key()
                != #[trigger] self@[b].key() by {
                assert(a != i ==> self@[a] == s[a]);
                assert(b != i ==> self@[b] == s[b]);
            }
        }
        Ok(Transfer { receiver, amount })
    }
}

} // verus!
