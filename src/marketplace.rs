//! Fixed-price products: each settlement must carry the price exactly and
//! counts one more sale.

use vstd::prelude::*;
use near_sdk::AccountId;
use crate::store::{
    after_create, after_settle, create_result, has_key, lemma_calls_only_advance, lookup, run,
    settle_result, unique_keys, ListingStore, MarketError, Settled, StoreCall, Transfer,
};

verus! {

/// What a seller supplies to list a product.
#[derive(Debug, Clone, PartialEq, Eq)]
pub struct Payload {
    pub id: String,
    pub name: String,
    pub description: String,
    pub image: String,
    pub location: String,
    /// Price in the ledger's base units.
    pub price: u128,
}

#[derive(Debug, Clone, PartialEq, Eq)]
pub struct Product {
    pub id: String,
    pub name: String,
    pub description: String,
    pub image: String,
    pub location: String,
    pub price: u128,
    /// The account that listed the product.
    pub owner: AccountId,
    /// How many times the product was bought.
    pub sold: u32,
}

/// The product that `owner` lists with `payload`.
pub open spec fn product_of(payload: Payload, owner: AccountId) -> Product {
    Product {
        id: payload.id,
        name: payload.name,
        description: payload.description,
        image: payload.image,
        location: payload.location,
        price: payload.price,
        owner,
        sold: 0,
    }
}

impl Product {
    pub fn from_payload(payload: Payload, owner: AccountId) -> (r: Product)
        ensures
            r == product_of(payload, owner),
    {
        Product {
            id: payload.id,
            description: payload.description,
            name: payload.name,
            location: payload.location,
            price: payload.price,
            sold: 0,
            image: payload.image,
            owner,
        }
    }

    pub fn increment_sold_amount(&mut self)
        requires
            old(self).sold < u32::MAX,
        ensures
            *final(self) == (Product { sold: (old(self).sold + 1) as u32, ..*old(self) }),
    {
        self.sold = self.sold + 1;
    }
}

impl Settled for Product {
    open spec fn key(&self) -> Seq<char> {
        self.id@
    }

    open spec fn owner(&self) -> AccountId {
        self.owner
    }

    open spec fn required(&self) -> u128 {
        self.price
    }

    open spec fn can_settle(&self) -> bool {
        self.sold < u32::MAX
    }

    open spec fn settled(&self) -> Product {
        Product { sold: (self.sold + 1) as u32, ..*self }
    }

    open spec fn advanced_to(&self, later: &Product) -> bool {
        *later == (Product { sold: later.sold, ..*self }) && self.sold <= later.sold
    }

    proof fn lemma_advanced_reflexive(&self) {
    }

    proof fn lemma_advanced_transitive(&self, b: &Product, c: &Product) {
    }

    proof fn lemma_settled_advances(&self) {
    }

    fn id_ref(&self) -> (r: &String) {
        &self.id
    }

    fn owner_id(&self) -> (r: AccountId) {
        self.owner.clone()
    }

    fn required_amount(&self) -> (r: u128) {
        self.price
    }

    fn has_room(&self) -> (r: bool) {
        self.sold < u32::MAX
    }

    fn record_settlement(&mut self) {
        self.increment_sold_amount();
    }

    fn duplicate(&self) -> (r: Product) {
        Product {
            id: self.id.clone(),
            name: self.name.clone(),
            description: self.description.clone(),
            image: self.image.clone(),
            location: self.location.clone(),
            price: self.price,
            owner: self.owner.clone(),
            sold: self.sold,
        }
    }
}

/// Whatever calls follow, a listed product stays listed and its `sold` never decrease.
pub proof fn lemma_counters_never_decrease(s: Seq<Product>, calls: Seq<StoreCall<Product>>, id: Seq<char>)
    requires
        unique_keys(s),
        has_key(s, id),
    ensures
        has_key(run(s, calls), id),
        lookup(s, id).unwrap().sold <= lookup(run(s, calls), id).unwrap().sold,
{
    lemma_calls_only_advance(s, calls);
}

/// The owner of a product is the account that listed it, whatever calls
/// follow and whoever makes them.
pub proof fn lemma_owner_is_creator(
    s: Seq<Product>,
    payload: Payload, creator: AccountId,
    calls: Seq<StoreCall<Product>>,
)
    requires
        unique_keys(s),
        create_result(s, product_of(payload, creator)) is Ok,
    ensures
        has_key(run(after_create(s, product_of(payload, creator)), calls), payload.id@),
        lookup(run(after_create(s, product_of(payload, creator)), calls), payload.id@).unwrap().owner == creator,
{
    let item = product_of(payload, creator);
    crate::store::lemma_read_after_create(s, item);
    crate::store::lemma_create_step(s, item);
    lemma_calls_only_advance(after_create(s, item), calls);
}

/// The listed products, keyed by their identifiers.
pub struct Marketplace {
    listed_products: ListingStore<Product>,
}

impl View for Marketplace {
    type V = Seq<Product>;

    closed spec fn view(&self) -> Seq<Product> {
        self.listed_products@
    }
}

impl Marketplace {
    pub open spec fn wf(&self) -> bool {
        unique_keys(self@)
    }

    pub fn init() -> (r: Self)
        ensures
            r.wf(),
            r@ == Seq::<Product>::empty(),
    {
        Marketplace { listed_products: ListingStore::new() }
    }

    /// Lists the product that `owner` describes with `payload`.
    pub fn set_product(&mut self, payload: Payload, owner: AccountId) -> (r: Result<(), MarketError>)
        requires
            old(self).wf(),
        ensures
            final(self).wf(),
            r == create_result(old(self)@, product_of(payload, owner)),
            final(self)@ == after_create(old(self)@, product_of(payload, owner)),
    {
        let product = Product::from_payload(payload, owner);
        self.listed_products.create(product)
    }

    /// Puts back a product saved earlier, counters included, under the same
    /// rules as a new listing: an empty or already stored identifier is refused.
    pub fn restore_product(&mut self, product: Product) -> (r: Result<(), MarketError>)
        requires
            old(self).wf(),
        ensures
            final(self).wf(),
            r == create_result(old(self)@, product),
            final(self)@ == after_create(old(self)@, product),
    {
        self.listed_products.create(product)
    }

    pub fn get_product(&self, id: &String) -> (r: Option<Product>)
        requires
            self.wf(),
        ensures
            r == lookup(self@, id@),
    {
        self.listed_products.get(id)
    }

    /// Every product, in the order it was listed.
    pub fn get_products(&self) -> (r: Vec<Product>)
        ensures
            r@ == self@,
    {
        self.listed_products.list_all()
    }

    /// Buys the product `product_id` with `attached_deposit`, which must be
    /// its price; the returned transfer pays the price to the product's owner.
    pub fn buy_product(&mut self, product_id: &String, attached_deposit: u128) -> (r: Result<
        Transfer,
        MarketError,
    >)
        requires
            old(self).wf(),
        ensures
            final(self).wf(),
            r == settle_result(old(self)@, product_id@, attached_deposit),
            final(self)@ == after_settle(old(self)@, product_id@, attached_deposit),
    {
        self.listed_products.settle(product_id, attached_deposit)
    }
}

} // verus!
