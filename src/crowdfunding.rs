//! Fundraising projects: the value attached when a project is listed becomes
//! the amount every donation to it must carry; each donation counts one more
//! donor and adds that amount to the total raised.

use vstd::prelude::*;
use near_sdk::AccountId;
use crate::store::{
    after_create, after_settle, create_result, has_key, lemma_calls_only_advance, lookup, run,
    settle_result, unique_keys, ListingStore, MarketError, Settled, StoreCall, Transfer,
};

verus! {

/// What a project owner supplies to list a project.
#[derive(Debug, Clone, PartialEq, Eq)]
pub struct Payload {
    pub id: String,
    pub name: String,
    pub description: String,
    pub image: String,
    pub location: String,
    /// The amount the owner hopes to raise; informative, never enforced.
    pub target_investment: u128,
}

#[derive(Debug, Clone, PartialEq, Eq)]
pub struct Project {
    pub id: String,
    pub name: String,
    pub description: String,
    pub image: String,
    pub location: String,
    pub target_investment: u128,
    /// The account that listed the project.
    pub owner: AccountId,
    /// How many donations were made.
    pub total_donor: u32,
    /// The amount each donation must carry.
    pub donation: u128,
    /// The sum of all donations.
    pub total_donation: u128,
}

/// The project that `owner` lists with `payload`, attaching `donation`.
pub open spec fn project_of(payload: Payload, owner: AccountId, donation: u128) -> Project {
    Project {
        id: payload.id,
        name: payload.name,
        description: payload.description,
        image: payload.image,
        location: payload.location,
        target_investment: payload.target_investment,
        owner,
        total_donor: 0,
        donation,
        total_donation: 0,
    }
}

impl Project {
    pub fn from_payload(payload: Payload, owner: AccountId, attached_deposit: u128) -> (r: Project)
        ensures
            r == project_of(payload, owner, attached_deposit),
    {
        Project {
            id: payload.id,
            description: payload.description,
            name: payload.name,
            location: payload.location,
            target_investment: payload.target_investment,
            image: payload.image,
            owner,
            donation: attached_deposit,
            total_donor: 0,
            total_donation: 0,
        }
    }

    pub fn increment_number_donor(&mut self)
        requires
            old(self).total_donor < u32::MAX,
        ensures
            *final(self) == (Project { total_donor: (old(self).total_donor + 1) as u32, ..*old(self) }),
    {
        self.total_donor = self.total_donor + 1;
    }

    pub fn increment_total_donation(&mut self)
        requires
            old(self).total_donation + old(self).donation <= u128::MAX,
        ensures
            *final(self) == (Project {
                total_donation: (old(self).total_donation + old(self).donation) as u128,
                ..*old(self)
            }),
    {
        self.total_donation = self.total_donation + self.donation;
    }
}

impl Settled for Project {
    open spec fn key(&self) -> Seq<char> {
        self.id@
    }

    open spec fn owner(&self) -> AccountId {
        self.owner
    }

    open spec fn required(&self) -> u128 {
        self.donation
    }

    open spec fn can_settle(&self) -> bool {
        self.total_donor < u32::MAX && self.total_donation + self.donation <= u128::MAX
    }

    open spec fn settled(&self) -> Project {
        Project {
            total_donor: (self.total_donor + 1) as u32,
            total_donation: (self.total_donation + self.donation) as u128,
            ..*self
        }
    }

    open spec fn advanced_to(&self, later: &Project) -> bool {
        &&& *later == (Project {
            total_donor: later.total_donor,
            total_donation: later.total_donation,
            ..*self
        })
        &&& self.total_donor <= later.total_donor
        &&& self.total_donation <= later.total_donation
    }

    proof fn lemma_advanced_reflexive(&self) {
    }

    proof fn lemma_advanced_transitive(&self, b: &Project, c: &Project) {
    }

    proof fn lemma_settled_advances(&self) {
    }

    fn id_ref(&self) -> (r: &String) {
        &self.id
    }

    fn owner_id(&self) -> (r: AccountId) {
        self.owner.clone()
    }

    fn required_amount(&self) -> (r: u128) {
        self.donation
    }

    fn has_room(&self) -> (r: bool) {
        self.total_donor < u32::MAX && self.donation <= u128::MAX - self.total_donation
    }

    fn record_settlement(&mut self) {
        self.increment_number_donor();
        self.increment_total_donation();
    }

    fn duplicate(&self) -> (r: Project) {
        Project {
            id: self.id.clone(),
            name: self.name.clone(),
            description: self.description.clone(),
            image: self.image.clone(),
            location: self.location.clone(),
            target_investment: self.target_investment,
            owner: self.owner.clone(),
            total_donor: self.total_donor,
            donation: self.donation,
            total_donation: self.total_donation,
        }
    }
}

/// Whatever calls follow, a listed project stays listed and its `total_donor` and `total_donation` never decrease.
pub proof fn lemma_counters_never_decrease(s: Seq<Project>, calls: Seq<StoreCall<Project>>, id: Seq<char>)
    requires
        unique_keys(s),
        has_key(s, id),
    ensures
        has_key(run(s, calls), id),
        lookup(s, id).unwrap().total_donor <= lookup(run(s, calls), id).unwrap().total_donor,
        lookup(s, id).unwrap().total_donation <= lookup(run(s, calls), id).unwrap().total_donation,
{
    lemma_calls_only_advance(s, calls);
}

/// The owner of a project is the account that listed it, whatever calls
/// follow and whoever makes them.
pub proof fn lemma_owner_is_creator(
    s: Seq<Project>,
    payload: Payload, creator: AccountId, donation: u128,
    calls: Seq<StoreCall<Project>>,
)
    requires
        unique_keys(s),
        create_result(s, project_of(payload, creator, donation)) is Ok,
    ensures
        has_key(run(after_create(s, project_of(payload, creator, donation)), calls), payload.id@),
        lookup(run(after_create(s, project_of(payload, creator, donation)), calls), payload.id@).unwrap().owner == creator,
{
    let item = project_of(payload, creator, donation);
    crate::store::lemma_read_after_create(s, item);
    crate::store::lemma_create_step(s, item);
    lemma_calls_only_advance(after_create(s, item), calls);
}

/// The listed projects, keyed by their identifiers.
pub struct Marketplace {
    listed_projects: ListingStore<Project>,
}

impl View for Marketplace {
    type V = Seq<Project>;

    closed spec fn view(&self) -> Seq<Project> {
        self.listed_projects@
    }
}

impl Marketplace {
    pub open spec fn wf(&self) -> bool {
        unique_keys(self@)
    }

    pub fn init() -> (r: Self)
        ensures
            r.wf(),
            r@ == Seq::<Project>::empty(),
    {
        Marketplace { listed_projects: ListingStore::new() }
    }

    /// Lists the project that `owner` describes with `payload`; the value
    /// attached to this call becomes the amount of every donation.
    pub fn set_product(&mut self, payload: Payload, owner: AccountId, attached_deposit: u128) -> (r:
        Result<(), MarketError>)
        requires
            old(self).wf(),
        ensures
            final(self).wf(),
            r == create_result(old(self)@, project_of(payload, owner, attached_deposit)),
            final(self)@ == after_create(old(self)@, project_of(payload, owner, attached_deposit)),
    {
        let project = Project::from_payload(payload, owner, attached_deposit);
        self.listed_projects.create(project)
    }

    /// Puts back a project saved earlier, counters included, under the same
    /// rules as a new listing: an empty or already stored identifier is refused.
    pub fn restore_project(&mut self, project: Project) -> (r: Result<(), MarketError>)
        requires
            old(self).wf(),
        ensures
            final(self).wf(),
            r == create_result(old(self)@, project),
            final(self)@ == after_create(old(self)@, project),
    {
        self.listed_projects.create(project)
    }

    pub fn get_project(&self, id: &String) -> (r: Option<Project>)
        requires
            self.wf(),
        ensures
            r == lookup(self@, id@),
    {
        self.listed_projects.get(id)
    }

    /// Every project, in the order it was listed.
    pub fn get_projects(&self) -> (r: Vec<Project>)
        ensures
            r@ == self@,
    {
        self.listed_projects.list_all()
    }

    /// Donates `attached_deposit` to the project `project_id`; it must equal
    /// the project's donation amount, and the returned transfer pays it to
    /// the project's owner.
    pub fn donate_project(&mut self, project_id: &String, attached_deposit: u128) -> (r: Result<
        Transfer,
        MarketError,
    >)
        requires
            old(self).wf(),
        ensures
            final(self).wf(),
            r == settle_result(old(self)@, project_id@, attached_deposit),
            final(self)@ == after_settle(old(self)@, project_id@, attached_deposit),
    {
        self.listed_projects.settle(project_id, attached_deposit)
    }
}

} // verus!
