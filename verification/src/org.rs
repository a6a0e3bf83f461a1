//! The organisation: its members, its secretariat and the projects it has
//! spawned.
//!
//! Who calls, and what the organisation's balance is, are arguments. Where an
//! operation ends in work that only the host can do (spawning a project,
//! moving funds, telling a project of an applicant), the operation decides
//! and returns what is to be done.

use vstd::prelude::*;
use crate::account::{is_account, AccountId, Balance};
use crate::error::Error;
use crate::project::{BusinessIdea, BusinessIdeaView};
use crate::table::Table;

verus! {

/// The role a member holds in the organisation.
#[derive(Clone, Copy, Debug, PartialEq, Eq, Structural)]
pub enum Designation {
    Owner,
    Member,
    Manager,
    Secretariate,
}

/// What the organisation knows of a member.
#[derive(Debug, PartialEq, Eq)]
pub struct MemberInfo {
    pub name: String,
    pub company_id: u16,
    pub designation: Designation,
    pub rating: Option<u8>,
}

impl Clone for MemberInfo {
    fn clone(&self) -> (r: Self)
        ensures
            r == *self,
    {
        MemberInfo {
            name: self.name.clone(),
            company_id: self.company_id,
            designation: self.designation,
            rating: self.rating,
        }
    }
}

/// Someone from outside the organisation on whose behalf a member applies
/// for a project.
#[derive(Debug, PartialEq, Eq)]
pub struct OutsiderInfo {
    pub name: String,
    pub account_address: AccountId,
}

/// A project that the organisation has decided to spawn: what the host needs
/// to create it. Once it exists, [`Org::register_project`] records it.
#[derive(Debug, PartialEq, Eq)]
pub struct ProjectLaunch {
    pub id: u32,
    pub business_idea: BusinessIdea,
    pub manager: AccountId,
    pub fund_allocated: Balance,
    pub strength: u64,
    pub proposal_contract: AccountId,
}

/// An application that the organisation forwards to a project.
#[derive(Debug, PartialEq, Eq)]
pub struct Application {
    pub project_address: AccountId,
    pub address: AccountId,
    pub name: String,
    pub resume_url: String,
}

/// The organisation.
pub struct Org {
    org_name: String,
    org_owner: AccountId,
    secretariate: Vec<AccountId>,
    secretariate_count: u64,
    member_count: u64,
    org_members: Table<AccountId, MemberInfo>,
    next_project_id: u32,
    projects_manager: Table<AccountId, AccountId>,
    project_list_by_id: Table<u32, AccountId>,
    proposal_address: Option<AccountId>,
}

/// The mathematical content of an [`Org`].
pub struct OrgState {
    pub org_name: String,
    pub org_owner: AccountId,
    /// The secretariat, in order of appointment.
    pub secretariate: Seq<AccountId>,
    /// The members; the secretariat and the owner are among them.
    pub org_members: Map<AccountId, MemberInfo>,
    /// The id that the next project gets; ids start at 1 and are never reused.
    pub next_project_id: u32,
    /// For each project, by its address, who manages it.
    pub projects_manager: Map<AccountId, AccountId>,
    /// For each project, by its id, its address.
    pub project_list_by_id: Map<u32, AccountId>,
    /// The catalogue of the organisation's proposals, once it is known.
    pub proposal_address: Option<AccountId>,
}

impl OrgState {
    /// The members are finitely many, the owner is one of them, and project
    /// ids start at 1.
    pub open spec fn wf(self) -> bool {
        &&& self.org_members.dom().finite()
        &&& self.org_members.dom().contains(self.org_owner)
        &&& self.next_project_id >= 1
    }

    /// The state of a new organisation: the creator is its owner and only
    /// member.
    pub open spec fn initial(
        creator: AccountId,
        org_name: String,
        name: String,
        company_id: u16,
        rating: Option<u8>,
    ) -> OrgState {
        OrgState {
            org_name,
            org_owner: creator,
            secretariate: Seq::empty(),
            org_members: Map::empty().insert(
                creator,
                MemberInfo { name, company_id, designation: Designation::Owner, rating },
            ),
            next_project_id: 1,
            projects_manager: Map::empty(),
            project_list_by_id: Map::empty(),
            proposal_address: None,
        }
    }

    /// Why the proposal catalogue is not recorded, if it is not: only the
    /// owner records it, and only once.
    pub open spec fn catalogue_refusal(self, caller: AccountId) -> Option<Error> {
        if caller != self.org_owner {
            Some(Error::UnAuthorized)
        } else if self.proposal_address is Some {
            Some(Error::ProposalAddressAlreadyExist)
        } else {
            None
        }
    }

    /// Why `member_address` is not added as a member, if it is not.
    pub open spec fn member_refusal(self, caller: AccountId, member_address: AccountId) -> Option<
        Error,
    > {
        if caller != self.org_owner {
            Some(Error::UnAuthorized)
        } else if self.org_members.dom().contains(member_address) {
            Some(Error::AlreadyMember)
        } else {
            None
        }
    }

    /// Why `address` is not appointed to the secretariat, if it is not.
    pub open spec fn secretariate_refusal(self, caller: AccountId, address: AccountId) -> Option<
        Error,
    > {
        if caller != self.org_owner {
            Some(Error::UnAuthorized)
        } else if self.org_members.dom().contains(address) && self.org_members[address].designation
            == Designation::Secretariate {
            Some(Error::AlreadySecretariate)
        } else {
            None
        }
    }

    /// Why a project is not spawned, if it is not: the proposal catalogue
    /// must be known and be the caller, and the balance must cover the funds.
    pub open spec fn launch_refusal(self, caller: AccountId, balance: Balance, fund_allocated: Balance) -> Option<
        Error,
    > {
        if self.proposal_address is None {
            Some(Error::ProposalAddressNotFound)
        } else if self.proposal_address != Some(caller) {
            Some(Error::UnAuthorized)
        } else if balance < fund_allocated {
            Some(Error::InsufficientFundInOrganisation)
        } else {
            None
        }
    }

    /// Why a spawned project is not recorded, if it is not.
    pub open spec fn registration_refusal(self, caller: AccountId) -> Option<Error> {
        if self.proposal_address is None {
            Some(Error::ProposalAddressNotFound)
        } else if self.proposal_address != Some(caller) {
            Some(Error::UnAuthorized)
        } else {
            None
        }
    }

    /// Why funds are not moved to project `id`, if they are not.
    pub open spec fn transfer_refusal(self, caller: AccountId, balance: Balance, id: u32, amount: Balance) -> Option<
        Error,
    > {
        if self.proposal_address != Some(caller) {
            Some(Error::UnAuthorized)
        } else if !self.project_list_by_id.dom().contains(id) {
            Some(Error::ProjectNotFound)
        } else if balance < amount {
            Some(Error::InsufficientFundInOrganisation)
        } else {
            None
        }
    }
}

impl View for Org {
    type V = OrgState;

    closed spec fn view(&self) -> OrgState {
        OrgState {
            org_name: self.org_name,
            org_owner: self.org_owner,
            secretariate: self.secretariate@,
            org_members: self.org_members@,
            next_project_id: self.next_project_id,
            projects_manager: self.projects_manager@,
            project_list_by_id: self.project_list_by_id@,
            proposal_address: self.proposal_address,
        }
    }
}

/// An organisation taken apart, for whoever stores it between calls.
pub struct OrgParts {
    pub org_name: String,
    pub org_owner: AccountId,
    pub secretariate: Vec<AccountId>,
    pub org_members: Table<AccountId, MemberInfo>,
    pub next_project_id: u32,
    pub projects_manager: Table<AccountId, AccountId>,
    pub project_list_by_id: Table<u32, AccountId>,
    pub proposal_address: Option<AccountId>,
}

impl OrgParts {
    /// Every table is well formed.
    pub open spec fn tables_wf(&self) -> bool {
        &&& self.org_members.wf()
        &&& self.projects_manager.wf()
        &&& self.project_list_by_id.wf()
    }

    /// The state that the parts describe.
    pub open spec fn state(&self) -> OrgState {
        OrgState {
            org_name: self.org_name,
            org_owner: self.org_owner,
            secretariate: self.secretariate@,
            org_members: self.org_members@,
            next_project_id: self.next_project_id,
            projects_manager: self.projects_manager@,
            project_list_by_id: self.project_list_by_id@,
            proposal_address: self.proposal_address,
        }
    }
}

impl Org {
    /// The organisation is in a state that its operations can have produced.
    pub closed spec fn wf(&self) -> bool {
        &&& self.org_members.wf()
        &&& self.projects_manager.wf()
        &&& self.project_list_by_id.wf()
        &&& self.member_count == self.org_members.count()
        &&& self.secretariate_count == self.secretariate@.len()
        &&& self@.wf()
    }

    /// Well-formedness of the organisation implies that of its content.
    pub proof fn lemma_wf(&self)
        requires
            self.wf(),
        ensures
            self@.wf(),
    {
    }

    /// Takes the organisation apart.
    pub fn into_parts(self) -> (parts: OrgParts)
        requires
            self.wf(),
        ensures
            parts.tables_wf(),
            parts.state() == self@,
            parts.state().wf(),
    {
        OrgParts {
            org_name: self.org_name,
            org_owner: self.org_owner,
            secretariate: self.secretariate,
            org_members: self.org_members,
            next_project_id: self.next_project_id,
            projects_manager: self.projects_manager,
            project_list_by_id: self.project_list_by_id,
            proposal_address: self.proposal_address,
        }
    }

    /// Puts an organisation together again, if the parts describe a
    /// well-formed state; what was taken apart always does.
    pub fn from_parts(parts: OrgParts) -> (r: Option<Self>)
        requires
            parts.tables_wf(),
        ensures
            r is Some == parts.state().wf(),
            r matches Some(org) ==> org.wf() && org@ == parts.state(),
    {
        proof {
            parts.org_members.lemma_count();
        }
        if parts.next_project_id < 1 || !parts.org_members.contains_key(&parts.org_owner) {
            return None;
        }
        let member_count = parts.org_members.len() as u64;
        let secretariate_count = parts.secretariate.len() as u64;
        Some(
            Org {
                org_name: parts.org_name,
                org_owner: parts.org_owner,
                secretariate: parts.secretariate,
                secretariate_count,
                member_count,
                org_members: parts.org_members,
                next_project_id: parts.next_project_id,
                projects_manager: parts.projects_manager,
                project_list_by_id: parts.project_list_by_id,
                proposal_address: parts.proposal_address,
            },
        )
    }

    /// An organisation named `org_name`, owned by `creator`, who is its first
    /// member.
    pub fn new(creator: AccountId, org_name: String, name: String, company_id: u16, rating: Option<
        u8,
    >) -> (r: Self)
        ensures
            r.wf(),
            r@ == OrgState::initial(creator, org_name, name, company_id, rating),
    {
        let creator_info = MemberInfo { name, company_id, designation: Designation::Owner, rating };
        let mut org_members = Table::new();
        org_members.insert(creator, creator_info);
        proof {
            org_members.lemma_count();
        }
        Self {
            org_name,
            org_owner: creator,
            secretariate: Vec::new(),
            secretariate_count: 0,
            member_count: 1,
            org_members,
            next_project_id: 1,
            projects_manager: Table::new(),
            project_list_by_id: Table::new(),
            proposal_address: None,
        }
    }

    /// Records the catalogue of the organisation's proposals. Only the owner
    /// may, and only once.
    pub fn update_proposal_address(&mut self, caller: AccountId, proposal_contract_address: AccountId) -> (r:
        Result<(), Error>)
        requires
            old(self).wf(),
        ensures
            final(self).wf(),
            match r {
                Ok(()) => {
                    &&& old(self)@.catalogue_refusal(caller) is None
                    &&& final(self)@ == (OrgState {
                        proposal_address: Some(proposal_contract_address),
                        ..old(self)@
                    })
                },
                Err(e) => {
                    &&& old(self)@.catalogue_refusal(caller) == Some(e)
                    &&& final(self)@ == old(self)@
                },
            },
    {
        if caller != self.org_owner {
            return Err(Error::UnAuthorized);
        }
        if self.proposal_address.is_some() {
            return Err(Error::ProposalAddressAlreadyExist);
        }
        self.proposal_address = Some(proposal_contract_address);
        Ok(())
    }

    /// Adds `member_address` as an ordinary member. Only the owner may, and
    /// only an account that is no member yet.
    pub fn add_member_in_orgainisation(
        &mut self,
        caller: AccountId,
        member_address: AccountId,
        name: String,
        company_id: u16,
        rating: Option<u8>,
    ) -> (r: Result<(), Error>)
        requires
            old(self).wf(),
        ensures
            final(self).wf(),
            match r {
                Ok(()) => {
                    &&& old(self)@.member_refusal(caller, member_address) is None
                    &&& final(self)@ == (OrgState {
                        org_members: old(self)@.org_members.insert(
                            member_address,
                            MemberInfo {
                                name,
                                company_id,
                                designation: Designation::Member,
                                rating,
                            },
                        ),
                        ..old(self)@
                    })
                },
                Err(e) => {
                    &&& old(self)@.member_refusal(caller, member_address) == Some(e)
                    &&& final(self)@ == old(self)@
                },
            },
    {
        if caller != self.org_owner {
            return Err(Error::UnAuthorized);
        }
        if self.org_members.contains_key(&member_address) {
            return Err(Error::AlreadyMember);
        }
        let member_info = MemberInfo { name, company_id, designation: Designation::Member, rating };
        self.org_members.insert(member_address, member_info);
        proof {
            self.org_members.lemma_count();
        }
        self.member_count += 1;
        Ok(())
    }

    /// Appoints `secretariate_address` to the secretariat, as a new member
    /// or in place of what the member was. Only the owner may, and nobody is
    /// appointed twice.
    pub fn add_secretariate(
        &mut self,
        caller: AccountId,
        secretariate_address: AccountId,
        name: String,
        company_id: u16,
        rating: Option<u8>,
    ) -> (r: Result<(), Error>)
        requires
            old(self).wf(),
        ensures
            final(self).wf(),
            match r {
                Ok(()) => {
                    &&& old(self)@.secretariate_refusal(caller, secretariate_address) is None
                    &&& final(self)@ == (OrgState {
                        org_members: old(self)@.org_members.insert(
                            secretariate_address,
                            MemberInfo {
                                name,
                                company_id,
                                designation: Designation::Secretariate,
                                rating,
                            },
                        ),
                        secretariate: old(self)@.secretariate.push(secretariate_address),
                        ..old(self)@
                    })
                },
                Err(e) => {
                    &&& old(self)@.secretariate_refusal(caller, secretariate_address) == Some(e)
                    &&& final(self)@ == old(self)@
                },
            },
    {
        if caller != self.org_owner {
            return Err(Error::UnAuthorized);
        }
        let known = match self.org_members.get(&secretariate_address) {
            Some(info) => {
                match info.designation {
                    Designation::Secretariate => {
                        return Err(Error::AlreadySecretariate);
                    },
                    _ => true,
                }
            },
            None => false,
        };
        let secretariate_info = MemberInfo {
            name,
            company_id,
            designation: Designation::Secretariate,
            rating,
        };
        self.org_members.insert(secretariate_address, secretariate_info);
        proof {
            self.org_members.lemma_count();
        }
        if !known {
            self.member_count += 1;
        }
        self.secretariate.push(secretariate_address);
        assert(self.secretariate@.len() <= usize::MAX) by {
            assert(self.secretariate@.len() == self.secretariate.len());
        }
        self.secretariate_count += 1;
        Ok(())
    }

    /// Decides whether a project is spawned, and says what to spawn.
    ///
    /// Only the proposal catalogue may ask, and the organisation's `balance`
    /// must cover `fund_allocated`. The project gets the next free id, which
    /// is used up only when [`Org::register_project`] records the project;
    /// its manager is `proposer`, and its idea counts the entries of
    /// `info_list`. Nothing changes here.
    pub fn create_project(
        &self,
        caller: AccountId,
        balance: Balance,
        title: String,
        info_list: Vec<String>,
        fund_allocated: Balance,
        strength: u64,
        proposer: AccountId,
    ) -> (r: Result<ProjectLaunch, Error>)
        requires
            self.wf(),
        ensures
            match r {
                Ok(launch) => {
                    &&& self@.launch_refusal(caller, balance, fund_allocated) is None
                    &&& launch.id == self@.next_project_id
                    &&& launch.business_idea@ == (BusinessIdeaView {
                        title,
                        info_count: info_list@.len() as u128,
                        info_list: info_list@,
                    })
                    &&& launch.manager == proposer
                    &&& launch.fund_allocated == fund_allocated
                    &&& launch.strength == strength
                    &&& launch.proposal_contract == caller
                },
                Err(e) => self@.launch_refusal(caller, balance, fund_allocated) == Some(e),
            },
    {
        match self.proposal_address {
            Some(proposal_address) => {
                if caller != proposal_address {
                    return Err(Error::UnAuthorized);
                }
            },
            None => {
                return Err(Error::ProposalAddressNotFound);
            },
        }
        if balance < fund_allocated {
            return Err(Error::InsufficientFundInOrganisation);
        }
        let business_idea = BusinessIdea {
            title,
            info_count: info_list.len() as u128,
            info_list,
        };
        Ok(
            ProjectLaunch {
                id: self.next_project_id,
                business_idea,
                manager: proposer,
                fund_allocated,
                strength,
                proposal_contract: caller,
            },
        )
    }

    /// Records the project that was spawned at `project_address` for
    /// `proposer`: it gets the next free id, which is returned. Only the
    /// proposal catalogue may say so.
    pub fn register_project(&mut self, caller: AccountId, project_address: AccountId, proposer: AccountId) -> (r:
        Result<u32, Error>)
        requires
            old(self).wf(),
            old(self)@.next_project_id < u32::MAX,
        ensures
            final(self).wf(),
            match r {
                Ok(id) => {
                    &&& old(self)@.registration_refusal(caller) is None
                    &&& id == old(self)@.next_project_id
                    &&& final(self)@ == (OrgState {
                        projects_manager: old(self)@.projects_manager.insert(
                            project_address,
                            proposer,
                        ),
                        project_list_by_id: old(self)@.project_list_by_id.insert(
                            id,
                            project_address,
                        ),
                        next_project_id: (id + 1) as u32,
                        ..old(self)@
                    })
                },
                Err(e) => {
                    &&& old(self)@.registration_refusal(caller) == Some(e)
                    &&& final(self)@ == old(self)@
                },
            },
    {
        match self.proposal_address {
            Some(proposal_address) => {
                if caller != proposal_address {
                    return Err(Error::UnAuthorized);
                }
            },
            None => {
                return Err(Error::ProposalAddressNotFound);
            },
        }
        let id = self.next_project_id;
        self.projects_manager.insert(project_address, proposer);
        self.project_list_by_id.insert(id, project_address);
        self.next_project_id += 1;
        Ok(id)
    }

    /// Decides what application, if any, goes to project `project_id`.
    ///
    /// A caller who is no member applies for nothing. A member applies for
    /// itself, under its own name, or for the `outsider` it names; the
    /// project must be known. The project itself answers the application.
    pub fn apply_for_project(
        &self,
        caller: AccountId,
        project_id: u32,
        outsider: Option<OutsiderInfo>,
        resume_url: String,
    ) -> (r: Result<Option<Application>, Error>)
        requires
            self.wf(),
        ensures
            !self@.org_members.dom().contains(caller) ==> r == Ok::<Option<Application>, Error>(
                None,
            ),
            self@.org_members.dom().contains(caller) && !self@.project_list_by_id.dom().contains(
                project_id,
            ) ==> r == Err::<Option<Application>, Error>(Error::ProjectNotFound),
            self@.org_members.dom().contains(caller) && self@.project_list_by_id.dom().contains(
                project_id,
            ) ==> r == Ok::<Option<Application>, Error>(
                Some(
                    Application {
                        project_address: self@.project_list_by_id[project_id],
                        address: if outsider is Some {
                            outsider.unwrap().account_address
                        } else {
                            caller
                        },
                        name: if outsider is Some {
                            outsider.unwrap().name
                        } else {
                            self@.org_members[caller].name
                        },
                        resume_url,
                    },
                ),
            ),
    {
        let info = match self.org_members.get(&caller) {
            Some(info) => info,
            None => {
                return Ok(None);
            },
        };
        let project_address = match self.project_list_by_id.get(&project_id) {
            Some(address) => *address,
            None => {
                return Err(Error::ProjectNotFound);
            },
        };
        match outsider {
            Some(outsider_info) => Ok(
                Some(
                    Application {
                        project_address,
                        address: outsider_info.account_address,
                        name: outsider_info.name,
                        resume_url,
                    },
                ),
            ),
            None => Ok(
                Some(
                    Application {
                        project_address,
                        address: caller,
                        name: info.name.clone(),
                        resume_url,
                    },
                ),
            ),
        }
    }

    /// Decides whether `amount` is moved to project `id`, and says where to:
    /// the address of the project. Only the proposal catalogue may ask, the
    /// project must be known, and the organisation's `balance` must cover the
    /// amount. The transfer itself is the host's.
    pub fn transfer_fund(&self, caller: AccountId, balance: Balance, id: u32, amount: Balance) -> (r:
        Result<AccountId, Error>)
        requires
            self.wf(),
        ensures
            match r {
                Ok(target) => self@.transfer_refusal(caller, balance, id, amount) is None && target
                    == self@.project_list_by_id[id],
                Err(e) => self@.transfer_refusal(caller, balance, id, amount) == Some(e),
            },
    {
        if !is_account(&self.proposal_address, &caller) {
            return Err(Error::UnAuthorized);
        }
        match self.project_list_by_id.get(&id) {
            Some(addr) => {
                if balance < amount {
                    return Err(Error::InsufficientFundInOrganisation);
                }
                Ok(*addr)
            },
            None => Err(Error::ProjectNotFound),
        }
    }

    /// The address of project `id`.
    pub fn get_project_address(&self, id: u32) -> (r: Result<AccountId, Error>)
        requires
            self.wf(),
        ensures
            match r {
                Ok(addr) => self@.project_list_by_id.dom().contains(id) && addr
                    == self@.project_list_by_id[id],
                Err(e) => !self@.project_list_by_id.dom().contains(id) && e
                    == Error::ProjectNotFound,
            },
    {
        match self.project_list_by_id.get(&id) {
            Some(addr) => Ok(*addr),
            None => Err(Error::ProjectNotFound),
        }
    }

    /// Whether `address` belongs to the electorate: to the secretariat if
    /// `secretariate`, else to the members. An account that is no member is
    /// not found.
    pub fn check_member(&self, address: AccountId, secretariate: bool) -> (r: Result<bool, Error>)
        requires
            self.wf(),
        ensures
            match r {
                Ok(b) => self@.org_members.dom().contains(address) && b == (!secretariate
                    || self@.org_members[address].designation == Designation::Secretariate),
                Err(e) => !self@.org_members.dom().contains(address) && e == Error::MemberNotFound,
            },
    {
        match self.org_members.get(&address) {
            Some(info) => {
                if secretariate {
                    match info.designation {
                        Designation::Secretariate => Ok(true),
                        _ => Ok(false),
                    }
                } else {
                    Ok(true)
                }
            },
            None => Err(Error::MemberNotFound),
        }
    }

    /// The secretariat, in order of appointment.
    pub fn secretariate_list(&self) -> (r: Vec<AccountId>)
        ensures
            r@ == self@.secretariate,
    {
        self.secretariate.clone()
    }

    /// The number of projects recorded.
    pub fn total_projects(&self) -> (r: u32)
        requires
            self.wf(),
        ensures
            r == self@.next_project_id - 1,
    {
        self.next_project_id - 1
    }

    /// The size of the secretariat.
    pub fn total_secretariate(&self) -> (r: u64)
        requires
            self.wf(),
        ensures
            r == self@.secretariate.len(),
    {
        self.secretariate_count
    }

    /// The number of members, the secretariat and the owner among them.
    pub fn total_members(&self) -> (r: u64)
        requires
            self.wf(),
        ensures
            r == self@.org_members.dom().len(),
    {
        proof {
            self.org_members.lemma_count();
        }
        self.member_count
    }

    /// What the organisation knows of `member_address`.
    pub fn get_member_info(&self, member_address: AccountId) -> (r: Result<MemberInfo, Error>)
        requires
            self.wf(),
        ensures
            match r {
                Ok(info) => self@.org_members.dom().contains(member_address) && info
                    == self@.org_members[member_address],
                Err(e) => !self@.org_members.dom().contains(member_address) && e
                    == Error::MemberNotFound,
            },
    {
        match self.org_members.get(&member_address) {
            Some(info) => Ok(info.clone()),
            None => Err(Error::MemberNotFound),
        }
    }

    /// What the organisation knows of its owner.
    pub fn get_org_owner_info(&self) -> (r: MemberInfo)
        requires
            self.wf(),
        ensures
            r == self@.org_members[self@.org_owner],
    {
        self.org_members.get(&self.org_owner).unwrap().clone()
    }

    /// The name of the organisation.
    pub fn get_org_name(&self) -> (r: String)
        ensures
            r == self@.org_name,
    {
        self.org_name.clone()
    }
}

} // verus!
