use governance::account::AccountId;
use governance::error::Error;
use governance::org::{Application, Designation, MemberInfo, Org, OutsiderInfo};

fn account(n: u8) -> AccountId {
    AccountId { bytes: [n; 32] }
}

const OWNER: u8 = 1;
const PROPOSALS: u8 = 90;

fn org() -> Org {
    let mut o = Org::new(account(OWNER), String::from("works"), String::from("owner"), 7, Some(5));
    o.update_proposal_address(account(OWNER), account(PROPOSALS)).unwrap();
    o
}

#[test]
fn the_creator_is_owner_and_first_member() {
    let o = Org::new(account(OWNER), String::from("works"), String::from("owner"), 7, Some(5));
    assert_eq!(o.get_org_name(), "works");
    assert_eq!(o.total_members(), 1);
    assert_eq!(o.total_secretariate(), 0);
    assert_eq!(o.total_projects(), 0);
    assert!(o.secretariate_list().is_empty());
    let expected = MemberInfo {
        name: String::from("owner"),
        company_id: 7,
        designation: Designation::Owner,
        rating: Some(5),
    };
    assert_eq!(o.get_org_owner_info(), expected);
    assert_eq!(o.get_member_info(account(OWNER)), Ok(expected));
    assert_eq!(o.get_member_info(account(2)), Err(Error::MemberNotFound));
}

#[test]
fn the_catalogue_is_recorded_once_by_the_owner() {
    let mut o = Org::new(account(OWNER), String::new(), String::new(), 0, None);
    assert_eq!(o.update_proposal_address(account(2), account(PROPOSALS)), Err(Error::UnAuthorized));
    assert_eq!(o.update_proposal_address(account(OWNER), account(PROPOSALS)), Ok(()));
    assert_eq!(
        o.update_proposal_address(account(OWNER), account(91)),
        Err(Error::ProposalAddressAlreadyExist)
    );
}

#[test]
fn members_are_added_once_by_the_owner() {
    let mut o = org();
    let add = |o: &mut Org, caller: u8, who: u8| {
        o.add_member_in_orgainisation(account(caller), account(who), String::from("m"), 3, None)
    };
    assert_eq!(add(&mut o, 2, 2), Err(Error::UnAuthorized));
    assert_eq!(add(&mut o, OWNER, 2), Ok(()));
    assert_eq!(add(&mut o, OWNER, 2), Err(Error::AlreadyMember));
    assert_eq!(add(&mut o, OWNER, OWNER), Err(Error::AlreadyMember));
    assert_eq!(o.total_members(), 2);
    assert_eq!(o.get_member_info(account(2)).unwrap().designation, Designation::Member);
    assert_eq!(o.check_member(account(2), false), Ok(true));
    assert_eq!(o.check_member(account(2), true), Ok(false));
    assert_eq!(o.check_member(account(3), false), Err(Error::MemberNotFound));
}

#[test]
fn the_secretariat_is_appointed_from_members_or_from_outside() {
    let mut o = org();
    o.add_member_in_orgainisation(account(OWNER), account(2), String::from("m"), 3, None).unwrap();
    let appoint = |o: &mut Org, caller: u8, who: u8| {
        o.add_secretariate(account(caller), account(who), String::from("s"), 4, Some(1))
    };
    assert_eq!(appoint(&mut o, 2, 2), Err(Error::UnAuthorized));
    // a member is promoted: the number of members stays
    assert_eq!(appoint(&mut o, OWNER, 2), Ok(()));
    assert_eq!(o.total_members(), 2);
    assert_eq!(o.total_secretariate(), 1);
    // a newcomer is a member too
    assert_eq!(appoint(&mut o, OWNER, 3), Ok(()));
    assert_eq!(o.total_members(), 3);
    assert_eq!(o.total_secretariate(), 2);
    assert_eq!(appoint(&mut o, OWNER, 3), Err(Error::AlreadySecretariate));
    assert_eq!(o.secretariate_list(), vec![account(2), account(3)]);
    assert_eq!(o.check_member(account(2), true), Ok(true));
    assert_eq!(
        o.get_member_info(account(2)),
        Ok(MemberInfo {
            name: String::from("s"),
            company_id: 4,
            designation: Designation::Secretariate,
            rating: Some(1),
        })
    );
}

#[test]
fn a_project_is_launched_for_the_catalogue_when_funds_suffice() {
    let mut o = org();
    let launch = |o: &Org, caller: u8, balance: u128| {
        o.create_project(
            account(caller),
            balance,
            String::from("title"),
            vec![String::from("a"), String::from("b")],
            100,
            3,
            account(5),
        )
    };
    assert_eq!(launch(&o, OWNER, 1_000).unwrap_err(), Error::UnAuthorized);
    assert_eq!(launch(&o, PROPOSALS, 99).unwrap_err(), Error::InsufficientFundInOrganisation);
    let l = launch(&o, PROPOSALS, 100).unwrap();
    assert_eq!(l.id, 1);
    assert_eq!(l.business_idea.title, "title");
    assert_eq!(l.business_idea.info_count, 2);
    assert_eq!(l.business_idea.info_list, vec![String::from("a"), String::from("b")]);
    assert_eq!(l.manager, account(5));
    assert_eq!((l.fund_allocated, l.strength), (100, 3));
    assert_eq!(l.proposal_contract, account(PROPOSALS));
    // the id is used up by the registration only
    assert_eq!(launch(&o, PROPOSALS, 100).unwrap().id, 1);
    assert_eq!(o.register_project(account(OWNER), account(60), account(5)), Err(Error::UnAuthorized));
    assert_eq!(o.register_project(account(PROPOSALS), account(60), account(5)), Ok(1));
    assert_eq!(o.total_projects(), 1);
    assert_eq!(o.get_project_address(1), Ok(account(60)));
    assert_eq!(o.get_project_address(2), Err(Error::ProjectNotFound));
    assert_eq!(launch(&o, PROPOSALS, 100).unwrap().id, 2);
    assert_eq!(o.register_project(account(PROPOSALS), account(61), account(5)), Ok(2));
}

#[test]
fn nothing_is_launched_without_a_catalogue() {
    let mut o = Org::new(account(OWNER), String::new(), String::new(), 0, None);
    let refused =
        o.create_project(account(PROPOSALS), 10, String::new(), Vec::new(), 1, 1, account(5));
    assert_eq!(refused.unwrap_err(), Error::ProposalAddressNotFound);
    assert_eq!(
        o.register_project(account(PROPOSALS), account(60), account(5)),
        Err(Error::ProposalAddressNotFound)
    );
    assert_eq!(o.transfer_fund(account(PROPOSALS), 10, 1, 1), Err(Error::UnAuthorized));
}

#[test]
fn funds_go_to_a_known_project_when_the_balance_covers_them() {
    let mut o = org();
    o.register_project(account(PROPOSALS), account(60), account(5)).unwrap();
    assert_eq!(o.transfer_fund(account(OWNER), 500, 1, 100), Err(Error::UnAuthorized));
    assert_eq!(o.transfer_fund(account(PROPOSALS), 500, 2, 100), Err(Error::ProjectNotFound));
    assert_eq!(
        o.transfer_fund(account(PROPOSALS), 99, 1, 100),
        Err(Error::InsufficientFundInOrganisation)
    );
    assert_eq!(o.transfer_fund(account(PROPOSALS), 100, 1, 100), Ok(account(60)));
}

#[test]
fn members_apply_for_themselves_or_for_an_outsider() {
    let mut o = org();
    o.register_project(account(PROPOSALS), account(60), account(5)).unwrap();
    assert_eq!(o.apply_for_project(account(9), 1, None, String::from("cv")), Ok(None));
    assert_eq!(
        o.apply_for_project(account(OWNER), 2, None, String::from("cv")),
        Err(Error::ProjectNotFound)
    );
    assert_eq!(
        o.apply_for_project(account(OWNER), 1, None, String::from("cv")),
        Ok(Some(Application {
            project_address: account(60),
            address: account(OWNER),
            name: String::from("owner"),
            resume_url: String::from("cv"),
        }))
    );
    let outsider = OutsiderInfo { name: String::from("guest"), account_address: account(70) };
    assert_eq!(
        o.apply_for_project(account(OWNER), 1, Some(outsider), String::from("cv2")),
        Ok(Some(Application {
            project_address: account(60),
            address: account(70),
            name: String::from("guest"),
            resume_url: String::from("cv2"),
        }))
    );
}
