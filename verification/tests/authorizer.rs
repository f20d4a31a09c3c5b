use authorize_me::authorizer::{authorize_all, update_ips, AuthorizationOutcome, RemoteFailure};
use authorize_me::config::parse_security_groups;
use authorize_me::error::FatalError;
use authorize_me::region::select_region;
use authorize_me::report::handle_results;
use authorize_me::request::get_ip_address;
use rusoto_core::Region;

fn groups(ids: &[&str]) -> Vec<String> {
    ids.iter().map(|id| id.to_string()).collect()
}

#[test]
fn every_group_gets_one_request_in_order() {
    let ids = groups(&["sg-1", "sg-2", "sg-3"]);
    let mut run = update_ips("10.1.2.3", &ids, &None, "me on box at now", false).unwrap();
    let mut asked = Vec::new();
    let mut step = 0;
    while let Some(request) = run.next_request() {
        assert!(!run.is_complete());
        assert_eq!(request.cidr_ip, "10.1.2.3/32");
        assert_eq!(request.ip_protocol, "tcp");
        assert_eq!(request.from_port, 22);
        assert_eq!(request.to_port, 22);
        assert_eq!(request.description, "me on box at now");
        assert!(!request.dry_run);
        asked.push(request.group_id);
        let outcome = if step == 1 {
            AuthorizationOutcome::Failure(RemoteFailure::Typed("denied".to_string()))
        } else {
            AuthorizationOutcome::Success
        };
        assert!(run.record(outcome));
        step += 1;
    }
    assert!(run.is_complete());
    assert_eq!(asked, ids);
    assert_eq!(
        run.into_outcomes(),
        vec![
            AuthorizationOutcome::Success,
            AuthorizationOutcome::Failure(RemoteFailure::Typed("denied".to_string())),
            AuthorizationOutcome::Success,
        ]
    );
}

#[test]
fn a_failure_does_not_stop_the_run() {
    let ids = groups(&["sg-1", "sg-2"]);
    let mut run = update_ips("10.1.2.3", &ids, &None, "d", true).unwrap();
    assert_eq!(run.next_request().unwrap().group_id, "sg-1");
    assert!(run.record(AuthorizationOutcome::Failure(RemoteFailure::Opaque("x".to_string()))));
    let second = run.next_request().unwrap();
    assert_eq!(second.group_id, "sg-2");
    assert!(second.dry_run);
    assert!(run.record(AuthorizationOutcome::Success));
    assert!(run.next_request().is_none());
}

#[test]
fn the_same_request_is_due_until_its_outcome_is_recorded() {
    let ids = groups(&["sg-1", "sg-2"]);
    let run = update_ips("10.1.2.3", &ids, &None, "d", false).unwrap();
    assert_eq!(run.next_request().unwrap().group_id, "sg-1");
    assert_eq!(run.next_request().unwrap().group_id, "sg-1");
}

#[test]
fn an_outcome_without_a_request_is_dropped() {
    let ids = groups(&["sg-1"]);
    let mut run = update_ips("10.1.2.3", &ids, &None, "d", false).unwrap();
    assert!(run.record(AuthorizationOutcome::Success));
    assert!(!run.record(AuthorizationOutcome::Failure(RemoteFailure::Typed("late".to_string()))));
    assert_eq!(run.into_outcomes(), vec![AuthorizationOutcome::Success]);
}

#[test]
fn a_run_over_no_groups_is_complete_at_once() {
    let mut run = update_ips("10.1.2.3", &vec![], &None, "d", false).unwrap();
    assert!(run.is_complete());
    assert!(run.next_request().is_none());
    assert!(!run.record(AuthorizationOutcome::Success));
    assert!(run.into_outcomes().is_empty());
}

#[test]
fn duplicate_groups_get_independent_outcomes() {
    let ids = groups(&["sg-1", "sg-1"]);
    let mut run = update_ips("::1", &ids, &None, "d", false).unwrap();
    assert_eq!(run.next_request().unwrap().group_id, "sg-1");
    assert_eq!(run.next_request().unwrap().cidr_ip, "::1/32");
    run.record(AuthorizationOutcome::Success);
    assert_eq!(run.next_request().unwrap().group_id, "sg-1");
    run.record(AuthorizationOutcome::Failure(RemoteFailure::Typed("duplicate".to_string())));
    assert_eq!(run.into_outcomes().len(), 2);
}

#[test]
fn a_known_region_is_kept_for_the_client() {
    let run = update_ips("10.1.2.3", &groups(&["sg-1"]), &Some("eu-west-1".to_string()), "d", false).unwrap();
    assert_eq!(run.region(), &Some(Region::EuWest1));
    let run = update_ips("10.1.2.3", &groups(&["sg-1"]), &Some("US-EAST-2".to_string()), "d", false).unwrap();
    assert_eq!(run.region(), &Some(Region::UsEast2));
}

#[test]
fn no_requested_region_leaves_the_choice_open() {
    let run = update_ips("10.1.2.3", &groups(&["sg-1"]), &None, "d", false).unwrap();
    assert_eq!(run.region(), &None);
    assert_eq!(select_region(&None), Ok(None));
}

#[test]
fn an_unknown_region_ends_the_run_before_any_request() {
    match update_ips("10.1.2.3", &groups(&["sg-1"]), &Some("atlantis-1".to_string()), "d", false) {
        Err(error) => {
            assert_eq!(error, FatalError::InvalidRegion("Not a valid AWS region: atlantis-1".to_string()));
            assert_eq!(error.message(), "Not a valid AWS region: atlantis-1");
        }
        Ok(_) => panic!("a region that does not exist was accepted"),
    }
    assert_eq!(
        select_region(&Some("".to_string())),
        Err(FatalError::InvalidRegion("Not a valid AWS region: ".to_string()))
    );
}

#[test]
fn region_names_are_read_by_the_client_library() {
    assert_eq!(select_region(&Some("ap-southeast-2".to_string())), Ok(Some(Region::ApSoutheast2)));
    assert_eq!(select_region(&Some("uswest1".to_string())), Ok(Some(Region::UsWest1)));
}

#[test]
fn without_a_consensus_address_there_is_no_run() {
    assert_eq!(get_ip_address(None), Err(FatalError::AddressUnavailable));
    assert_eq!(get_ip_address(Some("86.146.196.106".to_string())), Ok("86.146.196.106".to_string()));
}

#[test]
fn an_empty_group_list_is_fatal_before_any_request() {
    let configured = parse_security_groups("");
    assert_eq!(configured, Err(FatalError::NoSecurityGroups));
    let report = handle_results(&vec![], &vec![]);
    assert!(report.lines.is_empty());
}

#[test]
fn a_run_from_configuration_to_report() {
    let ids = parse_security_groups("sg-1\nsg-2\n").unwrap();
    let address = get_ip_address(Some("86.146.196.106".to_string())).unwrap();
    let mut run = update_ips(&address, &ids, &None, "me on box at 2020-05-17 10:30", false).unwrap();
    let duplicate = "<Response><Errors><Error><Code>InvalidPermission.Duplicate</Code><Message>the specified rule \"peer: 86.146.196.106/32, TCP, from port: 22, to port: 22, ALLOW\" already exists</Message></Error></Errors><RequestID>9c6e08c8-99ad-447e-9af6-d64ffdbe076a</RequestID></Response>";
    while let Some(request) = run.next_request() {
        let outcome = if request.group_id == "sg-2" {
            AuthorizationOutcome::Failure(RemoteFailure::Opaque(duplicate.to_string()))
        } else {
            AuthorizationOutcome::Success
        };
        run.record(outcome);
    }
    let report = handle_results(&run.into_outcomes(), &ids);
    assert_eq!(
        report.lines,
        vec![
            "Succesfully updated security group sg-1",
            "Error updating security group sg-2: the specified rule \"peer: 86.146.196.106/32, TCP, from port: 22, to port: 22, ALLOW\" already exists",
        ]
    );
    assert_eq!(report.exit_code, 1);
}

#[test]
fn a_whole_run_keeps_outcomes_with_their_groups() {
    let ids = groups(&["sg-1", "sg-2", "sg-3", "sg-2"]);
    let outcomes = authorize_all(&ids, "10.1.2.3", "d", false, |request| {
        assert_eq!(request.cidr_ip, "10.1.2.3/32");
        if request.group_id == "sg-2" {
            AuthorizationOutcome::Failure(RemoteFailure::Typed(format!("no {}", request.group_id)))
        } else {
            AuthorizationOutcome::Success
        }
    });
    assert_eq!(
        outcomes,
        vec![
            AuthorizationOutcome::Success,
            AuthorizationOutcome::Failure(RemoteFailure::Typed("no sg-2".to_string())),
            AuthorizationOutcome::Success,
            AuthorizationOutcome::Failure(RemoteFailure::Typed("no sg-2".to_string())),
        ]
    );
}

#[test]
fn a_whole_run_submits_in_the_order_of_the_groups() {
    let ids = groups(&["sg-b", "sg-a", "sg-c"]);
    let seen = std::cell::RefCell::new(Vec::new());
    let outcomes = authorize_all(&ids, "::1", "d", true, |request| {
        assert!(request.dry_run);
        seen.borrow_mut().push(request.group_id);
        AuthorizationOutcome::Failure(RemoteFailure::Opaque("x".to_string()))
    });
    assert_eq!(outcomes.len(), 3);
    assert_eq!(seen.into_inner(), ids);
}

#[test]
fn a_whole_run_over_no_groups_submits_nothing() {
    let outcomes = authorize_all(&vec![], "::1", "d", true, |_| panic!("nothing is due"));
    assert!(outcomes.is_empty());
}
