use authorize_me::config::{
    get_config_location, get_security_groups, parse_security_groups, DEFAULT_CONFIG_FILE,
};
use authorize_me::error::FatalError;

#[test]
fn one_group_per_line() {
    let groups = parse_security_groups("sg-1\nsg-2\n").unwrap();
    assert_eq!(groups, vec!["sg-1".to_string(), "sg-2".to_string()]);
}

#[test]
fn last_line_needs_no_line_feed() {
    let groups = parse_security_groups("sg-1\nsg-2").unwrap();
    assert_eq!(groups, vec!["sg-1".to_string(), "sg-2".to_string()]);
}

#[test]
fn empty_lines_are_ignored_and_ids_trimmed() {
    let groups = parse_security_groups("\n  sg-1 \r\n\n\tsg-2\n\n").unwrap();
    assert_eq!(groups, vec!["sg-1".to_string(), "sg-2".to_string()]);
}

#[test]
fn a_line_of_blanks_names_no_group() {
    let groups = parse_security_groups("sg-1\n   \n").unwrap();
    assert_eq!(groups, vec!["sg-1".to_string()]);
    assert_eq!(parse_security_groups(" \n\t\n"), Err(FatalError::NoSecurityGroups));
}

#[test]
fn a_line_of_a_lone_carriage_return_names_no_group() {
    let groups = parse_security_groups("sg-1\r\n\r\nsg-2\r\n").unwrap();
    assert_eq!(groups, vec!["sg-1".to_string(), "sg-2".to_string()]);
    assert_eq!(parse_security_groups("\r\n\r\n"), Err(FatalError::NoSecurityGroups));
}

#[test]
fn duplicates_are_kept() {
    let groups = parse_security_groups("sg-1\nsg-1\n").unwrap();
    assert_eq!(groups, vec!["sg-1".to_string(), "sg-1".to_string()]);
}

#[test]
fn inner_blanks_stay() {
    let groups = parse_security_groups(" sg 1 \n").unwrap();
    assert_eq!(groups, vec!["sg 1".to_string()]);
}

#[test]
fn no_group_is_a_configuration_error() {
    assert_eq!(parse_security_groups(""), Err(FatalError::NoSecurityGroups));
    assert_eq!(parse_security_groups("\n\n\n"), Err(FatalError::NoSecurityGroups));
}

#[test]
fn missing_file_is_a_configuration_error() {
    assert_eq!(get_security_groups(None), Err(FatalError::ConfigFileMissing));
}

#[test]
fn file_contents_are_parsed() {
    assert_eq!(get_security_groups(Some("sg-9\n")), Ok(vec!["sg-9".to_string()]));
    assert_eq!(get_security_groups(Some("")), Err(FatalError::NoSecurityGroups));
}

#[test]
fn explicit_location_wins() {
    assert_eq!(get_config_location(Some("/etc/groups"), Some("/home/me/.ssh-me-in")), Ok("/etc/groups"));
    assert_eq!(get_config_location(Some("/etc/groups"), None), Ok("/etc/groups"));
}

#[test]
fn home_is_the_default_location() {
    assert_eq!(get_config_location(None, Some("/home/me/.ssh-me-in")), Ok("/home/me/.ssh-me-in"));
}

#[test]
fn no_location_is_a_configuration_error() {
    assert_eq!(get_config_location::<String>(None, None), Err(FatalError::ConfigLocationUnknown));
}

#[test]
fn default_file_name() {
    assert_eq!(DEFAULT_CONFIG_FILE, ".ssh-me-in");
}

#[test]
fn fatal_error_messages() {
    assert_eq!(
        FatalError::ConfigLocationUnknown.message(),
        "Unable to identify config file location. Please explicitly pass the config file location in with the --config argument."
    );
    assert_eq!(
        FatalError::ConfigFileMissing.message(),
        "Config file does not exist. Please create a config file 'ssh-me' in your home directory or pass the config file location in with the --config argument."
    );
    assert_eq!(
        FatalError::NoSecurityGroups.message(),
        "No security groups found. Please specify security group ids on separate lines in your config file"
    );
    assert_eq!(FatalError::AddressUnavailable.message(), "Unable to obtain IP address");
    assert_eq!(FatalError::InvalidRegion("no such place".to_string()).message(), "no such place");
}
