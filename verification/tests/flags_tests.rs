use waydroid_tray::flags::{flag_request, FlagRequest};

fn args(list: &[&str]) -> Vec<String> {
    list.iter().map(|s| s.to_string()).collect()
}

#[test]
fn version_flag_prints_the_package_version() {
    assert_eq!(flag_request(&args(&["--version"])), FlagRequest::Version);
    assert_eq!(flag_request(&args(&["-V"])), FlagRequest::Version);
}

#[test]
fn help_flag_lists_both_flags() {
    assert_eq!(flag_request(&args(&["--help"])), FlagRequest::Help);
    assert_eq!(flag_request(&args(&["-h"])), FlagRequest::Help);
}

#[test]
fn first_flag_wins_and_others_are_ignored() {
    assert_eq!(flag_request(&args(&["--bogus", "-h", "-V"])), FlagRequest::Help);
    assert_eq!(flag_request(&args(&["--bogus"])), FlagRequest::Run);
    assert_eq!(flag_request(&args(&[])), FlagRequest::Run);
}
