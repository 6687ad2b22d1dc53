use oqto::ctl::{
    ask_target, check_confirmation, check_password, normalize_role, parse_u32,
    regular_passwd_users, runner_service_path,
};

fn chars(s: &str) -> Vec<char> {
    s.chars().collect()
}

#[test]
fn roles_are_checked() {
    assert_eq!(normalize_role("Admin").unwrap(), "admin");
    assert_eq!(normalize_role("user").unwrap(), "user");
    assert_eq!(normalize_role("root").unwrap_err(), "Invalid role: root. Must be 'user' or 'admin'");
}

#[test]
fn passwords_are_checked() {
    assert_eq!(check_password("").unwrap_err(), "Password cannot be empty");
    assert!(check_password("pw").is_ok());
    assert!(check_confirmation("pw", "pw").is_ok());
    assert_eq!(check_confirmation("pw", "px").unwrap_err(), "Passwords do not match");
}

#[test]
fn unsigned_numbers_as_std_reads_them() {
    for s in ["0", "1000", "+42", "4294967295", "4294967296", "", "+", "-1", "12a", " 1", "007"] {
        assert_eq!(parse_u32(&chars(s)), s.parse::<u32>().ok(), "input {:?}", s);
    }
}

#[test]
fn regular_users_from_passwd() {
    let passwd = "root:x:0:0:root:/root:/bin/bash\n\
                  alice:x:1000:1000:Alice:/home/alice:/bin/bash\n\
                  nobody:x:65534:65534:nobody:/nonexistent:/usr/sbin/nologin\n\
                  broken:x:1001\n\
                  bob:x:1001:1001::/home/bob:/bin/zsh\n\
                  weird:x:abc:1:w:/home/weird:/bin/sh\n";
    let users = regular_passwd_users(passwd);
    let names: Vec<(&str, u32, &str)> =
        users.iter().map(|u| (u.username.as_str(), u.uid, u.home.as_str())).collect();
    assert_eq!(names, vec![("alice", 1000, "/home/alice"), ("bob", 1001, "/home/bob")]);
    assert_eq!(
        runner_service_path("/home/alice"),
        "/home/alice/.config/systemd/user/oqto-runner.service"
    );
}

#[test]
fn ask_targets() {
    assert_eq!(ask_target("@@main"), "main");
    assert_eq!(ask_target("main"), "main");
    assert_eq!(ask_target("@x"), "@x");
}
