//! Permission evaluation against principals of both domains.

use aci_server::permissions::Permission;

fn strings(items: &[&str]) -> Vec<String> {
    items.iter().map(|s| s.to_string()).collect()
}

#[test]
pub fn test_permission_check_read_empty() {
    let perm = Permission {
        write_a_users: vec![],
        write_g_users: vec![],
        read_a_users: vec![],
        read_g_users: vec![],
    };

    assert_eq!(perm.check_read(false, &"".to_string(), &"".to_string()), Ok(false));
    assert_eq!(perm.check_read(true, &"user".to_string(), &"a_auth".to_string()), Ok(false));
    assert_eq!(perm.check_read(true, &"user".to_string(), &"g_auth".to_string()), Ok(false));
}

#[test]
pub fn test_permission_check_write_empty() {
    let perm = Permission {
        write_a_users: vec![],
        write_g_users: vec![],
        read_a_users: vec![],
        read_g_users: vec![],
    };

    assert_eq!(perm.check_write(false, &"".to_string(), &"".to_string()), Ok(false));
    assert_eq!(perm.check_write(true, &"user".to_string(), &"a_auth".to_string()), Ok(false));
    assert_eq!(perm.check_write(true, &"user".to_string(), &"g_auth".to_string()), Ok(false));
}

#[test]
pub fn test_permission_check_read_authed() {
    let perm = Permission {
        write_a_users: vec![],
        write_g_users: vec![],
        read_a_users: strings(&["authed"]),
        read_g_users: vec![],
    };

    assert_eq!(perm.check_read(false, &"".to_string(), &"".to_string()), Ok(false));
    assert_eq!(perm.check_read(true, &"user".to_string(), &"a_auth".to_string()), Ok(true));
    assert_eq!(perm.check_read(true, &"user".to_string(), &"g_auth".to_string()), Ok(false));
    assert_eq!(perm.check_read(true, &"".to_string(), &"a_auth".to_string()), Ok(true));
    assert_eq!(perm.check_read(true, &"".to_string(), &"g_auth".to_string()), Ok(false));

    let perm = Permission {
        write_a_users: vec![],
        write_g_users: vec![],
        read_a_users: vec![],
        read_g_users: strings(&["authed"]),
    };

    assert_eq!(perm.check_read(false, &"".to_string(), &"".to_string()), Ok(false));
    assert_eq!(perm.check_read(true, &"user".to_string(), &"a_auth".to_string()), Ok(false));
    assert_eq!(perm.check_read(true, &"user".to_string(), &"g_auth".to_string()), Ok(true));
    assert_eq!(perm.check_read(true, &"".to_string(), &"a_auth".to_string()), Ok(false));
    assert_eq!(perm.check_read(true, &"".to_string(), &"g_auth".to_string()), Ok(true));
}

#[test]
pub fn test_permission_check_write_authed() {
    let perm = Permission {
        write_a_users: strings(&["authed"]),
        write_g_users: vec![],
        read_a_users: vec![],
        read_g_users: vec![],
    };

    assert_eq!(perm.check_write(false, &"".to_string(), &"".to_string()), Ok(false));
    assert_eq!(perm.check_write(true, &"user".to_string(), &"a_auth".to_string()), Ok(true));
    assert_eq!(perm.check_write(true, &"user".to_string(), &"g_auth".to_string()), Ok(false));
    assert_eq!(perm.check_write(true, &"".to_string(), &"a_auth".to_string()), Ok(true));
    assert_eq!(perm.check_write(true, &"".to_string(), &"g_auth".to_string()), Ok(false));

    let perm = Permission {
        write_a_users: vec![],
        write_g_users: strings(&["authed"]),
        read_a_users: vec![],
        read_g_users: vec![],
    };

    assert_eq!(perm.check_write(false, &"".to_string(), &"".to_string()), Ok(false));
    assert_eq!(perm.check_write(true, &"user".to_string(), &"a_auth".to_string()), Ok(false));
    assert_eq!(perm.check_write(true, &"user".to_string(), &"g_auth".to_string()), Ok(true));
    assert_eq!(perm.check_write(true, &"".to_string(), &"a_auth".to_string()), Ok(false));
    assert_eq!(perm.check_write(true, &"".to_string(), &"g_auth".to_string()), Ok(true));
}

#[test]
pub fn test_permission_check_read_set() {
    let perm = Permission {
        write_a_users: vec![],
        write_g_users: vec![],
        read_a_users: strings(&["user"]),
        read_g_users: vec![],
    };

    assert_eq!(perm.check_read(false, &"".to_string(), &"".to_string()), Ok(false));
    assert_eq!(perm.check_read(true, &"user".to_string(), &"a_auth".to_string()), Ok(true));
    assert_eq!(perm.check_read(true, &"user".to_string(), &"g_auth".to_string()), Ok(false));
    assert_eq!(perm.check_read(true, &"".to_string(), &"a_auth".to_string()), Ok(false));
    assert_eq!(perm.check_read(true, &"".to_string(), &"g_auth".to_string()), Ok(false));
    assert_eq!(perm.check_read(true, &"name".to_string(), &"a_auth".to_string()), Ok(false));
    assert_eq!(perm.check_read(true, &"name".to_string(), &"g_auth".to_string()), Ok(false));

    let perm = Permission {
        write_a_users: vec![],
        write_g_users: vec![],
        read_a_users: vec![],
        read_g_users: strings(&["user"]),
    };

    assert_eq!(perm.check_read(false, &"".to_string(), &"".to_string()), Ok(false));
    assert_eq!(perm.check_read(true, &"user".to_string(), &"a_auth".to_string()), Ok(false));
    assert_eq!(perm.check_read(true, &"user".to_string(), &"g_auth".to_string()), Ok(true));
    assert_eq!(perm.check_read(true, &"".to_string(), &"a_auth".to_string()), Ok(false));
    assert_eq!(perm.check_read(true, &"".to_string(), &"g_auth".to_string()), Ok(false));
    assert_eq!(perm.check_read(true, &"name".to_string(), &"a_auth".to_string()), Ok(false));
    assert_eq!(perm.check_read(true, &"name".to_string(), &"g_auth".to_string()), Ok(false));
}

#[test]
pub fn test_permission_check_write_set() {
    let perm = Permission {
        write_a_users: strings(&["user"]),
        write_g_users: vec![],
        read_a_users: vec![],
        read_g_users: vec![],
    };

    assert_eq!(perm.check_write(false, &"".to_string(), &"".to_string()), Ok(false));
    assert_eq!(perm.check_write(true, &"user".to_string(), &"a_auth".to_string()), Ok(true));
    assert_eq!(perm.check_write(true, &"user".to_string(), &"g_auth".to_string()), Ok(false));
    assert_eq!(perm.check_write(true, &"".to_string(), &"a_auth".to_string()), Ok(false));
    assert_eq!(perm.check_write(true, &"".to_string(), &"g_auth".to_string()), Ok(false));
    assert_eq!(perm.check_write(true, &"name".to_string(), &"a_auth".to_string()), Ok(false));
    assert_eq!(perm.check_write(true, &"name".to_string(), &"g_auth".to_string()), Ok(false));

    let perm = Permission {
        write_a_users: vec![],
        write_g_users: strings(&["user"]),
        read_a_users: vec![],
        read_g_users: vec![],
    };

    assert_eq!(perm.check_write(false, &"".to_string(), &"".to_string()), Ok(false));
    assert_eq!(perm.check_write(true, &"user".to_string(), &"a_auth".to_string()), Ok(false));
    assert_eq!(perm.check_write(true, &"user".to_string(), &"g_auth".to_string()), Ok(true));
    assert_eq!(perm.check_write(true, &"".to_string(), &"a_auth".to_string()), Ok(false));
    assert_eq!(perm.check_write(true, &"".to_string(), &"g_auth".to_string()), Ok(false));
    assert_eq!(perm.check_write(true, &"name".to_string(), &"a_auth".to_string()), Ok(false));
    assert_eq!(perm.check_write(true, &"name".to_string(), &"g_auth".to_string()), Ok(false));
}

#[test]
pub fn test_permission_check_read_any() {
    let perm = Permission {
        write_a_users: vec![],
        write_g_users: vec![],
        read_a_users: strings(&["any"]),
        read_g_users: vec![],
    };

    assert_eq!(perm.check_read(false, &"".to_string(), &"".to_string()), Ok(true));
    assert_eq!(perm.check_read(true, &"user".to_string(), &"a_auth".to_string()), Ok(true));
    assert_eq!(perm.check_read(true, &"user".to_string(), &"g_auth".to_string()), Ok(true));
    assert_eq!(perm.check_read(true, &"".to_string(), &"a_auth".to_string()), Ok(true));
    assert_eq!(perm.check_read(true, &"".to_string(), &"g_auth".to_string()), Ok(true));
}

#[test]
pub fn test_permission_check_write_any() {
    let perm = Permission {
        write_a_users: strings(&["any"]),
        write_g_users: vec![],
        read_a_users: vec![],
        read_g_users: vec![],
    };

    assert_eq!(perm.check_write(false, &"".to_string(), &"".to_string()), Ok(true));
    assert_eq!(perm.check_write(true, &"user".to_string(), &"a_auth".to_string()), Ok(true));
    assert_eq!(perm.check_write(true, &"user".to_string(), &"g_auth".to_string()), Ok(true));
    assert_eq!(perm.check_write(true, &"".to_string(), &"a_auth".to_string()), Ok(true));
    assert_eq!(perm.check_write(true, &"".to_string(), &"g_auth".to_string()), Ok(true));
}
