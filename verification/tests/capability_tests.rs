use isolate_boot::capability::{
    CapabilityAuthority, CapabilityKind, CapabilityRequest, Permissions,
};

fn request(kind: CapabilityKind, target: &str, op: &str) -> CapabilityRequest {
    CapabilityRequest { kind, target: Some(target.to_string()), op_name: op.to_string() }
}

#[test]
fn permit_all_allows_every_kind() {
    let authority = CapabilityAuthority::PermitAll;
    let kinds = vec![
        CapabilityKind::NetworkUrl,
        CapabilityKind::FilesystemRead,
        CapabilityKind::FilesystemWrite,
        CapabilityKind::ForeignCall,
        CapabilityKind::OsQuery,
    ];
    for kind in kinds {
        let d = authority.decide(&request(kind, "target", "op"));
        assert!(d.is_allow());
        assert!(!d.is_deny());
        assert_eq!(d.reason_text(), "");
    }
}

#[test]
fn deny_all_denies_every_kind_with_reason() {
    let authority = CapabilityAuthority::DenyAll;
    let kinds = vec![
        CapabilityKind::NetworkUrl,
        CapabilityKind::FilesystemRead,
        CapabilityKind::FilesystemWrite,
        CapabilityKind::ForeignCall,
        CapabilityKind::OsQuery,
    ];
    for kind in kinds {
        let d = authority.decide(&request(kind, "target", "op"));
        assert!(d.is_deny());
        assert!(!d.reason_text().is_empty());
    }
}

#[test]
fn deny_all_check_read_etc_passwd() {
    let authority = CapabilityAuthority::DenyAll;
    let d = authority.check_read("/etc/passwd".to_string(), "readFile".to_string());
    assert!(d.is_deny());
    assert!(!d.reason_text().is_empty());
}

#[test]
fn per_kind_checks_follow_the_policy() {
    let permit = CapabilityAuthority::PermitAll;
    assert!(permit.check_network("https://example.com".to_string(), "fetch".to_string())
        .is_allow());
    assert!(permit.check_read("/tmp/a".to_string(), "readFile".to_string()).is_allow());
    assert!(permit.check_write("/tmp/a".to_string(), "writeFile".to_string()).is_allow());
    assert!(permit.check_foreign_call(None, "dlopen".to_string()).is_allow());
    assert!(permit.check_os("hostname".to_string(), "os.hostname".to_string()).is_allow());

    let deny = CapabilityAuthority::DenyAll;
    assert!(deny.check_network("https://example.com".to_string(), "fetch".to_string()).is_deny());
    assert!(deny
        .check_foreign_call(Some("/lib/x.so".to_string()), "dlopen".to_string())
        .is_deny());
    assert!(deny.check_os("hostname".to_string(), "os.hostname".to_string()).is_deny());
}

#[test]
fn deny_reason_names_the_unreachable_context() {
    let deny = CapabilityAuthority::DenyAll;
    let d = deny.check_write("/tmp/out".to_string(), "writeFile".to_string());
    assert_eq!(d.reason_text(), "permission checks are unreachable in this context");
}

#[test]
fn blanket_permissions_grant_everything() {
    let mut p = Permissions;
    assert!(p.check_net_url("https://example.com", "fetch").is_ok());
    assert!(p.check_read("/tmp/a", "readFile").is_ok());
    assert!(p.allow_hrtime());
    assert!(p.check_partial(None).is_ok());
    assert!(p.check(Some("/lib/x.so")).is_ok());
    assert!(p.check_read_with_api_name("/tmp/a", Some("fs.read")).is_ok());
    assert!(p.check_write_with_api_name("/tmp/a", None).is_ok());
    assert!(p.check_sys("uid", "os.uid").is_ok());
    assert!(p.check_net(&("example.com".to_string(), Some(443)), "connect").is_ok());
    assert!(p.check_write("/tmp/a", "writeFile").is_ok());
    assert!(p.check_read_all("readAll").is_ok());
    assert!(p.check_read_blind("/proc/self", "self", "read").is_ok());
    assert!(p.check_write_partial("/tmp/a", "write").is_ok());
    assert!(p.check_write_all("writeAll").is_ok());
    assert!(p.check_write_blind("/tmp/b", "b", "write").is_ok());
}
