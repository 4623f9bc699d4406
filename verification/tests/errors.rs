//! How errors of the API server are classified.

use kumuteva::control_plane::errors::{
    infer_isolation_from_error, is_absence_error, is_authorization_error, status_code_in,
};
use kumuteva::isolation::IsolationLevel;

/// A 403 from a cross-tenant DaemonSet create.
const FORBIDDEN_RBAC: &str = r#"ApiError: daemonsets.apps is forbidden: User "tenant2-admin" cannot create resource "daemonsets" in API group "apps" in the namespace "tenant1": Forbidden (ErrorResponse { status: "Failure", message: "daemonsets.apps is forbidden", reason: "Forbidden", code: 403 })"#;

/// A 403 from Pod Security Admission on a hardened tenant.
const FORBIDDEN_POD_SECURITY: &str = r#"pods "network-multitool" is forbidden: violates PodSecurity "restricted:latest": allowPrivilegeEscalation != false"#;

/// A 403 from a ResourceQuota that requires limits.
const FORBIDDEN_QUOTA: &str =
    r#"pods "probe" is forbidden: failed quota: capsule-tenant1-0: must specify limits.cpu"#;

const NOT_FOUND: &str = r#"ApiError: configmaps "other-tenant-config" not found: NotFound (ErrorResponse { status: "Failure", message: "configmaps not found", reason: "NotFound", code: 404 })"#;

const ALREADY_EXISTS: &str = r#"ApiError: configmaps "shared-name" already exists: AlreadyExists (ErrorResponse { reason: "AlreadyExists", code: 409 })"#;

#[test]
fn not_found_reads_as_hard_isolation() {
    assert_eq!(infer_isolation_from_error(NOT_FOUND), IsolationLevel::Hard);
}

#[test]
fn forbidden_reads_as_soft_isolation() {
    for message in [FORBIDDEN_RBAC, FORBIDDEN_POD_SECURITY, FORBIDDEN_QUOTA] {
        assert!(
            matches!(infer_isolation_from_error(message), IsolationLevel::Soft(_)),
            "expected Soft for: {message}"
        );
    }
}

#[test]
fn a_name_collision_reads_as_soft_isolation() {
    assert!(matches!(
        infer_isolation_from_error(ALREADY_EXISTS),
        IsolationLevel::Soft(_)
    ));
}

#[test]
fn not_found_wins_over_forbidden_when_a_message_contains_both() {
    let both = r#"configmaps "x" not found; user is forbidden from listing"#;
    assert_eq!(infer_isolation_from_error(both), IsolationLevel::Hard);
}

#[test]
fn an_unrecognised_error_is_soft_rather_than_hard() {
    let level = infer_isolation_from_error("connection reset by peer");
    assert!(matches!(level, IsolationLevel::Soft(_)));
}

#[test]
fn the_status_code_is_preferred_over_the_wording() {
    let misleading_404 =
        r#"something forbidden happened (ErrorResponse { reason: "NotFound", code: 404 })"#;
    assert_eq!(
        infer_isolation_from_error(misleading_404),
        IsolationLevel::Hard
    );

    let wordless_403 = r#"request rejected (ErrorResponse { reason: "Forbidden", code: 403 })"#;
    assert!(matches!(
        infer_isolation_from_error(wordless_403),
        IsolationLevel::Soft(_)
    ));

    let wordless_409 = r#"rejected (ErrorResponse { reason: "AlreadyExists", code: 409 })"#;
    assert!(matches!(
        infer_isolation_from_error(wordless_409),
        IsolationLevel::Soft(_)
    ));
}

#[test]
fn messages_without_a_code_still_classify_by_wording() {
    assert_eq!(status_code_in(FORBIDDEN_POD_SECURITY), None);
    assert_eq!(status_code_in(FORBIDDEN_QUOTA), None);
    for message in [FORBIDDEN_POD_SECURITY, FORBIDDEN_QUOTA] {
        assert!(matches!(
            infer_isolation_from_error(message),
            IsolationLevel::Soft(_)
        ));
    }
}

#[test]
fn the_code_parser_does_not_invent_one() {
    assert_eq!(status_code_in("no code here"), None);
    assert_eq!(status_code_in("code: notanumber"), None);
    assert_eq!(status_code_in("code: 403 })"), Some(403));
    assert_eq!(
        status_code_in("inner code: 404 outer code: 403 })"),
        Some(403)
    );
}

#[test]
fn authorization_errors_cover_the_forms_proxies_produce() {
    for message in [
        FORBIDDEN_RBAC,
        "Unauthorized",
        "BadRequest: filtered",
        "operation is not allowed",
    ] {
        assert!(is_authorization_error(message), "should match: {message}");
    }
    assert!(!is_authorization_error(NOT_FOUND));
}

#[test]
fn every_kind_of_answer_has_its_level() {
    let forbidden = "Access forbidden - reveals shared environment".to_string();
    let collision = "Name collision - reveals resource exists".to_string();
    assert_eq!(infer_isolation_from_error("code: 404"), IsolationLevel::Hard);
    for message in ["code: 401", "code: 403", "Unauthorized", "BadRequest"] {
        assert_eq!(infer_isolation_from_error(message), IsolationLevel::Soft(forbidden.clone()));
    }
    for message in ["code: 409", "AlreadyExists", "already exists"] {
        assert_eq!(infer_isolation_from_error(message), IsolationLevel::Soft(collision.clone()));
    }
    assert_eq!(
        infer_isolation_from_error("code: 500"),
        IsolationLevel::Soft("Error reveals shared state: code: 500".to_string())
    );
    assert!(is_absence_error(NOT_FOUND));
    assert!(!is_absence_error(FORBIDDEN_RBAC));
}

#[test]
fn a_code_ends_where_its_digits_end() {
    assert_eq!(status_code_in("code: 65535."), Some(65535));
    assert_eq!(status_code_in("code: 65536."), None);
    assert_eq!(status_code_in("code: "), None);
    assert_eq!(status_code_in(""), None);
}
