//! Global ids, string helpers, and the identity check.

use up2p::pkg::{ClientHelloPkg, GetGlobalId, PkgVerifyIdentity};
use up2p::util::{get_global_id, str_eq};
use up2p::ProtocolError;

#[test]
fn global_id_joins_class_and_instance() {
    assert_eq!(get_global_id("cli", "peer1"), "cli-peer1");
    assert_eq!(get_global_id("", ""), "-");
}

#[test]
fn str_eq_follows_contents() {
    assert!(str_eq("abc", "abc"));
    assert!(!str_eq("abc", "abd"));
    assert!(str_eq("", ""));
    assert!(!str_eq("a", ""));
}

#[test]
fn pkg_global_id_comes_from_its_identity() {
    let pkg = ClientHelloPkg::new("cli", "peer1", "tok", ClientHelloPkg::MSG_HELLO);
    assert_eq!(pkg.get_global_id(), "cli-peer1");
}

#[test]
fn verify_identity_accepts_only_the_shared_token() {
    let pkg = ClientHelloPkg::new("cli", "peer1", "tok", ClientHelloPkg::MSG_HELLO);
    assert!(pkg.verify_identity("tok").is_ok());
    assert_eq!(
        pkg.verify_identity("other").err().unwrap(),
        ProtocolError::IdentityMismatch
    );
}
