use monero_wallet_backend::gate::{
    approver_admits, custodian_admits, holds_any_role, holds_role, requester_admits, session_admits,
    Caller, Roles, APPROVER_METHODS, CUSTODIAN_METHODS, SESSION_METHODS,
};

fn m(n: &str) -> Caller {
    Caller::Module(n.into())
}

fn holders(names: &[&str]) -> Vec<String> {
    names.iter().map(|s| s.to_string()).collect()
}

#[test]
fn defaults_admit_the_gui_and_nobody_else() {
    let r = Roles::default();
    assert!(custodian_admits("open_wallet", &r.custodians, &m("monero_wallet_ui")));
    assert!(approver_admits("confirm_send", &r.approvers, &m("monero_wallet_ui")));
    assert!(!custodian_admits("open_wallet", &r.custodians, &m("monero_wallet_cli")));
    assert!(!approver_admits("confirm_send", &r.approvers, &m("monero_wallet_cli")));
    assert!(!custodian_admits("open_wallet", &r.custodians, &m("some_other_module")));
}

#[test]
fn the_host_anchor_is_refused_everywhere_however_roles_are_set() {
    let mut r = Roles::default();
    for method in CUSTODIAN_METHODS {
        assert!(!custodian_admits(method, &r.custodians, &Caller::HostAnchor));
    }
    assert!(!approver_admits("confirm_send", &r.approvers, &Caller::HostAnchor));
    assert!(!session_admits("close_wallet", &r, &Caller::HostAnchor));
    assert!(!requester_admits(&Caller::HostAnchor));
    assert!(!requester_admits(&Caller::Unknown));
    r.configure(r#"{"custodians":["core","capability_module",""]}"#).unwrap();
    assert!(!custodian_admits("open_wallet", &r.custodians, &Caller::HostAnchor), "naming the anchor's aliases grants nothing: it carries no name");
}

#[test]
fn a_method_the_registry_does_not_name_is_refused_even_for_the_holder() {
    let r = Roles::default();
    assert!(!custodian_admits("balances", &r.custodians, &m("monero_wallet_ui")));
    assert!(!custodian_admits("open_walet", &r.custodians, &m("monero_wallet_ui")), "a typo fails closed");
    assert!(!approver_admits("prepare_send", &r.approvers, &m("monero_wallet_ui")), "prepare is a request, not an approval");
}

#[test]
fn roles_are_sets_and_independent() {
    let mut r = Roles::default();
    r.configure(r#"{"approvers":["monero_wallet_ui"],"custodians":["monero_wallet_ui","monero_wallet_cli"]}"#).unwrap();
    assert!(custodian_admits("open_wallet", &r.custodians, &m("monero_wallet_cli")));
    assert!(!approver_admits("confirm_send", &r.approvers, &m("monero_wallet_cli")), "a custodian is not thereby an approver");
    assert!(approver_admits("confirm_send", &r.approvers, &m("monero_wallet_ui")));
    r.configure(r#"{"approvers":"monero_wallet_cli"}"#).unwrap();
    assert!(approver_admits("confirm_send", &r.approvers, &m("monero_wallet_cli")));
    assert!(!approver_admits("confirm_send", &r.approvers, &m("monero_wallet_ui")), "configure is total: the GUI was not restated");
    assert!(r.custodians.is_empty(), "a role the document does not name is held by nobody");
}

#[test]
fn configure_is_total_and_refuses_unknown_keys() {
    let mut r = Roles::default();
    assert!(r.configure(r#"{"custodian":"x"}"#).is_err(), "the singular spelling is refused, not silently ignored");
    assert_eq!(r, Roles::default(), "a refused document leaves the roles in force");
    assert!(r.configure(r#"[]"#).is_err());
    r.configure(r#"{}"#).unwrap();
    assert!(r.approvers.is_empty() && r.custodians.is_empty(), "an empty document is 'nobody', by design");
    assert!(!custodian_admits("open_wallet", &r.custodians, &m("monero_wallet_ui")));
}

#[test]
fn either_role_may_close_the_session() {
    let mut r = Roles::default();
    assert!(session_admits("close_wallet", &r, &m("monero_wallet_ui")));
    r.configure(r#"{"custodians":"monero_wallet_cli"}"#).unwrap();
    assert!(session_admits("close_wallet", &r, &m("monero_wallet_cli")), "a custodian alone may end the session");
    r.configure(r#"{"approvers":"monero_wallet_cli"}"#).unwrap();
    assert!(session_admits("close_wallet", &r, &m("monero_wallet_cli")), "an approver alone may end the session too");
    r.configure(r#"{}"#).unwrap();
    assert!(!session_admits("close_wallet", &r, &m("monero_wallet_cli")), "holding neither role ends nothing");
    assert!(!session_admits("close_wallet", &r, &m("some_other_module")));
    assert!(requester_admits(&m("some_other_module")), "but any named module may ask for a send to be built");
    assert!(!requester_admits(&Caller::Derived { parent: "a".into(), leaf: "b".into() }));
}

#[test]
fn the_registries_do_not_overlap() {
    for c in CUSTODIAN_METHODS {
        assert!(!APPROVER_METHODS.contains(&c) && !SESSION_METHODS.contains(&c));
    }
    let _ = holders(&["x"]);
}

#[test]
fn holders_are_trimmed_and_listed_once() {
    let mut r = Roles::default();
    r.configure(r#"{"custodians":[" a ","b","","a","  "," c\t"],"approvers":" x "}"#).unwrap();
    assert_eq!(r.custodians, holders(&["a", "b", "c"]));
    assert_eq!(r.approvers, holders(&["x"]));
}

#[test]
fn a_bad_document_says_what_is_wrong() {
    let mut r = Roles::default();
    assert_eq!(r.configure("[]").unwrap_err(), "roles document must be an object");
    assert_eq!(r.configure("\"approvers\"").unwrap_err(), "roles document must be an object");
    assert_eq!(
        r.configure(r#"{"custodian":"x"}"#).unwrap_err(),
        "bad roles document: unknown field `custodian`, expected `approvers` or `custodians`"
    );
    assert_eq!(
        r.configure(r#"{"approvers":1}"#).unwrap_err(),
        "bad roles document: data did not match any variant of untagged enum RoleWire"
    );
    assert_eq!(
        r.configure(r#"{"approvers":["a",null],"aardvark":1}"#).unwrap_err(),
        "bad roles document: unknown field `aardvark`, expected `approvers` or `custodians`"
    );
    assert_eq!(
        r.configure(r#"{"zebra":1,"custodians":null}"#).unwrap_err(),
        "bad roles document: data did not match any variant of untagged enum RoleWire"
    );
    assert_eq!(
        r.configure("{").unwrap_err(),
        "bad roles document: EOF while parsing an object at line 1 column 1"
    );
    assert_eq!(r, Roles::default());
}

#[test]
fn a_repeated_field_counts_once() {
    let mut r = Roles::default();
    r.configure(r#"{"approvers":"a","approvers":"b"}"#).unwrap();
    assert_eq!(r.approvers, holders(&["b"]));
}

#[test]
fn a_role_is_held_by_name() {
    assert!(holds_role("a", &m("a")));
    assert!(!holds_role("a", &m("b")));
    assert!(!holds_role("", &m("")), "an empty name is nobody's");
    assert!(!holds_role("a", &Caller::Operator("a".into())));
    assert!(holds_any_role(&holders(&["x", "a"]), &m("a")));
    assert!(!holds_any_role(&holders(&[]), &m("a")));
}

#[test]
fn only_a_module_has_a_name() {
    assert!(m("a").is_module("a"));
    assert!(!m("a").is_module("b"));
    assert!(!Caller::Operator("a".into()).is_module("a"));
    assert_eq!(m("a").named(), Some("a"));
    assert_eq!(Caller::HostAnchor.named(), None);
    assert_eq!(Caller::Derived { parent: "a".into(), leaf: "b".into() }.named(), None);
}
