use account_service::assembly::assemble;
use account_service::controller::endpoints;
use account_service::registry::{Endpoint, Method, Registry};
use account_service::store::read;

fn endpoint(method: Method, path: &str, handler: &str) -> Endpoint {
    Endpoint { method, path: path.to_string(), handler: handler.to_string() }
}

#[test]
fn disjoint_prefixes_both_kept() {
    let mut registry = Registry::new();
    registry.register(
        "/accounts".to_string(),
        vec![endpoint(Method::Post, "/", "create"), endpoint(Method::Get, "/<id>", "read")],
    );
    registry.register(
        "/widgets".to_string(),
        vec![endpoint(Method::Get, "/", "list_widgets")],
    );
    let mounts = registry.drain_all();
    assert_eq!(mounts.len(), 2);
    let accounts = mounts.iter().find(|(p, _)| p == "/accounts").expect("prefix dropped");
    assert_eq!(accounts.1.len(), 2);
    assert_eq!(accounts.1[0].handler, "create");
    assert_eq!(accounts.1[1].handler, "read");
    let widgets = mounts.iter().find(|(p, _)| p == "/widgets").expect("prefix dropped");
    assert_eq!(widgets.1.len(), 1);
    assert_eq!(widgets.1[0].handler, "list_widgets");
}

#[test]
fn same_prefix_last_write_wins() {
    let mut registry = Registry::new();
    registry.register("/accounts".to_string(), vec![endpoint(Method::Get, "/", "old_handler")]);
    registry.register(
        "/accounts".to_string(),
        vec![endpoint(Method::Get, "/", "new_handler"), endpoint(Method::Post, "/", "create")],
    );
    let mounts = registry.drain_all();
    assert_eq!(mounts.len(), 1);
    assert_eq!(mounts[0].0, "/accounts");
    assert_eq!(mounts[0].1.len(), 2);
    assert_eq!(mounts[0].1[0].handler, "new_handler");
}

#[test]
fn drain_of_empty_registry_is_empty() {
    let mut registry = Registry::new();
    assert!(registry.drain_all().is_empty());
}

#[test]
fn account_controller_declares_four_endpoints() {
    let (prefix, eps) = endpoints();
    assert_eq!(prefix, "/");
    assert_eq!(eps.len(), 4);
    assert!(eps[0].method == Method::Post && eps[0].path == "/" && eps[0].handler == "create");
    assert!(eps[1].method == Method::Get && eps[1].path == "/<id>" && eps[1].handler == "read");
    assert!(eps[2].method == Method::Put && eps[2].path == "/<id>" && eps[2].handler == "update");
    assert!(
        eps[3].method == Method::Delete && eps[3].path == "/<id>" && eps[3].handler == "delete"
    );
}

#[test]
fn assemble_mounts_account_controller() {
    let (storage, mounts) = assemble();
    assert!(read(1, &storage).is_none(), "assembled store must start empty");
    assert_eq!(mounts.len(), 1);
    assert_eq!(mounts[0].0, "/");
    assert_eq!(mounts[0].1.len(), 4);
    assert_eq!(mounts[0].1[0].handler, "create");
    assert_eq!(mounts[0].1[3].handler, "delete");
}
