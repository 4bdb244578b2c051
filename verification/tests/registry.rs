use malkuth::{InMemoryRegistry, InstanceInfo, InstanceRegistry, InstanceRole, RegistryError};

fn info(id: &str, group: &str) -> InstanceInfo {
    InstanceInfo {
        instance_id: id.to_string(),
        group: group.to_string(),
        role: InstanceRole::Active,
        generation: 1,
        started_at: "1970-01-01T00:00:00Z".to_string(),
        endpoint: None,
        backend: None,
    }
}

#[test]
fn register_list_setrole_deregister() {
    let mut r = InMemoryRegistry::new();
    r.register(info("a", "g")).unwrap();
    r.register(info("b", "g")).unwrap();
    assert_eq!(r.list("g").unwrap().len(), 2);
    r.set_role("a", InstanceRole::Draining).unwrap();
    r.deregister("b").unwrap();
    let v = r.list("g").unwrap();
    assert_eq!(v.len(), 1);
    assert_eq!(v[0].role, InstanceRole::Draining);
}

#[test]
fn registry_upserts_and_reports_missing() {
    let mut r = InMemoryRegistry::default();
    r.register(info("a", "g")).unwrap();
    let mut again = info("a", "g");
    again.generation = 2;
    r.register(again).unwrap();
    r.register(info("a", "h")).unwrap();
    let g = r.list("g").unwrap();
    assert_eq!(g.len(), 1);
    assert_eq!(g[0].generation, 2);
    assert_eq!(r.list("h").unwrap().len(), 1);
    assert!(r.list("none").unwrap().is_empty());
    match r.set_role("zz", InstanceRole::Draining) {
        Err(RegistryError::NotFound(m)) => assert_eq!(m, "zz"),
        other => panic!("unexpected {other:?}"),
    }
    assert!(matches!(r.deregister("zz"), Err(RegistryError::NotFound(_))));
}
