use rmb::server::service::{Router, ServiceModule};

fn calculator() -> ServiceModule<u32> {
    ServiceModule::new(None).submodule("add", Some(1)).submodule("sub", Some(2))
}

fn tree() -> ServiceModule<u32> {
    ServiceModule::new(None)
        .attach("calculator", calculator().handle(9))
        .submodule("version", Some(3))
}

#[test]
fn a_leaf_has_its_root_as_its_key() {
    let leaf: ServiceModule<u32> = ServiceModule::new(Some(5));
    assert_eq!(leaf.form_keys("version"), Some(vec!["version".to_string()]));
    assert_eq!(leaf.form_keys(""), Some(vec!["".to_string()]));
}

#[test]
fn keys_are_the_paths_of_the_leaves() {
    assert_eq!(
        tree().form_keys("root"),
        Some(vec![
            "root.calculator.add".to_string(),
            "root.calculator.sub".to_string(),
            "root.version".to_string(),
        ])
    );
    assert_eq!(
        calculator().form_keys("calculator"),
        Some(vec!["calculator.add".to_string(), "calculator.sub".to_string()])
    );
}

#[test]
fn keys_reach_below_nested_modules() {
    let nested: ServiceModule<u32> =
        ServiceModule::new(None).attach("inner", ServiceModule::new(None).attach("x", calculator()));
    assert_eq!(
        nested.form_keys("r"),
        Some(vec!["r.inner.x.add".to_string(), "r.inner.x.sub".to_string()])
    );
}

#[test]
fn the_route_of_the_root_finds_the_own_handler() {
    let leaf: ServiceModule<u32> = ServiceModule::new(Some(5));
    assert_eq!(leaf.get_handler("version", "version"), Some(5));
    assert_eq!(tree().get_handler("root", "root"), None);
    assert_eq!(tree().handle(4).get_handler("root", "root"), Some(4));
}

#[test]
fn a_route_leads_through_the_submodules() {
    let tree = tree();
    assert_eq!(tree.get_handler("root", "calculator"), Some(9));
    assert_eq!(tree.get_handler("root", "missing"), None);
    assert_eq!(tree.get_handler("root", "calculator.missing"), None);
    assert_eq!(tree.get_handler("root", "missing.add"), None);
    assert_eq!(tree.get_handler("root", ""), None);

    let deep = ServiceModule::new(None).attach("a", ServiceModule::new(Some(1)).attach("b", tree));
    assert_eq!(deep.get_handler("root", "a"), Some(1));
    assert_eq!(deep.get_handler("root", "a.b"), None);
    assert_eq!(deep.get_handler("root", "a.b.calculator"), Some(9));
}

#[test]
fn a_submodule_takes_the_place_of_one_of_its_name() {
    let module: ServiceModule<u32> = ServiceModule::new(None)
        .submodule("a", Some(1))
        .submodule("b", Some(2))
        .attach("a", calculator().handle(7));
    assert_eq!(
        module.form_keys("r"),
        Some(vec!["r.a.add".to_string(), "r.a.sub".to_string(), "r.b".to_string()])
    );
    assert_eq!(module.get_handler("r", "a"), Some(7));
}
