use firecracker_sdk::handlers::{
    default_fc_init_handler_names, default_validation_handler_names, machine_handlers,
};
use firecracker_sdk::{
    adapt_handlers_for_snapshot, Handler, HandlerList, Handlers, ATTACH_DRIVES_HANDLER_NAME,
    CREATE_LOG_FILES_HANDLER_NAME, LOAD_SNAPSHOT_HANDLER_NAME,
};

fn h(name: &str, tag: u32) -> Handler<u32> {
    Handler::new(name.to_string(), tag)
}

fn names(list: &HandlerList<u32>) -> Vec<String> {
    list.list.iter().map(|x| x.name.clone()).collect()
}

#[test]
fn swappend_replaces_or_appends() {
    let list = HandlerList::new().append(vec![h("a", 1), h("b", 2)]);
    let list = list.swappend(h("b", 3));
    assert_eq!(names(&list), vec!["a", "b"]);
    assert_eq!(list.list[1].func, 3);
    let list = list.swappend(h("c", 4));
    assert_eq!(names(&list), vec!["a", "b", "c"]);
    assert!(list.has("c"));
}

#[test]
fn remove_drops_every_handler_of_the_name() {
    let list = HandlerList::new().append(vec![h("a", 1), h("b", 2), h("a", 3)]);
    let list = list.remove("a");
    assert_eq!(names(&list), vec!["b"]);
    assert!(!list.has("a"));
    assert_eq!(list.len(), 1);
    let list = list.clear();
    assert_eq!(list.len(), 0);
}

#[test]
fn append_after_inserts_after_each_match_only() {
    let list = HandlerList::new().append(vec![h("a", 1), h("b", 2)]);
    let same = list.clone().append_after("zz", h("x", 9));
    assert_eq!(names(&same), vec!["a", "b"]);
    let list = list.append_after("a", h("x", 9));
    assert_eq!(names(&list), vec!["a", "x", "b"]);
    let list = list.prepend(vec![h("p", 0)]);
    assert_eq!(names(&list), vec!["p", "a", "x", "b"]);
}

#[test]
fn snapshot_load_skips_configuration_steps() {
    let fc_init: Vec<Handler<u32>> = default_fc_init_handler_names()
        .into_iter()
        .enumerate()
        .map(|(i, n)| h(n, i as u32))
        .collect();
    let handlers = Handlers {
        validation: HandlerList::new().append(vec![h("validate.NetworkCfg", 0), h("validate.Cfg", 1)]),
        fc_init: HandlerList::new().append(fc_init),
    };
    let adapted = adapt_handlers_for_snapshot(handlers, h("validate.LoadSnapshotCfg", 7), h(LOAD_SNAPSHOT_HANDLER_NAME, 8));
    assert_eq!(names(&adapted.validation), vec!["validate.NetworkCfg", "validate.LoadSnapshotCfg"]);
    assert_eq!(
        names(&adapted.fc_init),
        vec![
            "fcinit.SetupNetwork",
            "fcinit.StartVMM",
            CREATE_LOG_FILES_HANDLER_NAME,
            "fcinit.BootstrapLogging",
            "fcinit.AddVsocks",
            LOAD_SNAPSHOT_HANDLER_NAME,
        ]
    );
    assert!(!adapted.fc_init.has(ATTACH_DRIVES_HANDLER_NAME));
}

#[test]
fn machine_handlers_append_config_validation() {
    let defaults = Handlers {
        validation: HandlerList::new().append(vec![h("validate.NetworkCfg", 0)]),
        fc_init: HandlerList::new().append(vec![h("fcinit.StartVMM", 1)]),
    };
    let handlers = machine_handlers(defaults, h("validate.JailerCfg", 2), None);
    assert_eq!(names(&handlers.validation), vec!["validate.NetworkCfg", "validate.JailerCfg"]);
    assert_eq!(names(&handlers.fc_init), vec!["fcinit.StartVMM"]);
}

#[test]
fn new_machine_validates_network_then_config() {
    assert_eq!(default_validation_handler_names(), vec!["validate.NetworkCfg"]);
    let validation: Vec<Handler<u32>> =
        default_validation_handler_names().into_iter().map(|n| h(n, 0)).collect();
    let defaults = Handlers { validation: HandlerList::new().append(validation), fc_init: HandlerList::new() };
    let handlers = machine_handlers(defaults, h("validate.Cfg", 1), None);
    assert_eq!(names(&handlers.validation), vec!["validate.NetworkCfg", "validate.Cfg"]);
}
