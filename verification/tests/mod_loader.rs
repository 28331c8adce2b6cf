use bevy::app::{App, Plugin};
use libloading::Library;
use rdyn_plugins::{
    candidate_paths, integrate_loaded, load_mod, load_mods, load_rdyn_plugin, ModEntry,
    ModLoaderData, ModScan, RustDynPlugin, ScanAction,
};
use std::cell::{Cell, RefCell};
use std::ops::Deref;

const SOME_IMAGE: &str = "libc.so.6";

fn file(path: &str) -> ModEntry {
    ModEntry::File { path: Some(String::from(path)) }
}

/// Stands for the loading of a module: paths that hold `valid` load and give
/// their own path as the object, all others fail.
fn load_named(path: &str) -> Option<RustDynPlugin<String>> {
    if path.contains("valid") {
        load_rdyn_plugin(SOME_IMAGE, |_: &Library, _: &[u8]| Some(String::from(path)))
    } else {
        None
    }
}

fn names(data: &ModLoaderData<String>) -> Vec<String> {
    data.iter().map(|handle| handle.deref().clone()).collect()
}

struct Order(Vec<&'static str>);

struct First;

struct Second;

impl Plugin for First {
    fn build(&self, app: &mut App) {
        app.insert_resource(Order(vec!["first"]));
    }
}

impl Plugin for Second {
    fn build(&self, app: &mut App) {
        let mut order = app.world.resource_mut::<Order>();
        order.0.push("second");
    }
}

#[test]
fn candidates_are_the_regular_files_with_a_text_path() {
    let listing = Some(vec![
        file("mods/a.so"),
        ModEntry::NotAFile,
        ModEntry::File { path: None },
        ModEntry::Unreadable,
        file("mods/b.dll"),
        file("mods/readme.txt"),
    ]);
    assert_eq!(candidate_paths(&listing), vec!["mods/a.so", "mods/b.dll", "mods/readme.txt"]);
}

#[test]
fn candidates_keep_the_order_of_the_listing() {
    let listing = Some(vec![file("z"), file("a"), file("m")]);
    assert_eq!(candidate_paths(&listing), vec!["z", "a", "m"]);
}

#[test]
fn unlisted_or_empty_directory_has_no_candidates() {
    assert!(candidate_paths(&None).is_empty());
    assert!(candidate_paths(&Some(Vec::new())).is_empty());
    assert!(candidate_paths(&Some(vec![ModEntry::NotAFile, ModEntry::Unreadable])).is_empty());
}

#[test]
fn registry_starts_empty() {
    let data: ModLoaderData<u8> = ModLoaderData::default();
    assert_eq!(data.len(), 0);
    assert!(data.deref().is_empty());
}

#[test]
fn scan_of_a_missing_directory_gives_an_empty_registry() {
    let calls = Cell::new(0u32);
    let data: ModLoaderData<String> = load_mods(&None, |path: &str| {
        calls.set(calls.get() + 1);
        load_named(path)
    });
    assert_eq!(data.len(), 0);
    assert_eq!(calls.get(), 0);

    let mut scan: ModScan<String> = ModScan::new(&None);
    assert!(matches!(scan.next_action(), ScanAction::Finish));
    assert_eq!(scan.finish().len(), 0);
}

#[test]
fn scan_keeps_the_valid_modules_in_order() {
    let listing = Some(vec![
        file("mods/valid_a.so"),
        file("mods/valid_b.so"),
        file("mods/corrupt.so"),
        file("mods/readme.txt"),
    ]);
    let data = load_mods(&listing, load_named);
    assert_eq!(data.len(), 2);
    assert_eq!(names(&data), vec!["mods/valid_a.so", "mods/valid_b.so"]);
}

#[test]
fn failures_do_not_stop_the_scan() {
    let listing = Some(vec![
        file("corrupt_1"),
        ModEntry::NotAFile,
        file("valid_1"),
        file("corrupt_2"),
        ModEntry::Unreadable,
        file("corrupt_3"),
        file("valid_2"),
        ModEntry::File { path: None },
        file("valid_3"),
        file("corrupt_4"),
    ]);
    let tried = RefCell::new(Vec::new());
    let data = load_mods(&listing, |path: &str| {
        tried.borrow_mut().push(String::from(path));
        load_named(path)
    });
    assert_eq!(names(&data), vec!["valid_1", "valid_2", "valid_3"]);
    assert_eq!(
        *tried.borrow(),
        vec!["corrupt_1", "valid_1", "corrupt_2", "corrupt_3", "valid_2", "valid_3", "corrupt_4"]
    );
}

#[test]
fn scan_where_everything_fails_gives_an_empty_registry() {
    let listing = Some(vec![file("corrupt.so"), file("readme.txt")]);
    let data = load_mods(&listing, load_named);
    assert_eq!(data.len(), 0);
}

#[test]
fn scan_gives_out_one_candidate_at_a_time() {
    let listing = Some(vec![file("valid_a"), ModEntry::NotAFile, file("corrupt"), file("valid_b")]);
    let mut scan: ModScan<String> = ModScan::new(&listing);

    match scan.next_action() {
        ScanAction::Load(path) => assert_eq!(path, "valid_a"),
        ScanAction::Finish => panic!("a candidate is left"),
    }
    // Asking again before reporting gives the same candidate.
    match scan.next_action() {
        ScanAction::Load(path) => assert_eq!(path, "valid_a"),
        ScanAction::Finish => panic!("a candidate is left"),
    }
    scan.record(load_named("valid_a"));
    // A second report for the same candidate is ignored.
    scan.record(load_named("valid_x"));

    match scan.next_action() {
        ScanAction::Load(path) => assert_eq!(path, "corrupt"),
        ScanAction::Finish => panic!("a candidate is left"),
    }
    scan.record(None);

    match scan.next_action() {
        ScanAction::Load(path) => assert_eq!(path, "valid_b"),
        ScanAction::Finish => panic!("a candidate is left"),
    }
    scan.record(load_named("valid_b"));

    assert!(matches!(scan.next_action(), ScanAction::Finish));
    scan.record(load_named("valid_late"));
    assert!(matches!(scan.next_action(), ScanAction::Finish));
    assert_eq!(names(&scan.finish()), vec!["valid_a", "valid_b"]);
}

#[test]
fn scan_that_is_ended_early_keeps_what_was_loaded() {
    let listing = Some(vec![file("valid_a"), file("valid_b")]);
    let mut scan: ModScan<String> = ModScan::new(&listing);
    assert!(matches!(scan.next_action(), ScanAction::Load(_)));
    scan.record(load_named("valid_a"));
    assert_eq!(names(&scan.finish()), vec!["valid_a"]);
}

#[test]
fn unrequested_report_is_ignored() {
    let listing = Some(vec![file("valid_a")]);
    let mut scan: ModScan<String> = ModScan::new(&listing);
    scan.record(load_named("valid_early"));
    match scan.next_action() {
        ScanAction::Load(path) => assert_eq!(path, "valid_a"),
        ScanAction::Finish => panic!("a candidate is left"),
    }
    scan.record(load_named("valid_a"));
    assert_eq!(names(&scan.finish()), vec!["valid_a"]);
}

#[test]
fn load_mod_integrates_what_loaded() {
    let seen = RefCell::new(Vec::new());
    let loaded = load_mod(
        SOME_IMAGE,
        |_: &Library, _: &[u8]| Some(String::from("object")),
        |plugin: &String| seen.borrow_mut().push(plugin.clone()),
    );
    assert_eq!(loaded.expect("the module loaded").deref(), "object");
    assert_eq!(*seen.borrow(), vec!["object"]);
}

#[test]
fn load_mod_does_not_integrate_what_failed() {
    let integrated = Cell::new(0u32);
    let missing: Option<RustDynPlugin<u8>> = load_mod(
        "/no/such/directory/module.so",
        |_: &Library, _: &[u8]| Some(1u8),
        |_: &u8| integrated.set(integrated.get() + 1),
    );
    assert!(missing.is_none());
    let without_symbol: Option<RustDynPlugin<u8>> = load_mod(
        SOME_IMAGE,
        |_: &Library, _: &[u8]| None,
        |_: &u8| integrated.set(integrated.get() + 1),
    );
    assert!(without_symbol.is_none());
    assert_eq!(integrated.get(), 0);
}

#[test]
fn integrate_loaded_returns_the_handle_it_was_given() {
    let count = Cell::new(0u32);
    let loaded = load_rdyn_plugin(SOME_IMAGE, |_: &Library, _: &[u8]| Some(4u8));
    let result = integrate_loaded(loaded, |plugin: &u8| count.set(count.get() + u32::from(*plugin)));
    assert_eq!(*result.expect("the handle comes back").deref(), 4);
    assert_eq!(count.get(), 4);
    let nothing: Option<RustDynPlugin<u8>> =
        integrate_loaded(None, |_: &u8| count.set(count.get() + 100));
    assert!(nothing.is_none());
    assert_eq!(count.get(), 4);
}

#[test]
fn earlier_module_is_integrated_before_the_next_is_loaded() {
    let events = RefCell::new(Vec::new());
    let listing = Some(vec![file("valid_a"), file("corrupt"), file("valid_b")]);
    let data = load_mods(&listing, |path: &str| {
        events.borrow_mut().push(format!("load {}", path));
        load_mod(
            if path.contains("valid") { SOME_IMAGE } else { "/no/such/directory/module.so" },
            |_: &Library, _: &[u8]| Some(String::from(path)),
            |plugin: &String| events.borrow_mut().push(format!("integrate {}", plugin)),
        )
    });
    assert_eq!(
        *events.borrow(),
        vec!["load valid_a", "integrate valid_a", "load corrupt", "load valid_b", "integrate valid_b"]
    );
    assert_eq!(names(&data), vec!["valid_a", "valid_b"]);
}

#[test]
fn later_plugin_sees_what_the_earlier_one_registered() {
    let mut app = App::empty();
    let listing = Some(vec![file("first"), file("second")]);
    let data = load_mods(&listing, |path: &str| {
        load_mod(
            SOME_IMAGE,
            |_: &Library, _: &[u8]| {
                let object: Box<dyn Plugin> =
                    if path == "first" { Box::new(First) } else { Box::new(Second) };
                Some(object)
            },
            |plugin: &Box<dyn Plugin>| plugin.build(&mut app),
        )
    });
    assert_eq!(data.len(), 2);
    assert_eq!(app.world.resource::<Order>().0, vec!["first", "second"]);
    app.insert_resource(data);
    assert_eq!(app.world.resource::<ModLoaderData<Box<dyn Plugin>>>().len(), 2);
}
