use playwright_core::channel_owner::DisposeReason;
use playwright_core::error::Error;
use playwright_core::registry::{Adoption, Creation, Registry, RemoteObject};
use serde_json::Value;

fn json(text: &str) -> Value {
    serde_json::from_str(text).unwrap()
}

fn browser_payload() -> Value {
    json(r#"{"version":"131.0","name":"chromium"}"#)
}

fn create(registry: &mut Registry, parent: &str, tag: &str, guid: &str) -> Result<Creation, Error> {
    let payload = if tag == "Browser" { browser_payload() } else { json("{}") };
    registry.create(parent, tag.to_string(), guid.to_string(), payload)
}

/// playwright > (bt@1 > (br@1 > (ctx@1 > page@1), br@2), bt@2)
fn grown() -> Registry {
    let mut registry = Registry::new();
    assert_eq!(create(&mut registry, "", "Playwright", "playwright"), Ok(Creation::Inserted));
    assert_eq!(create(&mut registry, "playwright", "BrowserType", "bt@1"), Ok(Creation::Inserted));
    assert_eq!(create(&mut registry, "playwright", "BrowserType", "bt@2"), Ok(Creation::Inserted));
    assert_eq!(create(&mut registry, "bt@1", "Browser", "br@1"), Ok(Creation::Inserted));
    assert_eq!(create(&mut registry, "br@1", "BrowserContext", "ctx@1"), Ok(Creation::Inserted));
    assert_eq!(create(&mut registry, "ctx@1", "Page", "page@1"), Ok(Creation::Inserted));
    assert_eq!(create(&mut registry, "bt@1", "Browser", "br@2"), Ok(Creation::Inserted));
    registry
}

fn present(registry: &Registry) -> Vec<&'static str> {
    ["", "playwright", "bt@1", "bt@2", "br@1", "br@2", "ctx@1", "page@1"]
        .into_iter()
        .filter(|guid| registry.contains(guid))
        .collect()
}

#[test]
fn a_new_registry_holds_the_root() {
    let registry = Registry::new();
    assert!(registry.contains(""));
    assert!(!registry.contains("bt@1"));
    assert_eq!(registry.parent_of(""), None);
    assert_eq!(registry.children_of(""), Vec::<String>::new());
    match registry.get("") {
        Some(RemoteObject::Generic(root)) => {
            assert_eq!(root.guid(), "");
            assert_eq!(root.type_tag(), "Root");
            assert_eq!(root.parent(), None);
            assert_eq!(root.initializer(), &json("{}"));
            assert_eq!(root.channel().guid(), "");
        }
        other => panic!("no root: {:?}", other),
    }
}

#[test]
fn browser_created_under_browser_type_and_disposed_with_it() {
    let mut registry = Registry::new();
    let made = registry.create("", "BrowserType".to_string(), "bt@1".to_string(), json("{}"));
    assert_eq!(made, Ok(Creation::Inserted));
    let made =
        registry.create("bt@1", "Browser".to_string(), "br@1".to_string(), browser_payload());
    assert_eq!(made, Ok(Creation::Inserted));
    assert!(registry.contains("br@1"));
    assert_eq!(registry.parent_of("br@1"), Some("bt@1"));
    assert_eq!(registry.children_of("bt@1"), vec!["br@1".to_string()]);
    assert!(registry.dispose("bt@1", DisposeReason::Closed));
    assert!(!registry.contains("bt@1"));
    assert!(!registry.contains("br@1"));
    assert!(registry.contains(""));
    assert!(registry.get("br@1").is_none());
    assert_eq!(registry.children_of(""), Vec::<String>::new());
}

#[test]
fn a_created_browser_knows_its_version_and_name() {
    let registry = grown();
    match registry.get("br@1") {
        Some(RemoteObject::Browser(browser)) => {
            assert_eq!(browser.guid(), "br@1");
            assert_eq!(browser.type_tag(), "Browser");
            assert_eq!(browser.parent(), Some("bt@1"));
            assert_eq!(browser.version(), "131.0");
            assert_eq!(browser.name(), "chromium");
            assert_eq!(browser.initializer(), &browser_payload());
        }
        other => panic!("no browser: {:?}", other),
    }
    match registry.get("ctx@1") {
        Some(object @ RemoteObject::Generic(_)) => {
            assert_eq!(object.base().guid(), "ctx@1");
            assert_eq!(object.base().type_tag(), "BrowserContext");
            assert_eq!(object.base().parent(), Some("br@1"));
        }
        other => panic!("no context: {:?}", other),
    }
}

#[test]
fn children_are_listed_oldest_first() {
    let registry = grown();
    assert_eq!(registry.children_of(""), vec!["playwright".to_string()]);
    assert_eq!(
        registry.children_of("playwright"),
        vec!["bt@1".to_string(), "bt@2".to_string()]
    );
    assert_eq!(registry.children_of("bt@1"), vec!["br@1".to_string(), "br@2".to_string()]);
    assert_eq!(registry.children_of("page@1"), Vec::<String>::new());
    assert_eq!(registry.children_of("nothing"), Vec::<String>::new());
    assert_eq!(registry.parent_of("page@1"), Some("ctx@1"));
    assert_eq!(registry.parent_of("nothing"), None);
}

#[test]
fn a_type_that_is_not_modelled_is_ignored() {
    let mut registry = grown();
    assert_eq!(create(&mut registry, "playwright", "Tracing", "tracing@1"), Ok(Creation::Ignored));
    assert!(!registry.contains("tracing@1"));
    assert_eq!(create(&mut registry, "gone", "Tracing", "tracing@1"), Ok(Creation::Ignored));
    assert_eq!(create(&mut registry, "", "Root", "root@2"), Ok(Creation::Ignored));
    assert_eq!(create(&mut registry, "", "browser", "br@9"), Ok(Creation::Ignored));
    assert_eq!(present(&registry).len(), 8);
}

#[test]
fn every_modelled_type_is_created() {
    let mut registry = Registry::new();
    for (i, tag) in ["Playwright", "BrowserType", "Browser", "BrowserContext", "Page", "Frame"]
        .into_iter()
        .enumerate()
    {
        let guid = format!("object@{}", i);
        assert_eq!(create(&mut registry, "", tag, &guid), Ok(Creation::Inserted));
        assert!(registry.contains(&guid));
        assert_eq!(registry.get(&guid).unwrap().base().type_tag(), tag);
    }
}

#[test]
fn a_creation_under_a_parent_that_is_not_present_is_refused() {
    let mut registry = grown();
    assert_eq!(
        create(&mut registry, "bt@7", "Browser", "br@7"),
        Err(Error::ProtocolError("Parent object not found: bt@7".to_string()))
    );
    assert!(!registry.contains("br@7"));
    assert!(registry.dispose("bt@2", DisposeReason::Closed));
    assert_eq!(
        create(&mut registry, "bt@2", "Browser", "br@7"),
        Err(Error::ProtocolError("Parent object not found: bt@2".to_string()))
    );
    assert!(!registry.contains("br@7"));
}

#[test]
fn a_guid_is_given_once() {
    let mut registry = grown();
    assert_eq!(
        create(&mut registry, "playwright", "Page", "br@1"),
        Err(Error::ProtocolError("Duplicate guid: br@1".to_string()))
    );
    assert_eq!(registry.parent_of("br@1"), Some("bt@1"));
    assert_eq!(
        create(&mut registry, "playwright", "Page", ""),
        Err(Error::ProtocolError("Duplicate guid: ".to_string()))
    );
    assert!(registry.dispose("br@1", DisposeReason::Closed));
    assert_eq!(
        create(&mut registry, "bt@1", "Browser", "br@1"),
        Err(Error::ProtocolError("Duplicate guid: br@1".to_string()))
    );
    assert!(!registry.contains("br@1"));
}

#[test]
fn a_browser_needs_version_and_name() {
    let mut registry = grown();
    let made = registry.create(
        "bt@1",
        "Browser".to_string(),
        "br@3".to_string(),
        json(r#"{"name":"firefox"}"#),
    );
    assert_eq!(
        made,
        Err(Error::ProtocolError("Browser initializer missing 'version' field".to_string()))
    );
    let made = registry.create(
        "bt@1",
        "Browser".to_string(),
        "br@3".to_string(),
        json(r#"{"version":"1.0","name":7}"#),
    );
    assert_eq!(
        made,
        Err(Error::ProtocolError("Browser initializer missing 'name' field".to_string()))
    );
    let made =
        registry.create("bt@1", "Browser".to_string(), "br@3".to_string(), json("[1, 2]"));
    assert_eq!(
        made,
        Err(Error::ProtocolError("Browser initializer missing 'version' field".to_string()))
    );
    assert!(!registry.contains("br@3"));
    let made = registry.create(
        "bt@1",
        "Browser".to_string(),
        "br@3".to_string(),
        json(r#"{"version":"1.0","name":"webkit","more":true}"#),
    );
    assert_eq!(made, Ok(Creation::Inserted));
}

#[test]
fn disposal_takes_the_subtree_and_nothing_else() {
    let mut registry = grown();
    assert!(registry.dispose("br@1", DisposeReason::Closed));
    assert_eq!(present(&registry), vec!["", "playwright", "bt@1", "bt@2", "br@2"]);
    assert_eq!(registry.children_of("bt@1"), vec!["br@2".to_string()]);
    assert_eq!(registry.parent_of("ctx@1"), None);
    assert_eq!(registry.children_of("br@1"), Vec::<String>::new());
}

#[test]
fn disposing_again_changes_nothing() {
    let mut registry = grown();
    assert!(registry.dispose("br@1", DisposeReason::GarbageCollected));
    assert!(!registry.dispose("br@1", DisposeReason::Closed));
    assert!(!registry.dispose("page@1", DisposeReason::Closed));
    assert!(!registry.dispose("never", DisposeReason::Closed));
    assert_eq!(registry.disposal_of("br@1"), Some(DisposeReason::GarbageCollected));
    assert_eq!(registry.disposal_of("page@1"), Some(DisposeReason::GarbageCollected));
    assert_eq!(registry.disposal_of("br@2"), None);
    assert_eq!(registry.disposal_of("never"), None);
    assert_eq!(present(&registry), vec!["", "playwright", "bt@1", "bt@2", "br@2"]);
}

#[test]
fn the_order_of_two_disposals_does_not_matter() {
    for (a, b) in [("br@1", "page@1"), ("bt@1", "bt@2"), ("ctx@1", "br@2"), ("bt@1", "bt@1")] {
        let mut one = grown();
        one.dispose(a, DisposeReason::Closed);
        one.dispose(b, DisposeReason::Closed);
        let mut other = grown();
        other.dispose(b, DisposeReason::Closed);
        other.dispose(a, DisposeReason::Closed);
        assert_eq!(present(&one), present(&other));
        for guid in ["", "playwright", "bt@1", "bt@2", "br@1", "br@2", "ctx@1", "page@1"] {
            assert_eq!(one.disposal_of(guid), other.disposal_of(guid));
        }
    }
}

#[test]
fn the_first_disposal_gives_the_reason() {
    let mut registry = grown();
    assert!(registry.dispose("page@1", DisposeReason::GarbageCollected));
    assert!(registry.dispose("br@1", DisposeReason::Closed));
    assert_eq!(registry.disposal_of("page@1"), Some(DisposeReason::GarbageCollected));
    assert_eq!(registry.disposal_of("ctx@1"), Some(DisposeReason::Closed));
    assert_eq!(registry.disposal_of("br@1"), Some(DisposeReason::Closed));
}

#[test]
fn disposing_the_root_takes_everything() {
    let mut registry = grown();
    assert!(registry.dispose("", DisposeReason::Closed));
    assert_eq!(present(&registry), Vec::<&str>::new());
}

#[test]
fn teardown_disposes_every_object() {
    let mut registry = grown();
    assert!(registry.dispose("page@1", DisposeReason::GarbageCollected));
    registry.teardown();
    assert_eq!(present(&registry), Vec::<&str>::new());
    assert_eq!(registry.disposal_of(""), Some(DisposeReason::Closed));
    assert_eq!(registry.disposal_of("br@2"), Some(DisposeReason::Closed));
    assert_eq!(registry.disposal_of("page@1"), Some(DisposeReason::GarbageCollected));
    assert_eq!(
        create(&mut registry, "", "Playwright", "again"),
        Err(Error::ProtocolError("Parent object not found: ".to_string()))
    );
}

#[test]
fn adoption_moves_the_subtree() {
    let mut registry = grown();
    assert_eq!(registry.adopt("br@2", "ctx@1"), Ok(Adoption::Adopted));
    assert_eq!(registry.parent_of("ctx@1"), Some("br@2"));
    assert_eq!(registry.parent_of("page@1"), Some("ctx@1"));
    assert_eq!(registry.children_of("br@1"), Vec::<String>::new());
    assert_eq!(registry.children_of("br@2"), vec!["ctx@1".to_string()]);
    assert_eq!(registry.get("ctx@1").unwrap().base().parent(), Some("br@2"));
    assert!(registry.dispose("br@1", DisposeReason::Closed));
    assert!(registry.contains("ctx@1"));
    assert!(registry.contains("page@1"));
    assert!(registry.dispose("br@2", DisposeReason::Closed));
    assert!(!registry.contains("ctx@1"));
    assert!(!registry.contains("page@1"));
}

#[test]
fn adoption_by_a_later_object_keeps_the_tree_sound() {
    let mut registry = grown();
    assert_eq!(create(&mut registry, "bt@2", "Browser", "br@3"), Ok(Creation::Inserted));
    assert_eq!(registry.adopt("br@3", "br@1"), Ok(Adoption::Adopted));
    assert_eq!(registry.parent_of("br@1"), Some("br@3"));
    assert_eq!(registry.adopt("bt@2", "br@3"), Ok(Adoption::Adopted));
    assert!(registry.dispose("bt@2", DisposeReason::Closed));
    assert_eq!(present(&registry), vec!["", "playwright", "bt@1", "br@2"]);
    assert!(!registry.contains("br@3"));
}

#[test]
fn adoption_of_a_browser_keeps_what_it_holds() {
    let mut registry = grown();
    assert_eq!(registry.adopt("bt@2", "br@1"), Ok(Adoption::Adopted));
    match registry.get("br@1") {
        Some(RemoteObject::Browser(browser)) => {
            assert_eq!(browser.parent(), Some("bt@2"));
            assert_eq!(browser.version(), "131.0");
            assert_eq!(browser.name(), "chromium");
        }
        other => panic!("no browser: {:?}", other),
    }
}

#[test]
fn adoption_into_a_disposed_parent_disposes_the_child() {
    let mut registry = grown();
    assert!(registry.dispose("bt@2", DisposeReason::Closed));
    assert_eq!(registry.adopt("bt@2", "ctx@1"), Ok(Adoption::Orphaned));
    assert!(!registry.contains("ctx@1"));
    assert!(!registry.contains("page@1"));
    assert!(registry.contains("br@1"));
    assert_eq!(registry.disposal_of("ctx@1"), Some(DisposeReason::Closed));
    assert_eq!(registry.adopt("never", "br@2"), Ok(Adoption::Orphaned));
    assert!(!registry.contains("br@2"));
}

#[test]
fn adoption_of_an_object_that_is_not_present_is_dropped() {
    let mut registry = grown();
    assert_eq!(registry.adopt("bt@2", "never"), Ok(Adoption::Dropped));
    assert!(registry.dispose("ctx@1", DisposeReason::Closed));
    assert_eq!(registry.adopt("bt@2", "ctx@1"), Ok(Adoption::Dropped));
    assert_eq!(registry.adopt("gone", "page@1"), Ok(Adoption::Dropped));
    assert_eq!(present(&registry), vec!["", "playwright", "bt@1", "bt@2", "br@1", "br@2"]);
}

#[test]
fn adoption_that_would_close_a_circle_is_refused() {
    let mut registry = grown();
    assert_eq!(
        registry.adopt("page@1", "br@1"),
        Err(Error::ProtocolError("Adoption would close a circle: br@1".to_string()))
    );
    assert_eq!(
        registry.adopt("br@1", "br@1"),
        Err(Error::ProtocolError("Adoption would close a circle: br@1".to_string()))
    );
    assert_eq!(registry.parent_of("br@1"), Some("bt@1"));
    assert_eq!(present(&registry).len(), 8);
}
