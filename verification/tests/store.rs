use snippets::templates::{
    Document, ITemaplteRepository, JSONTemplateRepository, StoreError, Template,
};

fn t(name: &str, description: Option<&str>, body: &str) -> Template {
    Template::new(name.to_string(), description.map(|d| d.to_string()), body.to_string())
}

fn names(store: &JSONTemplateRepository) -> Vec<String> {
    store.list().iter().map(|t| t.name().to_string()).collect()
}

#[test]
fn extension_is_text_after_last_dot() {
    assert_eq!(t("snippet.rs", None, "").extension(), Some("rs"));
    assert_eq!(t("README", None, "").extension(), None);
    assert_eq!(t("archive.tar.gz", None, "").extension(), Some("gz"));
    assert_eq!(t("trailing.", None, "").extension(), Some(""));
    assert_eq!(t(".bashrc", None, "").extension(), Some("bashrc"));
    assert_eq!(t("", None, "").extension(), None);
    assert_eq!(t("caf\u{e9}.\u{e9}t\u{e9}", None, "").extension(), Some("\u{e9}t\u{e9}"));
}

#[test]
fn new_keeps_its_arguments_and_has_no_cache() {
    let x = t("a.py", Some("prints"), "print(1)");
    assert_eq!(x.name(), "a.py");
    assert_eq!(x.description(), Some("prints"));
    assert_eq!(x.body(), "print(1)");
    assert!(x.highlighted_template().is_none());
}

#[test]
fn default_store_is_empty() {
    let store = JSONTemplateRepository::default();
    assert!(store.list().is_empty());
    assert!(store.get("a.py").is_none());
    assert!(store.search("").is_empty());
}

#[test]
fn put_appends_new_names_in_order() {
    let mut store = JSONTemplateRepository::default();
    assert!(store.put(t("a.rs", None, "1")).is_ok());
    assert!(store.put(t("b.rs", None, "2")).is_ok());
    assert!(store.put(t("c.rs", None, "3")).is_ok());
    assert_eq!(names(&store), vec!["a.rs", "b.rs", "c.rs"]);
}

#[test]
fn put_replaces_in_place() {
    let mut store = JSONTemplateRepository::default();
    store.put(t("A", None, "a")).unwrap();
    store.put(t("B", None, "b")).unwrap();
    store.put(t("C", None, "c")).unwrap();
    store.put(t("B", Some("second"), "b2")).unwrap();
    assert_eq!(names(&store), vec!["A", "B", "C"]);
    assert_eq!(store.list()[0].body(), "a");
    assert_eq!(store.list()[1].body(), "b2");
    assert_eq!(store.list()[1].description(), Some("second"));
    assert_eq!(store.list()[2].body(), "c");
}

#[test]
fn names_stay_unique_after_many_puts() {
    let mut store = JSONTemplateRepository::default();
    for name in ["x", "y", "x", "z", "y", "x", "X"] {
        store.put(t(name, None, name)).unwrap();
    }
    assert_eq!(names(&store), vec!["x", "y", "z", "X"]);
}

#[test]
fn get_matches_the_whole_name_only() {
    let mut store = JSONTemplateRepository::default();
    store.put(t("main.rs", None, "fn main() {}")).unwrap();
    store.put(t("main.py", None, "pass")).unwrap();
    assert_eq!(store.get("main.py").unwrap().body(), "pass");
    assert_eq!(store.get("main.rs").unwrap().body(), "fn main() {}");
    assert!(store.get("main").is_none());
    assert!(store.get("main.r").is_none());
    assert!(store.get("MAIN.RS").is_none());
    assert!(store.get("").is_none());
}

#[test]
fn search_looks_at_name_description_and_body() {
    let mut store = JSONTemplateRepository::default();
    store.put(t("foo.rs", None, "x")).unwrap();
    store.put(t("a.txt", Some("about foo"), "y")).unwrap();
    store.put(t("b.txt", Some("other"), "has foo inside")).unwrap();
    store.put(t("c.txt", Some("other"), "nothing")).unwrap();
    store.put(t("d.txt", None, "Foo fo o")).unwrap();
    let found: Vec<&str> = store.search("foo").iter().map(|t| t.name()).collect();
    assert_eq!(found, vec!["foo.rs", "a.txt", "b.txt"]);
    assert!(store.search("absent").is_empty());
}

#[test]
fn search_for_empty_query_returns_everything() {
    let mut store = JSONTemplateRepository::default();
    store.put(t("a", None, "")).unwrap();
    store.put(t("b", Some(""), "text")).unwrap();
    let found: Vec<&str> = store.search("").iter().map(|t| t.name()).collect();
    assert_eq!(found, vec!["a", "b"]);
}

#[test]
fn contains_is_case_sensitive() {
    let x = t("Name.rs", Some("Desc"), "Body");
    assert!(x.contains("Name"));
    assert!(x.contains("esc"));
    assert!(x.contains("ody"));
    assert!(!x.contains("name"));
    assert!(!x.contains("Name.rsx"));
}

#[test]
fn load_of_missing_document_is_empty_store() {
    let store = JSONTemplateRepository::load(Document::Missing).unwrap();
    assert!(store.list().is_empty());
}

#[test]
fn load_of_malformed_document_is_corrupt() {
    assert!(matches!(
        JSONTemplateRepository::load(Document::Malformed),
        Err(StoreError::CorruptStore)
    ));
}

#[test]
fn load_keeps_records_in_order() {
    let records = vec![t("b", None, "2"), t("a", None, "1")];
    let store = JSONTemplateRepository::load(Document::Records(records)).unwrap();
    assert_eq!(names(&store), vec!["b", "a"]);
}

#[test]
fn load_rejects_a_name_that_occurs_twice() {
    let records = vec![t("a", None, "1"), t("b", None, "2"), t("a", None, "3")];
    assert!(matches!(
        JSONTemplateRepository::load(Document::Records(records)),
        Err(StoreError::CorruptStore)
    ));
}

fn record(t: &Template) -> serde_json::Value {
    let text = |s: Option<&str>| match s {
        Some(s) => serde_json::Value::String(s.to_string()),
        None => serde_json::Value::Null,
    };
    let mut fields = serde_json::Map::new();
    fields.insert("name".to_string(), text(Some(t.name())));
    fields.insert("ext".to_string(), text(t.extension()));
    fields.insert("description".to_string(), text(t.description()));
    fields.insert("template".to_string(), text(Some(t.body())));
    serde_json::Value::Object(fields)
}

fn read(document: &str) -> Document {
    let value: serde_json::Value = match serde_json::from_str(document) {
        Ok(v) => v,
        Err(_) => return Document::Malformed,
    };
    let items = match value.as_array() {
        Some(items) => items,
        None => return Document::Malformed,
    };
    let mut records = Vec::new();
    for item in items {
        let name = item.get("name").and_then(|v| v.as_str());
        let body = item.get("template").and_then(|v| v.as_str());
        let description = item.get("description").and_then(|v| v.as_str());
        match (name, body) {
            (Some(name), Some(body)) => records.push(t(name, description, body)),
            _ => return Document::Malformed,
        }
    }
    Document::Records(records)
}

#[test]
fn put_save_load_get_round_trip() {
    let mut store = JSONTemplateRepository::default();
    store.put(t("a.py", None, "print(1)")).unwrap();
    let document =
        serde_json::Value::Array(store.list().iter().map(record).collect()).to_string();
    let loaded = JSONTemplateRepository::load(read(&document)).unwrap();
    let found = loaded.get("a.py").unwrap();
    assert_eq!(found.body(), "print(1)");
    assert_eq!(found.description(), None);
    assert_eq!(found.extension(), Some("py"));
    assert!(found.highlighted_template().is_none());
}

#[test]
fn malformed_text_loads_as_corrupt() {
    assert!(matches!(
        JSONTemplateRepository::load(read("{ not json")),
        Err(StoreError::CorruptStore)
    ));
    assert!(matches!(
        JSONTemplateRepository::load(read("[{\"name\": 1}]")),
        Err(StoreError::CorruptStore)
    ));
}
