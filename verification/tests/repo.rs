use server_side::data::plugin::PluginData;
use server_side::data::version::Version;
use server_side::repo::auth::{authorize, AuthError, PluginPublishingAuthToken};
use server_side::repo::entities::{plan_plugin_change, plugin_label, Category, Plugin, PluginChange, PluginVersion};
use server_side::repo::jar::{jar_resources, plugin_data_json, JarError};
use server_side::repo::metadata::Metadata;
use server_side::repo::publish::{publish_plan, DbOp};
use server_side::repo::resource::{get_plugin_folder_path, PluginResource, PluginResourceType, ResourceTypeError};
use server_side::repo::search::{plugin_data_path, search_query, terms, BASE_QUERY};
use std::io::{Cursor, Write};

fn v(s: &str) -> Version {
    Version::parse(s).unwrap()
}

fn data(tags: Option<Vec<&str>>, cats: Option<Vec<&str>>) -> PluginData {
    PluginData {
        name: "Table Drawing".to_string(),
        id: "floor-plan".to_string(),
        description: "Draw tables".to_string(),
        version: v("3.0.0"),
        vendor: "Leba Studios".to_string(),
        vendor_url: "https://lebastudios.org".to_string(),
        tags: tags.map(|l| l.into_iter().map(|s| s.to_string()).collect()),
        categories: cats.map(|l| l.into_iter().map(|s| s.to_string()).collect()),
        dependencies: vec![],
    }
}

#[test]
fn resource_names_roundtrip() {
    for t in [PluginResourceType::Jar, PluginResourceType::Icon, PluginResourceType::Data] {
        assert_eq!(PluginResourceType::from_name(&t.to_string()), Ok(t));
    }
    assert_eq!(PluginResourceType::Icon.to_string(), "icon");
    assert_eq!(PluginResourceType::from_name("Jar"), Err(ResourceTypeError::InvalidResource));
    let t: Result<PluginResourceType, _> = "data".try_into();
    assert_eq!(t, Ok(PluginResourceType::Data));
}

#[test]
fn resource_paths() {
    assert_eq!(get_plugin_folder_path("/srv/repo", "floor-plan", "3.0.0"), "/srv/repo/floor-plan/3.0.0");
    let mut r = PluginResource::new("floor-plan", &v("3.0.0"), &PluginResourceType::Data);
    assert_eq!(r.plugin_id(), "floor-plan");
    assert_eq!(r.version(), "3.0.0");
    assert_eq!(r.resource(), "data");
    assert_eq!(r.get_path("/srv/repo"), "/srv/repo/floor-plan/3.0.0/data");
    r.set_version("4.1.0".to_string());
    assert_eq!(r.get_path("repo"), "repo/floor-plan/4.1.0/data");
}

#[test]
fn metadata_add_version_tracks_latest() {
    let mut m = Metadata::default("floor-plan");
    assert_eq!(m.plugin_id(), "floor-plan");
    assert_eq!(*m.versioning().last(), v("0.0.0"));
    assert!(m.versioning().versions().is_empty());
    assert_eq!(*m.last_updated(), 0);
    m.add_version_at(v("1.2.0"), 100);
    m.add_version_at(v("1.1.0"), 200);
    assert_eq!(*m.versioning().last(), v("1.2.0"));
    assert_eq!(m.versioning().versions(), &vec![v("1.2.0"), v("1.1.0")]);
    assert_eq!(*m.last_updated(), 200);
    assert!(m.add_version(v("2.0.0")).is_ok());
    assert_eq!(*m.versioning().last(), v("2.0.0"));
    assert_eq!(m.versioning().versions().len(), 3);
    assert!(*m.last_updated() > 200);
}

#[test]
fn search_terms_are_deduplicated_trimmed_and_ordered() {
    assert_eq!(terms("b, a,,b ,c"), vec!["b".to_string(), "a".to_string(), "c".to_string()]);
    assert_eq!(terms(""), Vec::<String>::new());
    assert_eq!(terms(" "), vec![String::new()]);
}

#[test]
fn search_query_without_filters() {
    let q = search_query(None, None, None);
    assert_eq!(q.sql, BASE_QUERY);
    assert_eq!(q.params, vec!["%%".to_string(), "%%".to_string()]);
}

#[test]
fn search_query_with_filters() {
    let q = search_query(Some("draw"), Some("tables, ui,tables"), Some("tools"));
    let expected = format!(
        "{} or (t.tag_name like ? or t.tag_name like ?) or (c.category_name like ?)",
        BASE_QUERY
    );
    assert_eq!(q.sql, expected);
    assert_eq!(q.params, vec!["%draw%", "%draw%", "%tables%", "%ui%", "%tools%"]);
}

#[test]
fn search_data_paths() {
    assert_eq!(plugin_data_path("/repo", "floor-plan", "3.0.0"), Some("/repo/floor-plan/3.0.0/data".to_string()));
    assert_eq!(plugin_data_path("/repo", "floor-plan", "latest"), None);
}

#[test]
fn authorization_decisions() {
    assert_eq!(authorize(None, "pw"), Err(AuthError::MissingToken));
    assert_eq!(authorize(Some(b"Bearer pw"), "pw"), Ok(PluginPublishingAuthToken));
    assert_eq!(authorize(Some(b"Bearer pw2"), "pw"), Err(AuthError::InvalidToken));
    assert_eq!(authorize(Some(b"Bearer p"), "pw"), Err(AuthError::InvalidToken));
    assert_eq!(authorize(Some(b"bearer pw"), "pw"), Err(AuthError::InvalidToken));
    assert_eq!(authorize(Some(b"Bearer \xc3\xa9"), "\u{e9}"), Err(AuthError::InvalidToken));
    assert_eq!(authorize(Some(b"Bearer a\tb"), "a\tb"), Ok(PluginPublishingAuthToken));
}

#[test]
fn entities_and_labels() {
    assert_eq!(Category::new("tools").name(), "tools");
    let p = Plugin::new("floor-plan", "Table Drawing", &v("3.0.1"));
    assert_eq!((p.id().as_str(), p.name().as_str(), p.last_version().as_str()), ("floor-plan", "Table Drawing", "3.0.1"));
    let pv = PluginVersion::new("floor-plan", &v("3.0.1"));
    assert_eq!((pv.id().as_str(), pv.version().as_str()), ("floor-plan", "3.0.1"));
    assert_eq!(plugin_label(&data(None, None)), "floor-plan:3.0.0");
}

#[test]
fn plugin_change_plans() {
    let new = v("3.0.0");
    assert_eq!(plan_plugin_change(None, &new).unwrap(), PluginChange::Insert);
    assert_eq!(plan_plugin_change(Some("2.9.9"), &new).unwrap(), PluginChange::Update);
    assert_eq!(plan_plugin_change(Some("3.0.0"), &new).unwrap(), PluginChange::Keep);
    assert_eq!(plan_plugin_change(Some("4.0.0"), &new).unwrap(), PluginChange::Keep);
    assert!(plan_plugin_change(Some("bad"), &new).is_err());
}

fn op_names(ops: &[DbOp]) -> Vec<String> {
    ops.iter()
        .map(|o| match o {
            DbOp::EnsureCategory(c) => format!("cat:{}", c.name),
            DbOp::EnsureTag(t) => format!("tag:{}", t.name),
            DbOp::InsertPlugin(p) => format!("insert:{}:{}", p.id, p.last_version),
            DbOp::UpdatePlugin(p) => format!("update:{}:{}", p.id, p.last_version),
            DbOp::ClearTags(id) => format!("clear-tags:{}", id),
            DbOp::ClearCategories(id) => format!("clear-cats:{}", id),
            DbOp::LinkCategory(id, c) => format!("link-cat:{}:{}", id, c),
            DbOp::LinkTag(id, t) => format!("link-tag:{}:{}", id, t),
            DbOp::EnsureVersion(pv) => format!("version:{}:{}", pv.id, pv.version),
        })
        .collect()
}

#[test]
fn publish_plans() {
    let d = data(Some(vec!["ui"]), Some(vec!["tools"]));
    let insert = publish_plan(&d, None).unwrap();
    assert_eq!(op_names(&insert), vec!["cat:tools", "tag:ui", "insert:floor-plan:3.0.0", "version:floor-plan:3.0.0"]);
    let update = publish_plan(&d, Some("2.0.0")).unwrap();
    assert_eq!(
        op_names(&update),
        vec![
            "cat:tools", "tag:ui", "update:floor-plan:3.0.0", "clear-tags:floor-plan",
            "clear-cats:floor-plan", "link-cat:floor-plan:tools", "link-tag:floor-plan:ui",
            "version:floor-plan:3.0.0",
        ]
    );
    let keep = publish_plan(&data(None, None), Some("3.0.0")).unwrap();
    assert_eq!(op_names(&keep), vec!["version:floor-plan:3.0.0"]);
    assert!(publish_plan(&d, Some("x")).is_err());
}

fn make_jar(files: &[(&str, &[u8])], dirs: &[&str]) -> Vec<u8> {
    let mut cursor = Cursor::new(Vec::new());
    {
        let mut w = zip::ZipWriter::new(&mut cursor);
        let opts = zip::write::SimpleFileOptions::default();
        for d in dirs {
            w.add_directory(*d, opts).unwrap();
        }
        for (name, content) in files {
            w.start_file(*name, opts).unwrap();
            w.write_all(content).unwrap();
        }
        w.finish().unwrap();
    }
    cursor.into_inner()
}

#[test]
fn jar_descriptor_is_found() {
    let jar = make_jar(
        &[("a/B.class", b"\xca\xfe"), ("meta/plugin-data.json", b"{\"pluginId\":\"x\"}"), ("plugin-icon.png", b"\x89PNG")],
        &["meta/"],
    );
    assert_eq!(plugin_data_json(&jar).unwrap(), "{\"pluginId\":\"x\"}");
    let mut found = jar_resources(&jar).unwrap();
    assert_eq!(found.len(), 2);
    let (t1, b1) = found.remove(0);
    let (t2, b2) = found.remove(0);
    assert_eq!((t1, b1), (PluginResourceType::Data, b"{\"pluginId\":\"x\"}".to_vec()));
    assert_eq!((t2, b2), (PluginResourceType::Icon, b"\x89PNG".to_vec()));
}

#[test]
fn jar_without_descriptor() {
    let jar = make_jar(&[("plugin-icon.png", b"\x89PNG"), ("plugin-data.json.bak", b"{}")], &[]);
    assert!(matches!(plugin_data_json(&jar), Err(JarError::NoPluginData)));
    assert!(matches!(jar_resources(&jar), Err(JarError::MissingData)));
    let bad = make_jar(&[("plugin-data.json", b"\xff\xfe")], &[]);
    assert!(matches!(plugin_data_json(&bad), Err(JarError::NoPluginData)));
}

#[test]
fn jar_that_is_no_archive() {
    assert!(matches!(plugin_data_json(b"not a zip"), Err(JarError::Unreadable(_))));
    assert!(matches!(jar_resources(b"not a zip"), Err(JarError::Unreadable(_))));
}

#[test]
fn resource_latest_requests() {
    let mut r = PluginResource::new("floor-plan", &v("1.0.0"), &PluginResourceType::Jar);
    assert!(!r.wants_latest());
    r.set_version("last".to_string());
    assert!(r.wants_latest());
    r.set_version("Last".to_string());
    assert!(!r.wants_latest());
}

#[test]
fn search_placeholders_match_parameters() {
    assert_eq!(BASE_QUERY.matches('?').count(), 2);
    for (q, t, c) in [(None, None, None), (Some("x"), Some("a,b"), None), (None, Some("a"), Some("b, c ,d"))] {
        let planned = search_query(q, t, c);
        assert_eq!(planned.sql.matches('?').count(), planned.params.len());
    }
}

#[test]
fn invalid_resource_message() {
    let e = PluginResourceType::from_name("zip").unwrap_err();
    assert_eq!(e.message("zip"), "Invalid resource: zip. expected jar, icon or data");
}
