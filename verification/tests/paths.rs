use opsml_cli::errors::RetrievalError;
use opsml_cli::pathmap::{file_name, has_extension, join_path, parent_dir, plan_downloads, strip_root};
use opsml_cli::routes::{OpsmlPaths, RouteHelper};

#[test]
fn extension_heuristic() {
    assert!(has_extension("root/model.onnx"));
    assert!(has_extension("a.bin"));
    assert!(!has_extension("root"));
    assert!(!has_extension("root/dir"));
    assert!(!has_extension(".bashrc"));
    assert!(has_extension("dir.v2/inner/file.tar"));
    assert!(!has_extension("dir.v2/inner"));
    assert!(!has_extension(""));
}

#[test]
fn file_name_takes_last_segment() {
    assert_eq!(file_name("root/sub/b.bin"), "b.bin");
    assert_eq!(file_name("b.bin"), "b.bin");
    assert_eq!(file_name("root/"), "");
    assert_eq!(file_name(""), "");
}

#[test]
fn strip_root_at_segment_boundary() {
    assert_eq!(strip_root("root/a.bin", "root").as_deref(), Some("a.bin"));
    assert_eq!(strip_root("root/sub/b.bin", "root/").as_deref(), Some("sub/b.bin"));
    assert_eq!(strip_root("root", "root").as_deref(), Some(""));
    assert!(strip_root("rooted/a.bin", "root").is_none());
    assert!(strip_root("other/a.bin", "root").is_none());
    assert!(strip_root("roo", "root").is_none());
}

#[test]
fn join_path_inserts_one_separator() {
    assert_eq!(join_path("dest", "a.bin"), "dest/a.bin");
    assert_eq!(join_path("dest", ""), "dest");
}

#[test]
fn parent_dir_of_path() {
    assert_eq!(parent_dir("dest/sub/a.bin").as_deref(), Some("dest/sub"));
    assert_eq!(parent_dir("dest/a.bin").as_deref(), Some("dest"));
    assert!(parent_dir("a.bin").is_none());
}

#[test]
fn plan_for_directory_root_keeps_relative_paths() {
    let files = vec!["root/a.bin".to_string(), "root/sub/b.bin".to_string()];
    let plan = plan_downloads("root", "dest", &files).unwrap();
    assert_eq!(plan.len(), 2);
    assert_eq!(plan[0].remote, "root/a.bin");
    assert_eq!(plan[0].local, "dest/a.bin");
    assert_eq!(plan[1].remote, "root/sub/b.bin");
    assert_eq!(plan[1].local, "dest/sub/b.bin");
}

#[test]
fn plan_for_file_root_keeps_base_name_only() {
    let files = vec!["root/model.onnx".to_string()];
    let plan = plan_downloads("root/model.onnx", "dest", &files).unwrap();
    assert_eq!(plan.len(), 1);
    assert_eq!(plan[0].local, "dest/model.onnx");
}

#[test]
fn plan_fails_on_file_outside_root() {
    let files = vec!["root/a.bin".to_string(), "elsewhere/b.bin".to_string()];
    let r = plan_downloads("root", "dest", &files);
    assert!(matches!(r, Err(RetrievalError::PathMapping(_))));
}

#[test]
fn route_urls() {
    let base = "http://localhost:8080";
    assert_eq!(
        OpsmlPaths::MetadataDownload.as_str(base),
        "http://localhost:8080/opsml/models/metadata"
    );
    assert_eq!(OpsmlPaths::ListCard.as_str(base), "http://localhost:8080/opsml/cards/list");
    assert_eq!(OpsmlPaths::Metric.as_str(base), "http://localhost:8080/opsml/models/metrics");
    assert_eq!(
        OpsmlPaths::CompareMetric.as_str(base),
        "http://localhost:8080/opsml/models/compare_metrics"
    );
    assert_eq!(
        RouteHelper::list_files_url(base, "files"),
        "http://localhost:8080/opsml/files/list?path=files"
    );
    assert_eq!(
        RouteHelper::download_url(base, "root/a.bin"),
        "http://localhost:8080/opsml/files/download?path=root/a.bin"
    );
}
