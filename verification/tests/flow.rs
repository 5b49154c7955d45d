use opsml_cli::downloader::{
    classify_download_response, metadata_save_path, plan_retrieval, ModelDownloader,
    RetrievalFlow, RetrievalPolicy, TreeDownload,
};
use opsml_cli::errors::RetrievalError;
use opsml_cli::metadata::ModelMetadata;
use opsml_cli::pathmap::{plan_downloads, FileTransfer};
use opsml_cli::utils::check_args;

fn metadata_with(
    model_uri: &str,
    onnx: Option<&str>,
    quantized: Option<&str>,
    preprocessor: Option<&str>,
    tokenizer: Option<&str>,
) -> ModelMetadata {
    ModelMetadata {
        model_name: "iris".to_string(),
        model_type: "sklearn".to_string(),
        model_uri: model_uri.to_string(),
        onnx_uri: onnx.map(str::to_string),
        quantized_model_uri: quantized.map(str::to_string),
        preprocessor_uri: preprocessor.map(str::to_string),
        tokenizer_uri: tokenizer.map(str::to_string),
        feature_extractor_uri: None,
        sample_data: None,
        data_schema: None,
    }
}

fn downloader(quantize: bool) -> ModelDownloader {
    ModelDownloader {
        name: Some("iris".to_string()),
        version: Some("1.0.0".to_string()),
        uid: None,
        write_dir: "dest".to_string(),
        ignore_release_candidates: false,
        onnx: false,
        no_onnx: false,
        quantize,
    }
}

#[test]
fn primary_without_export_is_model_uri() {
    // Whatever the other fields hold, the trained artifact is returned.
    let m = metadata_with("trained/model.pkl", Some("onnx/m"), Some("q/m"), None, None);
    let d = downloader(true);
    assert_eq!(d.get_model_uri(false, &m).unwrap(), "trained/model.pkl");
    let m2 = metadata_with("trained/model.pkl", None, None, None, None);
    assert_eq!(downloader(false).get_model_uri(false, &m2).unwrap(), "trained/model.pkl");
}

#[test]
fn primary_quantized_missing_is_a_failure() {
    let m = metadata_with("trained/model.pkl", Some("onnx/m"), None, None, None);
    let d = downloader(true);
    let r = d.get_model_uri(true, &m);
    assert!(matches!(r, Err(RetrievalError::MissingVariant)));
}

#[test]
fn primary_exported_variants() {
    let m = metadata_with("t", Some("onnx/m"), Some("q/m"), None, None);
    assert_eq!(downloader(false).get_model_uri(true, &m).unwrap(), "onnx/m");
    assert_eq!(downloader(true).get_model_uri(true, &m).unwrap(), "q/m");
    let bare = metadata_with("t", None, None, None, None);
    assert!(downloader(false).get_model_uri(true, &bare).is_err());
}

#[test]
fn companion_priority_order() {
    let both = metadata_with("t", None, None, Some("pre/p"), Some("tok/t"));
    let d = downloader(false);
    assert_eq!(d.get_preprocessor_uri(&both).as_deref(), Some("pre/p"));
    let tok_only = metadata_with("t", None, None, None, Some("tok/t"));
    assert_eq!(d.get_preprocessor_uri(&tok_only).as_deref(), Some("tok/t"));
    let mut fx_only = metadata_with("t", None, None, None, None);
    fx_only.feature_extractor_uri = Some("fx/f".to_string());
    assert_eq!(d.get_preprocessor_uri(&fx_only).as_deref(), Some("fx/f"));
    let none = metadata_with("t", None, None, None, None);
    assert!(d.get_preprocessor_uri(&none).is_none());
}

#[test]
fn tree_walk_aborts_on_first_failure() {
    let transfers = vec![
        FileTransfer { remote: "root/a.bin".to_string(), local: "dest/a.bin".to_string() },
        FileTransfer { remote: "root/b.bin".to_string(), local: "dest/b.bin".to_string() },
        FileTransfer { remote: "root/c.bin".to_string(), local: "dest/c.bin".to_string() },
    ];
    let mut walk = TreeDownload::new(transfers);
    let mut attempted: Vec<String> = Vec::new();
    let statuses = [201u16, 500u16, 201u16];
    let mut i: usize = 0;
    while let Some(t) = walk.current() {
        attempted.push(t.remote.clone());
        walk.record_outcome(statuses[i]);
        i += 1;
    }
    // The third transfer, listed after the failing one, was never attempted.
    assert_eq!(attempted, vec!["root/a.bin".to_string(), "root/b.bin".to_string()]);
    assert!(walk.has_failed());
    assert!(!walk.is_complete());
}

#[test]
fn tree_walk_completes_on_all_successes() {
    let transfers = vec![
        FileTransfer { remote: "r/a".to_string(), local: "d/a".to_string() },
        FileTransfer { remote: "r/b".to_string(), local: "d/b".to_string() },
    ];
    let mut walk = TreeDownload::new(transfers);
    while let Some(_) = walk.current() {
        walk.record_outcome(200);
    }
    assert!(walk.is_complete());
    assert!(!walk.has_failed());
}

#[test]
fn download_status_classification() {
    assert!(classify_download_response(200, "").is_ok());
    assert!(classify_download_response(299, "").is_ok());
    let r = classify_download_response(404, "no such file");
    match r {
        Err(RetrievalError::Download(t)) => assert_eq!(t, "no such file"),
        _ => panic!("a non-success status must be a download failure"),
    }
    assert!(classify_download_response(300, "x").is_err());
    assert!(classify_download_response(199, "x").is_err());
}

#[test]
fn retrieval_end_to_end_decisions() {
    // Identity {name: iris, version: 1.0.0}, policy without export, metadata
    // naming only the trained artifact: exactly one tree is fetched and the
    // single listed file lands under the destination by its base name.
    check_args(&Some("iris".to_string()), &Some("1.0.0".to_string()), &None).unwrap();
    let m = metadata_with("artifacts/model.pkl", None, None, None, None);
    let policy = RetrievalPolicy { want_exported: false, want_quantized: false, want_companion: false };
    let plan = plan_retrieval(&m, &policy).unwrap();
    assert!(plan.companion.is_none());
    assert_eq!(plan.primary, "artifacts/model.pkl");

    let mut flow = RetrievalFlow::start(plan);
    let mut trees: Vec<String> = Vec::new();
    while let Some(root) = flow.next_root() {
        let root = root.clone();
        let listing = vec![root.clone()];
        let transfers = plan_downloads(&root, "dest", &listing).unwrap();
        assert_eq!(transfers.len(), 1);
        assert_eq!(transfers[0].local, "dest/model.pkl");
        trees.push(root);
        flow.record_tree_outcome(true);
    }
    assert!(flow.is_done());
    assert_eq!(trees, vec!["artifacts/model.pkl".to_string()]);
}

#[test]
fn retrieval_companion_runs_before_primary_and_failure_aborts() {
    let m = metadata_with("trained/model", None, None, Some("pre/p"), None);
    let policy = RetrievalPolicy { want_exported: false, want_quantized: false, want_companion: true };
    let plan = plan_retrieval(&m, &policy).unwrap();
    assert_eq!(plan.companion.as_deref(), Some("pre/p"));

    let mut flow = RetrievalFlow::start(plan);
    let first = flow.next_root().unwrap().clone();
    assert_eq!(first, "pre/p");
    // The companion tree fails: the primary phase never begins.
    flow.record_tree_outcome(false);
    assert!(flow.next_root().is_none());
    assert!(!flow.is_done());
}

#[test]
fn retrieval_phases_in_order() {
    let m = metadata_with("trained/model", None, None, Some("pre/p"), None);
    let policy = RetrievalPolicy { want_exported: false, want_quantized: false, want_companion: true };
    let plan = plan_retrieval(&m, &policy).unwrap();
    let mut flow = RetrievalFlow::start(plan);
    assert_eq!(flow.next_root().unwrap(), "pre/p");
    flow.record_tree_outcome(true);
    assert_eq!(flow.next_root().unwrap(), "trained/model");
    flow.record_tree_outcome(true);
    assert!(flow.is_done());
}

#[test]
fn metadata_side_file_path() {
    assert_eq!(metadata_save_path("dest"), "dest/metadata.json");
}
