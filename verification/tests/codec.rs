use opsml_cli::errors::RetrievalError;
use opsml_cli::listing::{classify_listing_response, parse_listing};
use opsml_cli::metadata::{parse_metadata, ModelMetadata, ModelMetadataRequest};

fn minimal_metadata() -> ModelMetadata {
    ModelMetadata {
        model_name: "m".to_string(),
        model_type: "t".to_string(),
        model_uri: "u".to_string(),
        onnx_uri: None,
        quantized_model_uri: None,
        preprocessor_uri: None,
        tokenizer_uri: None,
        feature_extractor_uri: None,
        sample_data: None,
        data_schema: None,
    }
}

fn assert_metadata_eq(a: &ModelMetadata, b: &ModelMetadata) {
    assert_eq!(a.model_name, b.model_name);
    assert_eq!(a.model_type, b.model_type);
    assert_eq!(a.model_uri, b.model_uri);
    assert_eq!(a.onnx_uri, b.onnx_uri);
    assert_eq!(a.quantized_model_uri, b.quantized_model_uri);
    assert_eq!(a.preprocessor_uri, b.preprocessor_uri);
    assert_eq!(a.tokenizer_uri, b.tokenizer_uri);
    assert_eq!(a.feature_extractor_uri, b.feature_extractor_uri);
    assert_eq!(a.sample_data, b.sample_data);
    assert_eq!(a.data_schema, b.data_schema);
}

#[test]
fn metadata_to_json_exact() {
    let m = minimal_metadata();
    let expected = "{\"model_name\":\"m\",\"model_type\":\"t\",\"model_uri\":\"u\",\"onnx_uri\":null,\"quantized_model_uri\":null,\"preprocessor_uri\":null,\"tokenizer_uri\":null,\"feature_extractor_uri\":null}";
    assert_eq!(m.to_json(), expected);
}

#[test]
fn metadata_round_trip_plain() {
    let m = minimal_metadata();
    let back = parse_metadata(&m.to_json()).unwrap();
    assert_metadata_eq(&m, &back);
}

#[test]
fn metadata_round_trip_full() {
    let mut m = minimal_metadata();
    m.model_name = "iris \"quoted\" \\ name".to_string();
    m.model_uri = "artifacts/model with\ttabs\nand lines".to_string();
    m.onnx_uri = Some("artifacts/onnx".to_string());
    m.quantized_model_uri = Some("artifacts/quantized".to_string());
    m.preprocessor_uri = Some("artifacts/preprocessor".to_string());
    m.tokenizer_uri = Some("artifacts/tokenizer".to_string());
    m.feature_extractor_uri = Some("artifacts/extractor".to_string());
    let back = parse_metadata(&m.to_json()).unwrap();
    assert_metadata_eq(&m, &back);
}

#[test]
fn metadata_round_trip_with_schema_blocks() {
    let mut m = minimal_metadata();
    m.sample_data = Some("{\"rows\":[1,2,3]}".to_string());
    m.data_schema = Some("{\"input\":{\"x\":\"float\"},\"output\":[true,null]}".to_string());
    let back = parse_metadata(&m.to_json()).unwrap();
    assert_metadata_eq(&m, &back);
}

#[test]
fn metadata_parse_accepts_whitespace_and_any_key_order() {
    let doc = " {\n  \"model_uri\" : \"u\" ,\n  \"model_type\" : \"t\" ,\n  \"model_name\" : \"m\"\n } ";
    let m = parse_metadata(doc).unwrap();
    assert_eq!(m.model_name, "m");
    assert_eq!(m.model_type, "t");
    assert_eq!(m.model_uri, "u");
    assert_eq!(m.onnx_uri, None);
}

#[test]
fn metadata_parse_skips_unknown_members() {
    let doc = "{\"model_name\":\"m\",\"model_version\":\"1.0.0\",\"model_team\":\"a\",\"extra\":{\"nested\":[1,2,{\"deep\":\"x\"}],\"flag\":true},\"model_type\":\"t\",\"model_uri\":\"u\",\"count\":-12.5e3}";
    let m = parse_metadata(doc).unwrap();
    assert_eq!(m.model_name, "m");
    assert_eq!(m.model_uri, "u");
}

#[test]
fn metadata_parse_captures_schema_blocks_verbatim() {
    let doc = "{\"model_name\":\"m\",\"model_type\":\"t\",\"model_uri\":\"u\",\"sample_data\":{\"a\": [1, 2]},\"data_schema\":null}";
    let m = parse_metadata(doc).unwrap();
    assert_eq!(m.sample_data.as_deref(), Some("{\"a\": [1, 2]}"));
    assert_eq!(m.data_schema.as_deref(), Some("null"));
}

#[test]
fn metadata_parse_decodes_escapes() {
    let doc = "{\"model_name\":\"a\\\"b\\\\c\\n\\t\\u00e9\",\"model_type\":\"t\",\"model_uri\":\"u\"}";
    let m = parse_metadata(doc).unwrap();
    assert_eq!(m.model_name, "a\"b\\c\n\t\u{e9}");
}

#[test]
fn metadata_parse_rejects_missing_required_member() {
    let doc = "{\"model_name\":\"m\",\"model_type\":\"t\"}";
    assert!(matches!(parse_metadata(doc), Err(RetrievalError::MetadataParse(_))));
}

#[test]
fn metadata_parse_rejects_duplicate_member() {
    let doc = "{\"model_name\":\"m\",\"model_name\":\"n\",\"model_type\":\"t\",\"model_uri\":\"u\"}";
    assert!(matches!(parse_metadata(doc), Err(RetrievalError::MetadataParse(_))));
}

#[test]
fn metadata_parse_rejects_malformed_documents() {
    assert!(parse_metadata("").is_err());
    assert!(parse_metadata("{}").is_err());
    assert!(parse_metadata("null").is_err());
    assert!(parse_metadata("{\"model_name\":\"m\"").is_err());
    assert!(parse_metadata("{\"model_name\" \"m\"}").is_err());
    assert!(parse_metadata("{\"model_name\":\"m\",}").is_err());
    assert!(parse_metadata("{\"model_name\":\"m\"} trailing").is_err());
    // Escapes of code points above U+00FF are outside the accepted grammar.
    assert!(parse_metadata("{\"model_name\":\"\\u0141\",\"model_type\":\"t\",\"model_uri\":\"u\"}").is_err());
}

#[test]
fn request_to_json_exact() {
    let r = ModelMetadataRequest {
        name: Some("n".to_string()),
        version: Some("1".to_string()),
        uid: None,
        ignore_release_candidates: false,
    };
    assert_eq!(
        r.to_json(),
        "{\"name\":\"n\",\"version\":\"1\",\"uid\":null,\"ignore_release_candidates\":false}"
    );
    let r2 = ModelMetadataRequest {
        name: None,
        version: None,
        uid: Some("abc".to_string()),
        ignore_release_candidates: true,
    };
    assert_eq!(
        r2.to_json(),
        "{\"name\":null,\"version\":null,\"uid\":\"abc\",\"ignore_release_candidates\":true}"
    );
}

#[test]
fn listing_parse_in_order() {
    let l = parse_listing("{\"files\":[\"root/a.bin\",\"root/sub/b.bin\"]}").unwrap();
    assert_eq!(l.files, vec!["root/a.bin".to_string(), "root/sub/b.bin".to_string()]);
}

#[test]
fn listing_parse_empty_and_unknown_members() {
    let l = parse_listing("{\"extra\":17,\"files\":[]}").unwrap();
    assert!(l.files.is_empty());
    let l2 = parse_listing(" { \"files\" : [ \"a\" ] } ").unwrap();
    assert_eq!(l2.files, vec!["a".to_string()]);
}

#[test]
fn listing_parse_rejects_malformed_documents() {
    assert!(matches!(parse_listing("{}"), Err(RetrievalError::Listing(_))));
    assert!(parse_listing("{\"files\":\"a\"}").is_err());
    assert!(parse_listing("{\"files\":[\"a\",]}").is_err());
    assert!(parse_listing("{\"files\":[1]}").is_err());
    assert!(parse_listing("{\"files\":[],\"files\":[]}").is_err());
    assert!(parse_listing("[\"a\"]").is_err());
}

#[test]
fn listing_status_classification() {
    assert!(classify_listing_response(200, "").is_ok());
    match classify_listing_response(503, "registry down") {
        Err(RetrievalError::Listing(t)) => assert_eq!(t, "registry down"),
        _ => panic!("a non-success status must be a listing failure"),
    }
}
