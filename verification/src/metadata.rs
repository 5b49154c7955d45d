//! The metadata document: the registry's description of one model.
//!
//! The metadata endpoint answers with a JSON object naming the model and
//! the remote paths of its file variants. This module holds the document's
//! type, its writer and its reader, and the proof that reading back what
//! was written yields the same value.
//!
//! The two schema blocks (`sample_data`, `data_schema`) are carried through
//! as raw document text and never interpreted.

use crate::errors::RetrievalError;
use crate::json::{
    append_encoded, chars_of, encode_string, false_chars, is_ws, lemma_parse_encoded_string,
    is_number_char, lemma_skip_value_local, lemma_suffix_shift, lemma_value_start_not_ws,
    match_null, null_chars,
    parse_string, push_char, range_copied, skip_value, skip_ws, spec_match_lit, spec_parse_string,
    spec_skip_value, spec_skip_ws, spec_valid_value, string_of_range, true_chars,
};
use crate::utils::str_eq;
use vstd::prelude::*;

verus! {

/// One model's metadata, as the registry describes it.
///
/// `model_uri` is always present; the exported (`onnx_uri`), quantized and
/// companion paths are optional. `sample_data` and `data_schema` hold the
/// raw text of the document's schema blocks, carried through verbatim.
pub struct ModelMetadata {
    pub model_name: String,
    pub model_type: String,
    pub model_uri: String,
    pub onnx_uri: Option<String>,
    pub quantized_model_uri: Option<String>,
    pub preprocessor_uri: Option<String>,
    pub tokenizer_uri: Option<String>,
    pub feature_extractor_uri: Option<String>,
    pub sample_data: Option<String>,
    pub data_schema: Option<String>,
}

/// The mathematical value of a metadata document.
pub ghost struct MetadataView {
    pub model_name: Seq<char>,
    pub model_type: Seq<char>,
    pub model_uri: Seq<char>,
    pub onnx_uri: Option<Seq<char>>,
    pub quantized_model_uri: Option<Seq<char>>,
    pub preprocessor_uri: Option<Seq<char>>,
    pub tokenizer_uri: Option<Seq<char>>,
    pub feature_extractor_uri: Option<Seq<char>>,
    pub sample_data: Option<Seq<char>>,
    pub data_schema: Option<Seq<char>>,
}

/// The view of an optional string.
pub open spec fn view_opt(o: Option<String>) -> Option<Seq<char>> {
    match o {
        Some(s) => Some(s@),
        None => None,
    }
}

impl View for ModelMetadata {
    type V = MetadataView;

    open spec fn view(&self) -> MetadataView {
        MetadataView {
            model_name: self.model_name@,
            model_type: self.model_type@,
            model_uri: self.model_uri@,
            onnx_uri: view_opt(self.onnx_uri),
            quantized_model_uri: view_opt(self.quantized_model_uri),
            preprocessor_uri: view_opt(self.preprocessor_uri),
            tokenizer_uri: view_opt(self.tokenizer_uri),
            feature_extractor_uri: view_opt(self.feature_extractor_uri),
            sample_data: view_opt(self.sample_data),
            data_schema: view_opt(self.data_schema),
        }
    }
}

/// How the writer renders an optional string value: the encoded string, or
/// the literal `null`.
pub open spec fn ser_opt(v: Option<Seq<char>>) -> Seq<char> {
    match v {
        Some(s) => encode_string(s),
        None => null_chars(),
    }
}

/// How the writer renders one carried-through schema block: nothing when it
/// is absent, the raw text behind its key otherwise.
pub open spec fn ser_raw(key: Seq<char>, v: Option<Seq<char>>) -> Seq<char> {
    match v {
        Some(r) => seq![','] + encode_string(key) + seq![':'] + r,
        None => Seq::empty(),
    }
}

/// The document's last member, the carried-through blocks and the brace.
pub open spec fn ser_from_feature_extractor(m: MetadataView) -> Seq<char> {
    encode_string("feature_extractor_uri"@) + seq![':'] + ser_opt(m.feature_extractor_uri)
        + ser_raw("sample_data"@, m.sample_data) + ser_raw("data_schema"@, m.data_schema)
        + seq!['}']
}

/// The document from the `tokenizer_uri` member on.
pub open spec fn ser_from_tokenizer(m: MetadataView) -> Seq<char> {
    encode_string("tokenizer_uri"@) + seq![':'] + ser_opt(m.tokenizer_uri) + seq![',']
        + ser_from_feature_extractor(m)
}

/// The document from the `preprocessor_uri` member on.
pub open spec fn ser_from_preprocessor(m: MetadataView) -> Seq<char> {
    encode_string("preprocessor_uri"@) + seq![':'] + ser_opt(m.preprocessor_uri) + seq![',']
        + ser_from_tokenizer(m)
}

/// The document from the `quantized_model_uri` member on.
pub open spec fn ser_from_quantized(m: MetadataView) -> Seq<char> {
    encode_string("quantized_model_uri"@) + seq![':'] + ser_opt(m.quantized_model_uri) + seq![',']
        + ser_from_preprocessor(m)
}

/// The document from the `onnx_uri` member on.
pub open spec fn ser_from_onnx(m: MetadataView) -> Seq<char> {
    encode_string("onnx_uri"@) + seq![':'] + ser_opt(m.onnx_uri) + seq![','] + ser_from_quantized(m)
}

/// The document from the `model_uri` member on.
pub open spec fn ser_from_model_uri(m: MetadataView) -> Seq<char> {
    encode_string("model_uri"@) + seq![':'] + encode_string(m.model_uri) + seq![','] + ser_from_onnx(
        m,
    )
}

/// The document from the `model_type` member on.
pub open spec fn ser_from_model_type(m: MetadataView) -> Seq<char> {
    encode_string("model_type"@) + seq![':'] + encode_string(m.model_type) + seq![',']
        + ser_from_model_uri(m)
}

/// The document from the `model_name` member on.
pub open spec fn ser_from_model_name(m: MetadataView) -> Seq<char> {
    encode_string("model_name"@) + seq![':'] + encode_string(m.model_name) + seq![',']
        + ser_from_model_type(m)
}

/// The document the writer produces: one object, known keys in a fixed
/// order, no insignificant whitespace.
pub open spec fn spec_ser_metadata(m: MetadataView) -> Seq<char> {
    seq!['{'] + ser_from_model_name(m)
}

fn append_opt(out: &mut String, v: &Option<String>)
    ensures
        final(out)@ == old(out)@ + ser_opt(view_opt(*v)),
{
    match v {
        Some(s) => {
            append_encoded(out, s.as_str());
        },
        None => {
            proof {
                reveal_strlit("null");
                assert("null"@ =~= null_chars());
            }
            out.append("null");
        },
    }
}

fn append_key_colon(out: &mut String, key: &str)
    ensures
        final(out)@ == old(out)@ + encode_string(key@) + seq![':'],
{
    append_encoded(out, key);
    push_char(out, ':');
    assert(out@ =~= old(out)@ + encode_string(key@) + seq![':']);
}

fn append_raw(out: &mut String, key: &str, v: &Option<String>)
    ensures
        final(out)@ == old(out)@ + ser_raw(key@, view_opt(*v)),
{
    match v {
        Some(r) => {
            push_char(out, ',');
            append_key_colon(out, key);
            out.append(r.as_str());
            assert(out@ =~= old(out)@ + ser_raw(key@, view_opt(*v)));
        },
        None => {
            assert(out@ =~= old(out)@ + ser_raw(key@, view_opt(*v)));
        },
    }
}

/// The body of a metadata request: the identity's fields and the
/// release-candidate filter flag.
pub struct ModelMetadataRequest {
    pub name: Option<String>,
    pub version: Option<String>,
    pub uid: Option<String>,
    pub ignore_release_candidates: bool,
}

/// The mathematical value of a metadata request.
pub ghost struct RequestView {
    pub name: Option<Seq<char>>,
    pub version: Option<Seq<char>>,
    pub uid: Option<Seq<char>>,
    pub ignore_release_candidates: bool,
}

impl View for ModelMetadataRequest {
    type V = RequestView;

    open spec fn view(&self) -> RequestView {
        RequestView {
            name: view_opt(self.name),
            version: view_opt(self.version),
            uid: view_opt(self.uid),
            ignore_release_candidates: self.ignore_release_candidates,
        }
    }
}

/// The characters of a JSON boolean.
pub open spec fn spec_bool_chars(b: bool) -> Seq<char> {
    if b {
        true_chars()
    } else {
        false_chars()
    }
}

/// The request body from the filter flag on.
pub open spec fn ser_req_from_flag(r: RequestView) -> Seq<char> {
    encode_string("ignore_release_candidates"@) + seq![':'] + spec_bool_chars(
        r.ignore_release_candidates,
    ) + seq!['}']
}

/// The request body from the `uid` member on.
pub open spec fn ser_req_from_uid(r: RequestView) -> Seq<char> {
    encode_string("uid"@) + seq![':'] + ser_opt(r.uid) + seq![','] + ser_req_from_flag(r)
}

/// The request body from the `version` member on.
pub open spec fn ser_req_from_version(r: RequestView) -> Seq<char> {
    encode_string("version"@) + seq![':'] + ser_opt(r.version) + seq![','] + ser_req_from_uid(r)
}

/// The body the engine sends to the metadata endpoint: one object, known
/// keys in a fixed order, `null` for an absent identity field.
pub open spec fn spec_ser_request(r: RequestView) -> Seq<char> {
    seq!['{'] + encode_string("name"@) + seq![':'] + ser_opt(r.name) + seq![',']
        + ser_req_from_version(r)
}

fn append_bool(out: &mut String, b: bool)
    ensures
        final(out)@ == old(out)@ + spec_bool_chars(b),
{
    if b {
        proof {
            reveal_strlit("true");
            assert("true"@ =~= true_chars());
        }
        out.append("true");
    } else {
        proof {
            reveal_strlit("false");
            assert("false"@ =~= false_chars());
        }
        out.append("false");
    }
}

impl ModelMetadataRequest {
    fn append_from_flag(&self, out: &mut String)
        ensures
            final(out)@ == old(out)@ + ser_req_from_flag(self@),
    {
        append_key_colon(out, "ignore_release_candidates");
        append_bool(out, self.ignore_release_candidates);
        push_char(out, '}');
        assert(out@ =~= old(out)@ + ser_req_from_flag(self@));
    }

    fn append_from_uid(&self, out: &mut String)
        ensures
            final(out)@ == old(out)@ + ser_req_from_uid(self@),
    {
        append_key_colon(out, "uid");
        append_opt(out, &self.uid);
        push_char(out, ',');
        self.append_from_flag(out);
        assert(out@ =~= old(out)@ + ser_req_from_uid(self@));
    }

    fn append_from_version(&self, out: &mut String)
        ensures
            final(out)@ == old(out)@ + ser_req_from_version(self@),
    {
        append_key_colon(out, "version");
        append_opt(out, &self.version);
        push_char(out, ',');
        self.append_from_uid(out);
        assert(out@ =~= old(out)@ + ser_req_from_version(self@));
    }

    /// Writes the request body for the metadata endpoint.
    pub fn to_json(&self) -> (r: String)
        ensures
            r@ == spec_ser_request(self@),
    {
        let mut out = String::new();
        push_char(&mut out, '{');
        append_key_colon(&mut out, "name");
        append_opt(&mut out, &self.name);
        push_char(&mut out, ',');
        self.append_from_version(&mut out);
        assert(out@ =~= spec_ser_request(self@));
        out
    }
}

/// What the reader has gathered while walking the document's members.
/// A required field is `Some` once its key was seen; an optional field is
/// `Some(None)` when its key was seen with `null`.
pub ghost struct BuilderView {
    pub model_name: Option<Seq<char>>,
    pub model_type: Option<Seq<char>>,
    pub model_uri: Option<Seq<char>>,
    pub onnx_uri: Option<Option<Seq<char>>>,
    pub quantized_model_uri: Option<Option<Seq<char>>>,
    pub preprocessor_uri: Option<Option<Seq<char>>>,
    pub tokenizer_uri: Option<Option<Seq<char>>>,
    pub feature_extractor_uri: Option<Option<Seq<char>>>,
    pub sample_data: Option<Seq<char>>,
    pub data_schema: Option<Seq<char>>,
}

/// The reader's state before any member was seen.
pub open spec fn empty_builder() -> BuilderView {
    BuilderView {
        model_name: None,
        model_type: None,
        model_uri: None,
        onnx_uri: None,
        quantized_model_uri: None,
        preprocessor_uri: None,
        tokenizer_uri: None,
        feature_extractor_uri: None,
        sample_data: None,
        data_schema: None,
    }
}

/// Decodes a value that may be a string or `null`.
pub open spec fn spec_parse_opt_string(s: Seq<char>, i: int) -> Option<(Option<Seq<char>>, int)> {
    if spec_match_lit(s, i, null_chars()) {
        Some((None, i + 4))
    } else {
        match spec_parse_string(s, i) {
            None => None,
            Some((v, e)) => Some((Some(v), e)),
        }
    }
}

/// Reads the value of the member named `key` and folds it into the builder.
/// A key seen twice is a malformed document; an unknown key's value is
/// stepped over and changes nothing.
pub open spec fn spec_parse_value_for(b: BuilderView, key: Seq<char>, s: Seq<char>, i: int) -> Option<
    (BuilderView, int),
> {
    if key == "model_name"@ {
        if b.model_name is Some {
            None
        } else {
            match spec_parse_string(s, i) {
                None => None,
                Some((v, e)) => Some((BuilderView { model_name: Some(v), ..b }, e)),
            }
        }
    } else if key == "model_type"@ {
        if b.model_type is Some {
            None
        } else {
            match spec_parse_string(s, i) {
                None => None,
                Some((v, e)) => Some((BuilderView { model_type: Some(v), ..b }, e)),
            }
        }
    } else if key == "model_uri"@ {
        if b.model_uri is Some {
            None
        } else {
            match spec_parse_string(s, i) {
                None => None,
                Some((v, e)) => Some((BuilderView { model_uri: Some(v), ..b }, e)),
            }
        }
    } else if key == "onnx_uri"@ {
        if b.onnx_uri is Some {
            None
        } else {
            match spec_parse_opt_string(s, i) {
                None => None,
                Some((v, e)) => Some((BuilderView { onnx_uri: Some(v), ..b }, e)),
            }
        }
    } else if key == "quantized_model_uri"@ {
        if b.quantized_model_uri is Some {
            None
        } else {
            match spec_parse_opt_string(s, i) {
                None => None,
                Some((v, e)) => Some((BuilderView { quantized_model_uri: Some(v), ..b }, e)),
            }
        }
    } else if key == "preprocessor_uri"@ {
        if b.preprocessor_uri is Some {
            None
        } else {
            match spec_parse_opt_string(s, i) {
                None => None,
                Some((v, e)) => Some((BuilderView { preprocessor_uri: Some(v), ..b }, e)),
            }
        }
    } else if key == "tokenizer_uri"@ {
        if b.tokenizer_uri is Some {
            None
        } else {
            match spec_parse_opt_string(s, i) {
                None => None,
                Some((v, e)) => Some((BuilderView { tokenizer_uri: Some(v), ..b }, e)),
            }
        }
    } else if key == "feature_extractor_uri"@ {
        if b.feature_extractor_uri is Some {
            None
        } else {
            match spec_parse_opt_string(s, i) {
                None => None,
                Some((v, e)) => Some((BuilderView { feature_extractor_uri: Some(v), ..b }, e)),
            }
        }
    } else if key == "sample_data"@ {
        if b.sample_data is Some {
            None
        } else {
            match spec_skip_value(s, i) {
                None => None,
                Some(e) => if 0 <= i <= e <= s.len() {
                    Some((BuilderView { sample_data: Some(s.subrange(i, e)), ..b }, e))
                } else {
                    None
                },
            }
        }
    } else if key == "data_schema"@ {
        if b.data_schema is Some {
            None
        } else {
            match spec_skip_value(s, i) {
                None => None,
                Some(e) => if 0 <= i <= e <= s.len() {
                    Some((BuilderView { data_schema: Some(s.subrange(i, e)), ..b }, e))
                } else {
                    None
                },
            }
        }
    } else {
        match spec_skip_value(s, i) {
            None => None,
            Some(e) => Some((b, e)),
        }
    }
}

/// Reads the members of the document's object from the first member's key
/// at `i` up to and over the closing brace, folding each into the builder.
pub open spec fn spec_parse_members(s: Seq<char>, i: int, b: BuilderView) -> Option<
    (BuilderView, int),
>
    decreases s.len() - i when 0 <= i <= s.len()
{
    match spec_parse_string(s, i) {
        None => None,
        Some((key, e)) => if !(i < e <= s.len()) {
            None
        } else {
            let j = spec_skip_ws(s, e);
            if !(e <= j <= s.len()) {
                None
            } else if j < s.len() && s[j] == ':' {
                let k = spec_skip_ws(s, j + 1);
                if !(j + 1 <= k <= s.len()) {
                    None
                } else {
                    match spec_parse_value_for(b, key, s, k) {
                        None => None,
                        Some((b2, ve)) => if !(k <= ve <= s.len()) {
                            None
                        } else {
                            let m = spec_skip_ws(s, ve);
                            if !(ve <= m <= s.len()) {
                                None
                            } else if m < s.len() && s[m] == ',' {
                                let n = spec_skip_ws(s, m + 1);
                                if !(m + 1 <= n <= s.len()) {
                                    None
                                } else {
                                    spec_parse_members(s, n, b2)
                                }
                            } else if m < s.len() && s[m] == '}' {
                                Some((b2, m + 1))
                            } else {
                                None
                            }
                        },
                    }
                }
            } else {
                None
            }
        },
    }
}

/// The metadata value a finished builder stands for, if the required
/// members were all seen.
pub open spec fn spec_finish(b: BuilderView) -> Option<MetadataView> {
    if b.model_name is Some && b.model_type is Some && b.model_uri is Some {
        Some(
            MetadataView {
                model_name: b.model_name->0,
                model_type: b.model_type->0,
                model_uri: b.model_uri->0,
                onnx_uri: flatten_opt(b.onnx_uri),
                quantized_model_uri: flatten_opt(b.quantized_model_uri),
                preprocessor_uri: flatten_opt(b.preprocessor_uri),
                tokenizer_uri: flatten_opt(b.tokenizer_uri),
                feature_extractor_uri: flatten_opt(b.feature_extractor_uri),
                sample_data: b.sample_data,
                data_schema: b.data_schema,
            },
        )
    } else {
        None
    }
}

/// An unseen or `null` optional member both mean an absent field.
pub open spec fn flatten_opt(v: Option<Option<Seq<char>>>) -> Option<Seq<char>> {
    match v {
        None => None,
        Some(x) => x,
    }
}

/// The metadata value a whole document holds, if it is well formed: one
/// object, nothing but whitespace around and after it, every required
/// member present, no member twice.
pub open spec fn spec_parse_metadata(s: Seq<char>) -> Option<MetadataView> {
    let i = spec_skip_ws(s, 0);
    if 0 <= i <= s.len() && i < s.len() && s[i] == '{' {
        let j = spec_skip_ws(s, i + 1);
        if !(i + 1 <= j <= s.len()) {
            None
        } else if j < s.len() && s[j] == '}' {
            let t = spec_skip_ws(s, j + 1);
            if t == s.len() {
                spec_finish(empty_builder())
            } else {
                None
            }
        } else {
            match spec_parse_members(s, j, empty_builder()) {
                None => None,
                Some((b, e)) => if 0 <= e <= s.len() {
                    let t = spec_skip_ws(s, e);
                    if t == s.len() {
                        spec_finish(b)
                    } else {
                        None
                    }
                } else {
                    None
                },
            }
        }
    } else {
        None
    }
}

/// The view of a member that may be unseen, `null`, or a string.
pub open spec fn view_opt2(o: Option<Option<String>>) -> Option<Option<Seq<char>>> {
    match o {
        None => None,
        Some(x) => Some(view_opt(x)),
    }
}

struct MetaBuilder {
    model_name: Option<String>,
    model_type: Option<String>,
    model_uri: Option<String>,
    onnx_uri: Option<Option<String>>,
    quantized_model_uri: Option<Option<String>>,
    preprocessor_uri: Option<Option<String>>,
    tokenizer_uri: Option<Option<String>>,
    feature_extractor_uri: Option<Option<String>>,
    sample_data: Option<String>,
    data_schema: Option<String>,
}

impl View for MetaBuilder {
    type V = BuilderView;

    closed spec fn view(&self) -> BuilderView {
        BuilderView {
            model_name: view_opt(self.model_name),
            model_type: view_opt(self.model_type),
            model_uri: view_opt(self.model_uri),
            onnx_uri: view_opt2(self.onnx_uri),
            quantized_model_uri: view_opt2(self.quantized_model_uri),
            preprocessor_uri: view_opt2(self.preprocessor_uri),
            tokenizer_uri: view_opt2(self.tokenizer_uri),
            feature_extractor_uri: view_opt2(self.feature_extractor_uri),
            sample_data: view_opt(self.sample_data),
            data_schema: view_opt(self.data_schema),
        }
    }
}

impl MetaBuilder {
    fn new() -> (r: MetaBuilder)
        ensures
            r@ == empty_builder(),
    {
        MetaBuilder {
            model_name: None,
            model_type: None,
            model_uri: None,
            onnx_uri: None,
            quantized_model_uri: None,
            preprocessor_uri: None,
            tokenizer_uri: None,
            feature_extractor_uri: None,
            sample_data: None,
            data_schema: None,
        }
    }

    fn finish(self) -> (r: Option<ModelMetadata>)
        ensures
            r matches Some(m) ==> spec_finish(self@) == Some(m@),
            r is None ==> spec_finish(self@) is None,
    {
        match (self.model_name, self.model_type, self.model_uri) {
            (Some(name), Some(typ), Some(uri)) => Some(
                ModelMetadata {
                    model_name: name,
                    model_type: typ,
                    model_uri: uri,
                    onnx_uri: match self.onnx_uri {
                        None => None,
                        Some(x) => x,
                    },
                    quantized_model_uri: match self.quantized_model_uri {
                        None => None,
                        Some(x) => x,
                    },
                    preprocessor_uri: match self.preprocessor_uri {
                        None => None,
                        Some(x) => x,
                    },
                    tokenizer_uri: match self.tokenizer_uri {
                        None => None,
                        Some(x) => x,
                    },
                    feature_extractor_uri: match self.feature_extractor_uri {
                        None => None,
                        Some(x) => x,
                    },
                    sample_data: self.sample_data,
                    data_schema: self.data_schema,
                },
            ),
            _ => None,
        }
    }
}

/// Reads a member value that may be a string or `null`.
fn parse_opt_string(s: &Vec<char>, i: usize) -> (r: Option<(Option<String>, usize)>)
    requires
        i <= s@.len(),
    ensures
        r matches Some(p) ==> spec_parse_opt_string(s@, i as int) == Some(
            (view_opt(p.0), p.1 as int),
        ) && i < p.1 <= s@.len(),
        r is None ==> spec_parse_opt_string(s@, i as int) is None,
{
    if match_null(s, i) {
        assert(null_chars().len() == 4);
        let n = s.len();
        assert(i as int + 4 <= n as int);
        Some((None, i + 4))
    } else {
        match parse_string(s, i) {
            None => None,
            Some((v, e)) => Some((Some(v), e)),
        }
    }
}

/// Reads the value of the member named `key` and folds it into the builder,
/// as `spec_parse_value_for` says.
fn apply_member(b: MetaBuilder, key: &String, s: &Vec<char>, i: usize) -> (r: Option<
    (MetaBuilder, usize),
>)
    requires
        i <= s@.len(),
    ensures
        r matches Some(p) ==> spec_parse_value_for(b@, key@, s@, i as int) == Some(
            (p.0@, p.1 as int),
        ) && i < p.1 <= s@.len(),
        r is None ==> spec_parse_value_for(b@, key@, s@, i as int) is None,
{
    if str_eq(key.as_str(), "model_name") {
        if b.model_name.is_some() {
            None
        } else {
            match parse_string(s, i) {
                None => None,
                Some((v, e)) => Some((MetaBuilder { model_name: Some(v), ..b }, e)),
            }
        }
    } else if str_eq(key.as_str(), "model_type") {
        if b.model_type.is_some() {
            None
        } else {
            match parse_string(s, i) {
                None => None,
                Some((v, e)) => Some((MetaBuilder { model_type: Some(v), ..b }, e)),
            }
        }
    } else if str_eq(key.as_str(), "model_uri") {
        if b.model_uri.is_some() {
            None
        } else {
            match parse_string(s, i) {
                None => None,
                Some((v, e)) => Some((MetaBuilder { model_uri: Some(v), ..b }, e)),
            }
        }
    } else if str_eq(key.as_str(), "onnx_uri") {
        if b.onnx_uri.is_some() {
            None
        } else {
            match parse_opt_string(s, i) {
                None => None,
                Some((v, e)) => Some((MetaBuilder { onnx_uri: Some(v), ..b }, e)),
            }
        }
    } else if str_eq(key.as_str(), "quantized_model_uri") {
        if b.quantized_model_uri.is_some() {
            None
        } else {
            match parse_opt_string(s, i) {
                None => None,
                Some((v, e)) => Some((MetaBuilder { quantized_model_uri: Some(v), ..b }, e)),
            }
        }
    } else if str_eq(key.as_str(), "preprocessor_uri") {
        if b.preprocessor_uri.is_some() {
            None
        } else {
            match parse_opt_string(s, i) {
                None => None,
                Some((v, e)) => Some((MetaBuilder { preprocessor_uri: Some(v), ..b }, e)),
            }
        }
    } else if str_eq(key.as_str(), "tokenizer_uri") {
        if b.tokenizer_uri.is_some() {
            None
        } else {
            match parse_opt_string(s, i) {
                None => None,
                Some((v, e)) => Some((MetaBuilder { tokenizer_uri: Some(v), ..b }, e)),
            }
        }
    } else if str_eq(key.as_str(), "feature_extractor_uri") {
        if b.feature_extractor_uri.is_some() {
            None
        } else {
            match parse_opt_string(s, i) {
                None => None,
                Some((v, e)) => Some((MetaBuilder { feature_extractor_uri: Some(v), ..b }, e)),
            }
        }
    } else if str_eq(key.as_str(), "sample_data") {
        if b.sample_data.is_some() {
            None
        } else {
            match skip_value(s, i) {
                None => None,
                Some(e) => {
                    let raw = string_of_range(s, i, e);
                    Some((MetaBuilder { sample_data: Some(raw), ..b }, e))
                },
            }
        }
    } else if str_eq(key.as_str(), "data_schema") {
        if b.data_schema.is_some() {
            None
        } else {
            match skip_value(s, i) {
                None => None,
                Some(e) => {
                    let raw = string_of_range(s, i, e);
                    Some((MetaBuilder { data_schema: Some(raw), ..b }, e))
                },
            }
        }
    } else {
        match skip_value(s, i) {
            None => None,
            Some(e) => Some((b, e)),
        }
    }
}

fn meta_err() -> (r: RetrievalError)
    ensures
        r is MetadataParse,
{
    RetrievalError::MetadataParse("malformed metadata document".to_owned())
}

/// Reads a metadata document. Succeeds on exactly the documents that
/// `spec_parse_metadata` gives a value, and returns that value.
pub fn parse_metadata(text: &str) -> (r: Result<ModelMetadata, RetrievalError>)
    ensures
        r matches Ok(m) ==> spec_parse_metadata(text@) == Some(m@),
        r matches Err(e) ==> spec_parse_metadata(text@) is None && e is MetadataParse,
{
    let doc = chars_of(text);
    let i = skip_ws(&doc, 0);
    if !(i < doc.len()) || doc[i] != '{' {
        return Err(meta_err());
    }
    let j = skip_ws(&doc, i + 1);
    if j < doc.len() && doc[j] == '}' {
        // An empty object lacks the required members.
        return Err(meta_err());
    }
    let mut b = MetaBuilder::new();
    let mut pos = j;
    let ghost start = j as int;
    loop
        invariant
            pos <= doc@.len(),
            doc@ == text@,
            start == spec_skip_ws(text@, spec_skip_ws(text@, 0) + 1),
            0 <= spec_skip_ws(text@, 0),
            spec_skip_ws(text@, 0) + 1 <= start <= text@.len(),
            spec_skip_ws(text@, 0) < text@.len(),
            text@[spec_skip_ws(text@, 0)] == '{',
            !(start < text@.len() && text@[start] == '}'),
            spec_parse_members(doc@, start, empty_builder()) == spec_parse_members(
                doc@,
                pos as int,
                b@,
            ),
        decreases doc@.len() - pos,
    {
        let parsed_key = parse_string(&doc, pos);
        if parsed_key.is_none() {
            return Err(meta_err());
        }
        let (key, e) = parsed_key.unwrap();
        let jj = skip_ws(&doc, e);
        if !(jj < doc.len()) || doc[jj] != ':' {
            return Err(meta_err());
        }
        let k = skip_ws(&doc, jj + 1);
        match apply_member(b, &key, &doc, k) {
            None => {
                return Err(meta_err());
            },
            Some((b2, ve)) => {
                let m = skip_ws(&doc, ve);
                if m < doc.len() && doc[m] == ',' {
                    let n = skip_ws(&doc, m + 1);
                    b = b2;
                    pos = n;
                } else if m < doc.len() && doc[m] == '}' {
                    assert(spec_parse_members(doc@, pos as int, b@) == Some(
                        (b2@, m as int + 1),
                    ));
                    let t = skip_ws(&doc, m + 1);
                    if t == doc.len() {
                        match b2.finish() {
                            Some(meta) => {
                                return Ok(meta);
                            },
                            None => {
                                return Err(meta_err());
                            },
                        }
                    } else {
                        return Err(meta_err());
                    }
                } else {
                    return Err(meta_err());
                }
            },
        }
    }
}

/// One step of the reader over one written member: when the document from
/// `p` on reads an encoded key, a colon, a value of `vchars` characters, a
/// separator and then `rest`, and the value folds into the builder as
/// given, the member walk either continues after the comma or ends after
/// the brace.
#[verifier::rlimit(100)]
proof fn lemma_member_step(
    doc: Seq<char>,
    p: int,
    b: BuilderView,
    key: Seq<char>,
    vchars: Seq<char>,
    sep: char,
    rest: Seq<char>,
    b2: BuilderView,
)
    requires
        0 <= p <= doc.len(),
        doc.subrange(p, doc.len() as int) == encode_string(key) + seq![':'] + vchars + seq![sep]
            + rest,
        sep == ',' || sep == '}',
        vchars.len() > 0,
        !is_ws(vchars[0]),
        sep == ',' ==> rest.len() > 0 && !is_ws(rest[0]),
        spec_parse_value_for(b, key, doc, p + encode_string(key).len() + 1) == Some(
            (b2, p + encode_string(key).len() + 1 + vchars.len()),
        ),
    ensures
        ({
            let e = p + encode_string(key).len() + 1 + vchars.len() + 1;
            &&& sep == ',' ==> spec_parse_members(doc, p, b) == spec_parse_members(doc, e, b2)
            &&& sep == '}' ==> spec_parse_members(doc, p, b) == Some((b2, e))
            &&& e <= doc.len()
            &&& doc.subrange(e, doc.len() as int) == rest
        }),
{
    let ek = encode_string(key);
    let q = p + ek.len();
    let t1 = seq![':'] + vchars + seq![sep] + rest;
    assert(doc.subrange(p, doc.len() as int) =~= ek + t1);
    lemma_parse_encoded_string(doc, p, key, t1);
    lemma_suffix_shift(doc, p, ek, t1);
    assert(t1 =~= seq![':'] + (vchars + seq![sep] + rest));
    lemma_suffix_shift(doc, q, seq![':'], vchars + seq![sep] + rest);
    assert(doc[q + 0] == seq![':'][0]);
    assert(doc[q] == ':');
    assert(vchars + seq![sep] + rest =~= vchars + (seq![sep] + rest));
    lemma_suffix_shift(doc, q + 1, vchars, seq![sep] + rest);
    assert(doc[q + 1 + 0] == vchars[0]);
    assert(doc[q + 1] == vchars[0]);
    let ve = q + 1 + vchars.len();
    lemma_suffix_shift(doc, ve, seq![sep], rest);
    assert(doc[ve + 0] == seq![sep][0]);
    assert(doc[ve] == sep);
    assert(spec_parse_string(doc, p) == Some((key, q)));
    assert(spec_skip_ws(doc, q) == q);
    assert(spec_skip_ws(doc, q + 1) == q + 1);
    assert(spec_skip_ws(doc, ve) == ve);
    if sep == ',' {
        assert(doc[ve + 1] == rest[0]);
        assert(spec_skip_ws(doc, ve + 1) == ve + 1);
        assert(spec_parse_members(doc, p, b) == spec_parse_members(doc, ve + 1, b2));
    } else {
        assert(spec_parse_members(doc, p, b) == Some((b2, ve + 1)));
    }
}

/// The eight keys the writer emits are pairwise distinct.
proof fn lemma_keys_distinct()
    ensures
        "model_type"@ != "model_name"@,
        "model_uri"@ != "model_name"@,
        "model_uri"@ != "model_type"@,
        "onnx_uri"@ != "model_name"@,
        "onnx_uri"@ != "model_type"@,
        "onnx_uri"@ != "model_uri"@,
        "quantized_model_uri"@ != "model_name"@,
        "quantized_model_uri"@ != "model_type"@,
        "quantized_model_uri"@ != "model_uri"@,
        "quantized_model_uri"@ != "onnx_uri"@,
        "preprocessor_uri"@ != "model_name"@,
        "preprocessor_uri"@ != "model_type"@,
        "preprocessor_uri"@ != "model_uri"@,
        "preprocessor_uri"@ != "onnx_uri"@,
        "preprocessor_uri"@ != "quantized_model_uri"@,
        "tokenizer_uri"@ != "model_name"@,
        "tokenizer_uri"@ != "model_type"@,
        "tokenizer_uri"@ != "model_uri"@,
        "tokenizer_uri"@ != "onnx_uri"@,
        "tokenizer_uri"@ != "quantized_model_uri"@,
        "tokenizer_uri"@ != "preprocessor_uri"@,
        "feature_extractor_uri"@ != "model_name"@,
        "feature_extractor_uri"@ != "model_type"@,
        "feature_extractor_uri"@ != "model_uri"@,
        "feature_extractor_uri"@ != "onnx_uri"@,
        "feature_extractor_uri"@ != "quantized_model_uri"@,
        "feature_extractor_uri"@ != "preprocessor_uri"@,
        "feature_extractor_uri"@ != "tokenizer_uri"@,
        "sample_data"@ != "model_name"@,
        "sample_data"@ != "model_type"@,
        "sample_data"@ != "model_uri"@,
        "sample_data"@ != "onnx_uri"@,
        "sample_data"@ != "quantized_model_uri"@,
        "sample_data"@ != "preprocessor_uri"@,
        "sample_data"@ != "tokenizer_uri"@,
        "sample_data"@ != "feature_extractor_uri"@,
        "data_schema"@ != "model_name"@,
        "data_schema"@ != "model_type"@,
        "data_schema"@ != "model_uri"@,
        "data_schema"@ != "onnx_uri"@,
        "data_schema"@ != "quantized_model_uri"@,
        "data_schema"@ != "preprocessor_uri"@,
        "data_schema"@ != "tokenizer_uri"@,
        "data_schema"@ != "feature_extractor_uri"@,
        "data_schema"@ != "sample_data"@,
{
    reveal_strlit("model_name");
    reveal_strlit("model_type");
    reveal_strlit("model_uri");
    reveal_strlit("onnx_uri");
    reveal_strlit("quantized_model_uri");
    reveal_strlit("preprocessor_uri");
    reveal_strlit("tokenizer_uri");
    reveal_strlit("feature_extractor_uri");
    reveal_strlit("sample_data");
    reveal_strlit("data_schema");
    assert(("model_name"@).len() == 10);
    assert(("model_type"@).len() == 10);
    assert(("model_name"@)[6] == 'n');
    assert(("model_type"@)[6] == 't');
    assert(("model_uri"@).len() == 9);
    assert(("onnx_uri"@).len() == 8);
    assert(("quantized_model_uri"@).len() == 19);
    assert(("preprocessor_uri"@).len() == 16);
    assert(("tokenizer_uri"@).len() == 13);
    assert(("feature_extractor_uri"@).len() == 21);
    assert(("sample_data"@).len() == 11);
    assert(("data_schema"@).len() == 11);
    assert(("sample_data"@)[0] == 's');
    assert(("data_schema"@)[0] == 'd');
}

/// An encoded string starts with a quote.
proof fn lemma_encode_first(s: Seq<char>)
    ensures
        encode_string(s).len() >= 2,
        encode_string(s)[0] == '"',
{
    assert(encode_string(s)[0] == seq!['"'][0]);
}

/// Round trip: reading back a written metadata document yields the value
/// that was written. A carried-through schema block must hold the text of
/// one well-formed value — a block like `1,2` would corrupt the written
/// document, and such metadata never comes out of the reader.
#[verifier::rlimit(100)]
pub proof fn lemma_metadata_round_trip(m: MetadataView)
    requires
        m.sample_data matches Some(r) ==> spec_valid_value(r),
        m.data_schema matches Some(r) ==> spec_valid_value(r),
    ensures
        spec_parse_metadata(spec_ser_metadata(m)) == Some(m),
{
    let doc = spec_ser_metadata(m);
    assert(doc == seq!['{'] + ser_from_model_name(m));
    assert(doc.subrange(0, doc.len() as int) =~= doc);
    lemma_suffix_shift(doc, 0, seq!['{'], ser_from_model_name(m));
    assert(doc[0int + 0] == seq!['{'][0]);
    assert(doc[0] == '{');
    lemma_encode_first("model_name"@);
    assert(ser_from_model_name(m)[0] == encode_string("model_name"@)[0]);
    assert(doc.subrange(1, doc.len() as int)[0] == doc[1]);
    assert(doc[1] == '"');
    lemma_members_walk(m, doc, 1);
    assert(!is_ws('{') && !is_ws('"'));
    assert(spec_skip_ws(doc, 0) == 0);
    assert(spec_skip_ws(doc, 1) == 1);
    assert(spec_skip_ws(doc, doc.len() as int) == doc.len());
    assert(spec_finish(final_builder(m)) == Some(m));
    assert(spec_parse_metadata(doc) == Some(m));
}

/// The builder after the first four members were read.
spec fn builder_after_onnx(m: MetadataView) -> BuilderView {
    BuilderView {
        model_name: Some(m.model_name),
        model_type: Some(m.model_type),
        model_uri: Some(m.model_uri),
        onnx_uri: Some(m.onnx_uri),
        quantized_model_uri: None,
        preprocessor_uri: None,
        tokenizer_uri: None,
        feature_extractor_uri: None,
        sample_data: None,
        data_schema: None,
    }
}

/// The builder after all eight members were read.
spec fn final_builder(m: MetadataView) -> BuilderView {
    BuilderView {
        model_name: Some(m.model_name),
        model_type: Some(m.model_type),
        model_uri: Some(m.model_uri),
        onnx_uri: Some(m.onnx_uri),
        quantized_model_uri: Some(m.quantized_model_uri),
        preprocessor_uri: Some(m.preprocessor_uri),
        tokenizer_uri: Some(m.tokenizer_uri),
        feature_extractor_uri: Some(m.feature_extractor_uri),
        sample_data: m.sample_data,
        data_schema: m.data_schema,
    }
}

/// Walking the written members from `model_name` on reads them all back.
#[verifier::rlimit(100)]
proof fn lemma_members_walk(m: MetadataView, doc: Seq<char>, p: int)
    requires
        m.sample_data matches Some(r) ==> spec_valid_value(r),
        m.data_schema matches Some(r) ==> spec_valid_value(r),
        0 <= p <= doc.len(),
        doc.subrange(p, doc.len() as int) == ser_from_model_name(m),
    ensures
        spec_parse_members(doc, p, empty_builder()) == Some((final_builder(m), doc.len() as int)),
{
    lemma_keys_distinct();
    lemma_encode_first("model_type"@);
    lemma_encode_first("model_uri"@);
    lemma_encode_first("onnx_uri"@);
    lemma_encode_first("quantized_model_uri"@);
    assert(ser_from_model_type(m)[0] == encode_string("model_type"@)[0]);
    assert(ser_from_model_uri(m)[0] == encode_string("model_uri"@)[0]);
    assert(ser_from_onnx(m)[0] == encode_string("onnx_uri"@)[0]);
    assert(ser_from_quantized(m)[0] == encode_string("quantized_model_uri"@)[0]);
    let b0 = empty_builder();
    let b1 = BuilderView { model_name: Some(m.model_name), ..b0 };
    let b2 = BuilderView { model_type: Some(m.model_type), ..b1 };
    let b3 = BuilderView { model_uri: Some(m.model_uri), ..b2 };
    let b4 = BuilderView { onnx_uri: Some(m.onnx_uri), ..b3 };
    assert(b4 == builder_after_onnx(m));
    let p2 = lemma_one_string_member(
        doc,
        p,
        b0,
        "model_name"@,
        m.model_name,
        ',',
        ser_from_model_type(m),
        b1,
    );
    let p3 = lemma_one_string_member(
        doc,
        p2,
        b1,
        "model_type"@,
        m.model_type,
        ',',
        ser_from_model_uri(m),
        b2,
    );
    let p4 = lemma_one_string_member(
        doc,
        p3,
        b2,
        "model_uri"@,
        m.model_uri,
        ',',
        ser_from_onnx(m),
        b3,
    );
    let p5 = lemma_one_opt_member(
        doc,
        p4,
        b3,
        "onnx_uri"@,
        m.onnx_uri,
        ',',
        ser_from_quantized(m),
        b4,
    );
    lemma_members_tail(m, doc, p5);
}

/// Walking the written members from `quantized_model_uri` on reads the
/// last four back and ends at the document's end.
#[verifier::rlimit(100)]
proof fn lemma_members_tail(m: MetadataView, doc: Seq<char>, p: int)
    requires
        m.sample_data matches Some(r) ==> spec_valid_value(r),
        m.data_schema matches Some(r) ==> spec_valid_value(r),
        0 <= p <= doc.len(),
        doc.subrange(p, doc.len() as int) == ser_from_quantized(m),
    ensures
        spec_parse_members(doc, p, builder_after_onnx(m)) == Some(
            (final_builder(m), doc.len() as int),
        ),
{
    lemma_keys_distinct();
    lemma_encode_first("preprocessor_uri"@);
    lemma_encode_first("tokenizer_uri"@);
    lemma_encode_first("feature_extractor_uri"@);
    lemma_encode_first("sample_data"@);
    lemma_encode_first("data_schema"@);
    assert(ser_from_preprocessor(m)[0] == encode_string("preprocessor_uri"@)[0]);
    assert(ser_from_tokenizer(m)[0] == encode_string("tokenizer_uri"@)[0]);
    assert(ser_from_feature_extractor(m)[0] == encode_string("feature_extractor_uri"@)[0]);
    let b4 = builder_after_onnx(m);
    let b5 = BuilderView { quantized_model_uri: Some(m.quantized_model_uri), ..b4 };
    let b6 = BuilderView { preprocessor_uri: Some(m.preprocessor_uri), ..b5 };
    let b7 = BuilderView { tokenizer_uri: Some(m.tokenizer_uri), ..b6 };
    let b8 = BuilderView { feature_extractor_uri: Some(m.feature_extractor_uri), ..b7 };
    let p6 = lemma_one_opt_member(
        doc,
        p,
        b4,
        "quantized_model_uri"@,
        m.quantized_model_uri,
        ',',
        ser_from_preprocessor(m),
        b5,
    );
    let p7 = lemma_one_opt_member(
        doc,
        p6,
        b5,
        "preprocessor_uri"@,
        m.preprocessor_uri,
        ',',
        ser_from_tokenizer(m),
        b6,
    );
    let p8 = lemma_one_opt_member(
        doc,
        p7,
        b6,
        "tokenizer_uri"@,
        m.tokenizer_uri,
        ',',
        ser_from_feature_extractor(m),
        b7,
    );
    let empty = Seq::<char>::empty();
    let pe: int;
    match (m.sample_data, m.data_schema) {
        (None, None) => {
            assert(ser_from_feature_extractor(m) =~= encode_string("feature_extractor_uri"@)
                + seq![':'] + ser_opt(m.feature_extractor_uri) + seq!['}'] + empty);
            pe = lemma_one_opt_member(
                doc,
                p8,
                b7,
                "feature_extractor_uri"@,
                m.feature_extractor_uri,
                '}',
                empty,
                b8,
            );
            assert(b8 == final_builder(m));
        },
        (Some(r1), None) => {
            let rest8 = encode_string("sample_data"@) + seq![':'] + r1 + seq!['}'] + empty;
            assert(ser_from_feature_extractor(m) =~= encode_string("feature_extractor_uri"@)
                + seq![':'] + ser_opt(m.feature_extractor_uri) + seq![','] + rest8);
            assert(rest8[0] == encode_string("sample_data"@)[0]);
            let p9 = lemma_one_opt_member(
                doc,
                p8,
                b7,
                "feature_extractor_uri"@,
                m.feature_extractor_uri,
                ',',
                rest8,
                b8,
            );
            let b9 = BuilderView { sample_data: Some(r1), ..b8 };
            pe = lemma_one_raw_member(doc, p9, b8, "sample_data"@, r1, '}', empty, b9);
            assert(b9 == final_builder(m));
        },
        (None, Some(r2)) => {
            let rest8 = encode_string("data_schema"@) + seq![':'] + r2 + seq!['}'] + empty;
            assert(ser_from_feature_extractor(m) =~= encode_string("feature_extractor_uri"@)
                + seq![':'] + ser_opt(m.feature_extractor_uri) + seq![','] + rest8);
            assert(rest8[0] == encode_string("data_schema"@)[0]);
            let p9 = lemma_one_opt_member(
                doc,
                p8,
                b7,
                "feature_extractor_uri"@,
                m.feature_extractor_uri,
                ',',
                rest8,
                b8,
            );
            let b9 = BuilderView { data_schema: Some(r2), ..b8 };
            pe = lemma_one_raw_member(doc, p9, b8, "data_schema"@, r2, '}', empty, b9);
            assert(b9 == final_builder(m));
        },
        (Some(r1), Some(r2)) => {
            let rest9 = encode_string("data_schema"@) + seq![':'] + r2 + seq!['}'] + empty;
            let rest8 = encode_string("sample_data"@) + seq![':'] + r1 + seq![','] + rest9;
            assert(ser_from_feature_extractor(m) =~= encode_string("feature_extractor_uri"@)
                + seq![':'] + ser_opt(m.feature_extractor_uri) + seq![','] + rest8);
            assert(rest8[0] == encode_string("sample_data"@)[0]);
            assert(rest9[0] == encode_string("data_schema"@)[0]);
            let p9 = lemma_one_opt_member(
                doc,
                p8,
                b7,
                "feature_extractor_uri"@,
                m.feature_extractor_uri,
                ',',
                rest8,
                b8,
            );
            let b9 = BuilderView { sample_data: Some(r1), ..b8 };
            let p10 = lemma_one_raw_member(doc, p9, b8, "sample_data"@, r1, ',', rest9, b9);
            let b10 = BuilderView { data_schema: Some(r2), ..b9 };
            pe = lemma_one_raw_member(doc, p10, b9, "data_schema"@, r2, '}', empty, b10);
            assert(b10 == final_builder(m));
        },
    }
    assert(doc.subrange(pe, doc.len() as int).len() == 0);
    assert(pe == doc.len());
}

/// One written member whose value is a required string: the member walk
/// moves from `p` to the returned position, folding the value in.
#[verifier::rlimit(100)]
proof fn lemma_one_string_member(
    doc: Seq<char>,
    p: int,
    b: BuilderView,
    key: Seq<char>,
    val: Seq<char>,
    sep: char,
    rest: Seq<char>,
    b2: BuilderView,
) -> (e: int)
    requires
        0 <= p <= doc.len(),
        doc.subrange(p, doc.len() as int) == encode_string(key) + seq![':'] + encode_string(val)
            + seq![sep] + rest,
        sep == ',' || sep == '}',
        sep == ',' ==> rest.len() > 0 && rest[0] == '"',
        key == "model_name"@ || key == "model_type"@ || key == "model_uri"@,
        key == "model_name"@ ==> b.model_name is None && b2 == (BuilderView {
            model_name: Some(val),
            ..b
        }),
        key == "model_type"@ ==> key != "model_name"@ && b.model_type is None && b2 == (BuilderView {
            model_type: Some(val),
            ..b
        }),
        key == "model_uri"@ ==> key != "model_name"@ && key != "model_type"@ && b.model_uri is None
            && b2 == (BuilderView { model_uri: Some(val), ..b }),
    ensures
        e == p + encode_string(key).len() + 1 + encode_string(val).len() + 1,
        e <= doc.len(),
        doc.subrange(e, doc.len() as int) == rest,
        sep == ',' ==> spec_parse_members(doc, p, b) == spec_parse_members(doc, e, b2),
        sep == '}' ==> spec_parse_members(doc, p, b) == Some((b2, e)),
{
    let ek = encode_string(key);
    let ev = encode_string(val);
    let vpos = p + ek.len() + 1;
    assert(doc.subrange(p, doc.len() as int) =~= (ek + seq![':']) + (ev + seq![sep] + rest));
    lemma_suffix_shift(doc, p, ek + seq![':'], ev + seq![sep] + rest);
    assert(doc.subrange(vpos, doc.len() as int) =~= ev + (seq![sep] + rest));
    lemma_parse_encoded_string(doc, vpos, val, seq![sep] + rest);
    assert(spec_parse_string(doc, vpos) == Some((val, vpos + ev.len())));
    assert(spec_parse_value_for(b, key, doc, vpos) == Some((b2, vpos + ev.len())));
    assert(ev[0] == '"');
    assert(!is_ws('"'));
    lemma_member_step(doc, p, b, key, ev, sep, rest, b2);
    p + ek.len() + 1 + ev.len() + 1
}

/// One written member whose value is an optional string: the literal
/// `null` when the field is absent, the encoded string otherwise.
#[verifier::rlimit(100)]
proof fn lemma_one_opt_member(
    doc: Seq<char>,
    p: int,
    b: BuilderView,
    key: Seq<char>,
    val: Option<Seq<char>>,
    sep: char,
    rest: Seq<char>,
    b2: BuilderView,
) -> (e: int)
    requires
        0 <= p <= doc.len(),
        doc.subrange(p, doc.len() as int) == encode_string(key) + seq![':'] + ser_opt(val)
            + seq![sep] + rest,
        sep == ',' || sep == '}',
        sep == ',' ==> rest.len() > 0 && rest[0] == '"',
        key != "model_name"@ && key != "model_type"@ && key != "model_uri"@,
        key == "onnx_uri"@ || key == "quantized_model_uri"@ || key == "preprocessor_uri"@ || key
            == "tokenizer_uri"@ || key == "feature_extractor_uri"@,
        key == "onnx_uri"@ ==> b.onnx_uri is None && b2 == (BuilderView { onnx_uri: Some(val), ..b }),
        key == "quantized_model_uri"@ ==> key != "onnx_uri"@ && b.quantized_model_uri is None && b2
            == (BuilderView { quantized_model_uri: Some(val), ..b }),
        key == "preprocessor_uri"@ ==> key != "onnx_uri"@ && key != "quantized_model_uri"@
            && b.preprocessor_uri is None && b2 == (BuilderView {
            preprocessor_uri: Some(val),
            ..b
        }),
        key == "tokenizer_uri"@ ==> key != "onnx_uri"@ && key != "quantized_model_uri"@ && key
            != "preprocessor_uri"@ && b.tokenizer_uri is None && b2 == (BuilderView {
            tokenizer_uri: Some(val),
            ..b
        }),
        key == "feature_extractor_uri"@ ==> key != "onnx_uri"@ && key != "quantized_model_uri"@
            && key != "preprocessor_uri"@ && key != "tokenizer_uri"@
            && b.feature_extractor_uri is None && b2 == (BuilderView {
            feature_extractor_uri: Some(val),
            ..b
        }),
    ensures
        e == p + encode_string(key).len() + 1 + ser_opt(val).len() + 1,
        e <= doc.len(),
        doc.subrange(e, doc.len() as int) == rest,
        sep == ',' ==> spec_parse_members(doc, p, b) == spec_parse_members(doc, e, b2),
        sep == '}' ==> spec_parse_members(doc, p, b) == Some((b2, e)),
{
    let ek = encode_string(key);
    let ev = ser_opt(val);
    let vpos = p + ek.len() + 1;
    assert(doc.subrange(p, doc.len() as int) =~= (ek + seq![':']) + (ev + seq![sep] + rest));
    lemma_suffix_shift(doc, p, ek + seq![':'], ev + seq![sep] + rest);
    match val {
        Some(v) => {
            assert(ev == encode_string(v));
            assert(doc.subrange(vpos, doc.len() as int) =~= ev + (seq![sep] + rest));
            lemma_parse_encoded_string(doc, vpos, v, seq![sep] + rest);
            assert(ev[0] == '"');
            assert(doc[vpos + 0] == ev[0]);
            if spec_match_lit(doc, vpos, null_chars()) {
                assert(doc.subrange(vpos, vpos + 4)[0] == doc[vpos]);
                assert(null_chars()[0] == 'n');
            }
            assert(!spec_match_lit(doc, vpos, null_chars()));
            assert(spec_parse_opt_string(doc, vpos) == Some((Some(v), vpos + ev.len())));
            assert(spec_parse_value_for(b, key, doc, vpos) == Some((b2, vpos + ev.len())));
        },
        None => {
            assert(ev == null_chars());
            assert(ev.len() == 4);
            assert(doc.subrange(vpos, doc.len() as int) =~= ev + (seq![sep] + rest));
            lemma_suffix_shift(doc, vpos, ev, seq![sep] + rest);
            assert(doc.subrange(vpos, vpos + 4) =~= null_chars());
            assert(spec_match_lit(doc, vpos, null_chars()));
            assert(spec_parse_opt_string(doc, vpos) == Some(
                (None::<Seq<char>>, vpos + ev.len()),
            ));
            assert(spec_parse_value_for(b, key, doc, vpos) == Some((b2, vpos + ev.len())));
        },
    }
    assert(!is_ws(ev[0]));
    lemma_member_step(doc, p, b, key, ev, sep, rest, b2);
    p + ek.len() + 1 + ev.len() + 1
}

/// One written member whose value is a carried-through schema block,
/// emitted verbatim: the reader steps over it and captures the same text.
#[verifier::rlimit(100)]
proof fn lemma_one_raw_member(
    doc: Seq<char>,
    p: int,
    b: BuilderView,
    key: Seq<char>,
    raw: Seq<char>,
    sep: char,
    rest: Seq<char>,
    b2: BuilderView,
) -> (e: int)
    requires
        0 <= p <= doc.len(),
        doc.subrange(p, doc.len() as int) == encode_string(key) + seq![':'] + raw + seq![sep]
            + rest,
        sep == ',' || sep == '}',
        sep == ',' ==> rest.len() > 0 && rest[0] == '"',
        spec_valid_value(raw),
        key != "model_name"@ && key != "model_type"@ && key != "model_uri"@ && key != "onnx_uri"@
            && key != "quantized_model_uri"@ && key != "preprocessor_uri"@ && key
            != "tokenizer_uri"@ && key != "feature_extractor_uri"@,
        key == "sample_data"@ || key == "data_schema"@,
        key == "sample_data"@ ==> b.sample_data is None && b2 == (BuilderView {
            sample_data: Some(raw),
            ..b
        }),
        key == "data_schema"@ ==> key != "sample_data"@ && b.data_schema is None && b2
            == (BuilderView { data_schema: Some(raw), ..b }),
    ensures
        e == p + encode_string(key).len() + 1 + raw.len() + 1,
        e <= doc.len(),
        doc.subrange(e, doc.len() as int) == rest,
        sep == ',' ==> spec_parse_members(doc, p, b) == spec_parse_members(doc, e, b2),
        sep == '}' ==> spec_parse_members(doc, p, b) == Some((b2, e)),
{
    let ek = encode_string(key);
    let vpos = p + ek.len() + 1;
    assert(doc.subrange(p, doc.len() as int) =~= (ek + seq![':']) + (raw + seq![sep] + rest));
    lemma_suffix_shift(doc, p, ek + seq![':'], raw + seq![sep] + rest);
    assert(doc.subrange(vpos, doc.len() as int) =~= raw + (seq![sep] + rest));
    lemma_suffix_shift(doc, vpos, raw, seq![sep] + rest);
    lemma_value_start_not_ws(raw, 0);
    assert(range_copied(raw, 0, raw.len() as int, doc, vpos)) by {
        assert(forall|k: int| 0 <= k < raw.len() ==> #[trigger] doc[vpos + k] == raw[k]);
    }
    assert(doc[vpos + raw.len() + 0] == (seq![sep] + rest)[0]);
    assert(!is_number_char(doc[vpos + raw.len()]));
    lemma_skip_value_local(raw, 0, raw.len() as int, doc, vpos);
    assert(spec_skip_value(doc, vpos) == Some(vpos + raw.len()));
    assert(doc.subrange(vpos, vpos + raw.len()) =~= raw);
    assert(spec_parse_value_for(b, key, doc, vpos) == Some((b2, vpos + raw.len())));
    assert(doc[vpos + 0] == raw[0]);
    assert(!is_ws(raw[0]));
    lemma_member_step(doc, p, b, key, raw, sep, rest, b2);
    p + ek.len() + 1 + raw.len() + 1
}

impl ModelMetadata {
    fn append_from_feature_extractor(&self, out: &mut String)
        ensures
            final(out)@ == old(out)@ + ser_from_feature_extractor(self@),
    {
        append_key_colon(out, "feature_extractor_uri");
        append_opt(out, &self.feature_extractor_uri);
        append_raw(out, "sample_data", &self.sample_data);
        append_raw(out, "data_schema", &self.data_schema);
        push_char(out, '}');
        assert(out@ =~= old(out)@ + ser_from_feature_extractor(self@));
    }

    fn append_from_tokenizer(&self, out: &mut String)
        ensures
            final(out)@ == old(out)@ + ser_from_tokenizer(self@),
    {
        append_key_colon(out, "tokenizer_uri");
        append_opt(out, &self.tokenizer_uri);
        push_char(out, ',');
        self.append_from_feature_extractor(out);
        assert(out@ =~= old(out)@ + ser_from_tokenizer(self@));
    }

    fn append_from_preprocessor(&self, out: &mut String)
        ensures
            final(out)@ == old(out)@ + ser_from_preprocessor(self@),
    {
        append_key_colon(out, "preprocessor_uri");
        append_opt(out, &self.preprocessor_uri);
        push_char(out, ',');
        self.append_from_tokenizer(out);
        assert(out@ =~= old(out)@ + ser_from_preprocessor(self@));
    }

    fn append_from_quantized(&self, out: &mut String)
        ensures
            final(out)@ == old(out)@ + ser_from_quantized(self@),
    {
        append_key_colon(out, "quantized_model_uri");
        append_opt(out, &self.quantized_model_uri);
        push_char(out, ',');
        self.append_from_preprocessor(out);
        assert(out@ =~= old(out)@ + ser_from_quantized(self@));
    }

    fn append_from_onnx(&self, out: &mut String)
        ensures
            final(out)@ == old(out)@ + ser_from_onnx(self@),
    {
        append_key_colon(out, "onnx_uri");
        append_opt(out, &self.onnx_uri);
        push_char(out, ',');
        self.append_from_quantized(out);
        assert(out@ =~= old(out)@ + ser_from_onnx(self@));
    }

    fn append_from_model_uri(&self, out: &mut String)
        ensures
            final(out)@ == old(out)@ + ser_from_model_uri(self@),
    {
        append_key_colon(out, "model_uri");
        append_encoded(out, self.model_uri.as_str());
        push_char(out, ',');
        self.append_from_onnx(out);
        assert(out@ =~= old(out)@ + ser_from_model_uri(self@));
    }

    fn append_from_model_type(&self, out: &mut String)
        ensures
            final(out)@ == old(out)@ + ser_from_model_type(self@),
    {
        append_key_colon(out, "model_type");
        append_encoded(out, self.model_type.as_str());
        push_char(out, ',');
        self.append_from_model_uri(out);
        assert(out@ =~= old(out)@ + ser_from_model_type(self@));
    }

    fn append_from_model_name(&self, out: &mut String)
        ensures
            final(out)@ == old(out)@ + ser_from_model_name(self@),
    {
        append_key_colon(out, "model_name");
        append_encoded(out, self.model_name.as_str());
        push_char(out, ',');
        self.append_from_model_type(out);
        assert(out@ =~= old(out)@ + ser_from_model_name(self@));
    }

    /// Writes the metadata document that `parse_metadata` reads back.
    pub fn to_json(&self) -> (r: String)
        ensures
            r@ == spec_ser_metadata(self@),
    {
        let mut out = String::new();
        push_char(&mut out, '{');
        self.append_from_model_name(&mut out);
        assert(out@ =~= spec_ser_metadata(self@));
        out
    }
}

} // verus!
