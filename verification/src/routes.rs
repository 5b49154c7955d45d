//! The registry's routes and the URLs the engine asks for.
//!
//! The base URL of the registry is explicit configuration: every function
//! here takes it as an argument and appends a fixed route, and for the two
//! file endpoints a `path` query parameter.

use vstd::prelude::*;

verus! {

/// The registry's endpoints.
pub enum OpsmlPaths {
    ListCard,
    MetadataDownload,
    ListFile,
    Download,
    Metric,
    CompareMetric,
}

impl OpsmlPaths {
    /// The fixed route of this endpoint under the registry's base URL.
    pub open spec fn spec_route(&self) -> Seq<char> {
        match self {
            OpsmlPaths::ListCard => "/opsml/cards/list"@,
            OpsmlPaths::MetadataDownload => "/opsml/models/metadata"@,
            OpsmlPaths::ListFile => "/opsml/files/list"@,
            OpsmlPaths::Download => "/opsml/files/download"@,
            OpsmlPaths::Metric => "/opsml/models/metrics"@,
            OpsmlPaths::CompareMetric => "/opsml/models/compare_metrics"@,
        }
    }

    /// The endpoint's full URL on the registry at `base`.
    pub fn as_str(&self, base: &str) -> (r: String)
        ensures
            r@ == base@ + self.spec_route(),
    {
        let mut s = base.to_owned();
        match self {
            OpsmlPaths::ListCard => s.append("/opsml/cards/list"),
            OpsmlPaths::MetadataDownload => s.append("/opsml/models/metadata"),
            OpsmlPaths::ListFile => s.append("/opsml/files/list"),
            OpsmlPaths::Download => s.append("/opsml/files/download"),
            OpsmlPaths::Metric => s.append("/opsml/models/metrics"),
            OpsmlPaths::CompareMetric => s.append("/opsml/models/compare_metrics"),
        }
        s
    }
}

/// Builders for the URLs of the engine's requests. The network calls made
/// against them live with the calling program, not here.
pub struct RouteHelper {}

impl RouteHelper {
    /// The URL asking the registry to list the files under `rpath`.
    pub fn list_files_url(base: &str, rpath: &str) -> (r: String)
        ensures
            r@ == base@ + "/opsml/files/list"@ + "?path="@ + rpath@,
    {
        let mut s = OpsmlPaths::ListFile.as_str(base);
        s.append("?path=");
        s.append(rpath);
        s
    }

    /// The URL asking the registry for the contents of the file `rpath`.
    pub fn download_url(base: &str, rpath: &str) -> (r: String)
        ensures
            r@ == base@ + "/opsml/files/download"@ + "?path="@ + rpath@,
    {
        let mut s = OpsmlPaths::Download.as_str(base);
        s.append("?path=");
        s.append(rpath);
        s
    }
}

} // verus!
