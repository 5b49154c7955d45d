//! The plain data the command layer hands the library and the registry's
//! tabular answers. These carry values only; the commands around them —
//! argument parsing, table rendering, the metric comparison printout — are
//! the calling program's.

use std::collections::HashMap;
use vstd::prelude::*;

verus! {

/// Arguments of the card-listing command.
pub struct ListCards {
    pub registry: String,
    pub name: Option<String>,
    pub team: Option<String>,
    pub version: Option<String>,
    pub uid: Option<String>,
    pub limit: Option<i16>,
    pub tag_name: Option<Vec<String>>,
    pub tag_value: Option<Vec<String>>,
    pub max_date: Option<String>,
    pub ignore_release_candidates: bool,
}

/// Arguments of the metadata-download command.
pub struct ModelMetadataArgs {
    pub name: Option<String>,
    pub version: Option<String>,
    pub uid: Option<String>,
    pub write_dir: String,
    pub ignore_release_candidates: bool,
}

/// Arguments of the model-download command.
pub struct DownloadModelArgs {
    pub name: Option<String>,
    pub version: Option<String>,
    pub uid: Option<String>,
    pub write_dir: String,
    pub onnx: bool,
    pub quantize: bool,
    pub preprocessor: bool,
    pub ignore_release_candidates: bool,
}

/// Arguments of the metric-listing command.
pub struct ModelMetricArgs {
    pub name: Option<String>,
    pub version: Option<String>,
    pub uid: Option<String>,
}

/// Arguments of the metric-comparison command.
pub struct CompareMetricArgs {
    pub metric_name: Vec<String>,
    pub lower_is_better: Vec<bool>,
    pub challenger_uid: String,
    pub champion_uid: Vec<String>,
}

/// Arguments of the application-launch command.
pub struct LaunchAppArgs {
    pub login: bool,
    pub port: i32,
}

/// The body of a card-listing request.
pub struct ListTableRequest {
    pub registry_type: String,
    pub name: Option<String>,
    pub team: Option<String>,
    pub version: Option<String>,
    pub uid: Option<String>,
    pub limit: Option<i16>,
    pub tags: HashMap<String, String>,
    pub max_date: Option<String>,
    pub ignore_release_candidates: bool,
}

/// The body of a metric request: one card's identity.
pub struct CardRequest {
    pub name: Option<String>,
    pub version: Option<String>,
    pub uid: Option<String>,
}

/// One card of the registry's listing answer.
pub struct Card {
    pub name: String,
    pub team: String,
    pub date: String,
    pub user_email: String,
    pub version: String,
    pub uid: String,
    pub tags: HashMap<String, String>,
}

/// The registry's answer to a card-listing request.
pub struct ListCardResponse {
    pub cards: Vec<Card>,
}

/// One row of the rendered card table.
pub struct CardTable {
    pub name: String,
    pub team: String,
    pub date: String,
    pub user_email: String,
    pub version: String,
    pub uid: String,
}

/// The body of a metric-comparison request.
pub struct CompareMetricRequest {
    pub metric_name: Vec<String>,
    pub lower_is_better: Vec<bool>,
    pub challenger_uid: String,
    pub champion_uid: Vec<String>,
}

/// The table rows for one card, drawn from the card's fields.
pub fn card_table_row(card: &Card) -> (r: CardTable)
    ensures
        r.name@ == card.name@,
        r.team@ == card.team@,
        r.date@ == card.date@,
        r.user_email@ == card.user_email@,
        r.version@ == card.version@,
        r.uid@ == card.uid@,
{
    CardTable {
        name: card.name.clone(),
        team: card.team.clone(),
        date: card.date.clone(),
        user_email: card.user_email.clone(),
        version: card.version.clone(),
        uid: card.uid.clone(),
    }
}

} // verus!
