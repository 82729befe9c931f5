//! Request and response shapes that callers exchange with the store's users.

use std::collections::HashMap;
use vstd::prelude::*;

verus! {

pub struct AuthCallback {
    pub code: String,
    pub state: String,
}

pub struct DevLoginRequest {
    pub username: String,
    pub password: String,
}

/// The caller on whose behalf an operation runs.
pub struct AuthenticatedUser {
    pub id: String,
    pub email: String,
    pub name: String,
    pub provider: String,
}

/// Names of the bundled front-end entry files.
pub struct AssetEntrypoints {
    pub app: String,
    pub upload: String,
    pub valuations: String,
    pub css_rewrites: HashMap<String, String>,
}

pub struct CreateCharityRequest {
    pub name: String,
    pub ein: Option<String>,
    pub category: Option<String>,
    pub status: Option<String>,
    pub classification: Option<String>,
    pub nonprofit_type: Option<String>,
    pub deductibility: Option<String>,
    pub street: Option<String>,
    pub city: Option<String>,
    pub state: Option<String>,
    pub zip: Option<String>,
}

pub struct UpdateCharityRequest {
    pub name: String,
    pub ein: Option<String>,
    pub category: Option<String>,
    pub status: Option<String>,
    pub classification: Option<String>,
    pub nonprofit_type: Option<String>,
    pub deductibility: Option<String>,
    pub street: Option<String>,
    pub city: Option<String>,
    pub state: Option<String>,
    pub zip: Option<String>,
}

pub struct CharityResponse {
    pub id: String,
    pub name: String,
    pub ein: Option<String>,
    pub category: Option<String>,
    pub status: Option<String>,
    pub classification: Option<String>,
    pub nonprofit_type: Option<String>,
    pub deductibility: Option<String>,
    pub street: Option<String>,
    pub city: Option<String>,
    pub state: Option<String>,
    pub zip: Option<String>,
}

pub struct ImportCsvRequest {
    pub csv: String,
}

pub struct ListParams {
    pub year: Option<i32>,
    pub since: Option<String>,
}

pub struct UploadRequest {
    pub file_type: String,
    pub donation_id: Option<String>,
}

pub struct PresignReadRequest {
    pub key: String,
}

pub struct ConfirmReceiptRequest {
    pub key: String,
    pub file_name: Option<String>,
    pub content_type: Option<String>,
    pub size: Option<i64>,
    pub donation_id: String,
}

pub struct ListReceiptsParams {
    pub donation_id: Option<String>,
}

pub struct OcrRequest {
    pub id: String,
}

pub struct ExportParams {
    pub year: Option<i32>,
}

pub struct YearsResponse {
    pub years: Vec<i32>,
}

pub struct AuditExportParams {
    pub since: Option<String>,
}

pub struct ValRequest {
    pub query: String,
}

} // verus!
