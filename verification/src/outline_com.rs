//! The archive at outline.com.
use vstd::prelude::*;

use crate::networking::{plain_get, Request};
use crate::query::{field, query_field};

verus! {

/// Why a page was not archived.
#[derive(Debug, Clone, Copy, PartialEq, Eq, Structural)]
pub enum OutlineComError {
    NoSuccess,
    NoShortCode,
}

impl OutlineComError {
    /// What went wrong, for a reader.
    pub fn message(&self) -> (text: &'static str)
        ensures
            text@ == (match self {
                OutlineComError::NoSuccess => "!response.success"@,
                OutlineComError::NoShortCode => "short_code.is_empty()"@,
            }),
    {
        match self {
            OutlineComError::NoSuccess => "!response.success",
            OutlineComError::NoShortCode => "short_code.is_empty()",
        }
    }
}

/// Asks to archive a page.
pub fn archive_request(source_url: &str) -> (request: Request)
    ensures
        request@ == plain_get(
            "https://api.outline.com/v3/parse_article?"@ + field("source_url"@, source_url@),
        ),
{
    let mut uri = "https://api.outline.com/v3/parse_article?".to_owned();
    uri.append(query_field("source_url", source_url).as_str());
    Request::get(uri)
}

/// Where the page was archived, by what was answered.
pub fn archived_url(success: bool, short_code: &str) -> (url: Result<String, OutlineComError>)
    ensures
        match url {
            Ok(url) => {
                &&& success
                &&& short_code@.len() > 0
                &&& url@ == "https://outline.com/"@ + short_code@
            },
            Err(OutlineComError::NoSuccess) => !success,
            Err(OutlineComError::NoShortCode) => success && short_code@.len() == 0,
        },
{
    if !success {
        return Err(OutlineComError::NoSuccess);
    }
    if short_code.is_empty() {
        return Err(OutlineComError::NoShortCode);
    }
    let mut url = "https://outline.com/".to_owned();
    url.append(short_code);
    Ok(url)
}

} // verus!
