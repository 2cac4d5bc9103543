//! How much a site says an account has uploaded and downloaded.

use crate::text::opt_text;
use vstd::prelude::*;

verus! {

/// The traffic that a site shows for an account.
#[derive(Debug, Clone)]
pub struct SiteTraffic {
    pub upload: Option<String>,
    pub download: Option<String>,
    pub ratio: Option<String>,
}

/// What a `SiteTraffic` says.
pub struct TrafficView {
    pub upload: Option<Seq<char>>,
    pub download: Option<Seq<char>>,
    pub ratio: Option<Seq<char>>,
}

impl View for SiteTraffic {
    type V = TrafficView;

    open spec fn view(&self) -> TrafficView {
        TrafficView {
            upload: opt_text(self.upload),
            download: opt_text(self.download),
            ratio: opt_text(self.ratio),
        }
    }
}

/// A value, or the word for one that was not recognised.
pub open spec fn or_unrecognised(v: Option<Seq<char>>) -> Seq<char> {
    match v {
        Some(t) => t,
        None => "未识别"@,
    }
}

fn recognised(v: &Option<String>) -> (r: &str)
    ensures
        r@ == or_unrecognised(opt_text(*v)),
{
    match v {
        Some(t) => t.as_str(),
        None => "未识别",
    }
}

impl SiteTraffic {
    /// Whether anything was recognised.
    pub fn available(&self) -> (r: bool)
        ensures
            r == (self@.upload is Some || self@.download is Some || self@.ratio is Some),
    {
        self.upload.is_some() || self.download.is_some() || self.ratio.is_some()
    }

    /// The traffic in one line.
    pub fn summary(&self) -> (r: String)
        ensures
            r@ == "上传 "@ + or_unrecognised(self@.upload) + "，下载 "@ + or_unrecognised(
                self@.download,
            ) + "，分享率 "@ + or_unrecognised(self@.ratio),
    {
        "上传 ".to_string().concat(recognised(&self.upload)).concat("，下载 ").concat(
            recognised(&self.download),
        ).concat("，分享率 ").concat(recognised(&self.ratio))
    }
}

} // verus!
