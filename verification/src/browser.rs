//! How a browser is started.

use vstd::prelude::*;

use crate::commands::encoder::text_value;
use crate::events::wire::some_text;
use crate::json::{
    add_some, add_value, one_member, out_members_view, record, some_member, start_record,
    text_or_null, JsonOut, JsonValue, JsonView, OutView,
};
use crate::text::{clone_opt, opt_text};

verus! {

/// Whether the browser shows a window.
#[derive(Debug, Clone, Copy, PartialEq, Eq, Structural)]
pub enum BrowserMode {
    Headless,
    Headful,
}

impl Default for BrowserMode {
    fn default() -> (res: Self)
        ensures
            res == BrowserMode::Headless,
    {
        BrowserMode::Headless
    }
}

/// How a browser is started.
#[derive(Debug, PartialEq, Eq)]
pub struct BrowserConfig {
    pub mode: BrowserMode,
    pub start_url: Option<String>,
    pub download_dir: Option<String>,
    pub upload_dir: Option<String>,
}

/// The contents of a `BrowserConfig`.
#[verifier::ext_equal]
pub struct ConfigView {
    pub mode: BrowserMode,
    pub start_url: Option<Seq<char>>,
    pub download_dir: Option<Seq<char>>,
    pub upload_dir: Option<Seq<char>>,
}

impl View for BrowserConfig {
    type V = ConfigView;

    open spec fn view(&self) -> ConfigView {
        ConfigView {
            mode: self.mode,
            start_url: opt_text(self.start_url),
            download_dir: opt_text(self.download_dir),
            upload_dir: opt_text(self.upload_dir),
        }
    }
}

impl Clone for BrowserConfig {
    fn clone(&self) -> (res: Self)
        ensures
            res@ == self@,
    {
        BrowserConfig {
            mode: self.mode,
            start_url: clone_opt(&self.start_url),
            download_dir: clone_opt(&self.download_dir),
            upload_dir: clone_opt(&self.upload_dir),
        }
    }
}

impl Default for BrowserConfig {
    fn default() -> (res: Self)
        ensures
            res@ == (ConfigView {
                mode: BrowserMode::Headless,
                start_url: None,
                download_dir: None,
                upload_dir: None,
            }),
    {
        BrowserConfig {
            mode: BrowserMode::Headless,
            start_url: None,
            download_dir: None,
            upload_dir: None,
        }
    }
}

/// The record of how a browser is started, as it is handed to the host.
pub open spec fn config_record(c: ConfigView) -> OutView {
    let mode = match c.mode {
        BrowserMode::Headless => "headless"@,
        BrowserMode::Headful => "headful"@,
    };
    OutView::Record(
        one_member("mode"@, JsonView::Text(mode)) + one_member(
            "start_url"@,
            text_or_null(c.start_url),
        ) + some_member("download_dir"@, some_text(c.download_dir)) + some_member(
            "upload_dir"@,
            some_text(c.upload_dir),
        ),
    )
}

impl BrowserConfig {
    /// The record of how a browser is started.
    pub fn to_out(&self) -> (res: JsonOut)
        ensures
            res@ == config_record(self@),
    {
        let mode = match self.mode {
            BrowserMode::Headless => "headless",
            BrowserMode::Headful => "headful",
        };
        let mut members = start_record();
        add_value(&mut members, "mode", JsonValue::text(mode));
        assert(out_members_view(members@) =~= one_member("mode"@, JsonView::Text(mode@)));
        add_value(&mut members, "start_url", JsonValue::opt_text(&self.start_url));
        add_some(&mut members, "download_dir", text_value(&self.download_dir));
        add_some(&mut members, "upload_dir", text_value(&self.upload_dir));
        record(members)
    }
}

/// The configuration of a browser can be read back from its record: the mode by its name, the
/// address, or nothing where there is none, and the directories where they are given.
pub proof fn law_config_is_read_back(c: ConfigView)
    ensures
        ({
            let r = config_record(c);
            let text = |v: Option<JsonView>|
                match v {
                    Some(JsonView::Text(t)) => Some(t),
                    _ => None,
                };
            &&& crate::json::found(r, "mode"@) == Some(
                JsonView::Text(
                    if c.mode == BrowserMode::Headless {
                        "headless"@
                    } else {
                        "headful"@
                    },
                ),
            )
            &&& crate::json::found(r, "start_url"@) is Some
            &&& text(crate::json::found(r, "start_url"@)) == c.start_url
            &&& text(crate::json::found(r, "download_dir"@)) == c.download_dir
            &&& text(crate::json::found(r, "upload_dir"@)) == c.upload_dir
        }),
{
    broadcast use crate::json::group_found;

    reveal_strlit("mode");
    reveal_strlit("start_url");
    reveal_strlit("download_dir");
    reveal_strlit("upload_dir");
    assert("mode"@.len() == 4 && "start_url"@.len() == 9 && "download_dir"@.len() == 12 && "upload_dir"@.len() == 10);
}

/// The contents of a configuration are all its parts, each as it is.
pub proof fn law_contents_of_browser_config(x: BrowserConfig)
    ensures
        ({
            &&& x@.mode == x.mode
            &&& x.start_url is Some ==> x@.start_url == Some(x.start_url->Some_0@)
            &&& x.start_url is None ==> x@.start_url is None
            &&& x.download_dir is Some ==> x@.download_dir == Some(x.download_dir->Some_0@)
            &&& x.download_dir is None ==> x@.download_dir is None
            &&& x.upload_dir is Some ==> x@.upload_dir == Some(x.upload_dir->Some_0@)
            &&& x.upload_dir is None ==> x@.upload_dir is None
        }),
{
}

} // verus!
