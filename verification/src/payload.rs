//! What the page sent to the client for hydration carries beside its data:
//! the bundles to load in production and the development server's settings
//! in development.
use vstd::prelude::*;
use crate::config::ServerConfig;
use crate::manifest::{Manifest, spec_bundle_for_path};
use crate::mode::Mode;
use crate::text::views;

verus! {

/// The scripts and style sheets that the page loads.
#[derive(Debug)]
pub struct Bundles {
    pub js_bundles: Option<Vec<String>>,
    pub css_bundles: Option<Vec<String>>,
}

/// The bundles of the page at `pathname`: in production those of the
/// manifest for the path, in development none (the development server
/// serves the sources).
pub fn client_bundles(mode: Mode, manifest: &Manifest, pathname: &str) -> (res: Bundles)
    ensures
        mode == Mode::Dev ==> res.js_bundles is None && res.css_bundles is None,
        mode == Mode::Prod ==> (res.js_bundles matches Some(js) && views(js@) == spec_bundle_for_path(
            manifest@,
            pathname@,
        ).js),
        mode == Mode::Prod ==> (res.css_bundles matches Some(css) && views(css@) == spec_bundle_for_path(
            manifest@,
            pathname@,
        ).css),
{
    match mode {
        Mode::Prod => {
            let bundle = manifest.get_bundle_from_pathname(pathname);
            Bundles { js_bundles: Some(bundle.js_files), css_bundles: Some(bundle.css_files) }
        },
        Mode::Dev => Bundles { js_bundles: None, css_bundles: None },
    }
}

/// The development server's settings that the page carries: the server's
/// in development, none in production.
pub fn dev_server_config(mode: Mode, server: &ServerConfig) -> (res: Option<&ServerConfig>)
    ensures
        mode == Mode::Dev ==> res == Some(server),
        mode == Mode::Prod ==> res is None,
{
    match mode {
        Mode::Dev => Some(server),
        Mode::Prod => None,
    }
}

} // verus!
