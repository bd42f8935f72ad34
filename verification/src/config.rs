//! The read-only configuration a request's handling context carries. It
//! is loaded by the surrounding application (outside this library) and
//! injected into each request; the request logic reads the site URL, the
//! storage engine's root is `paths.data`.

use vstd::prelude::*;

verus! {

/// The site as clients see it.
#[derive(Clone, Debug)]
pub struct Site {
    /// Base URL used to build redirect and plain-text links.
    pub url: String,
    /// Public listen address.
    pub serve: String,
}

/// The directories the service works with.
#[derive(Clone, Debug)]
pub struct Paths {
    /// Template directory, read by the external template collaborator.
    pub templates: String,
    /// Static asset directory, served by the external asset collaborator.
    pub assets: String,
    /// The storage root: one file per paste, named by its identifier.
    pub data: String,
}

/// The whole configuration.
#[derive(Clone, Debug)]
pub struct Config {
    pub site: Site,
    pub paths: Paths,
}

} // verus!
