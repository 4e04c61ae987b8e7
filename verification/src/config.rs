//! The configuration snapshot the core consumes: feature toggles, server and
//! TLS addresses, static-directory settings, template sources and route
//! definitions, all as plain values. Parsing the on-disk format is the
//! configuration collaborator's business and happens outside this crate.

use vstd::prelude::*;

verus! {

/// Feature toggles, with their secure fallbacks as defaults.
#[derive(Clone)]
pub struct Config {
    pub enable_hot_reload: bool,
    pub fast_mem_cache: bool,
    pub enable_cache_control: bool,
    pub enable_directory_listing: bool,
    pub minify_html: bool,
    pub follow_symlinks: bool,
    pub enable_logging: bool,
}

impl Default for Config {
    /// The secure fallback toggles: hot reload, the memory cache and
    /// cache-control headers on; directory listing, minification, symlink
    /// following and logging off.
    fn default() -> (c: Config)
        ensures
            c.enable_hot_reload,
            c.fast_mem_cache,
            c.enable_cache_control,
            !c.enable_directory_listing,
            !c.minify_html,
            !c.follow_symlinks,
            !c.enable_logging,
    {
        Config {
            enable_hot_reload: true,
            fast_mem_cache: true,
            enable_cache_control: true,
            enable_directory_listing: false,
            minify_html: false,
            follow_symlinks: false,
            enable_logging: false,
        }
    }
}

/// TLS settings: the address to bind, the switch, and the key and
/// certificate file paths.
#[derive(Clone)]
pub struct Tls {
    pub host: Vec<u8>,
    pub enable: bool,
    pub key: Vec<u8>,
    pub cert: Vec<u8>,
}

/// The server address and its TLS settings.
#[derive(Clone)]
pub struct Server {
    pub host: Vec<u8>,
    pub tls: Tls,
}

/// Bulk static-file settings: the directory served as-is, the URL it is
/// mounted at, and per-status error-page overrides.
#[derive(Clone)]
pub struct Static {
    pub directory: Vec<u8>,
    pub served_from: Vec<u8>,
    pub error_pages: Vec<(i16, Vec<u8>)>,
}

/// Template settings: named partial sources and render variables.
#[derive(Clone)]
pub struct Template {
    pub partials: Vec<(Vec<u8>, Vec<u8>)>,
    pub variables: Vec<(Vec<u8>, Vec<u8>)>,
}

/// A route definition from the configuration: a URL path or prefix and the
/// file or directory path it serves.
#[derive(Clone)]
pub struct RouteDef {
    pub route: Vec<u8>,
    pub path: Vec<u8>,
}

/// One immutable configuration snapshot, handed in at build time and on each
/// reload.
#[derive(Clone)]
pub struct BinserveConfig {
    pub server: Server,
    pub routes: Vec<RouteDef>,
    pub static_files: Static,
    pub template: Template,
    pub config: Config,
    pub insert_headers: Vec<(Vec<u8>, Vec<u8>)>,
}

} // verus!
