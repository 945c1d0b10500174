//! Reed.toml configuration structure and its validation.
//!
//! Reading the file and decoding its TOML happen where the file is read;
//! this module holds the decoded structure and the rules it must meet.
use vstd::prelude::*;
use crate::cli::parser::strings_view;
use crate::reedstream::{is_validation_error, validation_error, ReedResult};
use crate::report::{join_seqs, join_strings};
use crate::text::{copy_string, push_str, str_starts_with, str_to_string, starts_with, to_chars};

verus! {

/// Complete Reed.toml configuration structure.
#[derive(Debug, Clone)]
pub struct ReedConfig {
    pub project: ProjectConfig,
    pub server: ServerConfig,
}

/// Project configuration section.
#[derive(Debug, Clone)]
pub struct ProjectConfig {
    pub name: String,
    pub url: String,
    pub description: Option<String>,
    pub languages: LanguageConfig,
    pub routing: RoutingConfig,
    pub templates: TemplateConfig,
    pub assets: AssetConfig,
    pub build: BuildConfig,
}

/// Language configuration.
#[derive(Debug, Clone)]
pub struct LanguageConfig {
    pub default: String,
    pub available: Vec<String>,
    pub fallback_chain: bool,
}

/// Routing configuration.
#[derive(Debug, Clone, Copy)]
pub struct RoutingConfig {
    pub url_prefix: bool,
    pub trailing_slash: bool,
}

/// Template configuration.
#[derive(Debug, Clone, Copy)]
pub struct TemplateConfig {
    pub auto_reload: bool,
    pub cache_templates: bool,
}

/// Asset configuration.
#[derive(Debug, Clone, Copy)]
pub struct AssetConfig {
    pub css_minify: bool,
    pub css_bundle: bool,
}

/// Build configuration.
#[derive(Debug, Clone, Copy)]
pub struct BuildConfig {
    pub clean_before: bool,
    pub parallel: bool,
}

/// Server configuration.
#[derive(Debug, Clone)]
pub struct ServerConfig {
    pub workers: usize,
    pub dev: ServerEnvironmentConfig,
    pub prod: ServerEnvironmentConfig,
}

/// Server environment-specific configuration.
#[derive(Debug, Clone)]
pub struct ServerEnvironmentConfig {
    pub domain: String,
    pub io: String,
    pub enable_cors: bool,
    pub allowed_origins: Vec<String>,
    pub enable_rate_limit: bool,
    pub requests_per_minute: u32,
    pub enable_compression: bool,
    pub enable_http2: bool,
    pub keep_alive: u64,
}

impl Default for RoutingConfig {
    /// A section left out of Reed.toml: both switches off.
    fn default() -> (r: RoutingConfig)
        ensures
            !r.url_prefix,
            !r.trailing_slash,
    {
        RoutingConfig { url_prefix: false, trailing_slash: false }
    }
}

impl Default for TemplateConfig {
    /// A section left out of Reed.toml: both switches off.
    fn default() -> (r: TemplateConfig)
        ensures
            !r.auto_reload,
            !r.cache_templates,
    {
        TemplateConfig { auto_reload: false, cache_templates: false }
    }
}

impl Default for AssetConfig {
    /// A section left out of Reed.toml: both switches off.
    fn default() -> (r: AssetConfig)
        ensures
            !r.css_minify,
            !r.css_bundle,
    {
        AssetConfig { css_minify: false, css_bundle: false }
    }
}

impl Default for BuildConfig {
    /// A section left out of Reed.toml: both switches off.
    fn default() -> (r: BuildConfig)
        ensures
            !r.clean_before,
            !r.parallel,
    {
        BuildConfig { clean_before: false, parallel: false }
    }
}

impl Default for ServerEnvironmentConfig {
    /// An environment left out of Reed.toml: empty texts, all off, zero.
    fn default() -> (r: ServerEnvironmentConfig)
        ensures
            r.domain@ == Seq::<char>::empty(),
            r.io@ == Seq::<char>::empty(),
            !r.enable_cors,
            r.allowed_origins@.len() == 0,
            !r.enable_rate_limit,
            r.requests_per_minute == 0,
            !r.enable_compression,
            !r.enable_http2,
            r.keep_alive == 0,
    {
        ServerEnvironmentConfig {
            domain: String::new(),
            io: String::new(),
            enable_cors: false,
            allowed_origins: Vec::new(),
            enable_rate_limit: false,
            requests_per_minute: 0,
            enable_compression: false,
            enable_http2: false,
            keep_alive: 0,
        }
    }
}

impl Default for ServerConfig {
    /// A `[server]` section left out of Reed.toml: automatic workers and
    /// default environments.
    fn default() -> (r: ServerConfig)
        ensures
            r.workers == 0,
            r.dev.domain@ == Seq::<char>::empty(),
            r.dev.allowed_origins@.len() == 0,
            r.dev.requests_per_minute == 0,
            r.dev.keep_alive == 0,
            r.prod.domain@ == Seq::<char>::empty(),
            r.prod.allowed_origins@.len() == 0,
            r.prod.requests_per_minute == 0,
            r.prod.keep_alive == 0,
    {
        ServerConfig {
            workers: 0,
            dev: ServerEnvironmentConfig::default(),
            prod: ServerEnvironmentConfig::default(),
        }
    }
}

/// The first rule of Reed.toml that the configuration breaks, as the
/// field, the offending value and the constraint; `None` when valid.
pub open spec fn config_violation(c: ReedConfig) -> Option<(Seq<char>, Seq<char>, Seq<char>)> {
    let p = c.project;
    let langs = strings_view(p.languages.available@);
    if p.name@.len() == 0 || p.name@.len() > 100 {
        Some(("project.name"@, p.name@, "1-100 characters"@))
    } else if !starts_with(p.url@, "http://"@) && !starts_with(p.url@, "https://"@) {
        Some(("project.url"@, p.url@, "Must start with http:// or https://"@))
    } else if langs.len() == 0 {
        Some(("project.languages.available"@, "[]"@, "At least one language required"@))
    } else if !langs.contains(p.languages.default@) {
        Some(
            (
                "project.languages.default"@,
                p.languages.default@,
                "Must be one of: "@ + join_seqs(langs, ", "@),
            ),
        )
    } else {
        None
    }
}

/// Validates Reed.toml configuration.
///
/// The project name must hold 1 to 100 characters, the URL must start with
/// `http://` or `https://`, at least one language must be available and
/// the default language must be one of them. The first rule broken is
/// reported as a validation error.
pub fn validate_config(config: &ReedConfig) -> (r: ReedResult<()>)
    ensures
        match config_violation(*config) {
            None => r is Ok,
            Some((f, v, c)) => r matches Err(e) && is_validation_error(e, f, v, c),
        },
{
    let p = &config.project;
    if p.name.as_str().is_empty() || to_chars(p.name.as_str()).len() > 100 {
        return Err(
            validation_error("project.name", copy_string(&p.name), str_to_string("1-100 characters")),
        );
    }
    if !str_starts_with(p.url.as_str(), "http://") && !str_starts_with(p.url.as_str(), "https://") {
        return Err(
            validation_error(
                "project.url",
                copy_string(&p.url),
                str_to_string("Must start with http:// or https://"),
            ),
        );
    }
    if p.languages.available.len() == 0 {
        return Err(
            validation_error(
                "project.languages.available",
                str_to_string("[]"),
                str_to_string("At least one language required"),
            ),
        );
    }
    if !crate::lists::contains_string(&p.languages.available, p.languages.default.as_str()) {
        let mut constraint = str_to_string("Must be one of: ");
        let joined = join_strings(&p.languages.available, ", ");
        push_str(&mut constraint, joined.as_str());
        return Err(
            validation_error("project.languages.default", copy_string(&p.languages.default), constraint),
        );
    }
    Ok(())
}

} // verus!
