//! Verified core of the bug-bounty research vault server: input validation,
//! version matching, severity ranking, result aggregation, and the parsers
//! behind every recon tool.

pub mod text;
pub mod common;
pub mod component_intel;
pub mod wordpress_vuln_scan;
pub mod severity;
pub mod attack_surface;
pub mod security_headers;
pub mod wordpress_paths;
pub mod status;
pub mod jobs;
pub mod result_cache;
pub mod wordpress;
pub mod wp_html;
pub mod ordering;
pub mod wordpress_plugins;
pub mod wordpress_themes;
pub mod wordpress_users;
pub mod wordpress_xmlrpc;
pub mod wordpress_rest;
pub mod cors_check;
pub mod open_redirect;
pub mod pattern;
pub mod wp_org;
pub mod js_analysis;
pub mod cli;
pub mod cli_tools;
pub mod vuln_scan;
pub mod findings;
pub mod cve;
pub mod chunking;
pub mod library;
pub mod file_tree;
pub mod catalogue;
pub mod wp_urls;
