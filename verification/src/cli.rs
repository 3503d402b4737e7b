//! What the user asks for.

use vstd::prelude::*;

verus! {

/// The substituter that is checked unless the user names another.
pub const DEFAULT_BINARY_CACHE: &'static str = "https://cache.nixos.org";

/// The flake whose packages are checked unless the user names something else.
pub const DEFAULT_FLAKE: &'static str = "nixpkgs";

/// The options of a run.
#[derive(Clone, Debug, PartialEq, Eq)]
pub struct Cli {
    /// A list of Nix installables to look for. If not given, all paths in nixpkgs are checked
    pub installables: Option<Vec<String>>,
    /// Flake reference pointing to a NixOS or nix-darwin configuration
    pub configuration: Option<String>,
    /// Flake reference pointing to a standalone home-manager configuration
    pub home: Option<String>,
    /// URLs of the substituters to check
    pub binary_caches: Vec<String>,
    /// Flake reference of nixpkgs (or other package repository)
    pub flake: String,
    /// Show a list of store paths not found in the substituter
    pub show_missing: bool,
}

/// Where the store paths of a run come from.
#[derive(Debug, PartialEq, Eq)]
pub enum Source<'a> {
    /// From evaluating these installables.
    Installables(&'a Vec<String>),
    /// From the closure of the NixOS or nix-darwin configuration at this
    /// flake reference.
    Configuration(&'a String),
    /// From the closure of the home-manager configuration at this flake
    /// reference.
    Home(&'a String),
    /// From evaluating every package of the flake at this reference.
    Flake(&'a String),
}

impl Cli {
    /// Where the store paths come from: the installables if some are given,
    /// else the configuration, else the home configuration, else every
    /// package of the flake.
    pub fn source(&self) -> (source: Source<'_>)
        ensures
            source == if let Some(installables) = &self.installables {
                Source::Installables(installables)
            } else if let Some(configuration) = &self.configuration {
                Source::Configuration(configuration)
            } else if let Some(home) = &self.home {
                Source::Home(home)
            } else {
                Source::Flake(&self.flake)
            },
    {
        if let Some(installables) = &self.installables {
            Source::Installables(installables)
        } else if let Some(configuration) = &self.configuration {
            Source::Configuration(configuration)
        } else if let Some(home) = &self.home {
            Source::Home(home)
        } else {
            Source::Flake(&self.flake)
        }
    }
}

impl Default for Cli {
    /// The options of a user who gave none: every package of `nixpkgs`
    /// against `https://cache.nixos.org`.
    fn default() -> (cli: Cli)
        ensures
            cli.installables is None,
            cli.configuration is None,
            cli.home is None,
            cli.binary_caches.deep_view() == seq![DEFAULT_BINARY_CACHE@],
            cli.flake@ == DEFAULT_FLAKE@,
            !cli.show_missing,
    {
        let mut binary_caches: Vec<String> = Vec::new();
        binary_caches.push(String::from_str(DEFAULT_BINARY_CACHE));
        assert(binary_caches.deep_view() =~= seq![DEFAULT_BINARY_CACHE@]);
        Cli {
            installables: None,
            configuration: None,
            home: None,
            binary_caches,
            flake: String::from_str(DEFAULT_FLAKE),
            show_missing: false,
        }
    }
}

} // verus!
