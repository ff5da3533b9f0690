//! What the program is asked to do.

use crate::report::Ecosystem;
use crate::scan::Options;
use crate::text::Text;
use vstd::prelude::*;

verus! {

/// A command with its arguments.
#[derive(Debug)]
pub enum Subcommand {
    /// Show crates that depend on a given crate.
    WhoDepends(String),
    /// Show dependency changes since a git revision.
    Diff(Option<String>, DiffFlags),
    /// Show what changed between two bills of materials.
    SbomDiff(String, String),
}

/// The ecosystems that a diff was asked for.
#[derive(Clone, Copy, Debug, PartialEq, Eq, Structural)]
pub struct DiffFlags {
    pub cargo: bool,
    pub npm: bool,
    pub pypi: bool,
    pub go: bool,
}

/// What stands on the command line.
#[derive(Debug)]
pub struct Flags {
    pub aur: Option<String>,
    pub cargo: bool,
    pub npm: bool,
    pub pypi: bool,
    pub go: bool,
    pub json: bool,
    pub stale: bool,
    pub ci: bool,
    pub licenses: bool,
    pub verbose: bool,
    pub sbom: bool,
    pub package: Option<String>,
    pub command: Option<Subcommand>,
}

/// What the program does.
#[derive(Debug)]
pub enum Action {
    /// Shows the crates that depend on a crate.
    WhoDepends(String),
    /// Compares with a git revision, in an ecosystem if one was asked for.
    Diff(String, Option<&'static str>),
    /// Compares two bills of materials.
    SbomDiff(String, String),
    /// Scans the dependencies of an ecosystem.
    Scan(Ecosystem, Options),
    /// Searches the AUR.
    Search(String),
    /// Shows a package of the AUR.
    Package(String),
    /// Nothing, for the given reason.
    Refuse(String),
}

/// What an `Action` holds.
pub enum ActionView {
    WhoDepends(Text),
    Diff(Text, Option<Text>),
    SbomDiff(Text, Text),
    Scan(Ecosystem, Options),
    Search(Text),
    Package(Text),
    Refuse(Text),
}

impl DeepView for Action {
    type V = ActionView;

    open spec fn deep_view(&self) -> ActionView {
        match self {
            Action::WhoDepends(name) => ActionView::WhoDepends(name@),
            Action::Diff(old_ref, eco) => ActionView::Diff(old_ref@, eco.deep_view()),
            Action::SbomDiff(a, b) => ActionView::SbomDiff(a@, b@),
            Action::Scan(kind, opts) => ActionView::Scan(*kind, *opts),
            Action::Search(query) => ActionView::Search(query@),
            Action::Package(name) => ActionView::Package(name@),
            Action::Refuse(why) => ActionView::Refuse(why@),
        }
    }
}

/// The ecosystem that a diff was asked for: the first of those named.
pub open spec fn diff_ecosystem(flags: DiffFlags) -> Option<Text> {
    if flags.cargo {
        Some("cargo"@)
    } else if flags.npm {
        Some("npm"@)
    } else if flags.pypi {
        Some("pypi"@)
    } else if flags.go {
        Some("go"@)
    } else {
        None
    }
}

/// The options of a scan.
pub open spec fn options(flags: Flags) -> Options {
    Options {
        stale_only: flags.stale,
        output_json: flags.json,
        ci: flags.ci,
        licenses: flags.licenses,
        verbose: flags.verbose,
        sbom: flags.sbom,
    }
}

/// A scan of the installed packages; there is no lockfile to make a bill of
/// materials from.
pub open spec fn aur_scan(flags: Flags) -> ActionView {
    if flags.sbom {
        ActionView::Refuse("❌ AUR scanning is not supported with --sbom"@)
    } else {
        ActionView::Scan(Ecosystem::Aur, options(flags))
    }
}

/// What the program does: a command comes first, the scan of an ecosystem
/// second, a search of the AUR third, one package last, and without any of
/// these the installed packages are scanned.
pub open spec fn action(flags: Flags) -> ActionView {
    match flags.command {
        Some(Subcommand::WhoDepends(name)) => ActionView::WhoDepends(name@),
        Some(Subcommand::Diff(old_ref, ecos)) => ActionView::Diff(
            match old_ref {
                Some(r) => r@,
                None => "HEAD~1"@,
            },
            diff_ecosystem(ecos),
        ),
        Some(Subcommand::SbomDiff(a, b)) => ActionView::SbomDiff(a@, b@),
        None => if flags.cargo {
            ActionView::Scan(Ecosystem::Cargo, options(flags))
        } else if flags.npm {
            ActionView::Scan(Ecosystem::Npm, options(flags))
        } else if flags.pypi {
            ActionView::Scan(Ecosystem::Pypi, options(flags))
        } else if flags.go {
            ActionView::Scan(Ecosystem::Go, options(flags))
        } else {
            match flags.aur {
                Some(query) => ActionView::Search(query@),
                None => if flags.stale {
                    aur_scan(flags)
                } else {
                    match flags.package {
                        Some(name) => ActionView::Package(name@),
                        None => aur_scan(flags),
                    }
                },
            }
        },
    }
}

/// A scan of the installed packages.
fn scan_aur(opts: Options) -> (r: Action)
    ensures
        r.deep_view() == if opts.sbom {
            ActionView::Refuse("❌ AUR scanning is not supported with --sbom"@)
        } else {
            ActionView::Scan(Ecosystem::Aur, opts)
        },
{
    if opts.sbom {
        Action::Refuse("❌ AUR scanning is not supported with --sbom".to_owned())
    } else {
        Action::Scan(Ecosystem::Aur, opts)
    }
}

/// What the program does.
pub fn decide(flags: Flags) -> (r: Action)
    ensures
        r.deep_view() == action(flags),
{
    let opts = Options {
        stale_only: flags.stale,
        output_json: flags.json,
        ci: flags.ci,
        licenses: flags.licenses,
        verbose: flags.verbose,
        sbom: flags.sbom,
    };
    match flags.command {
        Some(Subcommand::WhoDepends(name)) => Action::WhoDepends(name),
        Some(Subcommand::Diff(old_ref, ecos)) => {
            let against = match old_ref {
                Some(r) => r,
                None => "HEAD~1".to_owned(),
            };
            let eco = if ecos.cargo {
                Some("cargo")
            } else if ecos.npm {
                Some("npm")
            } else if ecos.pypi {
                Some("pypi")
            } else if ecos.go {
                Some("go")
            } else {
                None
            };
            Action::Diff(against, eco)
        },
        Some(Subcommand::SbomDiff(a, b)) => Action::SbomDiff(a, b),
        None => {
            if flags.cargo {
                return Action::Scan(Ecosystem::Cargo, opts);
            }
            if flags.npm {
                return Action::Scan(Ecosystem::Npm, opts);
            }
            if flags.pypi {
                return Action::Scan(Ecosystem::Pypi, opts);
            }
            if flags.go {
                return Action::Scan(Ecosystem::Go, opts);
            }
            if let Some(query) = flags.aur {
                return Action::Search(query);
            }
            if flags.stale {
                return scan_aur(opts);
            }
            match flags.package {
                Some(name) => Action::Package(name),
                None => scan_aur(opts),
            }
        },
    }
}

} // verus!
