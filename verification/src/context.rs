//! Resolution of the build environment.
//!
//! Each `BuildContext` field is resolved by a strict two-step priority:
//! an explicit override, when present, is returned verbatim and
//! short-circuits the computed default; otherwise the default is computed
//! from the raw output of a host discovery command. `discovery_plan` says
//! which discovery commands a resolution will consult, so a caller never
//! runs a command whose answer an override makes irrelevant.

use vstd::prelude::*;
use vstd::string::*;

verus! {

/// Configuration overrides, one per resolvable `BuildContext` field.
/// A present field fully replaces the computed default, with no validation.
pub struct Overrides {
    pub kernel_base: Option<String>,
    pub arch: Option<String>,
    pub triplet: Option<String>,
    pub clang_include: Option<String>,
    pub user_include: Option<String>,
}

/// Raw outputs of the host discovery commands, present where queried.
/// A command that ran but printed nothing yields an empty string here,
/// which becomes the default verbatim.
pub struct Discovered {
    /// Output of the kernel-release query.
    pub kernel_release: Option<String>,
    /// Output of the host machine-type query.
    pub machine: Option<String>,
    /// Output of the compiler target-triplet query.
    pub triplet: Option<String>,
    /// Output of the compiler builtin-include query.
    pub clang_include: Option<String>,
}

/// Which discovery commands a resolution with the given overrides needs.
pub struct DiscoveryPlan {
    pub kernel_release: bool,
    pub machine: bool,
    pub triplet: bool,
    pub clang_include: bool,
}

/// The resolved build environment, immutable once constructed.
pub struct BuildContext {
    /// Root of the kernel header tree.
    pub kernel_base: String,
    /// Target architecture token.
    pub arch: String,
    /// Target compiler triplet.
    pub triplet: String,
    /// Compiler builtin include path.
    pub clang_include: String,
    /// Userland headers path for the triplet.
    pub user_include: String,
    /// Caller-supplied extra include path, passed through verbatim.
    pub local_include: Option<String>,
}

/// Default kernel header root, templated with the running kernel release.
pub open spec fn kernel_base_default(release: Seq<char>) -> Seq<char> {
    "/lib/modules/"@ + release + "/build/"@
}

/// Architecture normalization: the two historical aliases map to `x86`;
/// any other token passes through unchanged.
pub open spec fn normalized_arch(machine: Seq<char>) -> Seq<char> {
    if machine == "x86_64"@ || machine == "i386"@ {
        "x86"@
    } else {
        machine
    }
}

/// Default userland include path for a triplet.
pub open spec fn user_include_default(triplet: Seq<char>) -> Seq<char> {
    "/usr/include/"@ + triplet
}

pub open spec fn resolved_kernel_base(ov: &Overrides, d: &Discovered) -> Seq<char> {
    match ov.kernel_base {
        Some(s) => s@,
        None => kernel_base_default(d.kernel_release->Some_0@),
    }
}

pub open spec fn resolved_arch(ov: &Overrides, d: &Discovered) -> Seq<char> {
    match ov.arch {
        Some(s) => s@,
        None => normalized_arch(d.machine->Some_0@),
    }
}

pub open spec fn resolved_triplet(ov: &Overrides, d: &Discovered) -> Seq<char> {
    match ov.triplet {
        Some(s) => s@,
        None => d.triplet->Some_0@,
    }
}

pub open spec fn resolved_clang_include(ov: &Overrides, d: &Discovered) -> Seq<char> {
    match ov.clang_include {
        Some(s) => s@,
        None => d.clang_include->Some_0@,
    }
}

pub open spec fn resolved_user_include(ov: &Overrides, d: &Discovered) -> Seq<char> {
    match ov.user_include {
        Some(s) => s@,
        None => user_include_default(resolved_triplet(ov, d)),
    }
}

/// Says which discovery commands `BuildContext::new` will consult: exactly
/// those whose field has no override. The userland include path needs no
/// command of its own; its default is templated from the resolved triplet.
pub fn discovery_plan(ov: &Overrides) -> (p: DiscoveryPlan)
    ensures
        p.kernel_release == (ov.kernel_base is None),
        p.machine == (ov.arch is None),
        p.triplet == (ov.triplet is None),
        p.clang_include == (ov.clang_include is None),
{
    DiscoveryPlan {
        kernel_release: ov.kernel_base.is_none(),
        machine: ov.arch.is_none(),
        triplet: ov.triplet.is_none(),
        clang_include: ov.clang_include.is_none(),
    }
}

/// Architecture normalization of a discovered machine type.
pub fn normalize_arch(machine: String) -> (r: String)
    ensures
        r@ == normalized_arch(machine@),
{
    if machine == String::from_str("x86_64") || machine == String::from_str("i386") {
        String::from_str("x86")
    } else {
        machine
    }
}

impl BuildContext {
    /// Resolves the build environment. Each field takes its override when
    /// present, else the default computed from the corresponding discovery
    /// output, which must then be present.
    pub fn new(ov: Overrides, d: Discovered, local_include: Option<String>) -> (r: BuildContext)
        requires
            ov.kernel_base is None ==> d.kernel_release is Some,
            ov.arch is None ==> d.machine is Some,
            ov.triplet is None ==> d.triplet is Some,
            ov.clang_include is None ==> d.clang_include is Some,
        ensures
            r.kernel_base@ == resolved_kernel_base(&ov, &d),
            r.arch@ == resolved_arch(&ov, &d),
            r.triplet@ == resolved_triplet(&ov, &d),
            r.clang_include@ == resolved_clang_include(&ov, &d),
            r.user_include@ == resolved_user_include(&ov, &d),
            r.local_include == local_include,
    {
        let Overrides {
            kernel_base: ov_kernel_base,
            arch: ov_arch,
            triplet: ov_triplet,
            clang_include: ov_clang_include,
            user_include: ov_user_include,
        } = ov;
        let Discovered {
            kernel_release: d_kernel_release,
            machine: d_machine,
            triplet: d_triplet,
            clang_include: d_clang_include,
        } = d;

        let kernel_base = match ov_kernel_base {
            Some(s) => s,
            None => {
                let release = d_kernel_release.unwrap();
                String::from_str("/lib/modules/").concat(release.as_str()).concat("/build/")
            },
        };
        let arch = match ov_arch {
            Some(s) => s,
            None => normalize_arch(d_machine.unwrap()),
        };
        let triplet = match ov_triplet {
            Some(s) => s,
            None => d_triplet.unwrap(),
        };
        let clang_include = match ov_clang_include {
            Some(s) => s,
            None => d_clang_include.unwrap(),
        };
        let user_include = match ov_user_include {
            Some(s) => s,
            None => String::from_str("/usr/include/").concat(triplet.as_str()),
        };

        BuildContext { kernel_base, arch, triplet, clang_include, user_include, local_include }
    }
}

/// Law: setting a field's override makes resolution return exactly that
/// value, and the field's discovery command is not among those a resolution
/// needs, so pointing discovery at a nonexistent command cannot fail.
pub proof fn lemma_override_wins(ov: Overrides, d: Discovered)
    ensures
        ov.kernel_base matches Some(s) ==> resolved_kernel_base(&ov, &d) == s@,
        ov.arch matches Some(s) ==> resolved_arch(&ov, &d) == s@,
        ov.triplet matches Some(s) ==> resolved_triplet(&ov, &d) == s@,
        ov.clang_include matches Some(s) ==> resolved_clang_include(&ov, &d) == s@,
        ov.user_include matches Some(s) ==> resolved_user_include(&ov, &d) == s@,
{
}

/// Law: an overridden field resolves independently of every discovery
/// output: fields are resolved independently of one another's commands.
pub proof fn lemma_override_ignores_discovery(ov: Overrides, d1: Discovered, d2: Discovered)
    ensures
        ov.kernel_base is Some ==> resolved_kernel_base(&ov, &d1) == resolved_kernel_base(&ov, &d2),
        ov.arch is Some ==> resolved_arch(&ov, &d1) == resolved_arch(&ov, &d2),
        ov.triplet is Some ==> resolved_triplet(&ov, &d1) == resolved_triplet(&ov, &d2),
        ov.clang_include is Some ==> resolved_clang_include(&ov, &d1) == resolved_clang_include(
            &ov,
            &d2,
        ),
        ov.user_include is Some ==> resolved_user_include(&ov, &d1) == resolved_user_include(
            &ov,
            &d2,
        ),
{
}

} // verus!
