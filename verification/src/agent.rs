//! Release metadata and the user-agent string sent with every counting
//! request: it carries the release name, version, variant and architecture,
//! never a client identity.

use vstd::prelude::*;
use vstd::string::*;

verus! {

/// Host release metadata, as read from the OS release file by the caller.
pub struct ReleaseInfo {
    /// Release name, e.g. a distribution name.
    pub name: String,
    /// Release version identifier.
    pub version_id: String,
    /// Optional variant identifier; a fixed placeholder is used when absent.
    pub variant_id: Option<String>,
}

/// The variant reported when the release file names none.
pub open spec fn spec_variant(variant_id: Option<String>) -> Seq<char> {
    match variant_id {
        Some(v) => v@,
        None => "unknown"@,
    }
}

/// The user-agent string: name, version, variant and architecture in the
/// format the mirror infrastructure expects.
pub open spec fn spec_user_agent(
    name: Seq<char>,
    version_id: Seq<char>,
    variant: Seq<char>,
    arch: Seq<char>,
) -> Seq<char> {
    "rpm-ostree ("@ + name + " "@ + version_id + "; "@ + variant + "; Linux."@ + arch + ")"@
}

/// Builds the user-agent string for this run.
pub fn user_agent(release: &ReleaseInfo, arch: &str) -> (ua: String)
    ensures
        ua@ == spec_user_agent(
            release.name@,
            release.version_id@,
            spec_variant(release.variant_id),
            arch@,
        ),
{
    let mut ua = String::from_str("rpm-ostree (");
    ua.append(release.name.as_str());
    ua.append(" ");
    ua.append(release.version_id.as_str());
    ua.append("; ");
    match &release.variant_id {
        Some(v) => ua.append(v.as_str()),
        None => ua.append("unknown"),
    }
    ua.append("; Linux.");
    ua.append(arch);
    ua.append(")");
    proof {
        assert(ua@ =~= spec_user_agent(
            release.name@,
            release.version_id@,
            spec_variant(release.variant_id),
            arch@,
        ));
    }
    ua
}

} // verus!
