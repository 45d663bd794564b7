//! Sidecar selection: the co-located worker executable is looked for at two
//! fixed relative paths, the packaged layout first, then the development
//! layout; the first that exists is executed in place of this process.

use vstd::prelude::*;
use vstd::string::*;

verus! {

/// Which of the two layouts holds the sidecar.
#[derive(Debug, Clone, Copy, PartialEq, Eq, Structural)]
pub enum SidecarLayout {
    Packaged,
    Development,
}

/// The two candidate paths, relative to the running executable's directory:
/// the packaged bundle layout first, the development tree second.
pub fn sidecar_candidate_paths() -> (r: (String, String))
    ensures
        r.0@ == "../Resources/_internal/ica-sidecar/ica-sidecar"@,
        r.1@ == "../../_internal/ica-sidecar/ica-sidecar"@,
{
    (
        String::from_str("../Resources/_internal/ica-sidecar/ica-sidecar"),
        String::from_str("../../_internal/ica-sidecar/ica-sidecar"),
    )
}

/// Picks the sidecar to run from what exists on disk: the packaged path
/// wins, the development path is the fallback, and when neither exists
/// nothing is selected and the supervisor reports both paths.
pub fn select_sidecar(packaged_exists: bool, development_exists: bool) -> (r: Option<
    SidecarLayout,
>)
    ensures
        packaged_exists ==> r == Option::Some(SidecarLayout::Packaged),
        !packaged_exists && development_exists ==> r == Option::Some(SidecarLayout::Development),
        !packaged_exists && !development_exists ==> r is None,
{
    if packaged_exists {
        Option::Some(SidecarLayout::Packaged)
    } else if development_exists {
        Option::Some(SidecarLayout::Development)
    } else {
        Option::None
    }
}

} // verus!
