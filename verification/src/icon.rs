//! The icon that a build for Windows puts into the executable.

use crate::env::Env;
use crate::text::glue;
use vstd::prelude::*;

verus! {

/// Where the icon comes from, where it goes, and in which sizes.
pub struct IconPlan {
    /// The picture that the icon is made of.
    pub png: String,
    /// The icon file.
    pub ico: String,
    /// The line that tells cargo to build again when the picture changes.
    pub rerun: String,
    /// The edges of the square frames, in pixels.
    pub sizes: Vec<u32>,
}

/// The picture, by the directory of the package.
pub open spec fn png_path(manifest_dir: Seq<char>) -> Seq<char> {
    manifest_dir + "/../ion/art/ion_logo.png"@
}

/// Whether the build is one for Windows, whatever system it runs on.
pub fn embeds_icon(env: &Env) -> (r: bool)
    ensures
        r == env@.contains_key("CARGO_CFG_WINDOWS"@),
{
    env.is_set("CARGO_CFG_WINDOWS")
}

/// The icon of a package in `manifest_dir` that is built into `out_dir`.
pub fn icon_plan(manifest_dir: &str, out_dir: &str) -> (r: IconPlan)
    ensures
        r.png@ == png_path(manifest_dir@),
        r.png@ == manifest_dir@ + "/../ion/art/ion_logo.png"@,
        r.ico@ == out_dir@ + "/ion.ico"@,
        r.rerun@ == "cargo:rerun-if-changed="@ + r.png@,
        r.rerun@ == "cargo:rerun-if-changed="@ + png_path(manifest_dir@),
        r.sizes@ == seq![16u32, 32u32, 48u32, 256u32],
{
    let png = glue(manifest_dir, "/../ion/art/ion_logo.png");
    let rerun = glue("cargo:rerun-if-changed=", png.as_str());
    let sizes: Vec<u32> = vec![16, 32, 48, 256];
    assert(sizes@ =~= seq![16u32, 32u32, 48u32, 256u32]);
    IconPlan { png, ico: glue(out_dir, "/ion.ico"), rerun, sizes }
}

} // verus!
