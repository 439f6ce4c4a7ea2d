//! The ephemeral build workspace: an isolated, uniquely named directory
//! tree where one package's manifest and source are materialized for the
//! build tool. This module computes the layout; creating, filling and
//! removing the tree belongs to the filesystem layer.

use vstd::prelude::*;
use vstd::string::*;

use crate::package::Package;
use crate::paths::{join_path, joined};
use crate::random::{is_workspace_dir_name, workspace_dir_name};

verus! {

/// The layout of one build workspace.
pub struct TempDir {
    /// The workspace root: a uniquely named directory under the
    /// temporary-directory root.
    pub root: String,
    /// The package directory inside the root, where the manifest and
    /// source are materialized.
    pub package_dir: String,
    /// Where the build tool's output tree stands; not created up front,
    /// because it is moved in from the cache slot.
    pub package_target_dir: String,
}

impl TempDir {
    /// Lay out a fresh workspace for `package` under `temp_root`. The root
    /// carries a random suffix so that concurrent invocations cannot
    /// collide.
    pub fn new(temp_root: &str, package: &Package) -> (t: TempDir)
        ensures
            exists|d: Seq<char>|
                #[trigger] is_workspace_dir_name(d) && t.root@ == joined(temp_root@, d),
            t.package_dir@ == joined(t.root@, package@.name),
            t.package_target_dir@ == joined(t.package_dir@, "target"@),
    {
        let dir_name = workspace_dir_name();
        let root = join_path(temp_root, dir_name.as_str());
        let package_dir = join_path(root.as_str(), package.name.as_str());
        let package_target_dir = join_path(package_dir.as_str(), "target");
        proof {
            assert(is_workspace_dir_name(dir_name@) && root@ == joined(temp_root@, dir_name@));
        }
        TempDir { root, package_dir, package_target_dir }
    }

    /// Where the manifest is materialized.
    pub fn toml_path(&self) -> (r: String)
        ensures
            r@ == joined(self.package_dir@, "Cargo.toml"@),
    {
        join_path(self.package_dir.as_str(), "Cargo.toml")
    }

    /// The source directory inside the package directory.
    pub fn src_dir(&self) -> (r: String)
        ensures
            r@ == joined(self.package_dir@, "src"@),
    {
        join_path(self.package_dir.as_str(), "src")
    }

    /// Where the source is materialized.
    pub fn src_main_path(&self) -> (r: String)
        ensures
            r@ == joined(joined(self.package_dir@, "src"@), "main.rs"@),
    {
        join_path(self.src_dir().as_str(), "main.rs")
    }
}

} // verus!
