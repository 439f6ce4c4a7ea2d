//! The artifact cache model: one slot per (container-file identifier,
//! package-name) pair, holding at most one compiled-artifact directory at
//! rest and the identity hash recorded by the last successful debug build.
//!
//! The slot's artifact directory is owned exclusively: a build moves it out
//! into the workspace and back, never copying, so the directory never
//! legitimately exists in two places. The type parameter `A` stands for the
//! artifact directory handle that the filesystem layer moves around; the
//! model transfers the value untouched, which is what makes the move
//! lossless.

use vstd::prelude::*;
use vstd::string::*;

use crate::paths::{join_path, joined};

verus! {

/// The persistent state and addressing of one cache slot.
pub struct Cache<A> {
    /// Identifier of the container file; first key of the slot.
    pub file_name: String,
    /// Name of the package; second key of the slot.
    pub package_name: String,
    /// The identity hash recorded by the last successful debug build;
    /// absent when never built or invalidated.
    pub stored_identity: Option<String>,
    /// The compiled-artifact directory at rest in the slot.
    pub artifact: Option<A>,
    /// The executable's file name, platform suffix applied.
    pub exe_name: String,
    /// The slot's root directory.
    pub slot_dir: String,
}

/// The mathematical content of a cache slot.
pub struct CacheView<A> {
    pub file_name: Seq<char>,
    pub package_name: Seq<char>,
    pub stored_identity: Option<Seq<char>>,
    pub artifact: Option<A>,
    pub exe_name: Seq<char>,
    pub slot_dir: Seq<char>,
}

impl<A> View for Cache<A> {
    type V = CacheView<A>;

    open spec fn view(&self) -> CacheView<A> {
        CacheView {
            file_name: self.file_name@,
            package_name: self.package_name@,
            stored_identity: match self.stored_identity {
                Option::Some(h) => Option::Some(h@),
                Option::None => Option::None,
            },
            artifact: self.artifact,
            exe_name: self.exe_name@,
            slot_dir: self.slot_dir@,
        }
    }
}

/// The executable file name for a package: the platform suffix is appended
/// on Windows.
pub open spec fn spec_exe_name(package_name: Seq<char>, windows: bool) -> Seq<char> {
    if windows {
        package_name + ".exe"@
    } else {
        package_name
    }
}

/// The slot directory for a (container-file identifier, package-name) pair
/// under the cache root.
pub open spec fn spec_slot_dir(
    cache_root: Seq<char>,
    file_name: Seq<char>,
    package_name: Seq<char>,
) -> Seq<char> {
    joined(joined(cache_root, file_name), package_name)
}

/// A previously stored identity exists and equals `new_hash`.
pub open spec fn spec_is_up_to_date<A>(c: CacheView<A>, new_hash: Seq<char>) -> bool {
    c.stored_identity == Option::Some(new_hash)
}

/// The slot state after moving the artifact directory out.
pub open spec fn spec_restore<A>(c: CacheView<A>) -> (CacheView<A>, Option<A>) {
    (CacheView { artifact: Option::None, ..c }, c.artifact)
}

/// The slot state after moving an artifact directory back in; refused when
/// the slot already holds one.
pub open spec fn spec_store<A>(c: CacheView<A>, a: A) -> (CacheView<A>, bool) {
    if c.artifact is Some {
        (c, false)
    } else {
        (CacheView { artifact: Option::Some(a), ..c }, true)
    }
}

impl<A> Cache<A> {
    /// Address a slot and adopt its persisted state, read by the caller:
    /// the recorded identity hash (absent when the slot holds none) and the
    /// artifact directory handle (absent when the slot holds no directory).
    pub fn new(
        cache_root: &str,
        file_name: &str,
        package_name: &str,
        stored_identity: Option<String>,
        artifact: Option<A>,
        windows: bool,
    ) -> (c: Cache<A>)
        ensures
            c@.file_name == file_name@,
            c@.package_name == package_name@,
            c@.stored_identity == match stored_identity {
                Option::Some(h) => Option::Some(h@),
                Option::None => Option::None::<Seq<char>>,
            },
            c@.artifact == artifact,
            c@.exe_name == spec_exe_name(package_name@, windows),
            c@.slot_dir == spec_slot_dir(cache_root@, file_name@, package_name@),
    {
        let exe_name = if windows {
            let mut n = package_name.to_owned();
            n.append(".exe");
            n
        } else {
            package_name.to_owned()
        };
        let slot_dir = join_path(join_path(cache_root, file_name).as_str(), package_name);
        Cache {
            file_name: file_name.to_owned(),
            package_name: package_name.to_owned(),
            stored_identity,
            artifact,
            exe_name,
            slot_dir,
        }
    }

    /// True iff a previously stored identity exists and equals the new
    /// hash. Consulted by debug builds only; release builds always rebuild.
    pub fn is_same_identity_hash(&self, new_identity_hash: &str) -> (b: bool)
        ensures
            b == spec_is_up_to_date(self@, new_identity_hash@),
    {
        match &self.stored_identity {
            Option::Some(h) => crate::text::str_eq(h.as_str(), new_identity_hash),
            Option::None => false,
        }
    }

    /// Move the artifact directory out of the slot, to be placed in a build
    /// workspace; `None` tells the caller to start from an empty directory.
    pub fn restore(&mut self) -> (a: Option<A>)
        ensures
            final(self)@ == spec_restore(old(self)@).0,
            a == spec_restore(old(self)@).1,
    {
        self.artifact.take()
    }

    /// Move an artifact directory back into the slot. Refused when the slot
    /// already holds one: that signals a lost restore or concurrent use,
    /// and the slot is left untouched.
    pub fn store(&mut self, a: A) -> (r: Result<(), ()>)
        ensures
            final(self)@ == spec_store(old(self)@, a).0,
            r is Ok == spec_store(old(self)@, a).1,
    {
        if self.artifact.is_some() {
            return Result::Err(());
        }
        self.artifact = Option::Some(a);
        Result::Ok(())
    }

    /// Record `new_identity_hash` as the slot's stored identity. Called
    /// only after a successful debug build.
    pub fn write_identity_hash(&mut self, new_identity_hash: &str)
        ensures
            final(self)@ == (CacheView {
                stored_identity: Option::Some(new_identity_hash@),
                ..old(self)@
            }),
    {
        self.stored_identity = Option::Some(new_identity_hash.to_owned());
    }

    /// Delete the stored identity, forcing a future rebuild; the artifact
    /// directory itself is kept.
    pub fn delete_identity_hash(&mut self)
        ensures
            final(self)@ == (CacheView { stored_identity: Option::None, ..old(self)@ }),
    {
        self.stored_identity = Option::None;
    }

    /// The slot's artifact directory location.
    pub fn target_dir(&self) -> (r: String)
        ensures
            r@ == joined(self@.slot_dir, "target"@),
    {
        join_path(self.slot_dir.as_str(), "target")
    }

    /// Where the slot persists its identity hash.
    pub fn identity_hash_path(&self) -> (r: String)
        ensures
            r@ == joined(self@.slot_dir, "identity_hash"@),
    {
        join_path(self.slot_dir.as_str(), "identity_hash")
    }

    /// The debug executable produced by the build tool, by its fixed
    /// location inside the artifact directory.
    pub fn debug_exe(&self) -> (r: String)
        ensures
            r@ == joined(joined(joined(self@.slot_dir, "target"@), "debug"@), self@.exe_name),
    {
        join_path(join_path(self.target_dir().as_str(), "debug").as_str(), self.exe_name.as_str())
    }

    /// The release executable, by its fixed location inside the artifact
    /// directory.
    pub fn release_exe(&self) -> (r: String)
        ensures
            r@ == joined(joined(joined(self@.slot_dir, "target"@), "release"@), self@.exe_name),
    {
        join_path(
            join_path(self.target_dir().as_str(), "release").as_str(),
            self.exe_name.as_str(),
        )
    }
}

/// Moving the artifact directory out and straight back in loses nothing:
/// the restore hands out exactly the stored directory, the store is
/// accepted, and the slot ends as it began.
pub proof fn lemma_restore_store_round_trip<A>(c: CacheView<A>, a: A)
    requires
        c.artifact == Option::Some(a),
    ensures
        spec_restore(c).1 == Option::Some(a),
        spec_store(spec_restore(c).0, a).1,
        spec_store(spec_restore(c).0, a).0 == c,
{
    assert(spec_store(spec_restore(c).0, a).0 == c);
}

} // verus!
