//! The identity hash: a reproducible fingerprint of a package's manifest
//! and source texts, taken in that fixed order so that swapping content
//! between the two fields is distinguishable.

use sha2::{Digest, Sha256};
use vstd::prelude::*;

use crate::package::{Package, PackageView};

verus! {

/// The hex rendering of the digest over a manifest text followed by a
/// source text. Left uninterpreted: the digest algorithm belongs to the
/// outside crate; that it is a function of the two texts alone, in that
/// order, is what the library relies on.
pub uninterp spec fn sha256_hex(toml: Seq<char>, src: Seq<char>) -> Seq<char>;

/// Relies on sha2::Sha256, fed the manifest bytes and then the source bytes
/// through `chain_update` and rendered lowercase-hex: the digest depends on
/// the two texts alone and prints as 64 characters, two per digest byte.
#[verifier::external_body]
fn sha256_hex_of(toml: &str, src: &str) -> (r: String)
    ensures
        r@ == sha256_hex(toml@, src@),
        r@.len() == 64,
{
    let digest = Sha256::new().chain_update(toml).chain_update(src).finalize();
    format!("{:x}", digest)
}

/// A package's fingerprint, paired with its name.
#[derive(Debug)]
pub struct Identity {
    pub name: String,
    pub hash: String,
}

impl Package {
    /// The content fingerprint of this package: manifest and source bytes,
    /// in that order, under the digest.
    pub fn identity_hash(&self) -> (r: String)
        ensures
            r@ == sha256_hex(self.toml@, self.src@),
            r@.len() == 64,
    {
        sha256_hex_of(self.toml.as_str(), self.src.as_str())
    }

    /// The fingerprint paired with the package's name.
    pub fn gen_identity(&self) -> (r: Identity)
        ensures
            r.name@ == self.name@,
            r.hash@ == sha256_hex(self.toml@, self.src@),
    {
        Identity { name: self.name.clone(), hash: self.identity_hash() }
    }
}

/// The identity hash is deterministic: it is a function of the manifest and
/// source texts alone, so any two packages with byte-identical texts carry
/// the same hash, across runs and machines.
pub proof fn lemma_identity_hash_deterministic(a: PackageView, b: PackageView)
    requires
        a.toml == b.toml,
        a.src == b.src,
    ensures
        sha256_hex(a.toml, a.src) == sha256_hex(b.toml, b.src),
{
}

} // verus!
