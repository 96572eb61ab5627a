//! The patch provider: the catalog of known patches, the directory that holds
//! their files, and the host that clients download them from.

use crate::catalog::{
    ascending, catalog_of, paths_of, resolution, resolve, resolved_of, resolves, Patch, PatchModel,
    ResolvedFile,
};
use vstd::prelude::*;

verus! {

/// What contracts see of a [`PatchFileserver`].
pub struct FileserverModel {
    pub ip: Seq<char>,
    pub host: Seq<char>,
    pub base_path: Seq<char>,
}

/// Where the bytes of a patch can be downloaded: fixed once the gateway has started.
pub struct PatchFileserver {
    ip: String,
    host: String,
    base_path: String,
}

impl View for PatchFileserver {
    type V = FileserverModel;

    closed spec fn view(&self) -> FileserverModel {
        FileserverModel { ip: self.ip@, host: self.host@, base_path: self.base_path@ }
    }
}

impl Clone for PatchFileserver {
    fn clone(&self) -> (copy: Self)
        ensures
            copy@ == self@,
    {
        PatchFileserver {
            ip: self.ip.clone(),
            host: self.host.clone(),
            base_path: self.base_path.clone(),
        }
    }
}

impl PatchFileserver {
    /// A download host with the given address, host name and base path.
    pub fn new(ip: String, host: String, base_path: String) -> (server: PatchFileserver)
        ensures
            server@ == (FileserverModel { ip: ip@, host: host@, base_path: base_path@ }),
    {
        PatchFileserver { ip, host, base_path }
    }

    /// The address of the download host.
    pub fn ip(&self) -> (ip: &str)
        ensures
            ip@ == self@.ip,
    {
        self.ip.as_str()
    }

    /// The name of the download host.
    pub fn host(&self) -> (host: &str)
        ensures
            host@ == self@.host,
    {
        self.host.as_str()
    }

    /// The path on the download host below which the patches lie.
    pub fn base_path(&self) -> (base_path: &str)
        ensures
            base_path@ == self@.base_path,
    {
        self.base_path.as_str()
    }
}

/// The catalog of known patches with the places their files are read from
/// and downloaded from.
///
/// The rule that resolves a move between two versions reads the catalog in
/// its order. It finds the newest copy of a file only when the versions never
/// go down from one patch to the next: whoever fills the catalog adds the
/// patches in ascending order of version. The provider keeps the order it is
/// given and does not sort.
pub struct PatchProvider {
    patches: Vec<Patch>,
    patch_dir: String,
    server: PatchFileserver,
}

impl PatchProvider {
    /// The patches added so far, in the order in which they were added.
    pub closed spec fn catalog(&self) -> Seq<PatchModel> {
        catalog_of(self.patches@)
    }

    /// The directory below which the files of the patches lie.
    pub closed spec fn directory(&self) -> Seq<char> {
        self.patch_dir@
    }

    /// The host that clients download from.
    pub closed spec fn server(&self) -> FileserverModel {
        self.server@
    }

    /// A provider without patches.
    pub fn new(patch_dir: String, fileserver: PatchFileserver) -> (provider: PatchProvider)
        ensures
            provider.catalog() == Seq::<PatchModel>::empty(),
            provider.directory() == patch_dir@,
            provider.server() == fileserver@,
    {
        let provider = PatchProvider { patch_dir, patches: Vec::new(), server: fileserver };
        provider
    }

    /// The host that clients download from.
    pub fn fileserver(&self) -> (server: &PatchFileserver)
        ensures
            server@ == self.server(),
    {
        &self.server
    }

    /// Appends a patch to the catalog.
    ///
    /// Nothing is sorted or rejected: a patch with a version below that of
    /// the last one leaves the catalog out of order.
    pub fn add_patch(&mut self, version: u16, files: Vec<String>)
        ensures
            final(self).catalog() == old(self).catalog().push(
                PatchModel { version, files: paths_of(files@) },
            ),
            final(self).directory() == old(self).directory(),
            final(self).server() == old(self).server(),
            ascending(old(self).catalog()) && (old(self).catalog().len() == 0 || old(
                self,
            ).catalog().last().version <= version) ==> ascending(final(self).catalog()),
    {
        self.patches.push(Patch { version, files });
        proof {
            let before = old(self).catalog();
            let after = self.catalog();
            if ascending(before) && (before.len() == 0 || before.last().version <= version) {
                assert forall|i: int, j: int| 0 <= i <= j < after.len() implies (
                #[trigger] after[i]).version <= (#[trigger] after[j]).version by {
                    if j < before.len() {
                        assert(before[i].version <= before[j].version);
                    }
                }
            }
        }
    }

    /// The directory below which the files of the patches lie.
    pub fn patch_dir(&self) -> (dir: &str)
        ensures
            dir@ == self.directory(),
    {
        self.patch_dir.as_str()
    }

    /// The patches of the catalog, in its order.
    pub fn snapshot(&self) -> (patches: &Vec<Patch>)
        ensures
            catalog_of(patches@) == self.catalog(),
    {
        &self.patches
    }

    /// The files a client at version `current` must install to reach
    /// `target`, each with the version of the patch that holds the copy to
    /// install, in the order in which the patches between the two versions
    /// first list them. With `current == target` there are none.
    pub fn collect_necessary_files(&self, current: u16, target: u16) -> (out: Vec<ResolvedFile>)
        ensures
            resolved_of(out@) == resolution(self.catalog(), current, target),
            resolves(self.catalog(), current, target, resolved_of(out@)),
            current == target ==> out@.len() == 0,
    {
        let out = resolve(self.patches.as_slice(), current, target);
        proof {
            if current == target {
                crate::catalog::lemma_same_version_needs_nothing(self.catalog(), current);
            }
        }
        out
    }
}

} // verus!
