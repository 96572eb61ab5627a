//! The patch catalog and the rule that picks, for a move between two versions,
//! the files to fetch and the patch to fetch each of them from.

use vstd::prelude::*;

verus! {

/// What contracts see of a [`Patch`]: its version and the relative paths it touches.
pub struct PatchModel {
    pub version: u16,
    pub files: Seq<Seq<char>>,
}

/// What contracts see of a [`ResolvedFile`].
pub struct ResolvedModel {
    pub file: Seq<char>,
    pub source_version: u16,
}

/// The paths held by a list of strings, in the same order.
pub open spec fn paths_of(files: Seq<String>) -> Seq<Seq<char>> {
    Seq::new(files.len(), |i: int| files[i]@)
}

/// The models of a list of patches, in the same order.
pub open spec fn catalog_of(patches: Seq<Patch>) -> Seq<PatchModel> {
    Seq::new(patches.len(), |i: int| patches[i]@)
}

/// The models of a list of borrowed patches, in the same order.
pub open spec fn selection_of(patches: Seq<&Patch>) -> Seq<PatchModel> {
    Seq::new(patches.len(), |i: int| patches[i]@)
}

/// The models of a list of resolved files, in the same order.
pub open spec fn resolved_of(files: Seq<ResolvedFile>) -> Seq<ResolvedModel> {
    Seq::new(files.len(), |i: int| files[i]@)
}

/// True when `patch` lists `file`.
pub open spec fn mentions(patch: PatchModel, file: Seq<char>) -> bool {
    patch.files.contains(file)
}

/// True when some patch of `patches` lists `file`.
pub open spec fn mentioned(patches: Seq<PatchModel>, file: Seq<char>) -> bool {
    exists|i: int| 0 <= i < patches.len() && mentions(#[trigger] patches[i], file)
}

/// The version of the last patch of `patches`, in their order, that lists `file`.
pub open spec fn last_mention(patches: Seq<PatchModel>, file: Seq<char>) -> Option<u16>
    decreases patches.len(),
{
    if patches.len() == 0 {
        None
    } else if mentions(patches.last(), file) {
        Some(patches.last().version)
    } else {
        last_mention(patches.drop_last(), file)
    }
}

/// The patches whose version lies above `after` and at or below `up_to`, in catalog order.
pub open spec fn between(catalog: Seq<PatchModel>, after: u16, up_to: u16) -> Seq<PatchModel> {
    catalog.filter(|p: PatchModel| after < p.version <= up_to)
}

/// The patches whose version is at or below `limit`, in catalog order.
pub open spec fn no_newer_than(catalog: Seq<PatchModel>, limit: u16) -> Seq<PatchModel> {
    catalog.filter(|p: PatchModel| p.version <= limit)
}

/// The patch a client at `current` takes `file` from to reach `target`, if it needs the file.
///
/// Moving up, that is the last patch above `current` and at or below `target`
/// that lists the file. Moving down, a file is looked at only if a patch above
/// `target` and at or below `current` lists it; it is then taken from the last
/// patch at or below `target` that lists it, and left alone when there is none.
pub open spec fn source_version(
    catalog: Seq<PatchModel>,
    current: u16,
    target: u16,
    file: Seq<char>,
) -> Option<u16> {
    if current > target {
        if mentioned(between(catalog, target, current), file) {
            last_mention(no_newer_than(catalog, target), file)
        } else {
            None
        }
    } else {
        last_mention(between(catalog, current, target), file)
    }
}

/// `seen`, followed by those of `files` that occur neither in `seen` nor
/// earlier in `files`.
pub open spec fn with_new_files(seen: Seq<Seq<char>>, files: Seq<Seq<char>>) -> Seq<Seq<char>>
    decreases files.len(),
{
    if files.len() == 0 {
        seen
    } else {
        let known = with_new_files(seen, files.drop_last());
        if known.contains(files.last()) {
            known
        } else {
            known.push(files.last())
        }
    }
}

/// The files that `patches` list, each once, in the order in which they are first listed.
pub open spec fn touched_files_of(patches: Seq<PatchModel>) -> Seq<Seq<char>>
    decreases patches.len(),
{
    if patches.len() == 0 {
        Seq::empty()
    } else {
        with_new_files(touched_files_of(patches.drop_last()), patches.last().files)
    }
}

/// Those of `files` that a client at `current` needs to reach `target`, in
/// the same order, each with the patch it is taken from.
pub open spec fn sourced(
    catalog: Seq<PatchModel>,
    current: u16,
    target: u16,
    files: Seq<Seq<char>>,
) -> Seq<ResolvedModel>
    decreases files.len(),
{
    if files.len() == 0 {
        Seq::empty()
    } else {
        let earlier = sourced(catalog, current, target, files.drop_last());
        match source_version(catalog, current, target, files.last()) {
            Some(version) => earlier.push(
                ResolvedModel { file: files.last(), source_version: version },
            ),
            None => earlier,
        }
    }
}

/// The patches that separate `current` from `target`: those above the lower
/// and at or below the higher of the two versions.
pub open spec fn crossed(catalog: Seq<PatchModel>, current: u16, target: u16) -> Seq<PatchModel> {
    if current > target {
        between(catalog, target, current)
    } else {
        between(catalog, current, target)
    }
}

/// The files a client at `current` needs to reach `target`, in the order in
/// which the patches between the two versions first list them.
pub open spec fn resolution(catalog: Seq<PatchModel>, current: u16, target: u16) -> Seq<
    ResolvedModel,
> {
    sourced(catalog, current, target, touched_files_of(crossed(catalog, current, target)))
}

/// True when `out` lists exactly the files that a client at `current` needs to
/// reach `target`, each once and with the patch it is taken from.
pub open spec fn resolves(
    catalog: Seq<PatchModel>,
    current: u16,
    target: u16,
    out: Seq<ResolvedModel>,
) -> bool {
    &&& forall|k: int|
        0 <= k < out.len() ==> source_version(catalog, current, target, (#[trigger] out[k]).file)
            == Some(out[k].source_version)
    &&& forall|file: Seq<char>| #[trigger]
        source_version(catalog, current, target, file).is_some() ==> exists|k: int|
            0 <= k < out.len() && (#[trigger] out[k]).file == file
    &&& forall|a: int, b: int|
        0 <= a < b < out.len() ==> (#[trigger] out[a]).file != (#[trigger] out[b]).file
}

/// True when the versions of `catalog` never go down from one patch to the next.
pub open spec fn ascending(catalog: Seq<PatchModel>) -> bool {
    forall|i: int, j: int|
        0 <= i <= j < catalog.len() ==> (#[trigger] catalog[i]).version <= (
        #[trigger] catalog[j]).version
}

/// A versioned bundle of files that replaces earlier contents of those files.
#[derive(Clone, Debug, PartialEq, Eq)]
pub struct Patch {
    pub version: u16,
    pub files: Vec<String>,
}

impl View for Patch {
    type V = PatchModel;

    open spec fn view(&self) -> PatchModel {
        PatchModel { version: self.version, files: paths_of(self.files@) }
    }
}

/// A file a client must install, with the version of the patch that holds the copy to install.
#[derive(Clone, Debug, PartialEq, Eq)]
pub struct ResolvedFile {
    pub file: String,
    pub source_version: u16,
}

impl View for ResolvedFile {
    type V = ResolvedModel;

    open spec fn view(&self) -> ResolvedModel {
        ResolvedModel { file: self.file@, source_version: self.source_version }
    }
}

/// Tells whether `patch` lists `file`.
pub fn patch_mentions(patch: &Patch, file: &String) -> (found: bool)
    ensures
        found == mentions(patch@, file@),
{
    let mut i: usize = 0;
    while i < patch.files.len()
        invariant
            i <= patch.files.len(),
            forall|j: int| 0 <= j < i ==> patch@.files[j] != file@,
        decreases patch.files.len() - i,
    {
        if patch.files[i] == *file {
            assert(patch@.files[i as int] == file@);
            return true;
        }
        i += 1;
    }
    false
}

/// The version of the last of `patches` that lists `file`.
pub fn get_latest_version_in(file: &String, patches: &[&Patch]) -> (found: Option<u16>)
    ensures
        found == last_mention(selection_of(patches@), file@),
        found.is_some() <==> mentioned(selection_of(patches@), file@),
{
    let ghost all = selection_of(patches@);
    let mut i: usize = patches.len();
    proof {
        assert(all.take(i as int) =~= all);
        lemma_last_mention(all, file@);
    }
    while i > 0
        invariant
            i <= patches.len(),
            all == selection_of(patches@),
            last_mention(all, file@).is_some() <==> mentioned(all, file@),
            last_mention(all, file@) == last_mention(all.take(i as int), file@),
        decreases i,
    {
        i -= 1;
        let patch: &Patch = patches[i];
        assert(all.take(i + 1).last() == patch@);
        assert(all.take(i + 1).drop_last() =~= all.take(i as int));
        if patch_mentions(patch, file) {
            return Some(patch.version);
        }
    }
    None
}

/// The version of the last of `patches` with a version at or below
/// `min_version` that lists `file`.
pub fn get_latest_version_in_up_to(file: &String, patches: &[Patch], min_version: u16) -> (found:
    Option<u16>)
    ensures
        found == last_mention(no_newer_than(catalog_of(patches@), min_version), file@),
        found.is_some() <==> mentioned(no_newer_than(catalog_of(patches@), min_version), file@),
{
    let ghost all = catalog_of(patches@);
    let mut i: usize = patches.len();
    proof {
        assert(all.take(i as int) =~= all);
        lemma_last_mention(no_newer_than(all, min_version), file@);
    }
    while i > 0
        invariant
            i <= patches.len(),
            all == catalog_of(patches@),
            last_mention(no_newer_than(all, min_version), file@).is_some() <==> mentioned(
                no_newer_than(all, min_version),
                file@,
            ),
            last_mention(no_newer_than(all, min_version), file@) == last_mention(
                no_newer_than(all.take(i as int), min_version),
                file@,
            ),
        decreases i,
    {
        i -= 1;
        let patch: &Patch = &patches[i];
        proof {
            assert(all.take(i + 1).last() == patch@);
            assert(all.take(i + 1).drop_last() =~= all.take(i as int));
            lemma_no_newer_than_last(all.take(i + 1), min_version, file@);
        }
        if patch.version <= min_version && patch_mentions(patch, file) {
            return Some(patch.version);
        }
    }
    proof {
        reveal(Seq::filter);
    }
    None
}

/// How the last patch of a catalog enters the last mention at or below a limit.
proof fn lemma_no_newer_than_last(catalog: Seq<PatchModel>, limit: u16, file: Seq<char>)
    requires
        catalog.len() > 0,
    ensures
        last_mention(no_newer_than(catalog, limit), file) == if catalog.last().version <= limit
            && mentions(catalog.last(), file) {
            Some(catalog.last().version)
        } else {
            last_mention(no_newer_than(catalog.drop_last(), limit), file)
        },
{
    reveal(Seq::filter);
    let rest = no_newer_than(catalog.drop_last(), limit);
    if catalog.last().version <= limit {
        assert(no_newer_than(catalog, limit) == rest.push(catalog.last()));
        assert(rest.push(catalog.last()).last() == catalog.last());
        assert(rest.push(catalog.last()).drop_last() =~= rest);
    } else {
        assert(no_newer_than(catalog, limit) == rest);
    }
}

/// How the last patch of a catalog enters the patches between two versions.
proof fn lemma_between_last(catalog: Seq<PatchModel>, after: u16, up_to: u16)
    requires
        catalog.len() > 0,
    ensures
        between(catalog, after, up_to) == if after < catalog.last().version <= up_to {
            between(catalog.drop_last(), after, up_to).push(catalog.last())
        } else {
            between(catalog.drop_last(), after, up_to)
        },
{
    reveal(Seq::filter);
}

/// The patches of `patches` with a version above `after` and at or below
/// `up_to`, in the same order.
pub fn applicable_patches<'a>(patches: &'a [Patch], after: u16, up_to: u16) -> (chosen: Vec<
    &'a Patch,
>)
    ensures
        selection_of(chosen@) == between(catalog_of(patches@), after, up_to),
{
    let ghost all = catalog_of(patches@);
    let mut chosen: Vec<&'a Patch> = Vec::new();
    let mut i: usize = 0;
    proof {
        reveal(Seq::filter);
        assert(selection_of(chosen@) =~= between(all.take(0), after, up_to));
    }
    while i < patches.len()
        invariant
            i <= patches.len(),
            all == catalog_of(patches@),
            selection_of(chosen@) == between(all.take(i as int), after, up_to),
        decreases patches.len() - i,
    {
        let patch: &'a Patch = &patches[i];
        let ghost before = chosen@;
        proof {
            assert(all.take(i + 1).last() == patch@);
            assert(all.take(i + 1).drop_last() =~= all.take(i as int));
            lemma_between_last(all.take(i + 1), after, up_to);
        }
        if patch.version > after && patch.version <= up_to {
            chosen.push(patch);
            assert(selection_of(chosen@) =~= selection_of(before).push(patch@));
        }
        i += 1;
    }
    assert(all.take(i as int) =~= all);
    chosen
}

/// Tells whether `files` holds `file`.
pub fn contains_path(files: &[String], file: &String) -> (found: bool)
    ensures
        found == paths_of(files@).contains(file@),
{
    let mut i: usize = 0;
    while i < files.len()
        invariant
            i <= files.len(),
            forall|j: int| 0 <= j < i ==> paths_of(files@)[j] != file@,
        decreases files.len() - i,
    {
        if files[i] == *file {
            assert(paths_of(files@)[i as int] == file@);
            return true;
        }
        i += 1;
    }
    false
}

/// The files that `patches` list, each once, in the order in which they are first listed.
pub fn touched_files(patches: &[&Patch]) -> (files: Vec<String>)
    ensures
        paths_of(files@) == touched_files_of(selection_of(patches@)),
        paths_of(files@).no_duplicates(),
        forall|file: Seq<char>|
            paths_of(files@).contains(file) <==> mentioned(selection_of(patches@), file),
{
    let ghost all = selection_of(patches@);
    let mut files: Vec<String> = Vec::new();
    let mut i: usize = 0;
    assert(paths_of(files@) =~= touched_files_of(all.take(0)));
    while i < patches.len()
        invariant
            i <= patches.len(),
            all == selection_of(patches@),
            paths_of(files@) == touched_files_of(all.take(i as int)),
        decreases patches.len() - i,
    {
        let patch: &Patch = patches[i];
        let ghost seen = paths_of(files@);
        let ghost listed = patch@.files;
        let mut j: usize = 0;
        while j < patch.files.len()
            invariant
                j <= patch.files.len(),
                listed == patch@.files,
                paths_of(files@) == with_new_files(seen, listed.take(j as int)),
            decreases patch.files.len() - j,
        {
            let file: &String = &patch.files[j];
            let ghost before = files@;
            proof {
                assert(listed.take(j + 1).last() == file@);
                assert(listed.take(j + 1).drop_last() =~= listed.take(j as int));
            }
            if !contains_path(files.as_slice(), file) {
                files.push(file.clone());
                assert(paths_of(files@) =~= paths_of(before).push(file@));
            }
            j += 1;
        }
        proof {
            assert(listed.take(j as int) =~= listed);
            assert(all.take(i + 1).last() == patch@);
            assert(all.take(i + 1).drop_last() =~= all.take(i as int));
        }
        i += 1;
    }
    proof {
        assert(all.take(i as int) =~= all);
        lemma_touched_files(all);
    }
    files
}

/// [`with_new_files`] adds exactly the files that were missing, and repeats none.
pub proof fn lemma_with_new_files(seen: Seq<Seq<char>>, files: Seq<Seq<char>>)
    requires
        seen.no_duplicates(),
    ensures
        with_new_files(seen, files).no_duplicates(),
        forall|file: Seq<char>|
            with_new_files(seen, files).contains(file) <==> seen.contains(file) || files.contains(
                file,
            ),
    decreases files.len(),
{
    if files.len() > 0 {
        let earlier = files.drop_last();
        let known = with_new_files(seen, earlier);
        lemma_with_new_files(seen, earlier);
        let all = with_new_files(seen, files);
        assert forall|file: Seq<char>|
            all.contains(file) <==> seen.contains(file) || files.contains(file) by {
            if files.contains(file) {
                let i = choose|i: int| 0 <= i < files.len() && files[i] == file;
                if i < files.len() - 1 {
                    assert(earlier[i] == file);
                }
            }
            if earlier.contains(file) {
                let i = choose|i: int| 0 <= i < earlier.len() && earlier[i] == file;
                assert(files[i] == file);
            }
            if !known.contains(files.last()) {
                assert(all.last() == files.last());
                if known.contains(file) {
                    let i = choose|i: int| 0 <= i < known.len() && known[i] == file;
                    assert(all[i] == file);
                }
                if all.contains(file) {
                    let i = choose|i: int| 0 <= i < all.len() && all[i] == file;
                    if i < known.len() {
                        assert(known[i] == file);
                    }
                }
            }
            assert(files[files.len() - 1] == files.last());
        }
    }
}

/// [`touched_files_of`] holds exactly the files that the patches list, and repeats none.
pub proof fn lemma_touched_files(patches: Seq<PatchModel>)
    ensures
        touched_files_of(patches).no_duplicates(),
        forall|file: Seq<char>|
            touched_files_of(patches).contains(file) <==> mentioned(patches, file),
    decreases patches.len(),
{
    if patches.len() > 0 {
        let earlier = patches.drop_last();
        lemma_touched_files(earlier);
        lemma_with_new_files(touched_files_of(earlier), patches.last().files);
        assert forall|file: Seq<char>|
            touched_files_of(patches).contains(file) <==> mentioned(patches, file) by {
            if mentioned(earlier, file) {
                let i = choose|i: int| 0 <= i < earlier.len() && mentions(earlier[i], file);
                assert(mentions(patches[i], file));
            }
            if mentions(patches.last(), file) {
                assert(mentions(patches[patches.len() - 1], file));
            }
            if mentioned(patches, file) {
                let i = choose|i: int| 0 <= i < patches.len() && mentions(patches[i], file);
                if i < patches.len() - 1 {
                    assert(mentions(earlier[i], file));
                }
            }
        }
    }
}

/// [`last_mention`] finds a patch exactly when one lists the file, and no
/// later patch than the one it finds lists it.
pub proof fn lemma_last_mention(patches: Seq<PatchModel>, file: Seq<char>)
    ensures
        last_mention(patches, file).is_some() <==> mentioned(patches, file),
        last_mention(patches, file).is_some() ==> exists|i: int|
            {
                &&& 0 <= i < patches.len()
                &&& mentions(#[trigger] patches[i], file)
                &&& patches[i].version == last_mention(patches, file).unwrap()
                &&& forall|j: int| i < j < patches.len() ==> !mentions(#[trigger] patches[j], file)
            },
    decreases patches.len(),
{
    if patches.len() > 0 {
        let earlier = patches.drop_last();
        let end = patches.len() - 1;
        lemma_last_mention(earlier, file);
        if mentions(patches.last(), file) {
            assert(mentions(patches[end], file));
        } else {
            if mentioned(patches, file) {
                let i = choose|i: int| 0 <= i < patches.len() && mentions(patches[i], file);
                assert(mentions(earlier[i], file));
            }
            if last_mention(earlier, file).is_some() {
                let i = choose|i: int|
                    {
                        &&& 0 <= i < earlier.len()
                        &&& mentions(#[trigger] earlier[i], file)
                        &&& earlier[i].version == last_mention(earlier, file).unwrap()
                        &&& forall|j: int|
                            i < j < earlier.len() ==> !mentions(#[trigger] earlier[j], file)
                    };
                assert(mentions(patches[i], file));
                assert forall|j: int| i < j < patches.len() implies !mentions(
                    #[trigger] patches[j],
                    file,
                ) by {
                    if j < end {
                        assert(!mentions(earlier[j], file));
                    }
                }
            }
        }
    }
}

/// [`sourced`] keeps the files that have a source, each with it, and repeats
/// no file that `files` does not repeat.
pub proof fn lemma_sourced(
    catalog: Seq<PatchModel>,
    current: u16,
    target: u16,
    files: Seq<Seq<char>>,
)
    ensures
        forall|k: int|
            #![trigger sourced(catalog, current, target, files)[k]]
            0 <= k < sourced(catalog, current, target, files).len() ==> {
                let entry = sourced(catalog, current, target, files)[k];
                &&& files.contains(entry.file)
                &&& source_version(catalog, current, target, entry.file) == Some(
                    entry.source_version,
                )
            },
        forall|i: int|
            0 <= i < files.len() && source_version(
                catalog,
                current,
                target,
                #[trigger] files[i],
            ).is_some() ==> exists|k: int|
                0 <= k < sourced(catalog, current, target, files).len() && (#[trigger] sourced(
                    catalog,
                    current,
                    target,
                    files,
                )[k]).file == files[i],
        files.no_duplicates() ==> forall|a: int, b: int|
            0 <= a < b < sourced(catalog, current, target, files).len() ==> (#[trigger] sourced(
                catalog,
                current,
                target,
                files,
            )[a]).file != (#[trigger] sourced(catalog, current, target, files)[b]).file,
    decreases files.len(),
{
    if files.len() > 0 {
        let first = files.drop_last();
        let earlier = sourced(catalog, current, target, first);
        let out = sourced(catalog, current, target, files);
        let end = files.len() - 1;
        lemma_sourced(catalog, current, target, first);
        assert forall|k: int| 0 <= k < out.len() implies {
            let entry = #[trigger] out[k];
            &&& files.contains(entry.file)
            &&& source_version(catalog, current, target, entry.file) == Some(entry.source_version)
        } by {
            if k < earlier.len() {
                assert(out[k] == earlier[k]);
                let i = choose|i: int| 0 <= i < first.len() && first[i] == earlier[k].file;
                assert(files[i] == out[k].file);
            } else {
                assert(files[end] == out[k].file);
            }
        }
        assert forall|i: int|
            0 <= i < files.len() && source_version(
                catalog,
                current,
                target,
                #[trigger] files[i],
            ).is_some() implies exists|k: int|
            0 <= k < out.len() && (#[trigger] out[k]).file == files[i] by {
            if i < end {
                assert(first[i] == files[i]);
                let k = choose|k: int|
                    0 <= k < earlier.len() && (#[trigger] earlier[k]).file == first[i];
                assert(out[k].file == files[i]);
            } else {
                assert(out[out.len() - 1].file == files[i]);
            }
        }
        if files.no_duplicates() {
            assert(first.no_duplicates());
            assert forall|a: int, b: int| 0 <= a < b < out.len() implies (#[trigger] out[a]).file
                != (#[trigger] out[b]).file by {
                if b < earlier.len() {
                    assert(out[a] == earlier[a] && out[b] == earlier[b]);
                } else {
                    assert(out[a] == earlier[a]);
                    let i = choose|i: int| 0 <= i < first.len() && first[i] == earlier[a].file;
                    assert(files[i] == first[i]);
                    assert(out[b].file == files[end]);
                }
            }
        }
    }
}

/// The files that [`resolution`] lists are those a client needs, each once
/// and with the patch it is taken from.
pub proof fn lemma_resolution_resolves(catalog: Seq<PatchModel>, current: u16, target: u16)
    ensures
        resolves(catalog, current, target, resolution(catalog, current, target)),
{
    let window = crossed(catalog, current, target);
    let files = touched_files_of(window);
    let out = resolution(catalog, current, target);
    lemma_touched_files(window);
    lemma_sourced(catalog, current, target, files);
    assert forall|file: Seq<char>| #[trigger]
        source_version(catalog, current, target, file).is_some() implies exists|k: int|
        0 <= k < out.len() && (#[trigger] out[k]).file == file by {
        if current <= target {
            lemma_last_mention(window, file);
        }
        assert(mentioned(window, file));
        assert(files.contains(file));
        let i = choose|i: int| 0 <= i < files.len() && files[i] == file;
        assert(source_version(catalog, current, target, files[i]).is_some());
    }
}

/// Between a version and itself no patch lies, so nothing is needed.
pub proof fn lemma_same_version_needs_nothing(catalog: Seq<PatchModel>, version: u16)
    ensures
        resolution(catalog, version, version) == Seq::<ResolvedModel>::empty(),
{
    lemma_nothing_between(catalog, version);
}

/// No patch has a version above `version` and at or below it.
proof fn lemma_nothing_between(catalog: Seq<PatchModel>, version: u16)
    ensures
        between(catalog, version, version).len() == 0,
    decreases catalog.len(),
{
    reveal(Seq::filter);
    if catalog.len() > 0 {
        lemma_nothing_between(catalog.drop_last(), version);
    }
}

/// The files a client at version `current` must install to reach `target`,
/// each with the version of the patch that holds the copy to install.
///
/// Moving up, every file listed by a patch above `current` and at or below
/// `target` is taken from the last such patch that lists it. Moving down,
/// every file listed by a patch above `target` and at or below `current` is
/// taken from the last patch at or below `target` that lists it; a file that
/// no such patch lists is left out, so the client keeps its newer copy. The
/// entries come in the order in which the patches between the two versions
/// first list their files.
pub fn resolve(patches: &[Patch], current: u16, target: u16) -> (out: Vec<ResolvedFile>)
    ensures
        resolved_of(out@) == resolution(catalog_of(patches@), current, target),
        resolves(catalog_of(patches@), current, target, resolved_of(out@)),
{
    let ghost catalog = catalog_of(patches@);
    let downgrade = current > target;
    let window = if downgrade {
        applicable_patches(patches, target, current)
    } else {
        applicable_patches(patches, current, target)
    };
    let files = touched_files(window.as_slice());
    let ghost paths = paths_of(files@);
    let mut out: Vec<ResolvedFile> = Vec::new();
    let mut i: usize = 0;
    proof {
        lemma_touched_files(crossed(catalog, current, target));
        assert(resolved_of(out@) =~= sourced(catalog, current, target, paths.take(0)));
    }
    while i < files.len()
        invariant
            i <= files.len(),
            catalog == catalog_of(patches@),
            downgrade == (current > target),
            paths == paths_of(files@),
            selection_of(window@) == crossed(catalog, current, target),
            forall|file: Seq<char>|
                paths.contains(file) ==> mentioned(crossed(catalog, current, target), file),
            resolved_of(out@) == sourced(catalog, current, target, paths.take(i as int)),
        decreases files.len() - i,
    {
        let file: &String = &files[i];
        let ghost before = out@;
        proof {
            assert(paths[i as int] == file@);
            assert(paths.contains(file@));
            assert(paths.take(i + 1).last() == file@);
            assert(paths.take(i + 1).drop_last() =~= paths.take(i as int));
        }
        let source = if downgrade {
            get_latest_version_in_up_to(file, patches, target)
        } else {
            get_latest_version_in(file, window.as_slice())
        };
        assert(source == source_version(catalog, current, target, file@));
        match source {
            Some(version) => {
                let entry = ResolvedFile { file: file.clone(), source_version: version };
                out.push(entry);
                assert(resolved_of(out@) =~= resolved_of(before).push(
                    ResolvedModel { file: file@, source_version: version },
                ));
            },
            None => {},
        }
        i += 1;
    }
    proof {
        assert(paths.take(i as int) =~= paths);
        lemma_resolution_resolves(catalog, current, target);
    }
    out
}

} // verus!
