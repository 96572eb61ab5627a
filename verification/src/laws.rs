//! What holds of every resolution, stated over the catalog itself.

use crate::catalog::{
    ascending, between, crossed, last_mention, lemma_last_mention, mentioned, mentions,
    no_newer_than, resolution, resolves, source_version, PatchModel, ResolvedModel,
};
use vstd::prelude::*;

verus! {

/// True when patch `i` of `catalog` has a version above `after` and at or
/// below `up_to` and lists `file`.
pub open spec fn lists_within(
    catalog: Seq<PatchModel>,
    after: int,
    up_to: int,
    file: Seq<char>,
    i: int,
) -> bool {
    &&& 0 <= i < catalog.len()
    &&& after < catalog[i].version <= up_to
    &&& mentions(catalog[i], file)
}

/// True when some patch with a version above `after` and at or below `up_to` lists `file`.
pub open spec fn listed_within(
    catalog: Seq<PatchModel>,
    after: int,
    up_to: int,
    file: Seq<char>,
) -> bool {
    exists|i: int| lists_within(catalog, after, up_to, file, i)
}

/// True when `version` is the highest version, above `after` and at or below
/// `up_to`, of a patch that lists `file`.
pub open spec fn highest_within(
    catalog: Seq<PatchModel>,
    after: int,
    up_to: int,
    file: Seq<char>,
    version: u16,
) -> bool {
    &&& exists|i: int|
        lists_within(catalog, after, up_to, file, i) && catalog[i].version == version
    &&& forall|j: int|
        lists_within(catalog, after, up_to, file, j) ==> catalog[j].version <= version
}

/// True when `out` holds `file` exactly once, and with `version`.
pub open spec fn occurs_once(out: Seq<ResolvedModel>, file: Seq<char>, version: u16) -> bool {
    exists|k: int|
        {
            &&& 0 <= k < out.len()
            &&& #[trigger] out[k] == (ResolvedModel { file, source_version: version })
            &&& forall|m: int| 0 <= m < out.len() && (#[trigger] out[m]).file == file ==> m == k
        }
}

/// True when `out` does not hold `file`.
pub open spec fn absent(out: Seq<ResolvedModel>, file: Seq<char>) -> bool {
    forall|k: int| 0 <= k < out.len() ==> (#[trigger] out[k]).file != file
}

/// The members of a selection by version are the members of the catalog that
/// the selection keeps, and a selection from an ascending catalog is ascending.
proof fn lemma_selected(catalog: Seq<PatchModel>, keep: spec_fn(PatchModel) -> bool)
    ensures
        forall|k: int|
            0 <= k < catalog.filter(keep).len() ==> keep(#[trigger] catalog.filter(keep)[k])
                && catalog.contains(catalog.filter(keep)[k]),
        forall|i: int|
            0 <= i < catalog.len() && keep(#[trigger] catalog[i]) ==> catalog.filter(
                keep,
            ).contains(catalog[i]),
        ascending(catalog) ==> ascending(catalog.filter(keep)),
    decreases catalog.len(),
{
    reveal(Seq::filter);
    if catalog.len() > 0 {
        let earlier = catalog.drop_last();
        let end = catalog.len() - 1;
        let chosen = catalog.filter(keep);
        let before = earlier.filter(keep);
        lemma_selected(earlier, keep);
        assert forall|k: int| 0 <= k < chosen.len() implies keep(#[trigger] chosen[k])
            && catalog.contains(chosen[k]) by {
            if k < before.len() {
                assert(chosen[k] == before[k]);
                let i = choose|i: int| 0 <= i < earlier.len() && earlier[i] == before[k];
                assert(catalog[i] == chosen[k]);
            } else {
                assert(catalog[end] == chosen[k]);
            }
        }
        assert forall|i: int|
            0 <= i < catalog.len() && keep(#[trigger] catalog[i]) implies chosen.contains(
            catalog[i],
        ) by {
            if i < end {
                assert(earlier[i] == catalog[i]);
                let k = choose|k: int| 0 <= k < before.len() && before[k] == earlier[i];
                assert(chosen[k] == catalog[i]);
            } else {
                assert(chosen[chosen.len() - 1] == catalog[i]);
            }
        }
        if ascending(catalog) {
            assert(ascending(earlier)) by {
                assert forall|i: int, j: int| 0 <= i <= j < earlier.len() implies (
                #[trigger] earlier[i]).version <= (#[trigger] earlier[j]).version by {
                    assert(catalog[i].version <= catalog[j].version);
                }
            }
            assert forall|a: int, b: int| 0 <= a <= b < chosen.len() implies (
            #[trigger] chosen[a]).version <= (#[trigger] chosen[b]).version by {
                if b < before.len() {
                    assert(chosen[a] == before[a] && chosen[b] == before[b]);
                } else if a < before.len() {
                    assert(chosen[a] == before[a]);
                    let i = choose|i: int| 0 <= i < earlier.len() && earlier[i] == before[a];
                    assert(catalog[i].version <= catalog[end].version);
                }
            }
        }
    }
}

/// In an ascending list of patches the last one that lists a file has the
/// highest version of all that list it.
proof fn lemma_last_is_highest(patches: Seq<PatchModel>, file: Seq<char>)
    requires
        ascending(patches),
        mentioned(patches, file),
    ensures
        last_mention(patches, file).is_some(),
        exists|i: int|
            0 <= i < patches.len() && mentions(#[trigger] patches[i], file) && patches[i].version
                == last_mention(patches, file).unwrap(),
        forall|j: int|
            0 <= j < patches.len() && mentions(#[trigger] patches[j], file) ==> patches[j].version
                <= last_mention(patches, file).unwrap(),
{
    lemma_last_mention(patches, file);
    let i = choose|i: int|
        {
            &&& 0 <= i < patches.len()
            &&& mentions(#[trigger] patches[i], file)
            &&& patches[i].version == last_mention(patches, file).unwrap()
            &&& forall|j: int| i < j < patches.len() ==> !mentions(#[trigger] patches[j], file)
        };
    assert forall|j: int|
        0 <= j < patches.len() && mentions(#[trigger] patches[j], file) implies patches[j].version
        <= patches[i].version by {
        if j > i {
            assert(!mentions(patches[j], file));
        }
    }
}

/// In an ascending catalog, the last patch above `after` and at or below
/// `up_to` that lists a file is the one with the highest such version.
proof fn lemma_between_highest(catalog: Seq<PatchModel>, after: u16, up_to: u16, file: Seq<char>)
    requires
        ascending(catalog),
    ensures
        mentioned(between(catalog, after, up_to), file) <==> listed_within(
            catalog,
            after as int,
            up_to as int,
            file,
        ),
        match last_mention(between(catalog, after, up_to), file) {
            Some(version) => highest_within(catalog, after as int, up_to as int, file, version),
            None => !listed_within(catalog, after as int, up_to as int, file),
        },
{
    let keep = |p: PatchModel| after < p.version <= up_to;
    let window = between(catalog, after, up_to);
    lemma_selected(catalog, keep);
    lemma_last_mention(window, file);
    if mentioned(window, file) {
        let k = choose|k: int| 0 <= k < window.len() && mentions(#[trigger] window[k], file);
        let i = choose|i: int| 0 <= i < catalog.len() && catalog[i] == window[k];
        assert(lists_within(catalog, after as int, up_to as int, file, i));
    }
    if listed_within(catalog, after as int, up_to as int, file) {
        let i = choose|i: int| lists_within(catalog, after as int, up_to as int, file, i);
        assert(keep(catalog[i]));
        let k = choose|k: int| 0 <= k < window.len() && window[k] == catalog[i];
        assert(mentions(window[k], file));
    }
    if mentioned(window, file) {
        lemma_last_is_highest(window, file);
        let version = last_mention(window, file).unwrap();
        let k = choose|k: int|
            0 <= k < window.len() && mentions(#[trigger] window[k], file) && window[k].version
                == version;
        let i = choose|i: int| 0 <= i < catalog.len() && catalog[i] == window[k];
        assert(lists_within(catalog, after as int, up_to as int, file, i));
        assert forall|j: int|
            lists_within(catalog, after as int, up_to as int, file, j) implies catalog[j].version
            <= version by {
            assert(keep(catalog[j]));
            let m = choose|m: int| 0 <= m < window.len() && window[m] == catalog[j];
            assert(mentions(window[m], file));
        }
    }
}

/// In an ascending catalog, the last patch at or below `limit` that lists a
/// file is the one with the highest such version.
proof fn lemma_no_newer_highest(catalog: Seq<PatchModel>, limit: u16, file: Seq<char>)
    requires
        ascending(catalog),
    ensures
        match last_mention(no_newer_than(catalog, limit), file) {
            Some(version) => highest_within(catalog, -1, limit as int, file, version),
            None => !listed_within(catalog, -1, limit as int, file),
        },
{
    let keep = |p: PatchModel| p.version <= limit;
    let floor: int = -1;
    let window = no_newer_than(catalog, limit);
    lemma_selected(catalog, keep);
    lemma_last_mention(window, file);
    if listed_within(catalog, -1, limit as int, file) {
        let i = choose|i: int| lists_within(catalog, floor, limit as int, file, i);
        assert(keep(catalog[i]));
        let k = choose|k: int| 0 <= k < window.len() && window[k] == catalog[i];
        assert(mentions(window[k], file));
    }
    if mentioned(window, file) {
        lemma_last_is_highest(window, file);
        let version = last_mention(window, file).unwrap();
        let k = choose|k: int|
            0 <= k < window.len() && mentions(#[trigger] window[k], file) && window[k].version
                == version;
        let i = choose|i: int| 0 <= i < catalog.len() && catalog[i] == window[k];
        assert(lists_within(catalog, -1, limit as int, file, i));
        assert forall|j: int|
            lists_within(catalog, floor, limit as int, file, j) implies catalog[j].version
            <= version by {
            assert(keep(catalog[j]));
            let m = choose|m: int| 0 <= m < window.len() && window[m] == catalog[j];
            assert(mentions(window[m], file));
        }
    }
}

/// A resolution holds a file once, with its source, when it has one, and not at all otherwise.
proof fn lemma_resolved_entry(
    catalog: Seq<PatchModel>,
    current: u16,
    target: u16,
    out: Seq<ResolvedModel>,
    file: Seq<char>,
)
    requires
        resolves(catalog, current, target, out),
    ensures
        match source_version(catalog, current, target, file) {
            Some(version) => occurs_once(out, file, version),
            None => absent(out, file),
        },
{
    match source_version(catalog, current, target, file) {
        Some(version) => {
            let k = choose|k: int| 0 <= k < out.len() && (#[trigger] out[k]).file == file;
            assert(out[k] == ResolvedModel { file, source_version: version });
            assert forall|m: int| 0 <= m < out.len() && (#[trigger] out[m]).file == file implies m
                == k by {
                if m < k {
                    assert(out[m].file != out[k].file);
                }
                if k < m {
                    assert(out[k].file != out[m].file);
                }
            }
        },
        None => {
            assert forall|k: int| 0 <= k < out.len() implies (#[trigger] out[k]).file != file by {
                if out[k].file == file {
                    assert(source_version(catalog, current, target, out[k].file).is_some());
                }
            }
        },
    }
}

/// Moving up through an ascending catalog: a file that some patch above
/// `current` and at or below `target` lists is in the result exactly once,
/// with the highest version of such a patch that lists it; any other file is
/// not in the result.
pub proof fn upgrade_takes_newest_copy(
    catalog: Seq<PatchModel>,
    current: u16,
    target: u16,
    out: Seq<ResolvedModel>,
    file: Seq<char>,
)
    requires
        ascending(catalog),
        target > current,
        resolves(catalog, current, target, out),
    ensures
        listed_within(catalog, current as int, target as int, file) ==> exists|version: u16|
            #![trigger occurs_once(out, file, version)]
            highest_within(catalog, current as int, target as int, file, version) && occurs_once(
                out,
                file,
                version,
            ),
        !listed_within(catalog, current as int, target as int, file) ==> absent(out, file),
{
    lemma_between_highest(catalog, current, target, file);
    lemma_resolved_entry(catalog, current, target, out, file);
    if listed_within(catalog, current as int, target as int, file) {
        let version = source_version(catalog, current, target, file).unwrap();
        assert(occurs_once(out, file, version));
    }
}

/// Moving down through an ascending catalog: a file that some patch above
/// `target` and at or below `current` lists is in the result exactly once,
/// with the highest version at or below `target` of a patch that lists it, or
/// not at all when no patch at or below `target` lists it; any other file is
/// not in the result.
pub proof fn downgrade_reverts_to_older_copy(
    catalog: Seq<PatchModel>,
    current: u16,
    target: u16,
    out: Seq<ResolvedModel>,
    file: Seq<char>,
)
    requires
        ascending(catalog),
        target < current,
        resolves(catalog, current, target, out),
    ensures
        listed_within(catalog, target as int, current as int, file) && listed_within(
            catalog,
            -1,
            target as int,
            file,
        ) ==> exists|version: u16|
            #![trigger occurs_once(out, file, version)]
            highest_within(catalog, -1, target as int, file, version) && occurs_once(
                out,
                file,
                version,
            ),
        listed_within(catalog, target as int, current as int, file) && !listed_within(
            catalog,
            -1,
            target as int,
            file,
        ) ==> absent(out, file),
        !listed_within(catalog, target as int, current as int, file) ==> absent(out, file),
{
    lemma_between_highest(catalog, target, current, file);
    lemma_no_newer_highest(catalog, target, file);
    lemma_resolved_entry(catalog, current, target, out, file);
    if listed_within(catalog, target as int, current as int, file) && listed_within(
        catalog,
        -1,
        target as int,
        file,
    ) {
        let version = source_version(catalog, current, target, file).unwrap();
        assert(occurs_once(out, file, version));
    }
}

/// Two resolutions of the same catalog between the same versions hold the
/// same entries, whatever their order.
pub proof fn resolution_is_repeatable(
    catalog: Seq<PatchModel>,
    current: u16,
    target: u16,
    first: Seq<ResolvedModel>,
    second: Seq<ResolvedModel>,
)
    requires
        resolves(catalog, current, target, first),
        resolves(catalog, current, target, second),
    ensures
        first.to_set() == second.to_set(),
{
    assert forall|entry: ResolvedModel|
        first.to_set().contains(entry) <==> second.to_set().contains(entry) by {
        lemma_resolved_entry(catalog, current, target, first, entry.file);
        lemma_resolved_entry(catalog, current, target, second, entry.file);
        if first.contains(entry) {
            let k = choose|k: int| 0 <= k < first.len() && first[k] == entry;
            assert(first[k].file == entry.file);
            let m = choose|m: int|
                0 <= m < second.len() && #[trigger] second[m] == (ResolvedModel {
                    file: entry.file,
                    source_version: entry.source_version,
                });
            assert(second[m] == entry);
        }
        if second.contains(entry) {
            let k = choose|k: int| 0 <= k < second.len() && second[k] == entry;
            assert(second[k].file == entry.file);
            let m = choose|m: int|
                0 <= m < first.len() && #[trigger] first[m] == (ResolvedModel {
                    file: entry.file,
                    source_version: entry.source_version,
                });
            assert(first[m] == entry);
        }
    }
    assert(first.to_set() =~= second.to_set());
}

/// With no patches in the catalog, no move between two versions needs any file.
pub proof fn empty_catalog_needs_nothing(current: u16, target: u16, out: Seq<ResolvedModel>)
    requires
        resolves(Seq::empty(), current, target, out),
    ensures
        out.len() == 0,
        resolution(Seq::empty(), current, target) == Seq::<ResolvedModel>::empty(),
{
    reveal(Seq::filter);
    let catalog = Seq::<PatchModel>::empty();
    if out.len() > 0 {
        let file = out[0].file;
        assert(source_version(catalog, current, target, file).is_some());
        assert(between(catalog, target, current).len() == 0);
        assert(between(catalog, current, target).len() == 0);
    }
    assert(crossed(catalog, current, target).len() == 0);
}

} // verus!
