//! From the listing of the patch directory to the patches of the catalog.
//!
//! Below the patch directory lies one directory per patch, named by the
//! patch's version in decimal; the files below it are the files of the patch.

use crate::catalog::{catalog_of, paths_of, Patch};
use vstd::prelude::*;
use vstd::string::*;

verus! {

/// True when `c` is one of the digits `0` to `9`.
pub open spec fn is_digit(c: char) -> bool {
    '0' <= c <= '9'
}

/// The number that the digit `c` stands for.
pub open spec fn digit_value(c: char) -> nat {
    (c as int - '0' as int) as nat
}

/// True when `text` holds digits and nothing else.
pub open spec fn all_digits(text: Seq<char>) -> bool {
    forall|i: int| 0 <= i < text.len() ==> is_digit(#[trigger] text[i])
}

/// The number that the digits of `text` spell in decimal.
pub open spec fn digits_value(text: Seq<char>) -> nat
    decreases text.len(),
{
    if text.len() == 0 {
        0
    } else {
        digits_value(text.drop_last()) * 10 + digit_value(text.last())
    }
}

/// `name` without the `+` that may stand in front of a number.
pub open spec fn unsigned_part(name: Seq<char>) -> Seq<char> {
    if name.len() > 0 && name[0] == '+' {
        name.subrange(1, name.len() as int)
    } else {
        name
    }
}

/// The version that a directory name stands for: one or more decimal digits,
/// with or without a `+` in front, that spell a number of at most 65535.
pub open spec fn version_of(name: Seq<char>) -> Option<u16> {
    let digits = unsigned_part(name);
    if digits.len() > 0 && all_digits(digits) && digits_value(digits) <= u16::MAX {
        Some(digits_value(digits) as u16)
    } else {
        None
    }
}

/// One directory below the patch directory: its name and the paths, relative
/// to it, of the files found below it.
#[derive(Clone, Debug, PartialEq, Eq)]
pub struct PatchDirectory {
    pub name: String,
    pub files: Vec<String>,
}

/// Why a listing of the patch directory gives no catalog.
#[derive(Debug, PartialEq, Eq)]
pub enum LoadError {
    /// The name of the entry at this position is not a version.
    NotAVersion { entry: usize },
}

/// Reads a version from the name of a patch's directory.
pub fn parse_version(name: &str) -> (version: Option<u16>)
    ensures
        version == version_of(name@),
{
    let len = name.unicode_len();
    if len == 0 {
        return None;
    }
    let start: usize = if name.get_char(0) == '+' {
        1
    } else {
        0
    };
    if start == len {
        return None;
    }
    let ghost digits = unsigned_part(name@);
    let mut value: u32 = 0;
    let mut too_large = false;
    let mut i: usize = start;
    assert(digits =~= name@.subrange(start as int, len as int));
    while i < len
        invariant
            start <= i <= len,
            len == name@.len(),
            digits == unsigned_part(name@),
            digits == name@.subrange(start as int, len as int),
            all_digits(digits.take(i - start)),
            !too_large ==> value == digits_value(digits.take(i - start)) && value <= u16::MAX,
            too_large ==> digits_value(digits.take(i - start)) > u16::MAX,
        decreases len - i,
    {
        let c = name.get_char(i);
        let ghost seen = digits.take(i - start);
        let ghost next = digits.take(i + 1 - start);
        proof {
            assert(next.last() == c);
            assert(next.drop_last() =~= seen);
        }
        if c < '0' || c > '9' {
            assert(!is_digit(digits[i - start]));
            assert(!all_digits(digits));
            return None;
        }
        assert(all_digits(next)) by {
            assert forall|j: int| 0 <= j < next.len() implies is_digit(#[trigger] next[j]) by {
                if j < seen.len() {
                    assert(seen[j] == next[j]);
                }
            }
        }
        let digit: u32 = c as u32 - '0' as u32;
        if !too_large {
            value = value * 10 + digit;
            if value > 65535 {
                too_large = true;
            }
        }
        i += 1;
    }
    assert(digits.take(len - start) =~= digits);
    if too_large {
        None
    } else {
        Some(value as u16)
    }
}

/// A copy of a list of paths.
fn copy_paths(files: &Vec<String>) -> (copy: Vec<String>)
    ensures
        paths_of(copy@) == paths_of(files@),
{
    let mut copy: Vec<String> = Vec::new();
    let mut i: usize = 0;
    while i < files.len()
        invariant
            i <= files.len(),
            copy@.len() == i,
            forall|j: int| 0 <= j < i ==> copy@[j]@ == files@[j]@,
        decreases files.len() - i,
    {
        copy.push(files[i].clone());
        i += 1;
    }
    copy
}

/// The patches that a listing of the patch directory describes, in the order
/// of the listing: one per entry, with the version that the entry's name
/// stands for and the entry's files.
///
/// Fails at the first entry whose name is not a version, so that a listing
/// that cannot be read in full gives no catalog at all. The entries are not
/// sorted.
pub fn load_patches(entries: &Vec<PatchDirectory>) -> (loaded: Result<Vec<Patch>, LoadError>)
    ensures
        match loaded {
            Ok(patches) => {
                &&& patches@.len() == entries@.len()
                &&& forall|i: int|
                    0 <= i < entries@.len() ==> version_of(entries@[i].name@) == Some(
                        (#[trigger] catalog_of(patches@)[i]).version,
                    ) && catalog_of(patches@)[i].files == paths_of(entries@[i].files@)
            },
            Err(LoadError::NotAVersion { entry }) => {
                &&& entry < entries@.len()
                &&& version_of(entries@[entry as int].name@).is_none()
                &&& forall|i: int|
                    0 <= i < entry ==> (#[trigger] version_of(entries@[i].name@)).is_some()
            },
        },
{
    let mut patches: Vec<Patch> = Vec::new();
    let mut i: usize = 0;
    while i < entries.len()
        invariant
            i <= entries.len(),
            patches@.len() == i,
            forall|j: int| 0 <= j < i ==> (#[trigger] version_of(entries@[j].name@)).is_some(),
            forall|j: int|
                0 <= j < i ==> version_of(entries@[j].name@) == Some(
                    (#[trigger] catalog_of(patches@)[j]).version,
                ) && catalog_of(patches@)[j].files == paths_of(entries@[j].files@),
        decreases entries.len() - i,
    {
        let entry: &PatchDirectory = &entries[i];
        let ghost before = patches@;
        match parse_version(entry.name.as_str()) {
            Some(version) => {
                let files = copy_paths(&entry.files);
                patches.push(Patch { version, files });
                assert forall|j: int| 0 <= j < i + 1 implies version_of(entries@[j].name@) == Some(
                    (#[trigger] catalog_of(patches@)[j]).version,
                ) && catalog_of(patches@)[j].files == paths_of(entries@[j].files@) by {
                    if j < i {
                        assert(catalog_of(patches@)[j] == catalog_of(before)[j]);
                    }
                }
            },
            None => {
                return Err(LoadError::NotAVersion { entry: i });
            },
        }
        i += 1;
    }
    Ok(patches)
}

} // verus!
