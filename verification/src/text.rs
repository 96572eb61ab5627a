//! Text helpers: decimal numbers and the parts of a relative path.

use vstd::prelude::*;
use vstd::string::*;

verus! {

/// The decimal digit for `d`, which lies between 0 and 9.
pub open spec fn digit_char(d: int) -> char {
    if d == 0 {
        '0'
    } else if d == 1 {
        '1'
    } else if d == 2 {
        '2'
    } else if d == 3 {
        '3'
    } else if d == 4 {
        '4'
    } else if d == 5 {
        '5'
    } else if d == 6 {
        '6'
    } else if d == 7 {
        '7'
    } else if d == 8 {
        '8'
    } else {
        '9'
    }
}

/// `n` written in decimal, without sign or leading zeros.
pub open spec fn decimal(n: nat) -> Seq<char>
    decreases n,
{
    if n < 10 {
        seq![digit_char(n as int)]
    } else {
        decimal(n / 10).push(digit_char((n % 10) as int))
    }
}

/// The position of the last `/` in `path`, or -1 when it has none.
pub open spec fn last_separator(path: Seq<char>) -> int
    decreases path.len(),
{
    if path.len() == 0 {
        -1
    } else if path.last() == '/' {
        path.len() - 1
    } else {
        last_separator(path.drop_last())
    }
}

/// What follows the last `/` of `path`; all of `path` when it has none.
pub open spec fn file_name_of(path: Seq<char>) -> Seq<char> {
    path.subrange(last_separator(path) + 1, path.len() as int)
}

/// True when `path` names a directory in front of its file name, that is
/// when it holds a `/`.
pub open spec fn has_directory(path: Seq<char>) -> bool {
    path.contains('/')
}

/// Where a client downloads `file` of patch `version` from: the base path,
/// the version in decimal and the file's relative path, joined by `/`.
pub open spec fn download_path_of(base: Seq<char>, version: u16, file: Seq<char>) -> Seq<char> {
    base + seq!['/'] + decimal(version as nat) + seq!['/'] + file
}

/// The text of one decimal digit.
fn digit_text(d: u16) -> (text: &'static str)
    requires
        d < 10,
    ensures
        text@ == seq![digit_char(d as int)],
{
    proof {
        reveal_strlit("0");
        reveal_strlit("1");
        reveal_strlit("2");
        reveal_strlit("3");
        reveal_strlit("4");
        reveal_strlit("5");
        reveal_strlit("6");
        reveal_strlit("7");
        reveal_strlit("8");
        reveal_strlit("9");
    }
    let text = if d == 0 {
        "0"
    } else if d == 1 {
        "1"
    } else if d == 2 {
        "2"
    } else if d == 3 {
        "3"
    } else if d == 4 {
        "4"
    } else if d == 5 {
        "5"
    } else if d == 6 {
        "6"
    } else if d == 7 {
        "7"
    } else if d == 8 {
        "8"
    } else {
        "9"
    };
    text
}

/// Writes `n` in decimal.
pub fn decimal_text(n: u16) -> (text: String)
    ensures
        text@ == decimal(n as nat),
    decreases n,
{
    if n < 10 {
        digit_text(n).to_owned()
    } else {
        let mut text = decimal_text(n / 10);
        text.append(digit_text(n % 10));
        text
    }
}

/// The bare file name of a relative path: what follows its last `/`.
pub fn file_name(path: &str) -> (name: String)
    ensures
        name@ == file_name_of(path@),
{
    let len = path.unicode_len();
    let mut start: usize = len;
    assert(path@.take(start as int) =~= path@);
    while start > 0
        invariant
            start <= len,
            len == path@.len(),
            last_separator(path@) == last_separator(path@.take(start as int)),
        decreases start,
    {
        assert(path@.take(start as int).drop_last() =~= path@.take(start - 1));
        if path.get_char(start - 1) == '/' {
            return path.substring_char(start, len).to_owned();
        }
        start -= 1;
    }
    path.substring_char(0, len).to_owned()
}

/// Tells whether a relative path names a directory in front of its file name.
pub fn in_directory(path: &str) -> (found: bool)
    ensures
        found == has_directory(path@),
{
    let len = path.unicode_len();
    let mut i: usize = 0;
    while i < len
        invariant
            i <= len,
            len == path@.len(),
            forall|j: int| 0 <= j < i ==> path@[j] != '/',
        decreases len - i,
    {
        if path.get_char(i) == '/' {
            return true;
        }
        i += 1;
    }
    false
}

/// The path below the download host at which `file` of patch `version` is served.
pub fn download_path(base: &str, version: u16, file: &str) -> (path: String)
    ensures
        path@ == download_path_of(base@, version, file@),
{
    proof {
        reveal_strlit("/");
    }
    let number = decimal_text(version);
    let mut path = base.to_owned();
    path.append("/");
    path.append(number.as_str());
    path.append("/");
    path.append(file);
    path
}

} // verus!
