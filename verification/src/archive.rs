//! Which files are archives of records, and how the rows of an archive are
//! grouped when they are written to the store.

use vstd::prelude::*;
use crate::text::chars_of;

verus! {

/// The number of rows that are written to the store in one transaction.
pub const ROWS_PER_TRANSACTION: u64 = 100_000;

/// The ending of the name of an archive: `.csv.gzip`.
pub open spec fn archive_suffix() -> Seq<char> {
    seq!['.', 'c', 's', 'v', '.', 'g', 'z', 'i', 'p']
}

/// The text ends with the suffix.
pub open spec fn ends_with(text: Seq<char>, suffix: Seq<char>) -> bool {
    text.len() >= suffix.len() && text.subrange(text.len() - suffix.len(), text.len() as int)
        == suffix
}

/// Tests whether a file name is that of an archive.
pub fn is_archive_name(name: &str) -> (r: bool)
    ensures
        r == ends_with(name@, archive_suffix()),
{
    let chars = chars_of(name);
    let suffix: [char; 9] = ['.', 'c', 's', 'v', '.', 'g', 'z', 'i', 'p'];
    if chars.len() < 9 {
        return false;
    }
    let from = chars.len() - 9;
    let ghost end = chars@.subrange(from as int, chars@.len() as int);
    let mut i: usize = 0;
    while i < 9
        invariant
            i <= 9,
            from + 9 == chars@.len(),
            chars@.len() <= usize::MAX,
            chars@ == name@,
            suffix@ == archive_suffix(),
            end == chars@.subrange(from as int, chars@.len() as int),
            forall|j: int| 0 <= j < i ==> end[j] == suffix@[j],
        decreases 9 - i,
    {
        if chars[from + i] != suffix[i] {
            return false;
        }
        i = i + 1;
    }
    assert(end =~= archive_suffix());
    true
}

/// Tests whether the transaction is to be committed after a row, given the
/// number of rows written before it: after the first row, and then after
/// every `ROWS_PER_TRANSACTION` rows.
pub fn commit_due(rows_before: u64) -> (r: bool)
    ensures
        r == (rows_before % ROWS_PER_TRANSACTION == 0),
{
    rows_before % ROWS_PER_TRANSACTION == 0
}

} // verus!
