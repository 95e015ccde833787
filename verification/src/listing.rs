//! Directory listings: entry records, sorting, and the formatted texts the
//! listing operations report.

use vstd::prelude::*;
use vstd::multiset::Multiset;
use crate::requests::SortBy;

verus! {

use vstd::string::StringSliceAdditionalSpecFns;

/// One entry of a directory listing.
pub struct DirectoryEntry {
    pub name: Vec<u8>,
    pub file_type: Vec<u8>,
    pub size: u64,
    pub is_directory: bool,
    /// Modification time in seconds since the epoch, when known.
    pub modified: Option<u64>,
}

/// Byte-lexicographic order on names.
pub open spec fn bytes_le(a: Seq<u8>, b: Seq<u8>) -> bool
    decreases a.len(),
{
    if a.len() == 0 {
        true
    } else if b.len() == 0 {
        false
    } else if a[0] < b[0] {
        true
    } else if a[0] > b[0] {
        false
    } else {
        bytes_le(a.drop_first(), b.drop_first())
    }
}

pub proof fn lemma_bytes_le_total(a: Seq<u8>, b: Seq<u8>)
    ensures
        bytes_le(a, b) || bytes_le(b, a),
    decreases a.len(),
{
    if a.len() > 0 && b.len() > 0 && a[0] == b[0] {
        lemma_bytes_le_total(a.drop_first(), b.drop_first());
    }
}

pub proof fn lemma_bytes_le_trans(a: Seq<u8>, b: Seq<u8>, c: Seq<u8>)
    requires
        bytes_le(a, b),
        bytes_le(b, c),
    ensures
        bytes_le(a, c),
    decreases a.len(),
{
    if a.len() > 0 && b.len() > 0 && c.len() > 0 && a[0] == b[0] && b[0] == c[0] {
        lemma_bytes_le_trans(a.drop_first(), b.drop_first(), c.drop_first());
    }
}

/// Executable byte-lexicographic comparison.
pub fn bytes_le_vec(a: &Vec<u8>, b: &Vec<u8>) -> (r: bool)
    ensures
        r == bytes_le(a@, b@),
{
    proof {
        assert(a@.subrange(0, a@.len() as int) =~= a@);
        assert(b@.subrange(0, b@.len() as int) =~= b@);
    }
    let mut i: usize = 0;
    while i < a.len() && i < b.len()
        invariant
            i <= a.len(),
            i <= b.len(),
            bytes_le(a@, b@) == bytes_le(
                a@.subrange(i as int, a@.len() as int),
                b@.subrange(i as int, b@.len() as int),
            ),
            bytes_le(b@, a@) == bytes_le(
                b@.subrange(i as int, b@.len() as int),
                a@.subrange(i as int, a@.len() as int),
            ),
        decreases a.len() - i,
    {
        let ghost ra = a@.subrange(i as int, a@.len() as int);
        let ghost rb = b@.subrange(i as int, b@.len() as int);
        if a[i] < b[i] {
            assert(bytes_le(ra, rb));
            return true;
        }
        if a[i] > b[i] {
            assert(!bytes_le(ra, rb));
            return false;
        }
        proof {
            assert(ra.drop_first() =~= a@.subrange(i + 1 as int, a@.len() as int));
            assert(rb.drop_first() =~= b@.subrange(i + 1 as int, b@.len() as int));
        }
        i += 1;
    }
    if i >= a.len() {
        assert(bytes_le(a@.subrange(i as int, a@.len() as int), b@.subrange(i as int, b@.len() as int)));
        true
    } else {
        assert(!bytes_le(a@.subrange(i as int, a@.len() as int), b@.subrange(i as int, b@.len() as int)));
        false
    }
}

/// The listing order for one sort key: by name; by size, largest first; by
/// modification time, newest first, entries without a time last among
/// themselves ordered by name.
pub open spec fn entry_le(sort_by: SortBy, a: DirectoryEntry, b: DirectoryEntry) -> bool {
    match sort_by {
        SortBy::Name => bytes_le(a.name@, b.name@),
        SortBy::Size => b.size <= a.size,
        SortBy::Modified => match (a.modified, b.modified) {
            (Some(x), Some(y)) => y <= x,
            (Some(x), None) => true,
            (None, Some(y)) => false,
            (None, None) => bytes_le(a.name@, b.name@),
        },
    }
}

pub proof fn lemma_entry_le_total(sort_by: SortBy, a: DirectoryEntry, b: DirectoryEntry)
    ensures
        entry_le(sort_by, a, b) || entry_le(sort_by, b, a),
{
    lemma_bytes_le_total(a.name@, b.name@);
}

pub proof fn lemma_entry_le_trans(
    sort_by: SortBy,
    a: DirectoryEntry,
    b: DirectoryEntry,
    c: DirectoryEntry,
)
    requires
        entry_le(sort_by, a, b),
        entry_le(sort_by, b, c),
    ensures
        entry_le(sort_by, a, c),
{
    match sort_by {
        SortBy::Name => lemma_bytes_le_trans(a.name@, b.name@, c.name@),
        SortBy::Size => {}
        SortBy::Modified => {
            if a.modified is None && b.modified is None && c.modified is None {
                lemma_bytes_le_trans(a.name@, b.name@, c.name@);
            }
        }
    }
}

/// Executable comparison for one sort key.
fn entry_le_exec(sort_by: &SortBy, a: &DirectoryEntry, b: &DirectoryEntry) -> (r: bool)
    ensures
        r == entry_le(*sort_by, *a, *b),
{
    match sort_by {
        SortBy::Name => bytes_le_vec(&a.name, &b.name),
        SortBy::Size => b.size <= a.size,
        SortBy::Modified => match (&a.modified, &b.modified) {
            (Some(x), Some(y)) => *y <= *x,
            (Some(_), None) => true,
            (None, Some(_)) => false,
            (None, None) => bytes_le_vec(&a.name, &b.name),
        },
    }
}

/// Sortedness of a listing under one sort key.
pub open spec fn sorted_by(sort_by: SortBy, s: Seq<DirectoryEntry>) -> bool {
    forall|i: int, j: int| 0 <= i < j < s.len() ==> entry_le(sort_by, s[i], s[j])
}

/// Inserting an element anywhere adds exactly it to the multiset.
proof fn lemma_insert_to_multiset<A>(s: Seq<A>, p: int, x: A)
    requires
        0 <= p <= s.len(),
    ensures
        s.insert(p, x).to_multiset() == s.to_multiset().insert(x),
{
    broadcast use vstd::seq_lib::group_to_multiset_ensures;

    let left = s.subrange(0, p);
    let right = s.subrange(p, s.len() as int);
    assert(s.insert(p, x) =~= left + (seq![x] + right));
    assert(s =~= left + right);
    vstd::seq_lib::lemma_multiset_commutative(left, seq![x] + right);
    vstd::seq_lib::lemma_multiset_commutative(seq![x], right);
    vstd::seq_lib::lemma_multiset_commutative(left, right);
    assert(seq![x].to_multiset() =~= Multiset::<A>::empty().insert(x));
    assert(s.insert(p, x).to_multiset() =~= s.to_multiset().insert(x));
}

/// Sort directory entries for the given key: the result is ordered by
/// `entry_le` and holds exactly the same entries.
pub fn sort_directory_entries(entries: &mut Vec<DirectoryEntry>, sort_by: &SortBy)
    ensures
        sorted_by(*sort_by, final(entries)@),
        final(entries)@.to_multiset() == old(entries)@.to_multiset(),
{
    proof {
        broadcast use vstd::seq_lib::group_to_multiset_ensures;
    }
    let mut i: usize = 1;
    while i < entries.len()
        invariant
            i >= 1,
            entries@.len() == old(entries)@.len(),
            entries@.to_multiset() == old(entries)@.to_multiset(),
            forall|x: int, y: int| 0 <= x < y < i && y < entries@.len() ==> entry_le(
                *sort_by,
                entries@[x],
                entries@[y],
            ),
        decreases entries@.len() - i,
    {
        let ghost before_remove = entries@;
        let cur = entries.remove(i);
        proof {
            broadcast use vstd::seq_lib::group_to_multiset_ensures;

            assert(before_remove.remove(i as int).to_multiset() == before_remove.to_multiset()
                .remove(before_remove[i as int]));
            assert forall|x: int, y: int| 0 <= x < y < i implies entry_le(
                *sort_by,
                entries@[x],
                entries@[y],
            ) by {
                assert(entries@[x] == before_remove[x]);
                assert(entries@[y] == before_remove[y]);
            }
        }
        let mut p: usize = i;
        while p > 0 && !entry_le_exec(sort_by, &entries[p - 1], &cur)
            invariant
                p <= i,
                i <= entries@.len(),
                entries@ == before_remove.remove(i as int),
                forall|q: int| p <= q < i ==> entry_le(*sort_by, cur, #[trigger] entries@[q]),
                forall|x: int, y: int| 0 <= x < y < i ==> entry_le(
                    *sort_by,
                    entries@[x],
                    entries@[y],
                ),
            decreases p,
        {
            proof {
                lemma_entry_le_total(*sort_by, entries@[p - 1], cur);
                assert forall|q: int| p - 1 <= q < i implies entry_le(
                    *sort_by,
                    cur,
                    #[trigger] entries@[q],
                ) by {
                    if q > p - 1 {
                        lemma_entry_le_trans(*sort_by, cur, entries@[p - 1], entries@[q]);
                    }
                }
            }
            p -= 1;
        }
        let ghost before_insert = entries@;
        let ghost pos = p as int;
        entries.insert(p, cur);
        proof {
            broadcast use vstd::seq_lib::group_to_multiset_ensures;

            lemma_insert_to_multiset(before_insert, pos, cur);
            assert(entries@.to_multiset() == old(entries)@.to_multiset());
            // the enlarged prefix is sorted
            assert forall|x: int, y: int| 0 <= x < y < i + 1 && y < entries@.len() implies entry_le(
                *sort_by,
                entries@[x],
                entries@[y],
            ) by {
                let ex = entries@[x];
                let ey = entries@[y];
                if x < pos && y < pos {
                    assert(ex == before_insert[x] && ey == before_insert[y]);
                } else if x < pos && y == pos {
                    assert(ex == before_insert[x] && ey == cur);
                    assert(entry_le(*sort_by, before_insert[pos - 1], cur));
                    if x < pos - 1 {
                        lemma_entry_le_trans(
                            *sort_by,
                            before_insert[x],
                            before_insert[pos - 1],
                            cur,
                        );
                    }
                } else if x < pos && y > pos {
                    assert(ex == before_insert[x] && ey == before_insert[y - 1]);
                } else if x == pos {
                    assert(ex == cur && ey == before_insert[y - 1]);
                    assert(entry_le(*sort_by, cur, before_insert[y - 1]));
                } else {
                    assert(ex == before_insert[x - 1] && ey == before_insert[y - 1]);
                }
            }
        }
        i += 1;
    }
    proof {
        if entries@.len() > 0 {
            assert(i >= entries@.len());
        }
        assert(sorted_by(*sort_by, entries@));
    }
}

/// The dot byte, `.`.
pub const DOT: u8 = 46;

/// The index of the last `.` in a name, when there is one.
pub open spec fn last_dot(s: Seq<u8>) -> Option<int>
    decreases s.len(),
{
    if s.len() == 0 {
        None
    } else if s.last() == DOT {
        Some(s.len() - 1)
    } else {
        last_dot(s.drop_last())
    }
}

/// The extension of a file name: what follows the last `.`, provided the dot
/// is not the leading byte (a name such as a hidden file has none).
pub open spec fn extension_of(name: Seq<u8>) -> Option<Seq<u8>> {
    match last_dot(name) {
        Some(k) => if k >= 1 {
            Some(name.subrange(k + 1, name.len() as int))
        } else {
            None
        },
        None => None,
    }
}

/// ASCII lowercasing, byte for byte.
pub open spec fn ascii_lower(s: Seq<u8>) -> Seq<u8> {
    s.map_values(|b: u8| if 65 <= b <= 90 { (b + 32) as u8 } else { b })
}

/// The lowercased extension of `name`, when it has one.
pub fn extension_lower(name: &Vec<u8>) -> (r: Option<Vec<u8>>)
    ensures
        r matches Some(e) ==> (extension_of(name@) matches Some(x) && e@ == ascii_lower(x)),
        r is None ==> extension_of(name@) is None,
{
    proof {
        assert(name@.subrange(0, name@.len() as int) =~= name@);
    }
    let mut j: usize = name.len();
    while j > 0
        invariant
            j <= name.len(),
            last_dot(name@) == last_dot(name@.subrange(0, j as int)),
        decreases j,
    {
        proof {
            let cur = name@.subrange(0, j as int);
            assert(cur.last() == name@[j - 1 as int]);
            assert(cur.drop_last() =~= name@.subrange(0, j - 1 as int));
        }
        if name[j - 1] == DOT {
            if j - 1 >= 1 {
                let mut e: Vec<u8> = Vec::new();
                let mut m: usize = j;
                while m < name.len()
                    invariant
                        j <= m <= name.len(),
                        e@ == ascii_lower(name@.subrange(j as int, m as int)),
                    decreases name.len() - m,
                {
                    let b = name[m];
                    let lb: u8 = if 65 <= b && b <= 90 {
                        b + 32
                    } else {
                        b
                    };
                    e.push(lb);
                    proof {
                        assert(e@ =~= ascii_lower(name@.subrange(j as int, m + 1 as int)));
                    }
                    m += 1;
                }
                proof {
                    assert(name@.subrange(j as int, name@.len() as int) == name@.subrange(
                        (j - 1) + 1 as int,
                        name@.len() as int,
                    ));
                }
                return Some(e);
            } else {
                return None;
            }
        }
        j -= 1;
    }
    proof {
        assert(name@.subrange(0, 0).len() == 0);
    }
    None
}

/// The bracketed type label of a directory entry: `[DIR]`, `[SYMLINK]`,
/// `<ext> [FILE]` with the extension lowercased, or `[FILE]`.
pub open spec fn entry_kind_label(is_dir: bool, is_symlink: bool, name: Seq<u8>) -> Seq<u8> {
    if is_dir {
        "[DIR]".spec_bytes()
    } else if is_symlink {
        "[SYMLINK]".spec_bytes()
    } else {
        match extension_of(name) {
            Some(e) => ascii_lower(e) + " [FILE]".spec_bytes(),
            None => "[FILE]".spec_bytes(),
        }
    }
}

/// Build the listing entry for one enumerated directory member: a directory
/// reports size zero, and the type label classifies by kind and extension.
pub fn read_directory_entry(
    name: Vec<u8>,
    is_dir: bool,
    is_symlink: bool,
    size: u64,
    modified: Option<u64>,
) -> (r: DirectoryEntry)
    ensures
        r.name@ == name@,
        r.file_type@ == entry_kind_label(is_dir, is_symlink, name@),
        r.size == (if is_dir {
            0u64
        } else {
            size
        }),
        r.is_directory == is_dir,
        r.modified == modified,
{
    let file_type = if is_dir {
        crate::bytes::bytes_of("[DIR]")
    } else if is_symlink {
        crate::bytes::bytes_of("[SYMLINK]")
    } else {
        match extension_lower(&name) {
            Some(mut e) => {
                let tail = crate::bytes::bytes_of(" [FILE]");
                crate::bytes::vec_extend(&mut e, &tail);
                e
            }
            None => crate::bytes::bytes_of("[FILE]"),
        }
    };
    let entry_size = if is_dir {
        0
    } else {
        size
    };
    DirectoryEntry { name, file_type, size: entry_size, is_directory: is_dir, modified }
}

/// The type label reported by the metadata operation.
pub open spec fn info_kind_label(is_dir: bool, is_file: bool) -> Seq<u8> {
    if is_dir {
        "[DIRECTORY]".spec_bytes()
    } else if is_file {
        "[FILE]".spec_bytes()
    } else {
        "[OTHER]".spec_bytes()
    }
}

/// Classify one path for the metadata operation.
pub fn file_info_type(is_dir: bool, is_file: bool) -> (r: Vec<u8>)
    ensures
        r@ == info_kind_label(is_dir, is_file),
{
    if is_dir {
        crate::bytes::bytes_of("[DIRECTORY]")
    } else if is_file {
        crate::bytes::bytes_of("[FILE]")
    } else {
        crate::bytes::bytes_of("[OTHER]")
    }
}

/// The icon shown for a type label.
pub open spec fn icon_of(ft: Seq<u8>) -> Seq<u8> {
    if ft == "[DIR]".spec_bytes() {
        "📁".spec_bytes()
    } else if ft == "[SYMLINK]".spec_bytes() {
        "🔗".spec_bytes()
    } else if crate::edits::has_match(ft, "rs [FILE]".spec_bytes()) {
        "🦀".spec_bytes()
    } else if crate::edits::has_match(ft, "js [FILE]".spec_bytes()) {
        "📜".spec_bytes()
    } else if crate::edits::has_match(ft, "ts [FILE]".spec_bytes()) {
        "📘".spec_bytes()
    } else if crate::edits::has_match(ft, "py [FILE]".spec_bytes()) {
        "🐍".spec_bytes()
    } else if crate::edits::has_match(ft, "json [FILE]".spec_bytes()) {
        "📋".spec_bytes()
    } else if crate::edits::has_match(ft, "toml [FILE]".spec_bytes()) {
        "⚙️".spec_bytes()
    } else if crate::edits::has_match(ft, "yaml [FILE]".spec_bytes()) || crate::edits::has_match(
        ft,
        "yml [FILE]".spec_bytes(),
    ) {
        "📄".spec_bytes()
    } else if crate::edits::has_match(ft, "md [FILE]".spec_bytes()) {
        "📝".spec_bytes()
    } else if crate::edits::has_match(ft, "txt [FILE]".spec_bytes()) {
        "📄".spec_bytes()
    } else if crate::edits::has_match(ft, "log [FILE]".spec_bytes()) {
        "📊".spec_bytes()
    } else if crate::edits::has_match(ft, "png [FILE]".spec_bytes()) || crate::edits::has_match(
        ft,
        "jpg [FILE]".spec_bytes(),
    ) || crate::edits::has_match(ft, "jpeg [FILE]".spec_bytes()) || crate::edits::has_match(
        ft,
        "gif [FILE]".spec_bytes(),
    ) {
        "🖼️".spec_bytes()
    } else if crate::edits::has_match(ft, "pdf [FILE]".spec_bytes()) {
        "📕".spec_bytes()
    } else if crate::edits::has_match(ft, "zip [FILE]".spec_bytes()) || crate::edits::has_match(
        ft,
        "tar [FILE]".spec_bytes(),
    ) || crate::edits::has_match(ft, "gz [FILE]".spec_bytes()) {
        "📦".spec_bytes()
    } else {
        "📄".spec_bytes()
    }
}

fn has_sub(s: &Vec<u8>, pat: &str) -> (r: bool)
    ensures
        r == crate::edits::has_match(s@, pat.spec_bytes()),
{
    let p = crate::bytes::bytes_of(pat);
    crate::edits::find_first(s, &p).is_some()
}

/// The icon for a file-type label.
pub fn get_file_icon(file_type: &Vec<u8>) -> (r: Vec<u8>)
    ensures
        r@ == icon_of(file_type@),
{
    let dir_label = crate::bytes::bytes_of("[DIR]");
    let symlink_label = crate::bytes::bytes_of("[SYMLINK]");
    if crate::bytes::vec_eq(file_type, &dir_label) {
        crate::bytes::bytes_of("📁")
    } else if crate::bytes::vec_eq(file_type, &symlink_label) {
        crate::bytes::bytes_of("🔗")
    } else if has_sub(file_type, "rs [FILE]") {
        crate::bytes::bytes_of("🦀")
    } else if has_sub(file_type, "js [FILE]") {
        crate::bytes::bytes_of("📜")
    } else if has_sub(file_type, "ts [FILE]") {
        crate::bytes::bytes_of("📘")
    } else if has_sub(file_type, "py [FILE]") {
        crate::bytes::bytes_of("🐍")
    } else if has_sub(file_type, "json [FILE]") {
        crate::bytes::bytes_of("📋")
    } else if has_sub(file_type, "toml [FILE]") {
        crate::bytes::bytes_of("⚙️")
    } else if has_sub(file_type, "yaml [FILE]") || has_sub(file_type, "yml [FILE]") {
        crate::bytes::bytes_of("📄")
    } else if has_sub(file_type, "md [FILE]") {
        crate::bytes::bytes_of("📝")
    } else if has_sub(file_type, "txt [FILE]") {
        crate::bytes::bytes_of("📄")
    } else if has_sub(file_type, "log [FILE]") {
        crate::bytes::bytes_of("📊")
    } else if has_sub(file_type, "png [FILE]") || has_sub(file_type, "jpg [FILE]") || has_sub(
        file_type,
        "jpeg [FILE]",
    ) || has_sub(file_type, "gif [FILE]") {
        crate::bytes::bytes_of("🖼️")
    } else if has_sub(file_type, "pdf [FILE]") {
        crate::bytes::bytes_of("📕")
    } else if has_sub(file_type, "zip [FILE]") || has_sub(file_type, "tar [FILE]") || has_sub(
        file_type,
        "gz [FILE]",
    ) {
        crate::bytes::bytes_of("📦")
    } else {
        crate::bytes::bytes_of("📄")
    }
}

/// The unit label for a size magnitude.
pub open spec fn size_unit(i: int) -> Seq<u8> {
    if i == 0 {
        "B".spec_bytes()
    } else if i == 1 {
        "KB".spec_bytes()
    } else if i == 2 {
        "MB".spec_bytes()
    } else if i == 3 {
        "GB".spec_bytes()
    } else {
        "TB".spec_bytes()
    }
}

/// The magnitude of a size: how many times it can be divided by 1024 while
/// staying at least 1, capped at terabytes.
pub open spec fn unit_index(size: nat) -> int {
    if size < 1024 {
        0
    } else if size < 1024 * 1024 {
        1
    } else if size < 1024 * 1024 * 1024 {
        2
    } else if size < 1024 * 1024 * 1024 * 1024 {
        3
    } else {
        4
    }
}

/// The divisor of a magnitude.
pub open spec fn unit_divisor(i: int) -> nat {
    if i <= 0 {
        1
    } else if i == 1 {
        1024
    } else if i == 2 {
        1024 * 1024
    } else if i == 3 {
        1024 * 1024 * 1024
    } else {
        1024 * 1024 * 1024 * 1024
    }
}

/// Tenths rounded to nearest, ties to even.
pub open spec fn round_tenths_half_even(n10: nat, p: nat) -> nat {
    let q = n10 / p;
    let rem = n10 % p;
    if 2 * rem > p {
        q + 1
    } else if 2 * rem == p {
        q + q % 2
    } else {
        q
    }
}

/// A size in human-readable form: bytes verbatim, larger magnitudes with one
/// decimal place, rounded to nearest with ties to even.
pub open spec fn format_size_spec(size: nat) -> Seq<u8> {
    let i = unit_index(size);
    if i == 0 {
        crate::bytes::dec_bytes(size) + " B".spec_bytes()
    } else {
        let p = unit_divisor(i);
        let tenths = round_tenths_half_even(size * 10, p);
        crate::bytes::dec_bytes(tenths / 10) + ".".spec_bytes() + crate::bytes::dec_bytes(
            tenths % 10,
        ) + " ".spec_bytes() + size_unit(i)
    }
}

/// Format a size in human-readable form.
pub fn format_size(size: u64) -> (r: Vec<u8>)
    ensures
        r@ == format_size_spec(size as nat),
{
    let kib: u64 = 1024;
    let mib: u64 = 1024 * 1024;
    let gib: u64 = 1024 * 1024 * 1024;
    let tib: u64 = 1024 * 1024 * 1024 * 1024;
    if size < kib {
        let mut r = crate::bytes::u64_to_dec(size);
        let unit = crate::bytes::bytes_of(" B");
        crate::bytes::vec_extend(&mut r, &unit);
        proof {
            assert(r@ =~= format_size_spec(size as nat));
        }
        r
    } else {
        let p: u64 = if size < mib {
            kib
        } else if size < gib {
            mib
        } else if size < tib {
            gib
        } else {
            tib
        };
        let n10: u128 = (size as u128) * 10;
        let q_wide: u128 = n10 / (p as u128);
        let rem: u128 = n10 % (p as u128);
        proof {
            let a: int = size as int * 10;
            let d: int = p as int;
            let q: int = q_wide as int;
            assert(q == a / d);
            assert(q * d <= a) by (nonlinear_arith)
                requires
                    q == a / d,
                    d > 0,
                    a >= 0,
            ;
            assert(q <= 0x1000_0000_0000_0000) by (nonlinear_arith)
                requires
                    q * d <= a,
                    1024 <= d <= 0x100_0000_0000,
                    0 <= a <= 0xffff_ffff_ffff_ffff * 10,
                    q >= 0,
            ;
        }
        let tenths_wide: u128 = if 2 * rem > (p as u128) {
            q_wide + 1
        } else if 2 * rem == (p as u128) {
            q_wide + q_wide % 2
        } else {
            q_wide
        };
        let tenths: u64 = tenths_wide as u64;
        proof {
            assert(tenths as nat == round_tenths_half_even((size as nat) * 10, p as nat));
        }
        let mut r = crate::bytes::u64_to_dec(tenths / 10);
        let dot = crate::bytes::bytes_of(".");
        crate::bytes::vec_extend(&mut r, &dot);
        let frac = crate::bytes::u64_to_dec(tenths % 10);
        crate::bytes::vec_extend(&mut r, &frac);
        let sp = crate::bytes::bytes_of(" ");
        crate::bytes::vec_extend(&mut r, &sp);
        let unit = if size < mib {
            crate::bytes::bytes_of("KB")
        } else if size < gib {
            crate::bytes::bytes_of("MB")
        } else if size < tib {
            crate::bytes::bytes_of("GB")
        } else {
            crate::bytes::bytes_of("TB")
        };
        crate::bytes::vec_extend(&mut r, &unit);
        proof {
            assert(r@ =~= format_size_spec(size as nat));
        }
        r
    }
}

/// A size text right-aligned to eight columns.
pub open spec fn pad8(s: Seq<u8>) -> Seq<u8> {
    if s.len() >= 8 {
        s
    } else {
        Seq::new((8 - s.len()) as nat, |i: int| 32u8) + s
    }
}

fn pad8_vec(s: Vec<u8>) -> (r: Vec<u8>)
    ensures
        r@ == pad8(s@),
{
    if s.len() >= 8 {
        s
    } else {
        let pad: usize = 8 - s.len();
        let mut r: Vec<u8> = Vec::new();
        let mut i: usize = 0;
        while i < pad
            invariant
                i <= pad,
                r@ == Seq::new(i as nat, |j: int| 32u8),
            decreases pad - i,
        {
            r.push(32);
            assert(r@ =~= Seq::new((i + 1) as nat, |j: int| 32u8));
            i += 1;
        }
        crate::bytes::vec_extend(&mut r, &s);
        r
    }
}

/// The directory entries of a listing, in order.
pub open spec fn dirs_of(es: Seq<DirectoryEntry>) -> Seq<DirectoryEntry>
    decreases es.len(),
{
    if es.len() == 0 {
        Seq::<DirectoryEntry>::empty()
    } else {
        dirs_of(es.drop_last()) + (if es.last().is_directory {
            seq![es.last()]
        } else {
            Seq::<DirectoryEntry>::empty()
        })
    }
}

/// The file entries of a listing, in order.
pub open spec fn files_of(es: Seq<DirectoryEntry>) -> Seq<DirectoryEntry>
    decreases es.len(),
{
    if es.len() == 0 {
        Seq::<DirectoryEntry>::empty()
    } else {
        files_of(es.drop_last()) + (if es.last().is_directory {
            Seq::<DirectoryEntry>::empty()
        } else {
            seq![es.last()]
        })
    }
}

/// The listing line of one directory.
pub open spec fn dir_line(name: Seq<u8>) -> Seq<u8> {
    "  📁 ".spec_bytes() + name + "/".spec_bytes()
}

/// The detailed listing line of one file: icon, name, and padded size.
pub open spec fn file_line_detailed(e: DirectoryEntry) -> Seq<u8> {
    "  ".spec_bytes() + icon_of(e.file_type@) + " ".spec_bytes() + e.name@ + " (".spec_bytes()
        + pad8(format_size_spec(e.size as nat)) + ")".spec_bytes()
}

/// Addition capped at the largest representable size.
pub open spec fn sat_add(a: nat, b: nat) -> nat {
    if a + b > 0xffff_ffff_ffff_ffff {
        0xffff_ffff_ffff_ffff as nat
    } else {
        a + b
    }
}

/// The total size of the files of a listing, capped.
pub open spec fn sum_sizes(fs: Seq<DirectoryEntry>) -> nat
    decreases fs.len(),
{
    if fs.len() == 0 {
        0
    } else {
        sat_add(sum_sizes(fs.drop_last()), fs.last().size as nat)
    }
}

/// The summary line of a detailed listing.
pub open spec fn summary_line(nd: nat, nf: nat, total: nat) -> Seq<u8> {
    "📊 Summary: ".spec_bytes() + crate::bytes::dec_bytes(nd) + " directories, ".spec_bytes()
        + crate::bytes::dec_bytes(nf) + " files | Total size: ".spec_bytes() + format_size_spec(
        total,
    )
}

/// The lines of a detailed listing: a directories block, then a files block,
/// each present only when non-empty.
pub open spec fn detailed_lines(es: Seq<DirectoryEntry>) -> Seq<Seq<u8>> {
    (if dirs_of(es).len() > 0 {
        seq!["📂 Directories:".spec_bytes()] + dirs_of(es).map_values(
            |e: DirectoryEntry| dir_line(e.name@),
        ) + seq![Seq::<u8>::empty()]
    } else {
        Seq::<Seq<u8>>::empty()
    }) + (if files_of(es).len() > 0 {
        seq!["📄 Files:".spec_bytes()] + files_of(es).map_values(
            |e: DirectoryEntry| file_line_detailed(e),
        )
    } else {
        Seq::<Seq<u8>>::empty()
    })
}

fn dir_line_vec(name: &Vec<u8>) -> (r: Vec<u8>)
    ensures
        r@ == dir_line(name@),
{
    let mut r = crate::bytes::bytes_of("  📁 ");
    crate::bytes::vec_extend(&mut r, name);
    let slash = crate::bytes::bytes_of("/");
    crate::bytes::vec_extend(&mut r, &slash);
    proof {
        assert(r@ =~= dir_line(name@));
    }
    r
}

fn file_line_vec(e: &DirectoryEntry) -> (r: Vec<u8>)
    ensures
        r@ == file_line_detailed(*e),
{
    let mut r = crate::bytes::bytes_of("  ");
    let icon = get_file_icon(&e.file_type);
    crate::bytes::vec_extend(&mut r, &icon);
    let sp = crate::bytes::bytes_of(" ");
    crate::bytes::vec_extend(&mut r, &sp);
    crate::bytes::vec_extend(&mut r, &e.name);
    let open = crate::bytes::bytes_of(" (");
    crate::bytes::vec_extend(&mut r, &open);
    let size_str = pad8_vec(format_size(e.size));
    crate::bytes::vec_extend(&mut r, &size_str);
    let close = crate::bytes::bytes_of(")");
    crate::bytes::vec_extend(&mut r, &close);
    proof {
        assert(r@ =~= file_line_detailed(*e));
    }
    r
}

/// Format a detailed directory listing: the grouped lines and the summary
/// line with entry counts and total size.
pub fn format_detailed_listing(entries: &Vec<DirectoryEntry>) -> (r: (Vec<Vec<u8>>, Vec<u8>))
    ensures
        r.0@.map_values(|l: Vec<u8>| l@) == detailed_lines(entries@),
        r.1@ == summary_line(
            dirs_of(entries@).len() as nat,
            files_of(entries@).len() as nat,
            sum_sizes(files_of(entries@)),
        ),
{
    let ghost es = entries@;
    // directories block
    let mut dl: Vec<Vec<u8>> = Vec::new();
    let mut i: usize = 0;
    while i < entries.len()
        invariant
            i <= entries.len(),
            es == entries@,
            dl@.len() == dirs_of(es.subrange(0, i as int)).len(),
            forall|m: int| 0 <= m < dl@.len() ==> #[trigger] dl@[m]@ == dir_line(
                dirs_of(es.subrange(0, i as int))[m].name@,
            ),
        decreases entries.len() - i,
    {
        let ghost prev = dl@;
        let ghost pd = dirs_of(es.subrange(0, i as int));
        if entries[i].is_directory {
            dl.push(dir_line_vec(&entries[i].name));
        }
        proof {
            assert(es.subrange(0, i + 1 as int).drop_last() =~= es.subrange(0, i as int));
            assert(es.subrange(0, i + 1 as int).last() == es[i as int]);
            let nd2 = dirs_of(es.subrange(0, i + 1 as int));
            if es[i as int].is_directory {
                assert(nd2 =~= pd + seq![es[i as int]]);
            } else {
                assert(nd2 =~= pd);
            }
            assert forall|m: int| 0 <= m < dl@.len() implies #[trigger] dl@[m]@ == dir_line(
                nd2[m].name@,
            ) by {
                if m < prev.len() {
                    assert(dl@[m] == prev[m]);
                    assert(nd2[m] == pd[m]);
                } else {
                    assert(nd2[m] == es[i as int]);
                }
            }
        }
        i += 1;
    }
    // files block and total size
    let mut fl: Vec<Vec<u8>> = Vec::new();
    let mut total: u64 = 0;
    let mut j: usize = 0;
    while j < entries.len()
        invariant
            j <= entries.len(),
            es == entries@,
            fl@.len() == files_of(es.subrange(0, j as int)).len(),
            forall|m: int| 0 <= m < fl@.len() ==> #[trigger] fl@[m]@ == file_line_detailed(
                files_of(es.subrange(0, j as int))[m],
            ),
            total as nat == sum_sizes(files_of(es.subrange(0, j as int))),
        decreases entries.len() - j,
    {
        let ghost prev = fl@;
        let ghost pf = files_of(es.subrange(0, j as int));
        if !entries[j].is_directory {
            fl.push(file_line_vec(&entries[j]));
            let size = entries[j].size;
            total = if total > 0xffff_ffff_ffff_ffff - size {
                0xffff_ffff_ffff_ffff
            } else {
                total + size
            };
        }
        proof {
            assert(es.subrange(0, j + 1 as int).drop_last() =~= es.subrange(0, j as int));
            assert(es.subrange(0, j + 1 as int).last() == es[j as int]);
            let nf2 = files_of(es.subrange(0, j + 1 as int));
            if !es[j as int].is_directory {
                assert(nf2 =~= pf + seq![es[j as int]]);
                assert(nf2.drop_last() =~= pf);
            } else {
                assert(nf2 =~= pf);
            }
            assert forall|m: int| 0 <= m < fl@.len() implies #[trigger] fl@[m]@
                == file_line_detailed(nf2[m]) by {
                if m < prev.len() {
                    assert(fl@[m] == prev[m]);
                    assert(nf2[m] == pf[m]);
                } else {
                    assert(nf2[m] == es[j as int]);
                }
            }
        }
        j += 1;
    }
    proof {
        assert(es.subrange(0, es.len() as int) =~= es);
    }
    // assemble the output lines
    let ghost nd = dirs_of(es).len() as int;
    let ghost nf = files_of(es).len() as int;
    let mut out: Vec<Vec<u8>> = Vec::new();
    if dl.len() > 0 {
        out.push(crate::bytes::bytes_of("📂 Directories:"));
        let mut k: usize = 0;
        while k < dl.len()
            invariant
                k <= dl@.len(),
                out@.len() == 1 + k,
                out@[0]@ == "📂 Directories:".spec_bytes(),
                dl@.len() == dirs_of(es).len(),
                forall|m: int| 0 <= m < dl@.len() ==> #[trigger] dl@[m]@ == dir_line(
                    dirs_of(es)[m].name@,
                ),
                forall|m: int| 0 <= m < k ==> #[trigger] out@[1 + m]@ == dl@[m]@,
            decreases dl.len() - k,
        {
            out.push(dl[k].clone());
            k += 1;
        }
        out.push(Vec::new());
        proof {
            assert(out@.last()@ =~= Seq::<u8>::empty());
            assert forall|m: int| 0 <= m < dl@.len() implies #[trigger] out@[1 + m]@
                == dl@[m]@ by {}
        }
    }
    let ghost mid = out@;
    if fl.len() > 0 {
        out.push(crate::bytes::bytes_of("📄 Files:"));
        let mut k: usize = 0;
        while k < fl.len()
            invariant
                k <= fl@.len(),
                out@.len() == mid.len() + 1 + k,
                forall|m: int| 0 <= m < mid.len() ==> #[trigger] out@[m]@ == mid[m]@,
                out@[mid.len() as int]@ == "📄 Files:".spec_bytes(),
                fl@.len() == files_of(es).len(),
                forall|m: int| 0 <= m < fl@.len() ==> #[trigger] fl@[m]@ == file_line_detailed(
                    files_of(es)[m],
                ),
                forall|m: int| 0 <= m < k ==> #[trigger] out@[mid.len() + 1 + m]@ == fl@[m]@,
            decreases fl.len() - k,
        {
            out.push(fl[k].clone());
            k += 1;
        }
    }
    proof {
        let target = detailed_lines(es);
        let m = out@.map_values(|l: Vec<u8>| l@);
        assert(mid.len() == (if nd > 0 { nd + 2 } else { 0 }));
        assert(m.len() == target.len());
        assert forall|t: int| 0 <= t < m.len() implies m[t] == target[t] by {
            let dmap = dirs_of(es).map_values(|e: DirectoryEntry| dir_line(e.name@));
            let fmap = files_of(es).map_values(|e: DirectoryEntry| file_line_detailed(e));
            let dblock = (if nd > 0 {
                seq!["📂 Directories:".spec_bytes()] + dmap + seq![Seq::<u8>::empty()]
            } else {
                Seq::<Seq<u8>>::empty()
            });
            let fblock = (if nf > 0 {
                seq!["📄 Files:".spec_bytes()] + fmap
            } else {
                Seq::<Seq<u8>>::empty()
            });
            assert(target == dblock + fblock);
            if t < mid.len() {
                // inside the directories block
                if t == 0 {
                } else if t <= nd {
                    let mm = t - 1;
                    assert(mid[1 + mm]@ == dl@[mm]@);
                    assert(out@[t]@ == mid[t]@);
                    assert(dblock[t] == dmap[mm]);
                } else {
                    assert(t == nd + 1);
                }
            } else {
                let u = t - mid.len();
                if u == 0 {
                } else {
                    assert(out@[mid.len() + 1 + (u - 1)]@ == fl@[u - 1]@);
                    assert(fblock[u] == fmap[u - 1]);
                }
            }
        }
        assert(m =~= target);
    }
    // summary
    let mut stats = crate::bytes::bytes_of("📊 Summary: ");
    let ndv = crate::bytes::u64_to_dec(dl.len() as u64);
    crate::bytes::vec_extend(&mut stats, &ndv);
    let mid1 = crate::bytes::bytes_of(" directories, ");
    crate::bytes::vec_extend(&mut stats, &mid1);
    let nfv = crate::bytes::u64_to_dec(fl.len() as u64);
    crate::bytes::vec_extend(&mut stats, &nfv);
    let mid2 = crate::bytes::bytes_of(" files | Total size: ");
    crate::bytes::vec_extend(&mut stats, &mid2);
    let ts = format_size(total);
    crate::bytes::vec_extend(&mut stats, &ts);
    proof {
        assert(stats@ =~= summary_line(
            dirs_of(es).len() as nat,
            files_of(es).len() as nat,
            sum_sizes(files_of(es)),
        ));
    }
    (out, stats)
}

/// The simple listing line of one file: icon, name, and the size when it is
/// known to be positive.
pub open spec fn ls_file_line(e: DirectoryEntry) -> Seq<u8> {
    "  ".spec_bytes() + icon_of(e.file_type@) + " ".spec_bytes() + e.name@ + (if e.size > 0 {
        " (".spec_bytes() + format_size_spec(e.size as nat) + ")".spec_bytes()
    } else {
        Seq::<u8>::empty()
    })
}

/// The lines of a simple directory listing: header, blank, a directories
/// block and a files block (each only when non-empty), and a count summary.
pub open spec fn list_directory_lines(path: Seq<u8>, es: Seq<DirectoryEntry>) -> Seq<Seq<u8>> {
    seq!["📁 Directory: ".spec_bytes() + path, Seq::<u8>::empty()] + (if dirs_of(es).len() > 0 {
        seq!["📂 Directories:".spec_bytes()] + dirs_of(es).map_values(
            |e: DirectoryEntry| dir_line(e.name@),
        ) + seq![Seq::<u8>::empty()]
    } else {
        Seq::<Seq<u8>>::empty()
    }) + (if files_of(es).len() > 0 {
        seq!["📄 Files:".spec_bytes()] + files_of(es).map_values(|e: DirectoryEntry| ls_file_line(e))
            + seq![Seq::<u8>::empty()]
    } else {
        Seq::<Seq<u8>>::empty()
    }) + seq![
        "📊 Summary: ".spec_bytes() + crate::bytes::dec_bytes(dirs_of(es).len() as nat)
            + " directories, ".spec_bytes() + crate::bytes::dec_bytes(files_of(es).len() as nat)
            + " files".spec_bytes(),
    ]
}

fn ls_file_line_vec(e: &DirectoryEntry) -> (r: Vec<u8>)
    ensures
        r@ == ls_file_line(*e),
{
    let mut r = crate::bytes::bytes_of("  ");
    let icon = get_file_icon(&e.file_type);
    crate::bytes::vec_extend(&mut r, &icon);
    let sp = crate::bytes::bytes_of(" ");
    crate::bytes::vec_extend(&mut r, &sp);
    crate::bytes::vec_extend(&mut r, &e.name);
    if e.size > 0 {
        let open = crate::bytes::bytes_of(" (");
        crate::bytes::vec_extend(&mut r, &open);
        let size_str = format_size(e.size);
        crate::bytes::vec_extend(&mut r, &size_str);
        let close = crate::bytes::bytes_of(")");
        crate::bytes::vec_extend(&mut r, &close);
    }
    proof {
        assert(r@ =~= ls_file_line(*e));
    }
    r
}

/// List a directory: sort the entries by name and format the grouped
/// listing with its count summary.
pub fn list_directory(path: &Vec<u8>, entries: &mut Vec<DirectoryEntry>) -> (r:
    crate::responses::WriteFileResponse)
    ensures
        sorted_by(SortBy::Name, final(entries)@),
        final(entries)@.to_multiset() == old(entries)@.to_multiset(),
        r.message@ == crate::bytes::join_by(
            list_directory_lines(path@, final(entries)@),
            crate::edits::NL,
        ),
        r.path@ == path@,
        r.size is None,
        !r.created,
{
    let name_key = SortBy::Name;
    sort_directory_entries(entries, &name_key);
    let ghost es = entries@;
    // directory and file lines
    let mut dl: Vec<Vec<u8>> = Vec::new();
    let mut i: usize = 0;
    while i < entries.len()
        invariant
            i <= entries.len(),
            es == entries@,
            dl@.len() == dirs_of(es.subrange(0, i as int)).len(),
            forall|m: int| 0 <= m < dl@.len() ==> #[trigger] dl@[m]@ == dir_line(
                dirs_of(es.subrange(0, i as int))[m].name@,
            ),
        decreases entries.len() - i,
    {
        let ghost prev = dl@;
        let ghost pd = dirs_of(es.subrange(0, i as int));
        if entries[i].is_directory {
            dl.push(dir_line_vec(&entries[i].name));
        }
        proof {
            assert(es.subrange(0, i + 1 as int).drop_last() =~= es.subrange(0, i as int));
            assert(es.subrange(0, i + 1 as int).last() == es[i as int]);
            let nd2 = dirs_of(es.subrange(0, i + 1 as int));
            if es[i as int].is_directory {
                assert(nd2 =~= pd + seq![es[i as int]]);
            } else {
                assert(nd2 =~= pd);
            }
            assert forall|m: int| 0 <= m < dl@.len() implies #[trigger] dl@[m]@ == dir_line(
                nd2[m].name@,
            ) by {
                if m < prev.len() {
                    assert(dl@[m] == prev[m]);
                    assert(nd2[m] == pd[m]);
                } else {
                    assert(nd2[m] == es[i as int]);
                }
            }
        }
        i += 1;
    }
    let mut fl: Vec<Vec<u8>> = Vec::new();
    let mut j: usize = 0;
    while j < entries.len()
        invariant
            j <= entries.len(),
            es == entries@,
            fl@.len() == files_of(es.subrange(0, j as int)).len(),
            forall|m: int| 0 <= m < fl@.len() ==> #[trigger] fl@[m]@ == ls_file_line(
                files_of(es.subrange(0, j as int))[m],
            ),
        decreases entries.len() - j,
    {
        let ghost prev = fl@;
        let ghost pf = files_of(es.subrange(0, j as int));
        if !entries[j].is_directory {
            fl.push(ls_file_line_vec(&entries[j]));
        }
        proof {
            assert(es.subrange(0, j + 1 as int).drop_last() =~= es.subrange(0, j as int));
            assert(es.subrange(0, j + 1 as int).last() == es[j as int]);
            let nf2 = files_of(es.subrange(0, j + 1 as int));
            if !es[j as int].is_directory {
                assert(nf2 =~= pf + seq![es[j as int]]);
            } else {
                assert(nf2 =~= pf);
            }
            assert forall|m: int| 0 <= m < fl@.len() implies #[trigger] fl@[m]@ == ls_file_line(
                nf2[m],
            ) by {
                if m < prev.len() {
                    assert(fl@[m] == prev[m]);
                    assert(nf2[m] == pf[m]);
                } else {
                    assert(nf2[m] == es[j as int]);
                }
            }
        }
        j += 1;
    }
    proof {
        assert(es.subrange(0, es.len() as int) =~= es);
    }
    let ghost nd = dirs_of(es).len() as int;
    let ghost nf = files_of(es).len() as int;
    // assemble
    let mut out: Vec<Vec<u8>> = Vec::new();
    let mut header = crate::bytes::bytes_of("📁 Directory: ");
    crate::bytes::vec_extend(&mut header, path);
    out.push(header);
    out.push(Vec::new());
    proof {
        assert(out@[0]@ =~= "📁 Directory: ".spec_bytes() + path@);
        assert(out@[1]@ =~= Seq::<u8>::empty());
    }
    if dl.len() > 0 {
        out.push(crate::bytes::bytes_of("📂 Directories:"));
        let mut k: usize = 0;
        while k < dl.len()
            invariant
                k <= dl@.len(),
                out@.len() == 3 + k,
                out@[0]@ == "📁 Directory: ".spec_bytes() + path@,
                out@[1]@ == Seq::<u8>::empty(),
                out@[2]@ == "📂 Directories:".spec_bytes(),
                dl@.len() == dirs_of(es).len(),
                forall|m: int| 0 <= m < dl@.len() ==> #[trigger] dl@[m]@ == dir_line(
                    dirs_of(es)[m].name@,
                ),
                forall|m: int| 0 <= m < k ==> #[trigger] out@[3 + m]@ == dl@[m]@,
            decreases dl.len() - k,
        {
            out.push(dl[k].clone());
            k += 1;
        }
        out.push(Vec::new());
        proof {
            assert(out@.last()@ =~= Seq::<u8>::empty());
            assert forall|m: int| 0 <= m < dl@.len() implies #[trigger] out@[3 + m]@
                == dl@[m]@ by {}
        }
    }
    let ghost mid = out@;
    if fl.len() > 0 {
        out.push(crate::bytes::bytes_of("📄 Files:"));
        let mut k: usize = 0;
        while k < fl.len()
            invariant
                k <= fl@.len(),
                out@.len() == mid.len() + 1 + k,
                forall|m: int| 0 <= m < mid.len() ==> #[trigger] out@[m]@ == mid[m]@,
                out@[mid.len() as int]@ == "📄 Files:".spec_bytes(),
                fl@.len() == files_of(es).len(),
                forall|m: int| 0 <= m < fl@.len() ==> #[trigger] fl@[m]@ == ls_file_line(
                    files_of(es)[m],
                ),
                forall|m: int| 0 <= m < k ==> #[trigger] out@[mid.len() + 1 + m]@ == fl@[m]@,
            decreases fl.len() - k,
        {
            out.push(fl[k].clone());
            k += 1;
        }
        out.push(Vec::new());
        proof {
            assert(out@.last()@ =~= Seq::<u8>::empty());
            assert forall|m: int| 0 <= m < fl@.len() implies #[trigger] out@[mid.len() + 1 + m]@
                == fl@[m]@ by {}
        }
    }
    let ghost mid2 = out@;
    let mut summary = crate::bytes::bytes_of("📊 Summary: ");
    let ndv = crate::bytes::u64_to_dec(dl.len() as u64);
    crate::bytes::vec_extend(&mut summary, &ndv);
    let s1 = crate::bytes::bytes_of(" directories, ");
    crate::bytes::vec_extend(&mut summary, &s1);
    let nfv = crate::bytes::u64_to_dec(fl.len() as u64);
    crate::bytes::vec_extend(&mut summary, &nfv);
    let s2 = crate::bytes::bytes_of(" files");
    crate::bytes::vec_extend(&mut summary, &s2);
    out.push(summary);
    proof {
        let target = list_directory_lines(path@, es);
        let m = out@.map_values(|l: Vec<u8>| l@);
        assert(mid.len() == 2 + (if nd > 0 { nd + 2 } else { 0 }));
        assert(mid2.len() == mid.len() + (if nf > 0 { nf + 2 } else { 0 }));
        assert(m.len() == target.len());
        assert forall|t: int| 0 <= t < m.len() implies m[t] == target[t] by {
            if 2 < t <= 2 + nd && nd > 0 {
                let mm = t - 3;
                assert(mid[3 + mm]@ == dl@[mm]@);
                assert(out@[t]@ == mid[t]@);
            }
            if mid.len() < t <= mid.len() + nf && nf > 0 {
                let mm = t - mid.len() - 1;
                assert(mid2[mid.len() + 1 + mm]@ == fl@[mm]@);
                assert(out@[t]@ == mid2[t]@);
            }
            if t < mid2.len() {
                assert(out@[t]@ == mid2[t]@);
            }
        }
        assert(m =~= target);
    }
    let message = crate::bytes::join_vec(&out, crate::edits::NL);
    crate::responses::WriteFileResponse::new(message, path.clone(), None, false)
}

/// One escaped byte of a JSON string, as the serializer writes it:
/// backslash and quote escaped, the named control escapes, other control
/// bytes as `\u00XX` with lowercase hex, everything else verbatim.
pub open spec fn json_escaped_byte(b: u8) -> Seq<u8> {
    if b == 34 {
        seq![92u8, 34u8]
    } else if b == 92 {
        seq![92u8, 92u8]
    } else if b == 8 {
        seq![92u8, 98u8]
    } else if b == 9 {
        seq![92u8, 116u8]
    } else if b == 10 {
        seq![92u8, 110u8]
    } else if b == 12 {
        seq![92u8, 102u8]
    } else if b == 13 {
        seq![92u8, 114u8]
    } else if b < 32 {
        seq![92u8, 117u8, 48u8, 48u8] + seq![
            crate::writer::hex_digit((b / 16) as nat),
            crate::writer::hex_digit((b % 16) as nat),
        ]
    } else {
        seq![b]
    }
}

/// A byte string escaped for a JSON string literal.
pub open spec fn json_escaped(s: Seq<u8>) -> Seq<u8>
    decreases s.len(),
{
    if s.len() == 0 {
        Seq::<u8>::empty()
    } else {
        json_escaped(s.drop_last()) + json_escaped_byte(s.last())
    }
}

/// Escape a byte string for a JSON string literal.
pub fn json_escape(s: &Vec<u8>) -> (r: Vec<u8>)
    ensures
        r@ == json_escaped(s@),
{
    let mut r: Vec<u8> = Vec::new();
    let mut i: usize = 0;
    while i < s.len()
        invariant
            i <= s.len(),
            r@ == json_escaped(s@.subrange(0, i as int)),
        decreases s.len() - i,
    {
        let b = s[i];
        if b == 34 {
            r.push(92);
            r.push(34);
        } else if b == 92 {
            r.push(92);
            r.push(92);
        } else if b == 8 {
            r.push(92);
            r.push(98);
        } else if b == 9 {
            r.push(92);
            r.push(116);
        } else if b == 10 {
            r.push(92);
            r.push(110);
        } else if b == 12 {
            r.push(92);
            r.push(102);
        } else if b == 13 {
            r.push(92);
            r.push(114);
        } else if b < 32 {
            r.push(92);
            r.push(117);
            r.push(48);
            r.push(48);
            let hi = b / 16;
            let lo = b % 16;
            r.push(if hi < 10 { 48 + hi } else { 87 + hi });
            r.push(if lo < 10 { 48 + lo } else { 87 + lo });
        } else {
            r.push(b);
        }
        proof {
            assert(s@.subrange(0, i + 1 as int).drop_last() =~= s@.subrange(0, i as int));
            assert(s@.subrange(0, i + 1 as int).last() == s@[i as int]);
            assert(r@ =~= json_escaped(s@.subrange(0, i as int)) + json_escaped_byte(s@[i as int]));
        }
        i += 1;
    }
    proof {
        assert(s@.subrange(0, s@.len() as int) =~= s@);
    }
    r
}

/// A JSON boolean.
pub open spec fn json_bool(b: bool) -> Seq<u8> {
    if b {
        "true".spec_bytes()
    } else {
        "false".spec_bytes()
    }
}

/// The pretty-printed metadata report of one path, keys in sorted order.
pub open spec fn info_json_text(
    name: Seq<u8>,
    kind: Seq<u8>,
    size: u64,
    is_dir: bool,
    modified: Option<u64>,
    path: Seq<u8>,
    writable: bool,
) -> Seq<u8> {
    "{\n  \"is_directory\": ".spec_bytes() + json_bool(is_dir)
        + ",\n  \"modified\": ".spec_bytes() + (match modified {
        Some(t) => crate::bytes::dec_bytes(t as nat),
        None => "null".spec_bytes(),
    }) + ",\n  \"name\": \"".spec_bytes() + json_escaped(name) + "\",\n  \"path\": \"".spec_bytes()
        + json_escaped(path)
        + "\",\n  \"permissions\": {\n    \"executable\": false,\n    \"readable\": true,\n    \"writable\": ".spec_bytes()
        + json_bool(writable) + "\n  },\n  \"size\": ".spec_bytes() + crate::bytes::dec_bytes(
        size as nat,
    ) + ",\n  \"type\": \"".spec_bytes() + json_escaped(kind) + "\"\n}".spec_bytes()
}

/// The metadata report of one path: name, classified kind, size,
/// modification time, and permissions, as a pretty JSON message.
pub fn file_info_response(
    path: &Vec<u8>,
    name: &Vec<u8>,
    is_dir: bool,
    is_file: bool,
    size: u64,
    modified: Option<u64>,
    readonly: bool,
) -> (r: crate::responses::WriteFileResponse)
    ensures
        r.message@ == info_json_text(
            name@,
            info_kind_label(is_dir, is_file),
            size,
            is_dir,
            modified,
            path@,
            !readonly,
        ),
        r.path@ == path@,
        r.size is None,
        !r.created,
{
    let mut m = crate::bytes::bytes_of("{\n  \"is_directory\": ");
    let dir_text = if is_dir {
        crate::bytes::bytes_of("true")
    } else {
        crate::bytes::bytes_of("false")
    };
    crate::bytes::vec_extend(&mut m, &dir_text);
    let k1 = crate::bytes::bytes_of(",\n  \"modified\": ");
    crate::bytes::vec_extend(&mut m, &k1);
    let modified_text = match modified {
        Some(t) => crate::bytes::u64_to_dec(t),
        None => crate::bytes::bytes_of("null"),
    };
    crate::bytes::vec_extend(&mut m, &modified_text);
    let k2 = crate::bytes::bytes_of(",\n  \"name\": \"");
    crate::bytes::vec_extend(&mut m, &k2);
    let name_esc = json_escape(name);
    crate::bytes::vec_extend(&mut m, &name_esc);
    let k3 = crate::bytes::bytes_of("\",\n  \"path\": \"");
    crate::bytes::vec_extend(&mut m, &k3);
    let path_esc = json_escape(path);
    crate::bytes::vec_extend(&mut m, &path_esc);
    let k4 = crate::bytes::bytes_of(
        "\",\n  \"permissions\": {\n    \"executable\": false,\n    \"readable\": true,\n    \"writable\": ",
    );
    crate::bytes::vec_extend(&mut m, &k4);
    let writable_text = if !readonly {
        crate::bytes::bytes_of("true")
    } else {
        crate::bytes::bytes_of("false")
    };
    crate::bytes::vec_extend(&mut m, &writable_text);
    let k5 = crate::bytes::bytes_of("\n  },\n  \"size\": ");
    crate::bytes::vec_extend(&mut m, &k5);
    let size_text = crate::bytes::u64_to_dec(size);
    crate::bytes::vec_extend(&mut m, &size_text);
    let k6 = crate::bytes::bytes_of(",\n  \"type\": \"");
    crate::bytes::vec_extend(&mut m, &k6);
    let kind = file_info_type(is_dir, is_file);
    let kind_esc = json_escape(&kind);
    crate::bytes::vec_extend(&mut m, &kind_esc);
    let k7 = crate::bytes::bytes_of("\"\n}");
    crate::bytes::vec_extend(&mut m, &k7);
    proof {
        assert(m@ =~= info_json_text(
            name@,
            info_kind_label(is_dir, is_file),
            size,
            is_dir,
            modified,
            path@,
            !readonly,
        ));
    }
    crate::responses::WriteFileResponse::new(m, path.clone(), None, false)
}

/// The error of a failed metadata call: a missing target is reported as not
/// found, anything else as the underlying failure.
pub fn metadata_error(path: &Vec<u8>, not_found: bool, detail: &Vec<u8>) -> (e:
    crate::errors::FileSystemMcpError)
    ensures
        not_found ==> (e matches crate::errors::FileSystemMcpError::PathNotFound { path: p } && p@
            == path@),
        !not_found ==> (e matches crate::errors::FileSystemMcpError::IoError { message, path: p }
            && message@ == "Failed to get file metadata: ".spec_bytes() + detail@ && p@ == path@),
{
    if not_found {
        crate::errors::FileSystemMcpError::PathNotFound { path: path.clone() }
    } else {
        let mut message = crate::bytes::bytes_of("Failed to get file metadata: ");
        crate::bytes::vec_extend(&mut message, detail);
        crate::errors::FileSystemMcpError::IoError { message, path: path.clone() }
    }
}

/// One entry of a plain directory listing.
pub struct ListedEntry {
    pub name: Vec<u8>,
    pub is_dir: bool,
    pub is_symlink: bool,
    pub size: u64,
}

/// The unbracketed kind label: `directory`, `symlink`, `<ext> file` with the
/// extension lowercased, or `file`.
pub open spec fn plain_kind_label(is_dir: bool, is_symlink: bool, name: Seq<u8>) -> Seq<u8> {
    if is_dir {
        "directory".spec_bytes()
    } else if is_symlink {
        "symlink".spec_bytes()
    } else {
        match extension_of(name) {
            Some(e) => ascii_lower(e) + " file".spec_bytes(),
            None => "file".spec_bytes(),
        }
    }
}

/// The plain listing line of one entry: name, kind, and (for a regular file)
/// its size in bytes.
pub open spec fn plain_line(e: ListedEntry) -> Seq<u8> {
    e.name@ + " - ".spec_bytes() + plain_kind_label(e.is_dir, e.is_symlink, e.name@) + (if !e.is_dir
        && !e.is_symlink {
        " (".spec_bytes() + crate::bytes::dec_bytes(e.size as nat) + " bytes)".spec_bytes()
    } else {
        Seq::<u8>::empty()
    })
}

/// The plain listing lines of an entry list, in input order.
pub open spec fn plain_lines(es: Seq<ListedEntry>) -> Seq<Seq<u8>> {
    es.map_values(|e: ListedEntry| plain_line(e))
}

fn plain_line_vec(e: &ListedEntry) -> (r: Vec<u8>)
    ensures
        r@ == plain_line(*e),
{
    let mut r = e.name.clone();
    let dash = crate::bytes::bytes_of(" - ");
    crate::bytes::vec_extend(&mut r, &dash);
    let label = if e.is_dir {
        crate::bytes::bytes_of("directory")
    } else if e.is_symlink {
        crate::bytes::bytes_of("symlink")
    } else {
        match extension_lower(&e.name) {
            Some(mut x) => {
                let tail = crate::bytes::bytes_of(" file");
                crate::bytes::vec_extend(&mut x, &tail);
                x
            }
            None => crate::bytes::bytes_of("file"),
        }
    };
    crate::bytes::vec_extend(&mut r, &label);
    if !e.is_dir && !e.is_symlink {
        let open = crate::bytes::bytes_of(" (");
        crate::bytes::vec_extend(&mut r, &open);
        let n = crate::bytes::u64_to_dec(e.size);
        crate::bytes::vec_extend(&mut r, &n);
        let close = crate::bytes::bytes_of(" bytes)");
        crate::bytes::vec_extend(&mut r, &close);
    }
    proof {
        assert(r@ =~= plain_line(*e));
    }
    r
}

/// Build the plain listing line of every entry, in input order.
pub fn plain_listing_lines(entries: &Vec<ListedEntry>) -> (r: Vec<Vec<u8>>)
    ensures
        r@.map_values(|l: Vec<u8>| l@) == plain_lines(entries@),
{
    let mut r: Vec<Vec<u8>> = Vec::new();
    let mut i: usize = 0;
    while i < entries.len()
        invariant
            i <= entries.len(),
            r@.len() == i,
            forall|m: int| 0 <= m < i ==> #[trigger] r@[m]@ == plain_line(entries@[m]),
        decreases entries.len() - i,
    {
        r.push(plain_line_vec(&entries[i]));
        i += 1;
    }
    proof {
        assert(r@.map_values(|l: Vec<u8>| l@) =~= plain_lines(entries@));
    }
    r
}

/// Sortedness of a line list, byte-lexicographic.
pub open spec fn sorted_lines(ls: Seq<Seq<u8>>) -> bool {
    forall|i: int, j: int| 0 <= i < j < ls.len() ==> bytes_le(ls[i], ls[j])
}

/// Sort lines byte-lexicographically: the result is ordered and holds
/// exactly the same lines.
pub fn sort_lines(lines: &mut Vec<Vec<u8>>)
    ensures
        sorted_lines(final(lines)@.map_values(|l: Vec<u8>| l@)),
        final(lines)@.map_values(|l: Vec<u8>| l@).to_multiset() == old(lines)@.map_values(
            |l: Vec<u8>| l@,
        ).to_multiset(),
{
    proof {
        broadcast use vstd::seq_lib::group_to_multiset_ensures;
    }
    let mut i: usize = 1;
    while i < lines.len()
        invariant
            i >= 1,
            lines@.len() == old(lines)@.len(),
            lines@.map_values(|l: Vec<u8>| l@).to_multiset() == old(lines)@.map_values(
                |l: Vec<u8>| l@,
            ).to_multiset(),
            forall|x: int, y: int| 0 <= x < y < i && y < lines@.len() ==> bytes_le(
                lines@[x]@,
                lines@[y]@,
            ),
        decreases lines@.len() - i,
    {
        let ghost before_remove = lines@.map_values(|l: Vec<u8>| l@);
        let cur = lines.remove(i);
        proof {
            broadcast use vstd::seq_lib::group_to_multiset_ensures;

            assert(lines@.map_values(|l: Vec<u8>| l@) =~= before_remove.remove(i as int));
            assert(before_remove.remove(i as int).to_multiset() == before_remove.to_multiset()
                .remove(before_remove[i as int]));
        }
        let mut p: usize = i;
        while p > 0 && !bytes_le_vec(&lines[p - 1], &cur)
            invariant
                p <= i,
                i <= lines@.len(),
                lines@.map_values(|l: Vec<u8>| l@) == before_remove.remove(i as int),
                forall|q: int| p <= q < i ==> bytes_le(cur@, #[trigger] lines@[q]@),
                forall|x: int, y: int| 0 <= x < y < i ==> bytes_le(lines@[x]@, lines@[y]@),
            decreases p,
        {
            proof {
                lemma_bytes_le_total(lines@[p - 1]@, cur@);
                assert forall|q: int| p - 1 <= q < i implies bytes_le(
                    cur@,
                    #[trigger] lines@[q]@,
                ) by {
                    if q > p - 1 {
                        lemma_bytes_le_trans(cur@, lines@[p - 1]@, lines@[q]@);
                    }
                }
            }
            p -= 1;
        }
        let ghost before_insert = lines@.map_values(|l: Vec<u8>| l@);
        let ghost pos = p as int;
        lines.insert(p, cur);
        proof {
            broadcast use vstd::seq_lib::group_to_multiset_ensures;

            assert(lines@.map_values(|l: Vec<u8>| l@) =~= before_insert.insert(pos, cur@));
            lemma_insert_to_multiset(before_insert, pos, cur@);
            assert forall|x: int, y: int| 0 <= x < y < i + 1 && y < lines@.len() implies bytes_le(
                lines@[x]@,
                lines@[y]@,
            ) by {
                let vx = lines@[x]@;
                let vy = lines@[y]@;
                if x < pos && y < pos {
                    assert(vx == before_insert[x] && vy == before_insert[y]);
                } else if x < pos && y == pos {
                    assert(vx == before_insert[x] && vy == cur@);
                    assert(bytes_le(before_insert[pos - 1], cur@));
                    if x < pos - 1 {
                        lemma_bytes_le_trans(before_insert[x], before_insert[pos - 1], cur@);
                    }
                } else if x < pos && y > pos {
                    assert(vx == before_insert[x] && vy == before_insert[y - 1]);
                } else if x == pos {
                    assert(vx == cur@ && vy == before_insert[y - 1]);
                    assert(bytes_le(cur@, before_insert[y - 1]));
                } else {
                    assert(vx == before_insert[x - 1] && vy == before_insert[y - 1]);
                }
            }
        }
        i += 1;
    }
    proof {
        if lines@.len() > 0 {
            assert(i >= lines@.len());
        }
    }
}

/// The response of a plain directory listing, from its already-sorted lines.
pub fn plain_listing_response(path: &Vec<u8>, lines: &Vec<Vec<u8>>) -> (r:
    crate::responses::WriteFileResponse)
    ensures
        r.message@ == "Directory listing completed successfully:\n".spec_bytes()
            + crate::bytes::join_by(lines@.map_values(|l: Vec<u8>| l@), crate::edits::NL),
        r.path@ == path@,
        r.size is None,
        !r.created,
{
    let mut message = crate::bytes::bytes_of("Directory listing completed successfully:\n");
    let joined = crate::bytes::join_vec(lines, crate::edits::NL);
    crate::bytes::vec_extend(&mut message, &joined);
    crate::responses::WriteFileResponse::new(message, path.clone(), None, false)
}

/// The sort-key name shown in the sized listing's header.
pub open spec fn sort_key_name(sort_by: SortBy) -> Seq<u8> {
    match sort_by {
        SortBy::Name => "Name".spec_bytes(),
        SortBy::Size => "Size".spec_bytes(),
        SortBy::Modified => "Modified".spec_bytes(),
    }
}

/// The header of a sized directory listing.
pub open spec fn with_sizes_header(path: Seq<u8>, sort_by: SortBy) -> Seq<u8> {
    "📁 Directory: ".spec_bytes() + path + " (sorted by ".spec_bytes() + sort_key_name(sort_by)
        + ")".spec_bytes()
}

/// The lines of a sized directory listing: header, blank, the detailed
/// blocks, and a summary — or an empty-directory note.
pub open spec fn with_sizes_lines(path: Seq<u8>, sort_by: SortBy, es: Seq<DirectoryEntry>) -> Seq<
    Seq<u8>,
> {
    seq![with_sizes_header(path, sort_by), Seq::<u8>::empty()] + detailed_lines(es) + (if es.len()
        > 0 {
        seq![
            Seq::<u8>::empty(),
            summary_line(
                dirs_of(es).len() as nat,
                files_of(es).len() as nat,
                sum_sizes(files_of(es)),
            ),
        ]
    } else {
        seq!["📂 Empty directory".spec_bytes()]
    })
}

/// List a directory with sizes: sort the entries by the requested key and
/// format the detailed listing with its summary.
pub fn list_directory_with_sizes(
    path: &Vec<u8>,
    sort_by: &SortBy,
    entries: &mut Vec<DirectoryEntry>,
) -> (r: crate::responses::WriteFileResponse)
    ensures
        sorted_by(*sort_by, final(entries)@),
        final(entries)@.to_multiset() == old(entries)@.to_multiset(),
        r.message@ == crate::bytes::join_by(
            with_sizes_lines(path@, *sort_by, final(entries)@),
            crate::edits::NL,
        ),
        r.path@ == path@,
        r.size is None,
        !r.created,
{
    sort_directory_entries(entries, sort_by);
    let ghost es = entries@;
    let (content, stats) = format_detailed_listing(entries);
    let mut out: Vec<Vec<u8>> = Vec::new();
    let mut header = crate::bytes::bytes_of("📁 Directory: ");
    crate::bytes::vec_extend(&mut header, path);
    let mid1 = crate::bytes::bytes_of(" (sorted by ");
    crate::bytes::vec_extend(&mut header, &mid1);
    let key = match sort_by {
        SortBy::Name => crate::bytes::bytes_of("Name"),
        SortBy::Size => crate::bytes::bytes_of("Size"),
        SortBy::Modified => crate::bytes::bytes_of("Modified"),
    };
    crate::bytes::vec_extend(&mut header, &key);
    let close = crate::bytes::bytes_of(")");
    crate::bytes::vec_extend(&mut header, &close);
    proof {
        assert(header@ =~= with_sizes_header(path@, *sort_by));
    }
    out.push(header);
    out.push(Vec::new());
    proof {
        assert(out@[1]@ =~= Seq::<u8>::empty());
    }
    let mut k: usize = 0;
    while k < content.len()
        invariant
            k <= content@.len(),
            out@.len() == 2 + k,
            out@[0]@ == with_sizes_header(path@, *sort_by),
            out@[1]@ == Seq::<u8>::empty(),
            content@.map_values(|l: Vec<u8>| l@) == detailed_lines(es),
            forall|m: int| 0 <= m < k ==> #[trigger] out@[2 + m]@ == content@[m]@,
        decreases content.len() - k,
    {
        out.push(content[k].clone());
        k += 1;
    }
    if entries.len() > 0 {
        out.push(Vec::new());
        proof {
            assert(out@.last()@ =~= Seq::<u8>::empty());
        }
        out.push(stats);
    } else {
        out.push(crate::bytes::bytes_of("📂 Empty directory"));
    }
    proof {
        let target = with_sizes_lines(path@, *sort_by, es);
        let m = out@.map_values(|l: Vec<u8>| l@);
        let dls = detailed_lines(es);
        assert(content@.len() == dls.len());
        assert(m.len() == target.len());
        assert forall|t: int| 0 <= t < m.len() implies m[t] == target[t] by {
            if 2 <= t < 2 + dls.len() {
                let mm = t - 2;
                assert(out@[2 + mm]@ == content@[mm]@);
            }
        }
        assert(m =~= target);
    }
    let message = crate::bytes::join_vec(&out, crate::edits::NL);
    crate::responses::WriteFileResponse::new(message, path.clone(), None, false)
}

} // verus!
