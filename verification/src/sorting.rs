//! Orderings and sorting for directory entries.  A pane shows entries with
//! visible ones first, then directories before files, then names compared
//! case-insensitively; a storage listing orders directories first and then
//! names as they are.

use vstd::prelude::*;

use crate::types::FileItem;
use crate::types::ItemType;

verus! {

/// What `str::to_lowercase` returns for a string: a function of the
/// characters alone, left unspecified beyond that.
pub uninterp spec fn lower_of(s: Seq<char>) -> Seq<char>;

/// Relies on str::to_lowercase: the lowercased text depends on the
/// characters of the input alone.
#[verifier::external_body]
fn lowercase(s: &str) -> (r: String)
    ensures
        r@ == lower_of(s@),
{
    s.to_lowercase()
}

/// Lexicographic order on character sequences, by code point.  A prefix
/// comes before every extension of it.
pub open spec fn seq_char_le(a: Seq<char>, b: Seq<char>) -> bool
    decreases a.len(),
{
    if a.len() == 0 {
        true
    } else if b.len() == 0 {
        false
    } else if (a[0] as u32) < (b[0] as u32) {
        true
    } else if (a[0] as u32) > (b[0] as u32) {
        false
    } else {
        seq_char_le(a.drop_first(), b.drop_first())
    }
}

/// Any two character sequences are comparable.
pub proof fn lemma_seq_char_le_total(a: Seq<char>, b: Seq<char>)
    ensures
        seq_char_le(a, b) || seq_char_le(b, a),
    decreases a.len(),
{
    if a.len() == 0 {
    } else if b.len() == 0 {
    } else if (a[0] as u32) == (b[0] as u32) {
        lemma_seq_char_le_total(a.drop_first(), b.drop_first());
    }
}

/// The lexicographic order chains.
pub proof fn lemma_seq_char_le_trans(a: Seq<char>, b: Seq<char>, c: Seq<char>)
    requires
        seq_char_le(a, b),
        seq_char_le(b, c),
    ensures
        seq_char_le(a, c),
    decreases a.len(),
{
    if a.len() == 0 {
    } else if (a[0] as u32) == (b[0] as u32) && (b[0] as u32) == (c[0] as u32) {
        lemma_seq_char_le_trans(a.drop_first(), b.drop_first(), c.drop_first());
    }
}

/// Compares two strings in the lexicographic order on their characters.
pub fn str_le(a: &str, b: &str) -> (r: bool)
    ensures
        r == seq_char_le(a@, b@),
{
    let la = a.unicode_len();
    let lb = b.unicode_len();
    let mut i: usize = 0;
    proof {
        assert(a@.skip(0) =~= a@);
        assert(b@.skip(0) =~= b@);
    }
    loop
        invariant
            i <= la,
            i <= lb,
            la == a@.len(),
            lb == b@.len(),
            seq_char_le(a@, b@) == seq_char_le(a@.skip(i as int), b@.skip(i as int)),
        ensures
            i <= la,
            i <= lb,
            i >= la || i >= lb || a@[i as int] != b@[i as int],
            seq_char_le(a@, b@) == seq_char_le(a@.skip(i as int), b@.skip(i as int)),
        decreases la - i,
    {
        if i >= la || i >= lb {
            break ;
        }
        let ca = a.get_char(i);
        let cb = b.get_char(i);
        if ca != cb {
            break ;
        }
        proof {
            assert(a@.skip(i as int)[0] == a@[i as int]);
            assert(b@.skip(i as int)[0] == b@[i as int]);
            assert(a@.skip(i as int).drop_first() =~= a@.skip(i as int + 1));
            assert(b@.skip(i as int).drop_first() =~= b@.skip(i as int + 1));
        }
        i = i + 1;
    }
    if i >= la {
        proof {
            assert(a@.skip(i as int).len() == 0);
        }
        true
    } else if i >= lb {
        proof {
            assert(b@.skip(i as int).len() == 0);
            assert(a@.skip(i as int).len() > 0);
        }
        false
    } else {
        let ca = a.get_char(i);
        let cb = b.get_char(i);
        proof {
            assert(a@.skip(i as int)[0] == a@[i as int]);
            assert(b@.skip(i as int)[0] == b@[i as int]);
            assert(a@.skip(i as int).len() > 0);
            assert(b@.skip(i as int).len() > 0);
        }
        (ca as u32) < (cb as u32)
    }
}

/// Visible entries sort before hidden ones.
pub open spec fn hidden_rank(x: FileItem) -> int {
    if x.is_hidden {
        1
    } else {
        0
    }
}

/// Directories sort before plain files and symlinks.
pub open spec fn dir_rank(x: FileItem) -> int {
    if x.item_type is Directory {
        0
    } else {
        1
    }
}

/// The order a pane displays entries in: visible before hidden, then
/// directories before the rest, then names compared case-insensitively.
pub open spec fn display_le(a: FileItem, b: FileItem) -> bool {
    if hidden_rank(a) != hidden_rank(b) {
        hidden_rank(a) < hidden_rank(b)
    } else if dir_rank(a) != dir_rank(b) {
        dir_rank(a) < dir_rank(b)
    } else {
        seq_char_le(lower_of(a.name@), lower_of(b.name@))
    }
}

/// The order a storage listing returns entries in: directories before the
/// rest, then names as they are.
pub open spec fn listing_le(a: FileItem, b: FileItem) -> bool {
    if dir_rank(a) != dir_rank(b) {
        dir_rank(a) < dir_rank(b)
    } else {
        seq_char_le(a.name@, b.name@)
    }
}

/// Any two entries are comparable in the display order.
pub proof fn lemma_display_le_total(a: FileItem, b: FileItem)
    ensures
        display_le(a, b) || display_le(b, a),
{
    lemma_seq_char_le_total(lower_of(a.name@), lower_of(b.name@));
}

/// The display order chains.
pub proof fn lemma_display_le_trans(a: FileItem, b: FileItem, c: FileItem)
    requires
        display_le(a, b),
        display_le(b, c),
    ensures
        display_le(a, c),
{
    if hidden_rank(a) == hidden_rank(c) && dir_rank(a) == dir_rank(c) && hidden_rank(a)
        == hidden_rank(b) && dir_rank(a) == dir_rank(b) {
        lemma_seq_char_le_trans(
            lower_of(a.name@),
            lower_of(b.name@),
            lower_of(c.name@),
        );
    }
}

/// Any two entries are comparable in the listing order.
pub proof fn lemma_listing_le_total(a: FileItem, b: FileItem)
    ensures
        listing_le(a, b) || listing_le(b, a),
{
    lemma_seq_char_le_total(a.name@, b.name@);
}

/// The listing order chains.
pub proof fn lemma_listing_le_trans(a: FileItem, b: FileItem, c: FileItem)
    requires
        listing_le(a, b),
        listing_le(b, c),
    ensures
        listing_le(a, c),
{
    if dir_rank(a) == dir_rank(c) && dir_rank(a) == dir_rank(b) {
        lemma_seq_char_le_trans(a.name@, b.name@, c.name@);
    }
}

/// The sequence is ordered for display.
pub open spec fn sorted_for_display(s: Seq<FileItem>) -> bool {
    forall|p: int, q: int| 0 <= p < q < s.len() ==> display_le(s[p], s[q])
}

/// The sequence is ordered as a storage listing.
pub open spec fn sorted_for_listing(s: Seq<FileItem>) -> bool {
    forall|p: int, q: int| 0 <= p < q < s.len() ==> listing_le(s[p], s[q])
}

/// Compares two entries in the display order.
fn display_le_exec(a: &FileItem, b: &FileItem) -> (r: bool)
    ensures
        r == display_le(*a, *b),
{
    if a.is_hidden != b.is_hidden {
        return !a.is_hidden;
    }
    let ra: u8 = match a.item_type {
        ItemType::Directory => 0,
        _ => 1,
    };
    let rb: u8 = match b.item_type {
        ItemType::Directory => 0,
        _ => 1,
    };
    if ra != rb {
        return ra < rb;
    }
    let la = lowercase(a.name.as_str());
    let lb = lowercase(b.name.as_str());
    str_le(la.as_str(), lb.as_str())
}

/// Compares two entries in the listing order.
fn listing_le_exec(a: &FileItem, b: &FileItem) -> (r: bool)
    ensures
        r == listing_le(*a, *b),
{
    let ra: u8 = match a.item_type {
        ItemType::Directory => 0,
        _ => 1,
    };
    let rb: u8 = match b.item_type {
        ItemType::Directory => 0,
        _ => 1,
    };
    if ra != rb {
        return ra < rb;
    }
    str_le(a.name.as_str(), b.name.as_str())
}

/// Taking an element out and putting it back elsewhere rearranges the
/// sequence without changing what it holds.
proof fn lemma_remove_insert_multiset(s: Seq<FileItem>, i: int, j: int)
    requires
        0 <= i < s.len(),
        0 <= j <= s.len() - 1,
    ensures
        s.remove(i).insert(j, s[i]).to_multiset() =~= s.to_multiset(),
{
    broadcast use vstd::multiset::group_multiset_axioms;

    let x = s[i];
    let rem = s.remove(i);
    s.to_multiset_ensures();
    assert(s.contains(x));
    assert(rem.to_multiset() =~= s.to_multiset().remove(x));
    let a = rem.subrange(0, j);
    let b = rem.subrange(j, rem.len() as int);
    assert(rem.insert(j, x) == a.push(x) + b);
    vstd::seq_lib::lemma_multiset_commutative(a.push(x), b);
    a.to_multiset_ensures();
    vstd::seq_lib::lemma_multiset_commutative(a, b);
    assert(a + b =~= rem);
    assert(a.push(x).to_multiset() =~= a.to_multiset().insert(x));
    assert(rem.insert(j, x).to_multiset() =~= a.to_multiset().insert(x).add(b.to_multiset()));
    assert(rem.to_multiset() =~= a.to_multiset().add(b.to_multiset()));
    assert(a.to_multiset().insert(x).add(b.to_multiset()) =~= rem.to_multiset().insert(x));
    assert(s.to_multiset().count(x) > 0);
    assert(rem.to_multiset().insert(x) =~= s.to_multiset());
}

/// Sorts directory entries into the display order: the result is ordered
/// and holds exactly the given entries.
#[verifier::rlimit(60)]
pub fn sort_entries_for_display(entries: Vec<FileItem>) -> (r: Vec<FileItem>)
    ensures
        sorted_for_display(r@),
        r@.to_multiset() == entries@.to_multiset(),
{
    let ghost start = entries@;
    let mut v = entries;
    let mut i: usize = 1;
    while i < v.len()
        invariant
            1 <= i,
            v@.len() == start.len(),
            v@.to_multiset() == start.to_multiset(),
            forall|p: int, q: int| 0 <= p < q < i && q < v@.len() ==> display_le(v@[p], v@[q]),
        decreases v@.len() - i,
    {
        let ghost v0 = v@;
        let mut j: usize = 0;
        loop
            invariant
                j <= i,
                i < v@.len(),
                v@ == v0,
                forall|p: int| 0 <= p < j ==> display_le(v@[p], v@[i as int]),
            ensures
                j <= i,
                v@ == v0,
                forall|p: int| 0 <= p < j ==> display_le(v@[p], v@[i as int]),
                j < i ==> !display_le(v@[j as int], v@[i as int]),
            decreases i - j,
        {
            if j >= i {
                break ;
            }
            if !display_le_exec(&v[j], &v[i]) {
                break ;
            }
            j = j + 1;
        }
        let x = v.remove(i);
        v.insert(j, x);
        proof {
            lemma_remove_insert_multiset(v0, i as int, j as int);
            assert(v@ == v0.remove(i as int).insert(j as int, x));
            v0.remove_ensures(i as int);
            v0.remove(i as int).insert_ensures(j as int, x);
            if (j as int) < i {
                lemma_display_le_total(v0[j as int], x);
            }
            assert forall|p: int, q: int|
                0 <= p < q < i + 1 && q < v@.len() implies display_le(v@[p], v@[q]) by {
                let jj = j as int;
                if q < jj {
                    assert(v@[p] == v0[p] && v@[q] == v0[q]);
                } else if q == jj {
                    assert(v@[q] == x);
                    assert(v@[p] == v0[p]);
                } else if p < jj {
                    assert(v@[p] == v0[p] && v@[q] == v0[q - 1]);
                } else if p == jj {
                    assert(v@[p] == x && v@[q] == v0[q - 1]);
                    assert(display_le(x, v0[jj]));
                    if q - 1 > jj {
                        lemma_display_le_trans(x, v0[jj], v0[q - 1]);
                    }
                } else {
                    assert(v@[p] == v0[p - 1] && v@[q] == v0[q - 1]);
                }
            }
        }
        i = i + 1;
    }
    v
}

/// Sorts directory entries into the listing order: the result is ordered
/// and holds exactly the given entries.
#[verifier::rlimit(60)]
pub fn sort_entries_for_listing(entries: Vec<FileItem>) -> (r: Vec<FileItem>)
    ensures
        sorted_for_listing(r@),
        r@.to_multiset() == entries@.to_multiset(),
{
    let ghost start = entries@;
    let mut v = entries;
    let mut i: usize = 1;
    while i < v.len()
        invariant
            1 <= i,
            v@.len() == start.len(),
            v@.to_multiset() == start.to_multiset(),
            forall|p: int, q: int| 0 <= p < q < i && q < v@.len() ==> listing_le(v@[p], v@[q]),
        decreases v@.len() - i,
    {
        let ghost v0 = v@;
        let mut j: usize = 0;
        loop
            invariant
                j <= i,
                i < v@.len(),
                v@ == v0,
                forall|p: int| 0 <= p < j ==> listing_le(v@[p], v@[i as int]),
            ensures
                j <= i,
                v@ == v0,
                forall|p: int| 0 <= p < j ==> listing_le(v@[p], v@[i as int]),
                j < i ==> !listing_le(v@[j as int], v@[i as int]),
            decreases i - j,
        {
            if j >= i {
                break ;
            }
            if !listing_le_exec(&v[j], &v[i]) {
                break ;
            }
            j = j + 1;
        }
        let x = v.remove(i);
        v.insert(j, x);
        proof {
            lemma_remove_insert_multiset(v0, i as int, j as int);
            assert(v@ == v0.remove(i as int).insert(j as int, x));
            v0.remove_ensures(i as int);
            v0.remove(i as int).insert_ensures(j as int, x);
            if (j as int) < i {
                lemma_listing_le_total(v0[j as int], x);
            }
            assert forall|p: int, q: int|
                0 <= p < q < i + 1 && q < v@.len() implies listing_le(v@[p], v@[q]) by {
                let jj = j as int;
                if q < jj {
                    assert(v@[p] == v0[p] && v@[q] == v0[q]);
                } else if q == jj {
                    assert(v@[q] == x);
                    assert(v@[p] == v0[p]);
                } else if p < jj {
                    assert(v@[p] == v0[p] && v@[q] == v0[q - 1]);
                } else if p == jj {
                    assert(v@[p] == x && v@[q] == v0[q - 1]);
                    assert(listing_le(x, v0[jj]));
                    if q - 1 > jj {
                        lemma_listing_le_trans(x, v0[jj], v0[q - 1]);
                    }
                } else {
                    assert(v@[p] == v0[p - 1] && v@[q] == v0[q - 1]);
                }
            }
        }
        i = i + 1;
    }
    v
}

} // verus!
