use vstd::prelude::*;
use crate::records::{AnnotationRecord, ImageRecord, TagRecord};
use crate::text::{compare_text, lemma_text_cmp_antisymmetric, text_cmp};

verus! {

/// A row with a creation timestamp and a unique identifier, by which
/// listings are ordered.
pub trait Chronological: Sized {
    spec fn stamp(&self) -> Seq<char>;

    spec fn key(&self) -> i64;

    fn created(&self) -> (r: &String)
        ensures
            r@ == self.stamp(),
    ;

    fn row_id(&self) -> (r: i64)
        ensures
            r == self.key(),
    ;

    fn duplicate_row(&self) -> (r: Self)
        ensures
            r == *self,
    ;
}

/// Whether a row with timestamp `sa` and id `ia` is listed before one with
/// `sb` and `ib`: by timestamp (latest first when `newest_first`), and
/// among equal timestamps by id in the same direction.
pub open spec fn listed_before(sa: Seq<char>, ia: i64, sb: Seq<char>, ib: i64, newest_first: bool) -> bool {
    if newest_first {
        text_cmp(sa, sb) > 0 || (text_cmp(sa, sb) == 0 && ia > ib)
    } else {
        text_cmp(sa, sb) < 0 || (text_cmp(sa, sb) == 0 && ia < ib)
    }
}

pub open spec fn row_before<T: Chronological>(a: T, b: T, newest_first: bool) -> bool {
    listed_before(a.stamp(), a.key(), b.stamp(), b.key(), newest_first)
}

/// Every row is listed before the one that follows it.
pub open spec fn in_listing_order<T: Chronological>(s: Seq<T>, newest_first: bool) -> bool {
    forall|k: int| 0 <= k < s.len() - 1 ==> row_before(#[trigger] s[k], s[k + 1], newest_first)
}

/// The identifiers of the rows, in order.
pub open spec fn keys_of<T: Chronological>(s: Seq<T>) -> Seq<i64> {
    s.map_values(|r: T| r.key())
}

/// A row that belongs to one image: a tag or annotation belongs to the
/// image it is attached to, an image row to itself.
pub trait Attached: Chronological {
    spec fn owner(&self) -> i64;

    fn owner_id(&self) -> (r: i64)
        ensures
            r == self.owner(),
    ;
}

/// No identifier occurs twice.
pub open spec fn distinct_keys<T: Chronological>(s: Seq<T>) -> bool {
    forall|i: int, j: int| 0 <= i < j < s.len() ==> (#[trigger] s[i]).key() != (#[trigger] s[j]).key()
}

/// Of two rows with distinct ids, one is listed before the other.
pub proof fn lemma_listing_total(sa: Seq<char>, ia: i64, sb: Seq<char>, ib: i64, newest_first: bool)
    requires
        ia != ib,
    ensures
        listed_before(sa, ia, sb, ib, newest_first) || listed_before(sb, ib, sa, ia, newest_first),
{
    lemma_text_cmp_antisymmetric(sa, sb);
}

fn row_precedes<T: Chronological>(a: &T, b: &T, newest_first: bool) -> (r: bool)
    ensures
        r == row_before(*a, *b, newest_first),
{
    let c = compare_text(a.created().as_str(), b.created().as_str());
    let ia = a.row_id();
    let ib = b.row_id();
    if newest_first {
        c > 0 || (c == 0 && ia > ib)
    } else {
        c < 0 || (c == 0 && ia < ib)
    }
}

proof fn lemma_insert_keeps_distinct<T: Chronological>(before: Seq<T>, p: int, row: T)
    requires
        0 <= p <= before.len(),
        distinct_keys(before),
        forall|j: int| 0 <= j < before.len() ==> (#[trigger] before[j]).key() != row.key(),
    ensures
        distinct_keys(before.insert(p, row)),
{
    let s = before.insert(p, row);
    assert forall|i: int, j: int| 0 <= i < j < s.len() implies (#[trigger] s[i]).key() != (#[trigger] s[j]).key() by {
        if i < p && j < p {
            assert(s[i] == before[i] && s[j] == before[j]);
        } else if i < p && j == p {
            assert(s[i] == before[i]);
        } else if i < p {
            assert(s[i] == before[i] && s[j] == before[j - 1]);
        } else if i == p {
            assert(s[j] == before[j - 1]);
        } else {
            assert(s[i] == before[i - 1] && s[j] == before[j - 1]);
        }
    }
}

/// Inserts `row` into `rows` at the place the listing order gives it.
#[verifier::rlimit(90)]
pub fn insert_in_order<T: Chronological>(rows: &mut Vec<T>, row: T, newest_first: bool)
    requires
        in_listing_order(old(rows)@, newest_first),
        distinct_keys(old(rows)@),
        forall|j: int| 0 <= j < old(rows)@.len() ==> (#[trigger] old(rows)@[j]).key() != row.key(),
    ensures
        in_listing_order(final(rows)@, newest_first),
        distinct_keys(final(rows)@),
        final(rows)@.len() == old(rows)@.len() + 1,
        forall|x: T| #[trigger] final(rows)@.contains(x) <==> (old(rows)@.contains(x) || x == row),
{
    let n = rows.len();
    let mut p: usize = 0;
    let mut placed = false;
    while p < n && !placed
        invariant
            n == rows@.len(),
            p <= n,
            rows@ == old(rows)@,
            forall|j: int| 0 <= j < p ==> !row_before(row, #[trigger] rows@[j], newest_first),
            placed ==> p < n && row_before(row, rows@[p as int], newest_first),
        decreases n - p + (if placed { 0int } else { 1int }),
    {
        if row_precedes(&row, &rows[p], newest_first) {
            placed = true;
        } else {
            p = p + 1;
        }
    }
    let ghost before = rows@;
    proof {
        if p > 0 {
            let prev = before[p - 1];
            lemma_listing_total(row.stamp(), row.key(), prev.stamp(), prev.key(), newest_first);
        }
    }
    rows.insert(p, row);
    proof {
        let s = rows@;
        assert(s =~= before.insert(p as int, row));
        assert forall|k: int| 0 <= k < s.len() - 1 implies row_before(#[trigger] s[k], s[k + 1], newest_first) by {
            if k < p as int - 1 {
                assert(s[k] == before[k] && s[k + 1] == before[k + 1]);
            } else if k == p as int - 1 {
            } else if k == p as int {
            } else {
                assert(s[k] == before[k - 1] && s[k + 1] == before[k]);
            }
        }
        lemma_insert_keeps_distinct(before, p as int, row);
        assert forall|x: T| #[trigger] s.contains(x) <==> (before.contains(x) || x == row) by {
            if s.contains(x) {
                let k = choose|k: int| 0 <= k < s.len() && s[k] == x;
                if k < p {
                    assert(before[k] == x);
                } else if k > p {
                    assert(before[k - 1] == x);
                }
            }
            if before.contains(x) {
                let k = choose|k: int| 0 <= k < before.len() && before[k] == x;
                if k < p {
                    assert(s[k] == x);
                } else {
                    assert(s[k + 1] == x);
                }
            }
            if x == row {
                assert(s[p as int] == x);
            }
        }
    }
}

impl Chronological for ImageRecord {
    open spec fn stamp(&self) -> Seq<char> {
        self.created_at@
    }

    open spec fn key(&self) -> i64 {
        self.id
    }

    fn created(&self) -> (r: &String) {
        &self.created_at
    }

    fn row_id(&self) -> (r: i64) {
        self.id
    }

    fn duplicate_row(&self) -> (r: Self) {
        self.duplicate()
    }
}

impl Chronological for TagRecord {
    open spec fn stamp(&self) -> Seq<char> {
        self.created_at@
    }

    open spec fn key(&self) -> i64 {
        self.id
    }

    fn created(&self) -> (r: &String) {
        &self.created_at
    }

    fn row_id(&self) -> (r: i64) {
        self.id
    }

    fn duplicate_row(&self) -> (r: Self) {
        self.duplicate()
    }
}

impl Chronological for AnnotationRecord {
    open spec fn stamp(&self) -> Seq<char> {
        self.created_at@
    }

    open spec fn key(&self) -> i64 {
        self.id
    }

    fn created(&self) -> (r: &String) {
        &self.created_at
    }

    fn row_id(&self) -> (r: i64) {
        self.id
    }

    fn duplicate_row(&self) -> (r: Self) {
        self.duplicate()
    }
}

impl Attached for ImageRecord {
    open spec fn owner(&self) -> i64 {
        self.id
    }

    fn owner_id(&self) -> (r: i64) {
        self.id
    }
}

impl Attached for TagRecord {
    open spec fn owner(&self) -> i64 {
        self.image_id
    }

    fn owner_id(&self) -> (r: i64) {
        self.image_id
    }
}

impl Attached for AnnotationRecord {
    open spec fn owner(&self) -> i64 {
        self.image_id
    }

    fn owner_id(&self) -> (r: i64) {
        self.image_id
    }
}

} // verus!
