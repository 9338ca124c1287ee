use vstd::prelude::*;

verus! {

/// Largest number of rows inserted by one statement (the row limit of one
/// transaction on the database).
pub const BATCH_SIZE: i64 = 1000;

/// Number of accounts that chapter 4 asks for.
pub const CHAPTER4_TARGET_ACCOUNTS: i64 = 1_000_000;

/// Number of batches needed to insert `n` rows.
pub open spec fn batch_count(n: int) -> int {
    if n <= 0 {
        0
    } else {
        (n + BATCH_SIZE - 1) / (BATCH_SIZE as int)
    }
}

/// The `k`-th batch of ids when the ids `base + 1 ..= base + n` are inserted.
pub open spec fn batch_at(base: int, n: int, k: int) -> (int, int) {
    let start = base + BATCH_SIZE * k + 1;
    let end = base + BATCH_SIZE * k + BATCH_SIZE;
    (start, if end <= base + n { end } else { base + n })
}

/// All batches, in order, that insert the ids `base + 1 ..= base + n`.
pub open spec fn id_batches(base: int, n: int) -> Seq<(int, int)> {
    Seq::new(batch_count(n) as nat, |k: int| batch_at(base, n, k))
}

/// The view of a list of id ranges as mathematical pairs.
pub open spec fn ranges_view_i64(v: Seq<(i64, i64)>) -> Seq<(int, int)> {
    v.map_values(|p: (i64, i64)| (p.0 as int, p.1 as int))
}

/// The view of a list of `i32` id ranges as mathematical pairs.
pub open spec fn ranges_view_i32(v: Seq<(i32, i32)>) -> Seq<(int, int)> {
    v.map_values(|p: (i32, i32)| (p.0 as int, p.1 as int))
}

/// Every batch of a plan is a non-empty range inside `base + 1 ..= base + n`.
pub proof fn lemma_batch_within(base: int, n: int, k: int)
    requires
        0 <= k < batch_count(n),
    ensures
        base + 1 <= batch_at(base, n, k).0 <= batch_at(base, n, k).1 <= base + n,
        batch_at(base, n, k).1 - batch_at(base, n, k).0 < BATCH_SIZE,
{
    assert(BATCH_SIZE * k + 1 <= n) by (nonlinear_arith)
        requires
            0 <= k < (n + 999) / 1000,
            n > 0,
    ;
}

/// The batches of a plan split `base + 1 ..= base + n` into consecutive
/// ranges: the first starts at `base + 1`, each starts right after the one
/// before, the last ends at `base + n`, and each holds between one and
/// `BATCH_SIZE` ids. Nothing is inserted when `n` is not positive.
pub proof fn lemma_batches_partition(base: int, n: int)
    ensures
        n <= 0 ==> id_batches(base, n).len() == 0,
        n > 0 ==> {
            let b = id_batches(base, n);
            &&& b.len() > 0
            &&& b[0].0 == base + 1
            &&& b.last().1 == base + n
            &&& forall|k: int|
                0 <= k < b.len() ==> 1 <= (#[trigger] b[k]).1 - b[k].0 + 1 <= BATCH_SIZE
            &&& forall|k: int| 0 <= k < b.len() - 1 ==> (#[trigger] b[k + 1]).0 == b[k].1 + 1
        },
{
    if n > 0 {
        let b = id_batches(base, n);
        let len = batch_count(n);
        assert(len >= 1) by (nonlinear_arith)
            requires
                len == (n + 999) / 1000,
                n > 0,
        ;
        lemma_batch_within(base, n, 0);
        assert(BATCH_SIZE * (len - 1) + BATCH_SIZE >= n) by (nonlinear_arith)
            requires
                len == (n + 999) / 1000,
                n > 0,
        ;
        assert(b.last() == batch_at(base, n, len - 1));
        assert forall|k: int| 0 <= k < b.len() implies 1 <= (#[trigger] b[k]).1 - b[k].0 + 1
            <= BATCH_SIZE by {
            lemma_batch_within(base, n, k);
        }
        assert forall|k: int| 0 <= k < b.len() - 1 implies (#[trigger] b[k + 1]).0 == b[k].1
            + 1 by {
            lemma_batch_within(base, n, k + 1);
        }
    }
}

/// Number of ids a list of ranges inserts.
pub open spec fn ids_covered(b: Seq<(int, int)>) -> int
    decreases b.len(),
{
    if b.len() == 0 {
        0
    } else {
        ids_covered(b.drop_last()) + (b.last().1 - b.last().0 + 1)
    }
}

/// After the first `k` batches, exactly the ids up to the `k`-th batch's
/// last one have been inserted.
pub proof fn lemma_prefix_covered(base: int, n: int, k: int)
    requires
        n > 0,
        1 <= k <= batch_count(n),
    ensures
        ids_covered(id_batches(base, n).take(k)) == id_batches(base, n)[k - 1].1 - base,
    decreases k,
{
    let b = id_batches(base, n);
    lemma_batches_partition(base, n);
    if k > 1 {
        lemma_prefix_covered(base, n, k - 1);
        assert(b.take(k).drop_last() =~= b.take(k - 1));
        assert(b[k - 1].0 == b[k - 2].1 + 1);
        assert(b.take(k).last() == b[k - 1]);
        assert(ids_covered(b.take(k)) == ids_covered(b.take(k - 1)) + (b[k - 1].1 - b[k - 1].0 + 1));
    } else {
        assert(b.take(1).drop_last() =~= Seq::<(int, int)>::empty());
        assert(b.take(1).last() == b[0]);
        assert(ids_covered(b.take(1)) == ids_covered(Seq::<(int, int)>::empty()) + (b[0].1 - b[0].0 + 1));
    }
}

/// The batches insert `n` ids in all (none when `n` is not positive): the
/// running count of inserted rows ends at the number of accounts asked for.
pub proof fn lemma_batches_insert_all(base: int, n: int)
    ensures
        ids_covered(id_batches(base, n)) == if n > 0 {
            n
        } else {
            0
        },
{
    let b = id_batches(base, n);
    lemma_batches_partition(base, n);
    if n > 0 {
        lemma_prefix_covered(base, n, b.len() as int);
        assert(b.take(b.len() as int) =~= b);
    } else {
        assert(b.len() == 0);
    }
}

/// Computes the batches that insert ids `base + 1 ..= base + n`, each of at
/// most `BATCH_SIZE` ids, by advancing a running count of inserted rows.
fn batches_after(base: i64, n: i64) -> (res: Vec<(i64, i64)>)
    requires
        base + n <= i64::MAX,
    ensures
        ranges_view_i64(res@) == id_batches(base as int, n as int),
{
    let mut res: Vec<(i64, i64)> = Vec::new();
    let mut inserted: i64 = 0;
    while inserted < n
        invariant
            base + n <= i64::MAX,
            0 <= inserted,
            n > 0 ==> inserted <= n,
            inserted < n ==> inserted == BATCH_SIZE * res@.len(),
            inserted >= n && n > 0 ==> inserted == n && BATCH_SIZE * (res@.len() - 1) < n
                <= BATCH_SIZE * res@.len(),
            n <= 0 ==> res@.len() == 0,
            forall|j: int|
                0 <= j < res@.len() ==> (#[trigger] res@[j]).0 as int == batch_at(
                    base as int,
                    n as int,
                    j,
                ).0 && res@[j].1 as int == batch_at(base as int, n as int, j).1,
        decreases n - inserted,
    {
        let start = base + inserted + 1;
        let end = if inserted <= n - BATCH_SIZE {
            base + inserted + BATCH_SIZE
        } else {
            base + n
        };
        res.push((start, end));
        inserted = end - base;
    }
    proof {
        let got = ranges_view_i64(res@);
        let want = id_batches(base as int, n as int);
        if n > 0 {
            assert(batch_count(n as int) == res@.len()) by {
                let k = res@.len() as int;
                assert(BATCH_SIZE * (k - 1) < n <= BATCH_SIZE * k);
                assert((n + 999) / 1000 == k);
            }
        }
        assert(got.len() == want.len());
        assert forall|j: int| 0 <= j < got.len() implies got[j] == want[j] by {
            assert(res@[j].0 as int == batch_at(base as int, n as int, j).0);
        }
        assert(got =~= want);
    }
    res
}

/// The id the chapter-1 seeding converts the requested account count to:
/// the count read as a signed 32-bit integer, so that counts past
/// `i32::MAX` wrap to a negative target.
pub open spec fn schema_target(num_accounts: u32) -> int {
    if num_accounts <= i32::MAX {
        num_accounts as int
    } else {
        num_accounts - 0x1_0000_0000
    }
}

/// The batches `(first id, last id)` in which the schema setup seeds
/// accounts `1 ..= num_accounts`, each holding at most `BATCH_SIZE` ids.
///
/// The count is taken as a signed 32-bit target, so a count past
/// `i32::MAX` seeds nothing. Counts for which the 32-bit running total
/// would overflow while stepping past the last full batch are excluded.
pub fn schema_batches(num_accounts: u32) -> (res: Vec<(i32, i32)>)
    requires
        !(2_147_483_000 < num_accounts <= 2_147_483_647),
    ensures
        ranges_view_i32(res@) == id_batches(0, schema_target(num_accounts)),
{
    let target: i64 = if num_accounts <= 2_147_483_647 {
        num_accounts as i64
    } else {
        num_accounts as i64 - 0x1_0000_0000
    };
    let wide = batches_after(0, target);
    let mut res: Vec<(i32, i32)> = Vec::new();
    let mut i: usize = 0;
    while i < wide.len()
        invariant
            0 <= i <= wide@.len(),
            target == schema_target(num_accounts),
            ranges_view_i64(wide@) == id_batches(0, target as int),
            res@.len() == i,
            forall|j: int|
                0 <= j < i ==> (#[trigger] res@[j]).0 as int == wide@[j].0 as int && res@[j].1 as int
                    == wide@[j].1 as int,
        decreases wide@.len() - i,
    {
        proof {
            let k = i as int;
            assert(ranges_view_i64(wide@).len() == wide@.len());
            assert(id_batches(0, target as int).len() == batch_count(target as int));
            assert(ranges_view_i64(wide@)[k] == id_batches(0, target as int)[k]);
            assert(id_batches(0, target as int)[k] == batch_at(0, target as int, k));
            lemma_batch_within(0, target as int, k);
        }
        let (start, end) = wide[i];
        res.push((start as i32, end as i32));
        i = i + 1;
    }
    proof {
        assert forall|j: int| 0 <= j < res@.len() implies ranges_view_i32(res@)[j] == ranges_view_i64(
            wide@,
        )[j] by {}
        assert(ranges_view_i32(res@) =~= ranges_view_i64(wide@));
    }
    res
}

/// What chapter 4's setup still has to insert to reach its target.
pub struct Chapter4Plan {
    /// Number of accounts still missing.
    pub needed: i64,
    /// The batches `(first id, last id)` that insert them, in order.
    pub batches: Vec<(i64, i64)>,
}

/// Plans chapter 4's setup from the number of accounts already present:
/// `None` when there are already `CHAPTER4_TARGET_ACCOUNTS` or more;
/// otherwise the missing count and the batches that insert ids
/// `current_count + 1 ..= CHAPTER4_TARGET_ACCOUNTS`.
pub fn chapter4_plan(current_count: i64) -> (res: Option<Chapter4Plan>)
    requires
        current_count > i64::MIN + CHAPTER4_TARGET_ACCOUNTS,
    ensures
        res is None <==> current_count >= CHAPTER4_TARGET_ACCOUNTS,
        res matches Some(plan) ==> {
            &&& plan.needed == CHAPTER4_TARGET_ACCOUNTS - current_count
            &&& ranges_view_i64(plan.batches@) == id_batches(current_count as int, plan.needed as int)
        },
{
    if current_count >= CHAPTER4_TARGET_ACCOUNTS {
        return None;
    }
    let needed = CHAPTER4_TARGET_ACCOUNTS - current_count;
    let batches = batches_after(current_count, needed);
    Some(Chapter4Plan { needed, batches })
}

} // verus!
