//! A generic table of records keyed by a unique identifier and kept in
//! creation-time order, as a relational table ordered by its `created_at`
//! column would hand rows back.

use vstd::prelude::*;

verus! {

/// One stored row: the server-assigned identifier and creation time, the
/// time of the last update if any, and the resource-specific fields.
pub struct Rec<D> {
    pub id: u128,
    pub created_at: i64,
    pub updated_at: Option<i64>,
    pub data: D,
}

/// No two rows share an identifier.
pub open spec fn unique_ids<D>(s: Seq<Rec<D>>) -> bool {
    forall|i: int, j: int| 0 <= i < j < s.len() ==> s[i].id != s[j].id
}

/// Rows appear in nondecreasing creation-time order.
pub open spec fn time_ordered<D>(s: Seq<Rec<D>>) -> bool {
    forall|i: int, j: int| 0 <= i <= j < s.len() ==> s[i].created_at <= s[j].created_at
}

/// Whether some row has identifier `id`.
pub open spec fn has_id<D>(s: Seq<Rec<D>>, id: u128) -> bool {
    exists|i: int| 0 <= i < s.len() && s[i].id == id
}

/// The index of the row with identifier `id` (meaningful under `has_id`
/// and `unique_ids`).
pub open spec fn idx_of<D>(s: Seq<Rec<D>>, id: u128) -> int {
    choose|i: int| 0 <= i < s.len() && s[i].id == id
}

/// The row with identifier `id`.
pub open spec fn row_of<D>(s: Seq<Rec<D>>, id: u128) -> Rec<D> {
    s[idx_of(s, id)]
}

/// A freshly created row.
pub open spec fn new_rec<D>(id: u128, now: i64, data: D) -> Rec<D> {
    Rec { id, created_at: now, updated_at: None, data }
}

/// A row after an update: same identity and creation time, new fields,
/// update time set.
pub open spec fn touched<D>(r: Rec<D>, data: D, now: i64) -> Rec<D> {
    Rec { id: r.id, created_at: r.created_at, updated_at: Some(now), data }
}

/// Where a row created at time `t` goes: after every row created at or
/// before `t`, before the rest.
pub open spec fn ins_pos<D>(s: Seq<Rec<D>>, t: i64) -> int
    decreases s.len(),
{
    if s.len() == 0 {
        0
    } else if s[0].created_at <= t {
        1 + ins_pos(s.drop_first(), t)
    } else {
        0
    }
}

pub proof fn lemma_ins_pos_range<D>(s: Seq<Rec<D>>, t: i64)
    ensures
        0 <= ins_pos(s, t) <= s.len(),
        forall|k: int| 0 <= k < ins_pos(s, t) ==> s[k].created_at <= t,
        ins_pos(s, t) < s.len() ==> s[ins_pos(s, t)].created_at > t,
    decreases s.len(),
{
    if s.len() > 0 && s[0].created_at <= t {
        lemma_ins_pos_range(s.drop_first(), t);
        assert forall|k: int| 0 <= k < ins_pos(s, t) implies s[k].created_at <= t by {
            if k > 0 {
                assert(s.drop_first()[k - 1] == s[k]);
            }
        }
        if ins_pos(s, t) < s.len() {
            assert(s.drop_first()[ins_pos(s, t) - 1] == s[ins_pos(s, t)]);
        }
    }
}

pub proof fn lemma_idx_of_unique<D>(s: Seq<Rec<D>>, i: int, id: u128)
    requires
        unique_ids(s),
        0 <= i < s.len(),
        s[i].id == id,
    ensures
        has_id(s, id),
        idx_of(s, id) == i,
        row_of(s, id) == s[i],
{
    assert(has_id(s, id));
    let j = idx_of(s, id);
    assert(0 <= j < s.len() && s[j].id == id);
    if i < j {
        assert(s[i].id != s[j].id);
    } else if j < i {
        assert(s[j].id != s[i].id);
    }
}

/// Inserting a fresh row keeps the table well formed; afterwards exactly
/// the old identifiers plus the new one are present.
pub proof fn lemma_insert_keeps_wf<D>(s: Seq<Rec<D>>, rec: Rec<D>)
    requires
        unique_ids(s),
        time_ordered(s),
        !has_id(s, rec.id),
    ensures
        unique_ids(s.insert(ins_pos(s, rec.created_at), rec)),
        time_ordered(s.insert(ins_pos(s, rec.created_at), rec)),
        forall|x: u128|
            has_id(s.insert(ins_pos(s, rec.created_at), rec), x) <==> (has_id(s, x) || x
                == rec.id),
{
    let p = ins_pos(s, rec.created_at);
    lemma_ins_pos_range(s, rec.created_at);
    s.insert_ensures(p, rec);
    let t = s.insert(p, rec);
    assert forall|i: int, j: int| 0 <= i < j < t.len() implies t[i].id != t[j].id by {
        if i < p && j < p {
        } else if i == p {
            assert(t[j] == s[j - 1]);
            assert(s[j - 1].id != rec.id);
        } else if j == p {
            assert(t[i] == s[i]);
            assert(s[i].id != rec.id);
        } else if i > p && j > p {
            assert(t[i] == s[i - 1] && t[j] == s[j - 1]);
        } else {
            assert(t[i] == s[i] && t[j] == s[j - 1]);
            assert(i <= j - 1);
            if i == j - 1 {
                assert(s[i].id != rec.id || s[i].id != s[j - 1].id);
            }
        }
    }
    assert forall|i: int, j: int| 0 <= i <= j < t.len() implies t[i].created_at
        <= t[j].created_at by {
        if i == p {
            if j > p {
                assert(t[j] == s[j - 1]);
            }
        } else if j == p {
            if i < p {
                assert(t[i] == s[i]);
            }
        } else {
            if i < p && j > p {
                assert(t[i] == s[i] && t[j] == s[j - 1]);
                assert(s[i].created_at <= rec.created_at);
                assert(s[j - 1].created_at >= rec.created_at);
            }
        }
    }
    assert forall|x: u128| has_id(t, x) <==> (has_id(s, x) || x == rec.id) by {
        if has_id(t, x) {
            let i = choose|i: int| 0 <= i < t.len() && t[i].id == x;
            if i < p {
                assert(s[i].id == x);
            } else if i > p {
                assert(s[i - 1].id == x);
            }
        }
        if has_id(s, x) {
            let i = choose|i: int| 0 <= i < s.len() && s[i].id == x;
            if i < p {
                assert(t[i].id == x);
            } else {
                assert(t[i + 1].id == x);
            }
        }
        if x == rec.id {
            assert(t[p].id == x);
        }
    }
}

/// Removing a row keeps the table well formed and removes exactly that
/// row's identifier.
pub proof fn lemma_remove_keeps_wf<D>(s: Seq<Rec<D>>, i: int)
    requires
        unique_ids(s),
        time_ordered(s),
        0 <= i < s.len(),
    ensures
        unique_ids(s.remove(i)),
        time_ordered(s.remove(i)),
        forall|x: u128| has_id(s.remove(i), x) <==> (has_id(s, x) && x != s[i].id),
{
    s.remove_ensures(i);
    let t = s.remove(i);
    assert forall|a: int, b: int| 0 <= a < b < t.len() implies t[a].id != t[b].id by {
        assert(t[a] == if a < i {
            s[a]
        } else {
            s[a + 1]
        });
        assert(t[b] == if b < i {
            s[b]
        } else {
            s[b + 1]
        });
    }
    assert forall|a: int, b: int| 0 <= a <= b < t.len() implies t[a].created_at
        <= t[b].created_at by {
        assert(t[a] == if a < i {
            s[a]
        } else {
            s[a + 1]
        });
        assert(t[b] == if b < i {
            s[b]
        } else {
            s[b + 1]
        });
    }
    assert forall|x: u128| has_id(t, x) <==> (has_id(s, x) && x != s[i].id) by {
        if has_id(t, x) {
            let a = choose|a: int| 0 <= a < t.len() && t[a].id == x;
            if a < i {
                assert(s[a].id == x);
                assert(s[a].id != s[i].id);
            } else {
                assert(s[a + 1].id == x);
                assert(s[a + 1].id != s[i].id);
            }
        }
        if has_id(s, x) && x != s[i].id {
            let a = choose|a: int| 0 <= a < s.len() && s[a].id == x;
            if a < i {
                assert(t[a].id == x);
            } else {
                assert(a > i);
                assert(t[a - 1].id == x);
            }
        }
    }
}

/// Updating a row's fields in place keeps the table well formed.
pub proof fn lemma_update_keeps_wf<D>(s: Seq<Rec<D>>, i: int, data: D, now: i64)
    requires
        unique_ids(s),
        time_ordered(s),
        0 <= i < s.len(),
    ensures
        unique_ids(s.update(i, touched(s[i], data, now))),
        time_ordered(s.update(i, touched(s[i], data, now))),
        forall|x: u128| has_id(s.update(i, touched(s[i], data, now)), x) <==> has_id(s, x),
{
    let t = s.update(i, touched(s[i], data, now));
    assert forall|x: u128| has_id(t, x) <==> has_id(s, x) by {
        if has_id(t, x) {
            let a = choose|a: int| 0 <= a < t.len() && t[a].id == x;
            assert(s[a].id == x);
        }
        if has_id(s, x) {
            let a = choose|a: int| 0 <= a < s.len() && s[a].id == x;
            assert(t[a].id == x);
        }
    }
}

/// The rows satisfying a filter predicate, in stored order.
pub open spec fn matching<D>(s: Seq<Rec<D>>, p: spec_fn(Rec<D>) -> bool) -> Seq<Rec<D>>
    decreases s.len(),
{
    if s.len() == 0 {
        Seq::empty()
    } else if p(s[0]) {
        seq![s[0]] + matching(s.drop_first(), p)
    } else {
        matching(s.drop_first(), p)
    }
}

pub proof fn lemma_matching_push<D>(s: Seq<Rec<D>>, p: spec_fn(Rec<D>) -> bool, x: Rec<D>)
    ensures
        matching(s.push(x), p) == if p(x) {
            matching(s, p).push(x)
        } else {
            matching(s, p)
        },
    decreases s.len(),
{
    let t = s.push(x);
    assert(t.len() == s.len() + 1);
    if s.len() == 0 {
        assert(t[0] == x);
        assert(t.drop_first() =~= Seq::<Rec<D>>::empty());
        assert(matching(t.drop_first(), p) == Seq::<Rec<D>>::empty());
        assert(matching(s, p) == Seq::<Rec<D>>::empty());
        if p(x) {
            assert(matching(t, p) == seq![x] + matching(t.drop_first(), p));
            assert(matching(t, p) =~= matching(s, p).push(x));
        } else {
            assert(matching(t, p) == matching(t.drop_first(), p));
            assert(matching(t, p) =~= matching(s, p));
        }
    } else {
        assert(t[0] == s[0]);
        assert(t.drop_first() =~= s.drop_first().push(x));
        lemma_matching_push(s.drop_first(), p, x);
        assert(matching(t, p) == if p(s[0]) {
            seq![s[0]] + matching(t.drop_first(), p)
        } else {
            matching(t.drop_first(), p)
        });
        assert(matching(s, p) == if p(s[0]) {
            seq![s[0]] + matching(s.drop_first(), p)
        } else {
            matching(s.drop_first(), p)
        });
        if p(x) {
            assert(matching(t, p) =~= matching(s, p).push(x));
        } else {
            assert(matching(t, p) =~= matching(s, p));
        }
    }
}

/// Every row a filter keeps satisfies it, in order, and every row that
/// satisfies it is kept.
pub proof fn lemma_matching_sound<D>(s: Seq<Rec<D>>, p: spec_fn(Rec<D>) -> bool)
    ensures
        matching(s, p).len() <= s.len(),
        forall|k: int| 0 <= k < matching(s, p).len() ==> p(#[trigger] matching(s, p)[k]),
        forall|i: int|
            0 <= i < s.len() && p(#[trigger] s[i]) ==> matching(s, p).contains(s[i]),
    decreases s.len(),
{
    if s.len() > 0 {
        lemma_matching_sound(s.drop_first(), p);
        let m = matching(s, p);
        let m0 = matching(s.drop_first(), p);
        assert forall|k: int| 0 <= k < m.len() implies p(#[trigger] m[k]) by {
            if p(s[0]) {
                if k > 0 {
                    assert(m[k] == m0[k - 1]);
                }
            } else {
                assert(m[k] == m0[k]);
            }
        }
        assert forall|i: int| 0 <= i < s.len() && p(#[trigger] s[i]) implies m.contains(
            s[i],
        ) by {
            if i == 0 {
                assert(m[0] == s[i]);
            } else {
                assert(s.drop_first()[i - 1] == s[i]);
                assert(m0.contains(s[i]));
                let k = choose|k: int| 0 <= k < m0.len() && m0[k] == s[i];
                if p(s[0]) {
                    assert(m[k + 1] == s[i]);
                } else {
                    assert(m[k] == s[i]);
                }
            }
        }
    }
}

/// A filter no row fails is no filter at all.
pub proof fn lemma_matching_all<D>(s: Seq<Rec<D>>, p: spec_fn(Rec<D>) -> bool)
    requires
        forall|i: int| 0 <= i < s.len() ==> p(#[trigger] s[i]),
    ensures
        matching(s, p) == s,
    decreases s.len(),
{
    if s.len() > 0 {
        assert forall|i: int| 0 <= i < s.drop_first().len() implies p(
            #[trigger] s.drop_first()[i],
        ) by {
            assert(s.drop_first()[i] == s[i + 1]);
        }
        lemma_matching_all(s.drop_first(), p);
        assert(matching(s, p) =~= s);
    }
}

/// A table of rows, unique by id, ordered by creation time.
pub struct Table<D> {
    pub rows: Vec<Rec<D>>,
}

impl<D> Table<D> {
    pub open spec fn wf(&self) -> bool {
        unique_ids(self.rows@) && time_ordered(self.rows@)
    }

    /// An empty table.
    pub fn new() -> (t: Table<D>)
        ensures
            t.rows@ == Seq::<Rec<D>>::empty(),
            t.wf(),
    {
        let t = Table { rows: Vec::new() };
        proof {
            assert(t.rows@ =~= Seq::<Rec<D>>::empty());
        }
        t
    }

    /// The number of rows.
    pub fn len(&self) -> (n: usize)
        ensures
            n == self.rows@.len(),
    {
        self.rows.len()
    }

    /// The index of the row with identifier `id`, if present.
    pub fn find(&self, id: u128) -> (r: Option<usize>)
        ensures
            match r {
                Some(i) => i < self.rows@.len() && self.rows@[i as int].id == id,
                None => !has_id(self.rows@, id),
            },
    {
        let n = self.rows.len();
        let mut i: usize = 0;
        while i < n
            invariant
                i <= n,
                n == self.rows@.len(),
                forall|k: int| 0 <= k < i ==> self.rows@[k].id != id,
            decreases n - i,
        {
            if self.rows[i].id == id {
                return Some(i);
            }
            i = i + 1;
        }
        None
    }

    /// Whether a row with identifier `id` is present.
    pub fn contains_id(&self, id: u128) -> (r: bool)
        ensures
            r == has_id(self.rows@, id),
    {
        match self.find(id) {
            Some(i) => {
                proof {
                    assert(has_id(self.rows@, id));
                }
                true
            },
            None => false,
        }
    }

    /// Inserts a fresh row at its creation-time position.
    pub fn insert_rec(&mut self, rec: Rec<D>)
        requires
            old(self).wf(),
            !has_id(old(self).rows@, rec.id),
        ensures
            final(self).rows@ == old(self).rows@.insert(
                ins_pos(old(self).rows@, rec.created_at),
                rec,
            ),
            final(self).wf(),
            forall|x: u128|
                has_id(final(self).rows@, x) <==> (has_id(old(self).rows@, x) || x == rec.id),
    {
        proof {
            lemma_ins_pos_range(self.rows@, rec.created_at);
            lemma_insert_keeps_wf(self.rows@, rec);
        }
        let n = self.rows.len();
        let mut p: usize = 0;
        while p < n && self.rows[p].created_at <= rec.created_at
            invariant
                p <= n,
                n == self.rows@.len(),
                forall|k: int| 0 <= k < p ==> self.rows@[k].created_at <= rec.created_at,
            decreases n - p,
        {
            p = p + 1;
        }
        proof {
            let ip = ins_pos(self.rows@, rec.created_at);
            lemma_ins_pos_range(self.rows@, rec.created_at);
            if p < ip {
                assert(self.rows@[p as int].created_at <= rec.created_at);
            }
            if ip < p {
                assert(self.rows@[ip].created_at <= rec.created_at);
            }
            assert(p == ip);
        }
        self.rows.insert(p, rec);
    }

    /// Removes the row with identifier `id`; reports whether one existed.
    pub fn remove_id(&mut self, id: u128) -> (deleted: bool)
        requires
            old(self).wf(),
        ensures
            deleted == has_id(old(self).rows@, id),
            deleted ==> final(self).rows@ == old(self).rows@.remove(idx_of(old(self).rows@, id)),
            !deleted ==> final(self).rows@ == old(self).rows@,
            final(self).wf(),
            !has_id(final(self).rows@, id),
            forall|x: u128| has_id(final(self).rows@, x) ==> has_id(old(self).rows@, x),
            forall|x: u128| has_id(old(self).rows@, x) && x != id ==> has_id(final(self).rows@, x),
    {
        match self.find(id) {
            Some(i) => {
                proof {
                    lemma_idx_of_unique(self.rows@, i as int, id);
                    lemma_remove_keeps_wf(self.rows@, i as int);
                }
                self.rows.remove(i);
                true
            },
            None => false,
        }
    }

    /// Overwrites the fields of row `i` and stamps its update time.
    pub fn update_rec(&mut self, i: usize, data: D, now: i64)
        requires
            old(self).wf(),
            i < old(self).rows@.len(),
        ensures
            final(self).rows@ == old(self).rows@.update(
                i as int,
                touched(old(self).rows@[i as int], data, now),
            ),
            final(self).wf(),
            forall|x: u128| has_id(final(self).rows@, x) <==> has_id(old(self).rows@, x),
    {
        proof {
            lemma_update_keeps_wf(self.rows@, i as int, data, now);
        }
        let ghost s = self.rows@;
        let cur = self.rows.remove(i);
        self.rows.insert(
            i,
            Rec { id: cur.id, created_at: cur.created_at, updated_at: Some(now), data },
        );
        proof {
            s.remove_ensures(i as int);
            s.remove(i as int).insert_ensures(i as int, touched(s[i as int], data, now));
            assert(self.rows@ =~= s.update(i as int, touched(s[i as int], data, now)));
        }
    }
}

} // verus!
