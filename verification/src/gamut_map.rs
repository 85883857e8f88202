//! Bucketed cache of gamut boundary values.
//!
//! The gamut boundary (the largest in-gamut colorfulness) is cached per
//! (lightness, hue) bucket. Turning a lightness or a hue angle into a raw
//! bucket number is floating-point work done by the caller; the cache
//! clamps raw lightness numbers to the last bucket and wraps raw hue
//! numbers around the hue circle.

use vstd::prelude::*;

verus! {

/// Number of lightness buckets (a resolution of 0.1 over 0 to 100).
pub const J_BUCKETS: usize = 1000;

/// Number of hue buckets (a resolution of 0.1 degree over the circle).
pub const HUE_BUCKETS: usize = 3600;

/// The lightness bucket of a raw bucket number: past the end, the last.
pub open spec fn j_bucket(raw: nat) -> nat {
    if raw < 1000 {
        raw
    } else {
        999
    }
}

/// The hue bucket of a raw bucket number: around the circle.
pub open spec fn hue_bucket(raw: nat) -> nat {
    raw % 3600
}

/// A cache table with every bucket empty.
pub open spec fn empty_table<V>() -> Seq<Seq<Option<V>>> {
    Seq::new(1000, |j: int| Seq::new(3600, |h: int| None::<V>))
}

/// Whether a table has one row per lightness bucket and one entry per hue
/// bucket in each row.
pub open spec fn table_shape<V>(t: Seq<Seq<Option<V>>>) -> bool {
    &&& t.len() == 1000
    &&& forall|j: int| 0 <= j < 1000 ==> #[trigger] t[j].len() == 3600
}

/// What a table holds for a (lightness, hue) pair of raw bucket numbers.
pub open spec fn lookup<V>(t: Seq<Seq<Option<V>>>, j_raw: nat, h_raw: nat) -> Option<V> {
    t[j_bucket(j_raw) as int][hue_bucket(h_raw) as int]
}

/// A table after storing a value for a (lightness, hue) pair of raw
/// bucket numbers.
pub open spec fn stored<V>(t: Seq<Seq<Option<V>>>, j_raw: nat, h_raw: nat, v: V) -> Seq<
    Seq<Option<V>>,
> {
    let j = j_bucket(j_raw) as int;
    let h = hue_bucket(h_raw) as int;
    t.update(j, t[j].update(h, Some(v)))
}

/// One lightness bucket's row of hue buckets.
struct Row<V> {
    cells: Vec<Option<V>>,
}

impl<V> Row<V> {
    /// A row always has one cell per hue bucket.
    #[verifier::type_invariant]
    spec fn inv(self) -> bool {
        self.cells@.len() == 3600
    }

    /// The hue buckets of the row.
    spec fn buckets(self) -> Seq<Option<V>> {
        Seq::new(3600, |h: int| if h < self.cells@.len() { self.cells@[h] } else { None })
    }

    /// A row of empty hue buckets.
    fn empty() -> (r: Self)
        ensures
            r.buckets() == Seq::new(3600, |h: int| None::<V>),
    {
        let mut cells: Vec<Option<V>> = Vec::new();
        let mut h: usize = 0;
        while h < HUE_BUCKETS
            invariant
                h <= 3600,
                cells@ == Seq::new(h as nat, |i: int| None::<V>),
            decreases 3600 - h,
        {
            cells.push(None);
            h = h + 1;
            assert(cells@ =~= Seq::new(h as nat, |i: int| None::<V>));
        }
        let r = Row { cells };
        assert(r.buckets() =~= Seq::new(3600, |h: int| None::<V>));
        r
    }

    /// Store a value in a hue bucket.
    fn set(&mut self, h: usize, value: Option<V>)
        requires
            h < 3600,
        ensures
            final(self).buckets() == old(self).buckets().update(h as int, value),
        no_unwind
    {
        proof {
            use_type_invariant(&*self);
        }
        self.cells[h] = value;
        proof {
            use_type_invariant(&*self);
            assert(self.buckets() =~= old(self).buckets().update(h as int, value));
        }
    }

    /// Empty every hue bucket.
    fn clear(&mut self)
        ensures
            final(self).buckets() == Seq::new(3600, |h: int| None::<V>),
        no_unwind
    {
        let mut h: usize = 0;
        while h < HUE_BUCKETS
            invariant
                h <= 3600,
                forall|k: int| 0 <= k < h ==> #[trigger] self.buckets()[k] == None::<V>,
            decreases 3600 - h,
        {
            self.set(h, None);
            h = h + 1;
        }
        assert(self.buckets() =~= Seq::new(3600, |k: int| None::<V>));
    }
}

impl<V: Copy> Row<V> {
    /// The value in a hue bucket.
    fn get(&self, h: usize) -> (r: Option<V>)
        requires
            h < 3600,
        ensures
            r == self.buckets()[h as int],
    {
        proof {
            use_type_invariant(self);
        }
        self.cells[h]
    }
}

/// Gamut boundary values cached per (lightness, hue) bucket.
pub struct GamutCache<V> {
    rows: Vec<Row<V>>,
}

impl<V> View for GamutCache<V> {
    type V = Seq<Seq<Option<V>>>;

    /// The table of buckets, row by lightness bucket.
    closed spec fn view(&self) -> Seq<Seq<Option<V>>> {
        self.rows@.map_values(|row: Row<V>| row.buckets())
    }
}

impl<V> GamutCache<V> {
    /// The cache always has one row per lightness bucket.
    #[verifier::type_invariant]
    spec fn inv(self) -> bool {
        self.rows@.len() == 1000
    }

    /// A cache with every bucket empty.
    pub fn new() -> (r: Self)
        ensures
            r@ == empty_table::<V>(),
    {
        let mut rows: Vec<Row<V>> = Vec::new();
        let mut j: usize = 0;
        while j < J_BUCKETS
            invariant
                j <= 1000,
                rows@.len() == j,
                forall|i: int| 0 <= i < j ==> #[trigger] rows@[i].buckets() == Seq::new(
                    3600,
                    |h: int| None::<V>,
                ),
            decreases 1000 - j,
        {
            rows.push(Row::empty());
            j = j + 1;
        }
        let r = GamutCache { rows };
        assert(r@ =~= empty_table::<V>());
        r
    }

    /// Store a value for a (lightness, hue) pair of raw bucket numbers.
    pub fn put(&mut self, j_raw: usize, h_raw: usize, value: V)
        ensures
            final(self)@ == stored(old(self)@, j_raw as nat, h_raw as nat, value),
    {
        proof {
            use_type_invariant(&*self);
        }
        let j = if j_raw < J_BUCKETS {
            j_raw
        } else {
            J_BUCKETS - 1
        };
        let h = h_raw % HUE_BUCKETS;
        self.rows[j].set(h, Some(value));
        proof {
            let t = stored(old(self)@, j_raw as nat, h_raw as nat, value);
            assert(self@ =~= t);
        }
    }

    /// Empty every bucket.
    pub fn clear(&mut self)
        ensures
            final(self)@ == empty_table::<V>(),
    {
        proof {
            use_type_invariant(&*self);
        }
        let mut j: usize = 0;
        while j < J_BUCKETS
            invariant
                j <= 1000,
                self.rows@.len() == 1000,
                forall|i: int| 0 <= i < j ==> #[trigger] self@[i] == Seq::new(3600, |h: int| None::<V>),
            decreases 1000 - j,
        {
            let ghost before = self@;
            self.rows[j].clear();
            proof {
                assert forall|i: int| 0 <= i < j implies #[trigger] self@[i] == Seq::new(3600, |h: int| None::<V>) by {
                    assert(self@[i] == before[i]);
                }
            }
            j = j + 1;
        }
        assert(self@ =~= empty_table::<V>());
    }
}

impl<V: Copy> GamutCache<V> {
    /// The cached value for a (lightness, hue) pair of raw bucket numbers.
    pub fn get(&self, j_raw: usize, h_raw: usize) -> (r: Option<V>)
        ensures
            r == lookup(self@, j_raw as nat, h_raw as nat),
    {
        proof {
            use_type_invariant(self);
        }
        let j = if j_raw < J_BUCKETS {
            j_raw
        } else {
            J_BUCKETS - 1
        };
        let h = h_raw % HUE_BUCKETS;
        self.rows[j].get(h)
    }
}

/// A read gives back what the last write to the same buckets stored, and
/// a write leaves every other bucket as it was; an empty table holds
/// nothing; raw numbers always land inside the table.
pub proof fn lemma_gamut_cache_laws<V>(
    t: Seq<Seq<Option<V>>>,
    j1: nat,
    h1: nat,
    j2: nat,
    h2: nat,
    v: V,
)
    requires
        table_shape(t),
    ensures
        j_bucket(j1) < 1000,
        hue_bucket(h1) < 3600,
        table_shape(stored(t, j1, h1, v)),
        lookup(stored(t, j1, h1, v), j1, h1) == Some(v),
        (j_bucket(j1) != j_bucket(j2) || hue_bucket(h1) != hue_bucket(h2)) ==> lookup(
            stored(t, j1, h1, v),
            j2,
            h2,
        ) == lookup(t, j2, h2),
        lookup(empty_table::<V>(), j2, h2) is None,
        hue_bucket(h1 + 3600) == hue_bucket(h1),
{
    let s = stored(t, j1, h1, v);
    assert forall|j: int| 0 <= j < 1000 implies #[trigger] s[j].len() == 3600 by {
        assert(t[j].len() == 3600);
    }
    assert(t[j_bucket(j2) as int].len() == 3600);
    assert(t[j_bucket(j1) as int].len() == 3600);
    vstd::arithmetic::div_mod::lemma_mod_add_multiples_vanish(h1 as int, 3600);
}

/// Raw bucket numbers inside the table are their own buckets, so a write
/// to one (lightness, hue) cell never answers a read of another cell, and
/// a hue one full turn of buckets further reads the same cell.
pub proof fn lemma_gamut_cache_cells<V>(
    t: Seq<Seq<Option<V>>>,
    j1: nat,
    h1: nat,
    j2: nat,
    h2: nat,
    v: V,
)
    requires
        table_shape(t),
        j1 < 1000,
        j2 < 1000,
        h1 < 3600,
        h2 < 3600,
    ensures
        j_bucket(j1) == j1,
        hue_bucket(h1) == h1,
        lookup(t, j1, h1) == t[j1 as int][h1 as int],
        lookup(stored(t, j1, h1, v), j1, h1) == Some(v),
        (j1 != j2 || h1 != h2) ==> lookup(stored(t, j1, h1, v), j2, h2) == lookup(t, j2, h2),
        lookup(t, j1, h1 + 3600) == lookup(t, j1, h1),
        lookup(t, j1 + 1000, h1) == lookup(t, 999, h1),
{
    assert(t[j1 as int].len() == 3600);
    assert(t[j2 as int].len() == 3600);
    vstd::arithmetic::div_mod::lemma_mod_add_multiples_vanish(h1 as int, 3600);
    vstd::arithmetic::div_mod::lemma_small_mod(h1, 3600);
    vstd::arithmetic::div_mod::lemma_small_mod(h2, 3600);
}

} // verus!
