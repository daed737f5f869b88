//! Typed column arrays and their append-only builders.
//!
//! A builder accumulates the values of one column for one chunk and is
//! finished into an immutable array exactly once.  Nullable columns record an
//! explicit null marker per absent value, so every column receives exactly
//! one append per record.  The nested map column is an explicit
//! offsets-plus-flat-values structure: per-record entry boundaries over flat
//! key and value arrays, preserving each record's own key order.

use vstd::prelude::*;

verus! {

/// Whether some position of a nullable column holds a null.
pub open spec fn seq_has_none<T>(s: Seq<Option<T>>) -> bool {
    exists|i: int| 0 <= i < s.len() && s[i] is None
}

/// An immutable string column; `None` marks a null.
pub struct Utf8Array {
    pub data: Vec<Option<String>>,
}

impl Utf8Array {
    /// Number of rows.
    pub fn len(&self) -> (r: usize)
        ensures
            r == self.data@.len(),
    {
        self.data.len()
    }

    /// The value at one row.
    pub fn get(&self, i: usize) -> (r: &Option<String>)
        requires
            i < self.data@.len(),
        ensures
            *r == self.data@[i as int],
    {
        &self.data[i]
    }

    /// Whether any row is null.
    pub fn has_null(&self) -> (r: bool)
        ensures
            r == seq_has_none(self.data@),
    {
        let mut i: usize = 0;
        while i < self.data.len()
            invariant
                0 <= i <= self.data@.len(),
                forall|j: int| 0 <= j < i ==> self.data@[j] is Some,
            decreases self.data@.len() - i,
        {
            if self.data[i].is_none() {
                return true;
            }
            i = i + 1;
        }
        false
    }
}

/// An immutable 64-bit integer column; `None` marks a null.
pub struct Int64Array {
    pub data: Vec<Option<i64>>,
}

impl Int64Array {
    /// Number of rows.
    pub fn len(&self) -> (r: usize)
        ensures
            r == self.data@.len(),
    {
        self.data.len()
    }

    /// The value at one row.
    pub fn get(&self, i: usize) -> (r: Option<i64>)
        requires
            i < self.data@.len(),
        ensures
            r == self.data@[i as int],
    {
        self.data[i]
    }

    /// Whether any row is null.
    pub fn has_null(&self) -> (r: bool)
        ensures
            r == seq_has_none(self.data@),
    {
        let mut i: usize = 0;
        while i < self.data.len()
            invariant
                0 <= i <= self.data@.len(),
                forall|j: int| 0 <= j < i ==> self.data@[j] is Some,
            decreases self.data@.len() - i,
        {
            if self.data[i].is_none() {
                return true;
            }
            i = i + 1;
        }
        false
    }
}

/// Whether the offsets-plus-flat-values fields form a well-shaped nested map
/// column: offsets start at 0, never decrease, and end at the length of the
/// flat key array, which matches the flat value array.
pub open spec fn map_fields_wf(
    offsets: Seq<usize>,
    keys: Seq<String>,
    values: Seq<Option<String>>,
) -> bool {
    &&& offsets.len() >= 1
    &&& offsets[0] == 0
    &&& forall|i: int, j: int| 0 <= i <= j < offsets.len() ==> offsets[i] <= offsets[j]
    &&& offsets[offsets.len() - 1] == keys.len()
    &&& keys.len() == values.len()
}

/// Whether row `i` of the nested map column holds exactly the given ordered
/// key/value entries.
pub open spec fn map_row_matches(
    offsets: Seq<usize>,
    keys: Seq<String>,
    values: Seq<Option<String>>,
    i: int,
    entries: Seq<(String, Option<String>)>,
) -> bool {
    &&& offsets[i + 1] - offsets[i] == entries.len()
    &&& forall|j: int|
        0 <= j < entries.len() ==> keys[offsets[i] + j] == entries[j].0 && values[offsets[i] + j]
            == entries[j].1
}

/// An immutable nested map column: row `i` holds the key/value entries at
/// flat positions `offsets[i] .. offsets[i + 1]`, in record order.
pub struct AttrMapArray {
    pub offsets: Vec<usize>,
    pub keys: Vec<String>,
    pub values: Vec<Option<String>>,
}

impl AttrMapArray {
    /// Whether the array is well shaped.
    pub open spec fn wf(&self) -> bool {
        map_fields_wf(self.offsets@, self.keys@, self.values@)
    }

    /// Number of rows.
    pub open spec fn spec_len(&self) -> int {
        if self.offsets@.len() >= 1 {
            self.offsets@.len() - 1
        } else {
            0
        }
    }

    /// Number of rows.
    pub fn len(&self) -> (r: usize)
        ensures
            r == self.spec_len(),
    {
        if self.offsets.len() >= 1 {
            self.offsets.len() - 1
        } else {
            0
        }
    }

    /// Number of key/value entries in row `i`.
    pub fn entry_count(&self, i: usize) -> (r: usize)
        requires
            self.wf(),
            i < self.spec_len(),
        ensures
            r == self.offsets@[i + 1] - self.offsets@[i as int],
    {
        let n = self.offsets.len();
        self.offsets[i + 1] - self.offsets[i]
    }

    /// The key of entry `j` of row `i`.
    pub fn key_at(&self, i: usize, j: usize) -> (r: &String)
        requires
            self.wf(),
            i < self.spec_len(),
            j < self.offsets@[i + 1] - self.offsets@[i as int],
        ensures
            *r == self.keys@[self.offsets@[i as int] + j],
    {
        let n = self.offsets.len();
        let m = self.keys.len();
        proof {
            assert(self.offsets@[i + 1] <= self.offsets@[self.offsets@.len() - 1]);
        }
        &self.keys[self.offsets[i] + j]
    }

    /// The optional value of entry `j` of row `i`.
    pub fn value_at(&self, i: usize, j: usize) -> (r: &Option<String>)
        requires
            self.wf(),
            i < self.spec_len(),
            j < self.offsets@[i + 1] - self.offsets@[i as int],
        ensures
            *r == self.values@[self.offsets@[i as int] + j],
    {
        let n = self.offsets.len();
        let m = self.values.len();
        proof {
            assert(self.offsets@[i + 1] <= self.offsets@[self.offsets@.len() - 1]);
        }
        &self.values[self.offsets[i] + j]
    }

    /// Whether the array is well shaped, checked at runtime.
    pub fn check_wf(&self) -> (r: bool)
        ensures
            r == self.wf(),
    {
        if self.offsets.len() == 0 {
            return false;
        }
        if self.keys.len() != self.values.len() {
            return false;
        }
        if self.offsets[0] != 0 {
            return false;
        }
        if self.offsets[self.offsets.len() - 1] != self.keys.len() {
            return false;
        }
        let mut i: usize = 1;
        while i < self.offsets.len()
            invariant
                1 <= i <= self.offsets@.len(),
                forall|p: int, q: int| 0 <= p <= q < i ==> self.offsets@[p] <= self.offsets@[q],
            decreases self.offsets@.len() - i,
        {
            if self.offsets[i - 1] > self.offsets[i] {
                return false;
            }
            i = i + 1;
        }
        true
    }
}

/// Append-only builder of a string column.
pub struct Utf8Builder {
    pub data: Vec<Option<String>>,
}

impl Utf8Builder {
    /// A fresh builder.  `capacity_hint` is purely a performance hint.
    pub fn new(capacity_hint: usize) -> (r: Utf8Builder)
        ensures
            r.data@.len() == 0,
    {
        Utf8Builder { data: Vec::with_capacity(capacity_hint) }
    }

    /// Appends one present value.
    pub fn append_value(&mut self, v: String)
        ensures
            final(self).data@ == old(self).data@.push(Some(v)),
    {
        self.data.push(Some(v));
    }

    /// Appends one explicit null marker.
    pub fn append_null(&mut self)
        ensures
            final(self).data@ == old(self).data@.push(None::<String>),
    {
        self.data.push(None);
    }

    /// Appends the value if present, a null marker otherwise.
    pub fn append_option(&mut self, v: Option<String>)
        ensures
            final(self).data@ == old(self).data@.push(v),
    {
        self.data.push(v);
    }

    /// Number of appends so far.
    pub fn len(&self) -> (r: usize)
        ensures
            r == self.data@.len(),
    {
        self.data.len()
    }

    /// Finishes the builder into an immutable array.
    pub fn finish(self) -> (a: Utf8Array)
        ensures
            a.data@ == self.data@,
    {
        Utf8Array { data: self.data }
    }
}

/// Append-only builder of a 64-bit integer column.
pub struct Int64Builder {
    pub data: Vec<Option<i64>>,
}

impl Int64Builder {
    /// A fresh builder.  `capacity_hint` is purely a performance hint.
    pub fn new(capacity_hint: usize) -> (r: Int64Builder)
        ensures
            r.data@.len() == 0,
    {
        Int64Builder { data: Vec::with_capacity(capacity_hint) }
    }

    /// Appends one present value.
    pub fn append_value(&mut self, v: i64)
        ensures
            final(self).data@ == old(self).data@.push(Some(v)),
    {
        self.data.push(Some(v));
    }

    /// Appends one explicit null marker.
    pub fn append_null(&mut self)
        ensures
            final(self).data@ == old(self).data@.push(None::<i64>),
    {
        self.data.push(None);
    }

    /// Appends the value if present, a null marker otherwise.
    pub fn append_option(&mut self, v: Option<i64>)
        ensures
            final(self).data@ == old(self).data@.push(v),
    {
        self.data.push(v);
    }

    /// Number of appends so far.
    pub fn len(&self) -> (r: usize)
        ensures
            r == self.data@.len(),
    {
        self.data.len()
    }

    /// Finishes the builder into an immutable array.
    pub fn finish(self) -> (a: Int64Array)
        ensures
            a.data@ == self.data@,
    {
        Int64Array { data: self.data }
    }
}

/// Append-only builder of the nested map column.
pub struct AttrMapBuilder {
    pub offsets: Vec<usize>,
    pub keys: Vec<String>,
    pub values: Vec<Option<String>>,
}

impl AttrMapBuilder {
    /// Whether the builder is well shaped.
    pub open spec fn wf(&self) -> bool {
        map_fields_wf(self.offsets@, self.keys@, self.values@)
    }

    /// Number of rows sealed so far.
    pub open spec fn spec_len(&self) -> int {
        self.offsets@.len() - 1
    }

    /// A fresh builder.  `capacity_hint` is purely a performance hint.
    pub fn new(capacity_hint: usize) -> (r: AttrMapBuilder)
        ensures
            r.wf(),
            r.spec_len() == 0,
            r.keys@.len() == 0,
    {
        let mut offsets: Vec<usize> = Vec::with_capacity(capacity_hint);
        offsets.push(0);
        AttrMapBuilder {
            offsets,
            keys: Vec::with_capacity(capacity_hint),
            values: Vec::with_capacity(capacity_hint),
        }
    }

    /// Appends every key and every value of one record's entries in record
    /// order, then seals them as one map row.
    pub fn append_row(&mut self, entries: Vec<(String, Option<String>)>)
        requires
            old(self).wf(),
        ensures
            final(self).wf(),
            final(self).spec_len() == old(self).spec_len() + 1,
            final(self).offsets@ == old(self).offsets@.push(final(self).keys@.len() as usize),
            final(self).keys@.len() == old(self).keys@.len() + entries@.len(),
            final(self).values@.len() == old(self).values@.len() + entries@.len(),
            forall|t: int|
                0 <= t < old(self).keys@.len() ==> final(self).keys@[t] == old(self).keys@[t]
                    && final(self).values@[t] == old(self).values@[t],
            map_row_matches(
                final(self).offsets@,
                final(self).keys@,
                final(self).values@,
                old(self).spec_len(),
                entries@,
            ),
    {
        let ghost entries0 = entries@;
        let ghost base = self.keys@.len() as int;
        let mut entries = entries;
        while entries.len() > 0
            invariant
                0 <= base,
                entries@.len() <= entries0.len(),
                entries@ == entries0.subrange(
                    entries0.len() - entries@.len(),
                    entries0.len() as int,
                ),
                self.keys@.len() == base + entries0.len() - entries@.len(),
                self.values@.len() == self.keys@.len(),
                self.offsets@ == old(self).offsets@,
                forall|t: int|
                    0 <= t < base ==> self.keys@[t] == old(self).keys@[t] && self.values@[t] == old(
                        self,
                    ).values@[t],
                forall|j: int|
                    0 <= j < entries0.len() - entries@.len() ==> self.keys@[base + j]
                        == entries0[j].0 && self.values@[base + j] == entries0[j].1,
            decreases entries@.len(),
        {
            let ghost done = entries0.len() - entries@.len();
            let ghost keys_snap = self.keys@;
            let ghost vals_snap = self.values@;
            let (k, v) = entries.remove(0);
            proof {
                assert(0 <= done);
                assert(keys_snap.len() == base + done);
                assert(entries0.subrange(done, entries0.len() as int)[0] == entries0[done]);
                assert(entries@ =~= entries0.subrange(done + 1, entries0.len() as int));
                assert(k == entries0[done].0);
                assert(v == entries0[done].1);
            }
            self.keys.push(k);
            self.values.push(v);
            proof {
                assert(self.keys@ == keys_snap.push(k));
                assert(self.values@ == vals_snap.push(v));
                assert forall|j: int|
                    0 <= j < done + 1 implies self.keys@[base + j] == entries0[j].0
                    && self.values@[base + j] == entries0[j].1 by {
                    if j < done {
                        assert(keys_snap[base + j] == entries0[j].0);
                        assert(vals_snap[base + j] == entries0[j].1);
                        assert(0 <= base + j < keys_snap.len());
                        assert(self.keys@[base + j] == keys_snap[base + j]);
                        assert(self.values@[base + j] == vals_snap[base + j]);
                    } else {
                        assert(j == done);
                        assert(base + j == keys_snap.len());
                        assert(self.keys@[base + j] == k);
                        assert(self.values@[base + j] == v);
                    }
                }
            }
        }
        let total = self.keys.len();
        self.offsets.push(total);
        proof {
            let pre = old(self);
            let n = pre.offsets@.len() as int;
            assert(pre.offsets@[n - 1] == pre.keys@.len());
            assert forall|p: int, q: int|
                0 <= p <= q < self.offsets@.len() implies self.offsets@[p]
                <= self.offsets@[q] by {
                if q < n {
                    assert(pre.offsets@[p] <= pre.offsets@[q]);
                } else {
                    assert(self.offsets@[q] == total);
                    if p < n {
                        assert(pre.offsets@[p] <= pre.offsets@[n - 1]);
                    }
                }
            }
        }
    }

    /// Number of rows sealed so far.
    pub fn len(&self) -> (r: usize)
        requires
            self.wf(),
        ensures
            r == self.spec_len(),
    {
        self.offsets.len() - 1
    }

    /// Finishes the builder into an immutable array.
    pub fn finish(self) -> (a: AttrMapArray)
        ensures
            a.offsets@ == self.offsets@,
            a.keys@ == self.keys@,
            a.values@ == self.values@,
    {
        AttrMapArray { offsets: self.offsets, keys: self.keys, values: self.values }
    }
}

} // verus!
