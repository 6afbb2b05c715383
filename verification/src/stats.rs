//! Cross-row-group statistics aggregation: per-column min/max/null-count
//! summaries, one per row group, folded into one coherent summary per
//! column for a whole file.
//!
//! Null counts sum, an unknown count contributing nothing; minima and
//! maxima fold under each physical type's ordering — natural order for
//! booleans and integers, an order-preserving key for floats (computed
//! where the float lives, outside verified code), byte order for byte
//! arrays. The legacy 96-bit type is not meaningfully orderable through
//! this path: its last-seen value wins, a cosmetic aggregation only.
//! Absence of a record, or of a bound inside one, means "no information",
//! never an error, and never resets a bound already found.

use vstd::prelude::*;

use crate::text::str_eq;

verus! {

/// The physical on-disk value encodings a column can have.
#[derive(Clone, Copy, Debug, PartialEq, Eq, Structural)]
pub enum PhysicalType {
    Boolean,
    Int32,
    Int64,
    Int96,
    Float,
    Double,
    ByteArray,
    FixedLenByteArray,
}

impl PhysicalType {
    /// The conventional name of the encoding, as collaborators print it.
    pub fn display_name(&self) -> (r: &'static str)
        ensures
            r@ == match *self {
                PhysicalType::Boolean => "BOOLEAN"@,
                PhysicalType::Int32 => "INT32"@,
                PhysicalType::Int64 => "INT64"@,
                PhysicalType::Int96 => "INT96"@,
                PhysicalType::Float => "FLOAT"@,
                PhysicalType::Double => "DOUBLE"@,
                PhysicalType::ByteArray => "BYTE_ARRAY"@,
                PhysicalType::FixedLenByteArray => "FIXED_LEN_BYTE_ARRAY"@,
            },
    {
        match self {
            PhysicalType::Boolean => "BOOLEAN",
            PhysicalType::Int32 => "INT32",
            PhysicalType::Int64 => "INT64",
            PhysicalType::Int96 => "INT96",
            PhysicalType::Float => "FLOAT",
            PhysicalType::Double => "DOUBLE",
            PhysicalType::ByteArray => "BYTE_ARRAY",
            PhysicalType::FixedLenByteArray => "FIXED_LEN_BYTE_ARRAY",
        }
    }
}

/// One comparable bound of a column, tagged by how it is compared.
///
/// Integers carry their value, 32-bit ones widened losslessly. A float
/// carries an order-preserving unsigned key beside its display text, so
/// comparison never touches a float here. Byte arrays carry their bytes.
/// The legacy 96-bit type carries only its structural rendering and is
/// not compared at all.
#[derive(Clone, Debug, PartialEq, Eq)]
pub enum StatValue {
    Bool(bool),
    Int(i64),
    Float(u64, String),
    Bytes(Vec<u8>),
    Opaque(String),
}

/// The mathematical shadow of [`StatValue`].
pub enum StatValueView {
    Bool(bool),
    Int(i64),
    Float(u64, Seq<char>),
    Bytes(Seq<u8>),
    Opaque(Seq<char>),
}

impl View for StatValue {
    type V = StatValueView;

    open spec fn view(&self) -> StatValueView {
        match self {
            StatValue::Bool(b) => StatValueView::Bool(*b),
            StatValue::Int(v) => StatValueView::Int(*v),
            StatValue::Float(k, s) => StatValueView::Float(*k, s@),
            StatValue::Bytes(b) => StatValueView::Bytes(b@),
            StatValue::Opaque(s) => StatValueView::Opaque(s@),
        }
    }
}

/// Lexicographic order on byte strings; a proper prefix comes first.
pub open spec fn bytes_lt(a: Seq<u8>, b: Seq<u8>) -> bool
    decreases a.len(),
{
    if b.len() == 0 {
        false
    } else if a.len() == 0 {
        true
    } else if a[0] < b[0] {
        true
    } else if a[0] > b[0] {
        false
    } else {
        bytes_lt(a.skip(1), b.skip(1))
    }
}

/// The strict order under which bounds fold: false before true, integers
/// and float keys by value, bytes lexicographically. Values of different
/// shapes, and the legacy opaque values, are never below one another.
pub open spec fn stat_lt(a: StatValueView, b: StatValueView) -> bool {
    match (a, b) {
        (StatValueView::Bool(x), StatValueView::Bool(y)) => !x && y,
        (StatValueView::Int(x), StatValueView::Int(y)) => x < y,
        (StatValueView::Float(x, _), StatValueView::Float(y, _)) => x < y,
        (StatValueView::Bytes(x), StatValueView::Bytes(y)) => bytes_lt(x, y),
        _ => false,
    }
}

impl StatValue {
    /// A value equal to this one.
    pub fn duplicate(&self) -> (r: StatValue)
        ensures
            r@ == self@,
    {
        match self {
            StatValue::Bool(b) => StatValue::Bool(*b),
            StatValue::Int(v) => StatValue::Int(*v),
            StatValue::Float(k, s) => StatValue::Float(*k, s.clone()),
            StatValue::Bytes(b) => StatValue::Bytes(b.clone()),
            StatValue::Opaque(s) => StatValue::Opaque(s.clone()),
        }
    }

    /// Whether this value is the legacy opaque kind, whose aggregation is
    /// last-seen-wins.
    pub fn is_opaque(&self) -> (r: bool)
        ensures
            r == (self@ matches StatValueView::Opaque(_)),
    {
        match self {
            StatValue::Opaque(_) => true,
            _ => false,
        }
    }
}

/// Whether `a` folds below `b`.
pub fn stat_lt_exec(a: &StatValue, b: &StatValue) -> (r: bool)
    ensures
        r == stat_lt(a@, b@),
{
    match (a, b) {
        (StatValue::Bool(x), StatValue::Bool(y)) => !*x && *y,
        (StatValue::Int(x), StatValue::Int(y)) => *x < *y,
        (StatValue::Float(x, _), StatValue::Float(y, _)) => *x < *y,
        (StatValue::Bytes(x), StatValue::Bytes(y)) => bytes_lt_exec(x, y),
        _ => false,
    }
}

fn bytes_lt_exec(a: &Vec<u8>, b: &Vec<u8>) -> (r: bool)
    ensures
        r == bytes_lt(a@, b@),
{
    let alen = a.len();
    let blen = b.len();
    proof {
        assert(a@.skip(0) =~= a@);
        assert(b@.skip(0) =~= b@);
    }
    let mut i: usize = 0;
    while i < alen && i < blen
        invariant
            i <= alen,
            i <= blen,
            alen == a@.len(),
            blen == b@.len(),
            bytes_lt(a@, b@) == bytes_lt(a@.skip(i as int), b@.skip(i as int)),
        decreases alen - i,
    {
        let x = a[i];
        let y = b[i];
        proof {
            assert(a@.skip(i as int)[0] == a@[i as int]);
            assert(b@.skip(i as int)[0] == b@[i as int]);
        }
        if x < y {
            return true;
        }
        if x > y {
            return false;
        }
        proof {
            assert(a@.skip(i + 1) =~= a@.skip(i as int).skip(1));
            assert(b@.skip(i + 1) =~= b@.skip(i as int).skip(1));
        }
        i = i + 1;
    }
    if i < blen {
        true
    } else {
        false
    }
}

/// One row group's statistics record for one column: a null count, which
/// the source may leave unknown, and optional comparable bounds.
pub struct StatsRecord {
    pub null_count: Option<u64>,
    pub min: Option<StatValue>,
    pub max: Option<StatValue>,
}

/// The mathematical shadow of [`StatsRecord`].
pub struct StatsRecordView {
    pub null_count: Option<u64>,
    pub min: Option<StatValueView>,
    pub max: Option<StatValueView>,
}

impl View for StatsRecord {
    type V = StatsRecordView;

    open spec fn view(&self) -> StatsRecordView {
        StatsRecordView {
            null_count: self.null_count,
            min: match self.min {
                Option::None => Option::None,
                Option::Some(v) => Option::Some(v@),
            },
            max: match self.max {
                Option::None => Option::None,
                Option::Some(v) => Option::Some(v@),
            },
        }
    }
}

/// One column's file-level summary.
pub struct ColumnSummary {
    pub name: String,
    pub physical_type: PhysicalType,
    pub null_count: u64,
    pub min: Option<StatValue>,
    pub max: Option<StatValue>,
}

/// The mathematical shadow of [`ColumnSummary`].
pub struct ColumnSummaryView {
    pub name: Seq<char>,
    pub physical_type: PhysicalType,
    pub null_count: u64,
    pub min: Option<StatValueView>,
    pub max: Option<StatValueView>,
}

impl View for ColumnSummary {
    type V = ColumnSummaryView;

    open spec fn view(&self) -> ColumnSummaryView {
        ColumnSummaryView {
            name: self.name@,
            physical_type: self.physical_type,
            null_count: self.null_count,
            min: match self.min {
                Option::None => Option::None,
                Option::Some(v) => Option::Some(v@),
            },
            max: match self.max {
                Option::None => Option::None,
                Option::Some(v) => Option::Some(v@),
            },
        }
    }
}

/// What one record contributes to a null count: its count, or nothing
/// where the source left it unknown.
pub open spec fn null_contribution(c: Option<u64>) -> int {
    match c {
        Option::None => 0,
        Option::Some(n) => n as int,
    }
}

/// A null count grown by one record's contribution, saturating at the
/// type's ceiling.
pub open spec fn add_nulls(cur: u64, c: Option<u64>) -> u64 {
    if cur + null_contribution(c) > u64::MAX {
        u64::MAX
    } else {
        (cur + null_contribution(c)) as u64
    }
}

/// A lower bound folded with a record's: absence contributes nothing, a
/// first value is taken as it is, a legacy opaque value replaces, and
/// otherwise the smaller of the two stays.
pub open spec fn merge_low(
    cur: Option<StatValueView>,
    new: Option<StatValueView>,
) -> Option<StatValueView> {
    match new {
        Option::None => cur,
        Option::Some(v) => match cur {
            Option::None => Option::Some(v),
            Option::Some(c) => if v matches StatValueView::Opaque(_) {
                Option::Some(v)
            } else if stat_lt(v, c) {
                Option::Some(v)
            } else {
                Option::Some(c)
            },
        },
    }
}

/// An upper bound folded with a record's, symmetrically.
pub open spec fn merge_high(
    cur: Option<StatValueView>,
    new: Option<StatValueView>,
) -> Option<StatValueView> {
    match new {
        Option::None => cur,
        Option::Some(v) => match cur {
            Option::None => Option::Some(v),
            Option::Some(c) => if v matches StatValueView::Opaque(_) {
                Option::Some(v)
            } else if stat_lt(c, v) {
                Option::Some(v)
            } else {
                Option::Some(c)
            },
        },
    }
}

/// A summary grown by one record.
pub open spec fn apply_record(s: ColumnSummaryView, r: StatsRecordView) -> ColumnSummaryView {
    ColumnSummaryView {
        null_count: add_nulls(s.null_count, r.null_count),
        min: merge_low(s.min, r.min),
        max: merge_high(s.max, r.max),
        ..s
    }
}

/// A summary grown by an optional record; a missing record contributes
/// nothing.
pub open spec fn apply_opt_record(
    s: ColumnSummaryView,
    r: Option<StatsRecordView>,
) -> ColumnSummaryView {
    match r {
        Option::None => s,
        Option::Some(rec) => apply_record(s, rec),
    }
}

/// A summary grown by a whole file's records for one column, in row-group
/// order.
pub open spec fn fold_records(
    s: ColumnSummaryView,
    rs: Seq<Option<StatsRecordView>>,
) -> ColumnSummaryView
    decreases rs.len(),
{
    if rs.len() == 0 {
        s
    } else {
        apply_opt_record(fold_records(s, rs.drop_last()), rs.last())
    }
}

impl ColumnSummary {
    /// A fresh accumulator for one column: no nulls seen, no bounds found.
    pub fn new(name: String, physical_type: PhysicalType) -> (s: ColumnSummary)
        ensures
            s@.name == name@,
            s@.physical_type == physical_type,
            s@.null_count == 0,
            s@.min is None,
            s@.max is None,
    {
        ColumnSummary { name, physical_type, null_count: 0, min: None, max: None }
    }

    /// Fold one row group's record into this summary.
    pub fn update(&mut self, rec: &StatsRecord)
        ensures
            final(self)@ == apply_record(old(self)@, rec@),
    {
        let add: u64 = match rec.null_count {
            Some(n) => n,
            None => 0,
        };
        if self.null_count > u64::MAX - add {
            self.null_count = u64::MAX;
        } else {
            self.null_count = self.null_count + add;
        }
        match &rec.min {
            None => {},
            Some(v) => {
                let replace = match &self.min {
                    None => true,
                    Some(c) => v.is_opaque() || stat_lt_exec(v, c),
                };
                if replace {
                    self.min = Some(v.duplicate());
                }
            },
        }
        match &rec.max {
            None => {},
            Some(v) => {
                let replace = match &self.max {
                    None => true,
                    Some(c) => v.is_opaque() || stat_lt_exec(c, v),
                };
                if replace {
                    self.max = Some(v.duplicate());
                }
            },
        }
    }

    /// A summary equal to this one.
    pub fn duplicate(&self) -> (r: ColumnSummary)
        ensures
            r@ == self@,
    {
        ColumnSummary {
            name: self.name.clone(),
            physical_type: self.physical_type,
            null_count: self.null_count,
            min: match &self.min {
                None => None,
                Some(v) => Some(v.duplicate()),
            },
            max: match &self.max {
                None => None,
                Some(v) => Some(v.duplicate()),
            },
        }
    }
}

/// The record of one column position in every row group, in order.
pub open spec fn column_records(
    groups: Seq<Vec<Option<StatsRecord>>>,
    c: int,
) -> Seq<Option<StatsRecordView>> {
    groups.map_values(
        |row: Vec<Option<StatsRecord>>|
            match row@[c] {
                Option::None => Option::<StatsRecordView>::None,
                Option::Some(r) => Option::Some(r@),
            },
    )
}

/// The fresh accumulator of one named column.
pub open spec fn initial_summary(name: Seq<char>, t: PhysicalType) -> ColumnSummaryView {
    ColumnSummaryView {
        name: name,
        physical_type: t,
        null_count: 0,
        min: Option::None,
        max: Option::None,
    }
}

/// Aggregate every row group's per-column records into one summary per
/// column, in schema order. The schema is fixed for the whole file, so
/// each group carries exactly one optional record per column.
pub fn aggregate(
    columns: &Vec<(String, PhysicalType)>,
    groups: &Vec<Vec<Option<StatsRecord>>>,
) -> (out: Vec<ColumnSummary>)
    requires
        forall|g: int| 0 <= g < groups@.len() ==> (#[trigger] groups@[g])@.len()
            == columns@.len(),
    ensures
        out@.len() == columns@.len(),
        forall|c: int| 0 <= c < columns@.len() ==> (#[trigger] out@[c])@ == fold_records(
            initial_summary(columns@[c].0@, columns@[c].1),
            column_records(groups@, c),
        ),
{
    let ncols = columns.len();
    let ngroups = groups.len();
    let mut out: Vec<ColumnSummary> = Vec::new();
    let mut c: usize = 0;
    while c < ncols
        invariant
            c <= ncols,
            ncols == columns@.len(),
            ngroups == groups@.len(),
            forall|g: int| 0 <= g < groups@.len() ==> (#[trigger] groups@[g])@.len()
                == columns@.len(),
            out@.len() == c,
            forall|k: int| 0 <= k < c ==> (#[trigger] out@[k])@ == fold_records(
                initial_summary(columns@[k].0@, columns@[k].1),
                column_records(groups@, k),
            ),
        decreases ncols - c,
    {
        let name = columns[c].0.clone();
        let ptype = columns[c].1;
        let mut s = ColumnSummary::new(name, ptype);
        let ghost recs = column_records(groups@, c as int);
        let mut g: usize = 0;
        while g < ngroups
            invariant
                g <= ngroups,
                c < ncols,
                ncols == columns@.len(),
                ngroups == groups@.len(),
                forall|gg: int| 0 <= gg < groups@.len() ==> (#[trigger] groups@[gg])@.len()
                    == columns@.len(),
                recs == column_records(groups@, c as int),
                recs.len() == ngroups,
                s@ == fold_records(
                    initial_summary(columns@[c as int].0@, columns@[c as int].1),
                    recs.take(g as int),
                ),
            decreases ngroups - g,
        {
            proof {
                assert(recs.take(g + 1).drop_last() =~= recs.take(g as int));
                assert(recs.take(g + 1).last() == recs[g as int]);
            }
            match &groups[g][c] {
                None => {},
                Some(rec) => {
                    s.update(rec);
                },
            }
            g = g + 1;
        }
        proof {
            assert(recs.take(ngroups as int) =~= recs);
        }
        out.push(s);
        c = c + 1;
    }
    out
}

/// The summaries whose column bears the given name, in order; the filter
/// is applied only after aggregation has seen every row group.
pub open spec fn filtered_summaries(
    ss: Seq<ColumnSummaryView>,
    name: Seq<char>,
) -> Seq<ColumnSummaryView>
    decreases ss.len(),
{
    if ss.len() == 0 {
        Seq::empty()
    } else if ss.last().name == name {
        filtered_summaries(ss.drop_last(), name) + seq![ss.last()]
    } else {
        filtered_summaries(ss.drop_last(), name)
    }
}

/// The views of a summary list.
pub open spec fn summary_views(ss: Seq<ColumnSummary>) -> Seq<ColumnSummaryView> {
    ss.map_values(|s: ColumnSummary| s@)
}

/// Keep only the summaries of the column with the given name.
pub fn filter_by_name(summaries: &Vec<ColumnSummary>, name: &str) -> (out: Vec<ColumnSummary>)
    ensures
        summary_views(out@) == filtered_summaries(summary_views(summaries@), name@),
{
    let len = summaries.len();
    let mut out: Vec<ColumnSummary> = Vec::new();
    let mut i: usize = 0;
    while i < len
        invariant
            i <= len,
            len == summaries@.len(),
            summary_views(out@) == filtered_summaries(
                summary_views(summaries@.take(i as int)),
                name@,
            ),
        decreases len - i,
    {
        let ghost prefix = summary_views(summaries@.take(i as int));
        proof {
            assert(summary_views(summaries@.take(i + 1)).drop_last() =~= prefix);
            assert(summary_views(summaries@.take(i + 1)).last() == summaries@[i as int]@);
        }
        if str_eq(summaries[i].name.as_str(), name) {
            let d = summaries[i].duplicate();
            proof {
                assert(summary_views(out@.push(d)) =~= summary_views(out@) + seq![d@]);
                assert(summary_views(out@) + seq![d@] =~= filtered_summaries(
                    summary_views(summaries@.take(i + 1)),
                    name@,
                ));
            }
            out.push(d);
        } else {
            proof {
                assert(filtered_summaries(summary_views(summaries@.take(i + 1)), name@)
                    =~= filtered_summaries(prefix, name@));
            }
        }
        i = i + 1;
    }
    proof {
        assert(summaries@.take(len as int) =~= summaries@);
    }
    out
}

/// What one record contributes to a null count, read off an optional
/// record.
pub open spec fn opt_null_contribution(r: Option<StatsRecordView>) -> int {
    match r {
        Option::None => 0,
        Option::Some(rec) => null_contribution(rec.null_count),
    }
}

/// The sum of the null counts a column's records report, an unknown or
/// missing record contributing nothing.
pub open spec fn sum_nulls(rs: Seq<Option<StatsRecordView>>) -> int
    decreases rs.len(),
{
    if rs.len() == 0 {
        0
    } else {
        sum_nulls(rs.drop_last()) + opt_null_contribution(rs.last())
    }
}

/// Aggregation additivity, null counts: as long as the sum fits the
/// counter, the file-level null count is exactly the sum of the per-group
/// counts, unknown counts contributing nothing.
pub proof fn lemma_null_additivity(s: ColumnSummaryView, rs: Seq<Option<StatsRecordView>>)
    requires
        s.null_count + sum_nulls(rs) <= u64::MAX,
    ensures
        fold_records(s, rs).null_count == s.null_count + sum_nulls(rs),
    decreases rs.len(),
{
    if rs.len() > 0 {
        lemma_sum_nulls_nonneg(rs.drop_last());
        lemma_null_additivity(s, rs.drop_last());
    }
}

proof fn lemma_sum_nulls_nonneg(rs: Seq<Option<StatsRecordView>>)
    ensures
        sum_nulls(rs) >= 0,
    decreases rs.len(),
{
    if rs.len() > 0 {
        lemma_sum_nulls_nonneg(rs.drop_last());
    }
}

/// The lower bound an optional record reports, if any.
pub open spec fn rec_min(r: Option<StatsRecordView>) -> Option<StatValueView> {
    match r {
        Option::None => Option::None,
        Option::Some(rec) => rec.min,
    }
}

/// The upper bound an optional record reports, if any.
pub open spec fn rec_max(r: Option<StatsRecordView>) -> Option<StatValueView> {
    match r {
        Option::None => Option::None,
        Option::Some(rec) => rec.max,
    }
}

/// An optional bound that is an integer value, if it is one.
pub open spec fn is_int_bound(o: Option<StatValueView>) -> bool {
    match o {
        Option::None => true,
        Option::Some(v) => v is Int,
    }
}

/// The bound holds an integer at most `m`.
pub open spec fn int_at_most(o: Option<StatValueView>, m: i64) -> bool {
    match o {
        Option::Some(StatValueView::Int(f)) => f <= m,
        _ => false,
    }
}

/// The bound holds an integer at least `m`.
pub open spec fn int_at_least(o: Option<StatValueView>, m: i64) -> bool {
    match o {
        Option::Some(StatValueView::Int(f)) => f >= m,
        _ => false,
    }
}

/// Where a record reports an integer lower bound, the folded lower bound
/// is an integer no greater than it.
pub open spec fn min_covers(fold_min: Option<StatValueView>, rmin: Option<StatValueView>) -> bool {
    match rmin {
        Option::Some(StatValueView::Int(m)) => int_at_most(fold_min, m),
        _ => true,
    }
}

/// Where a record reports an integer upper bound, the folded upper bound
/// is an integer no smaller than it.
pub open spec fn max_covers(fold_max: Option<StatValueView>, rmax: Option<StatValueView>) -> bool {
    match rmax {
        Option::Some(StatValueView::Int(m)) => int_at_least(fold_max, m),
        _ => true,
    }
}

/// Aggregation bounds, integer columns: the file-level minimum is at most
/// every row-group minimum that was present, and the file-level maximum at
/// least every row-group maximum.
pub proof fn lemma_min_max_bounds(s: ColumnSummaryView, rs: Seq<Option<StatsRecordView>>)
    requires
        s.min is None,
        s.max is None,
        forall|g: int| 0 <= g < rs.len() ==> is_int_bound(rec_min(#[trigger] rs[g])),
        forall|g: int| 0 <= g < rs.len() ==> is_int_bound(rec_max(#[trigger] rs[g])),
    ensures
        is_int_bound(fold_records(s, rs).min),
        is_int_bound(fold_records(s, rs).max),
        forall|g: int|
            0 <= g < rs.len() ==> min_covers(fold_records(s, rs).min, rec_min(#[trigger] rs[g])),
        forall|g: int|
            0 <= g < rs.len() ==> max_covers(fold_records(s, rs).max, rec_max(#[trigger] rs[g])),
    decreases rs.len(),
{
    if rs.len() > 0 {
        let prefix = rs.drop_last();
        let last = rs.last();
        assert(forall|g: int| 0 <= g < prefix.len() ==> #[trigger] prefix[g] == rs[g]);
        lemma_min_max_bounds(s, prefix);
        assert(rs.drop_last() =~= prefix);
        let folded = fold_records(s, prefix);
        assert(fold_records(s, rs) == apply_opt_record(folded, last));
        assert(last == rs[rs.len() - 1]);
        assert(is_int_bound(rec_min(last)));
        assert(is_int_bound(rec_max(last)));
        // The new record can only lower the minimum and raise the maximum,
        // and its own bounds are covered by the merged result.
        assert forall|g: int| 0 <= g < rs.len() implies min_covers(
            fold_records(s, rs).min,
            rec_min(#[trigger] rs[g]),
        ) by {
            if g < prefix.len() {
                assert(prefix[g] == rs[g]);
                assert(min_covers(folded.min, rec_min(prefix[g])));
            } else {
                assert(rec_min(rs[g]) == rec_min(last));
            }
        }
        assert forall|g: int| 0 <= g < rs.len() implies max_covers(
            fold_records(s, rs).max,
            rec_max(#[trigger] rs[g]),
        ) by {
            if g < prefix.len() {
                assert(prefix[g] == rs[g]);
                assert(max_covers(folded.max, rec_max(prefix[g])));
            } else {
                assert(rec_max(rs[g]) == rec_max(last));
            }
        }
    }
}

} // verus!
