//! Incremental aggregation of item metadata for collection generation.
//!
//! Each processed item contributes a small record; the summaries keep only
//! the distinct values seen and running counts, so their size does not grow
//! with the number of items.
use vstd::prelude::*;
use crate::attributes::AttributeDefinition;
use crate::crs::{opt_view, copy_opt_string, CRS};
use crate::sorted::{insert_sorted, insert_all_sorted, view_set, copy_strings};
use crate::stac::CityObjectsCount;
use crate::text::{views, strictly_sorted, copy_string};

verus! {

/// Minimal metadata of a processed item, as collection aggregation reads it.
pub struct ItemMetadata {
    pub id: String,
    pub city3d_version: Option<String>,
    pub city3d_city_objects: Option<CityObjectsCount>,
    pub city3d_lods: Option<Vec<String>>,
    pub city3d_co_types: Option<Vec<String>>,
    pub city3d_attributes: Option<Vec<AttributeDefinition>>,
    pub city3d_semantic_surfaces: Option<bool>,
    pub city3d_textures: Option<bool>,
    pub city3d_materials: Option<bool>,
    /// Projection code (e.g. `EPSG:7415`).
    pub proj_code: Option<String>,
    /// Size in bytes of the data asset (`file:size`).
    pub file_size: Option<u64>,
}

/// What an item contributes to the summaries.
pub struct ItemView {
    pub version: Option<Seq<char>>,
    pub lods: Set<Seq<char>>,
    pub co_types: Set<Seq<char>>,
    pub proj_code: Option<Seq<char>>,
    pub semantic_surfaces: Option<bool>,
    pub textures: Option<bool>,
    pub materials: Option<bool>,
    pub count: Option<u64>,
    pub file_size: Option<u64>,
}

/// The set of strings of an optional list (empty when absent).
pub open spec fn opt_view_set(o: Option<Vec<String>>) -> Set<Seq<char>> {
    match o {
        Some(v) => view_set(v@),
        None => Set::empty(),
    }
}

/// The count an optional city object count contributes.
pub open spec fn opt_total(o: Option<CityObjectsCount>) -> Option<u64> {
    match o {
        Some(c) => Some(c.total_spec()),
        None => None,
    }
}

impl View for ItemMetadata {
    type V = ItemView;

    open spec fn view(&self) -> ItemView {
        ItemView {
            version: opt_view(self.city3d_version),
            lods: opt_view_set(self.city3d_lods),
            co_types: opt_view_set(self.city3d_co_types),
            proj_code: opt_view(self.proj_code),
            semantic_surfaces: self.city3d_semantic_surfaces,
            textures: self.city3d_textures,
            materials: self.city3d_materials,
            count: opt_total(self.city3d_city_objects),
            file_size: self.file_size,
        }
    }
}

/// A set of booleans, as the distinct values observed for a flag.
#[derive(Debug, Clone, Copy, PartialEq, Eq, Structural)]
pub struct BoolSet {
    pub has_false: bool,
    pub has_true: bool,
}

impl View for BoolSet {
    type V = Set<bool>;

    open spec fn view(&self) -> Set<bool> {
        Set::new(|b: bool| if b { self.has_true } else { self.has_false })
    }
}

/// Booleans in increasing order (`false` before `true`), without repeats.
pub open spec fn bools_sorted(s: Seq<bool>) -> bool {
    forall|i: int, j: int| 0 <= i < j < s.len() ==> !(#[trigger] s[i]) && #[trigger] s[j]
}

impl BoolSet {
    /// The empty set.
    pub fn new() -> (r: Self)
        ensures
            r@ == Set::<bool>::empty(),
    {
        let r = BoolSet { has_false: false, has_true: false };
        assert(r@ =~= Set::<bool>::empty());
        r
    }

    /// Adds a value.
    pub fn insert(&mut self, b: bool)
        ensures
            final(self)@ == old(self)@.insert(b),
    {
        if b {
            self.has_true = true;
        } else {
            self.has_false = true;
        }
        assert(self@ =~= old(self)@.insert(b));
    }

    /// Whether no value was observed.
    pub fn is_empty(&self) -> (r: bool)
        ensures
            r == (self@ == Set::<bool>::empty()),
    {
        if !self.has_false && !self.has_true {
            assert(self@ =~= Set::<bool>::empty());
            true
        } else {
            if self.has_false {
                assert(self@.contains(false));
            } else {
                assert(self@.contains(true));
            }
            false
        }
    }

    /// The observed values in increasing order.
    pub fn sorted_values(&self) -> (r: Vec<bool>)
        ensures
            r@.to_set() == self@,
            bools_sorted(r@),
    {
        let mut r: Vec<bool> = Vec::new();
        if self.has_false {
            r.push(false);
        }
        if self.has_true {
            r.push(true);
        }
        assert forall|b: bool| r@.to_set().contains(b) <==> self@.contains(b) by {
            if self@.contains(b) {
                if b {
                    assert(r@[r@.len() - 1] == b);
                } else {
                    assert(r@[0] == b);
                }
            }
        }
        assert(r@.to_set() =~= self@);
        r
    }
}

/// Adds an optional value to a set.
pub open spec fn opt_insert<A>(s: Set<A>, o: Option<A>) -> Set<A> {
    match o {
        Some(x) => s.insert(x),
        None => s,
    }
}

/// The smaller of a running minimum and a new value.
pub open spec fn running_min(cur: Option<u64>, n: u64) -> u64 {
    match cur {
        Some(m) => if m <= n { m } else { n },
        None => n,
    }
}

/// The larger of a running maximum and a new value.
pub open spec fn running_max(cur: Option<u64>, n: u64) -> u64 {
    match cur {
        Some(m) => if m >= n { m } else { n },
        None => n,
    }
}

/// The mathematical content of the aggregated summaries.
pub struct SummariesView {
    pub versions: Set<Seq<char>>,
    pub lods: Set<Seq<char>>,
    pub co_types: Set<Seq<char>>,
    pub proj_codes: Set<Seq<char>>,
    pub semantic_surfaces: Set<bool>,
    pub textures: Set<bool>,
    pub materials: Set<bool>,
    pub count_min: Option<u64>,
    pub count_max: Option<u64>,
    pub count_total: int,
    pub size_min: Option<u64>,
    pub size_max: Option<u64>,
    pub size_sum: int,
    pub size_count: int,
}

/// The summaries of no item at all.
pub open spec fn empty_summaries() -> SummariesView {
    SummariesView {
        versions: Set::empty(),
        lods: Set::empty(),
        co_types: Set::empty(),
        proj_codes: Set::empty(),
        semantic_surfaces: Set::empty(),
        textures: Set::empty(),
        materials: Set::empty(),
        count_min: None,
        count_max: None,
        count_total: 0,
        size_min: None,
        size_max: None,
        size_sum: 0,
        size_count: 0,
    }
}

/// The summaries after one more item has been merged in.
pub open spec fn merged(s: SummariesView, m: ItemView) -> SummariesView {
    SummariesView {
        versions: opt_insert(s.versions, m.version),
        lods: s.lods.union(m.lods),
        co_types: s.co_types.union(m.co_types),
        proj_codes: opt_insert(s.proj_codes, m.proj_code),
        semantic_surfaces: opt_insert(s.semantic_surfaces, m.semantic_surfaces),
        textures: opt_insert(s.textures, m.textures),
        materials: opt_insert(s.materials, m.materials),
        count_min: match m.count {
            Some(n) => Some(running_min(s.count_min, n)),
            None => s.count_min,
        },
        count_max: match m.count {
            Some(n) => Some(running_max(s.count_max, n)),
            None => s.count_max,
        },
        count_total: match m.count {
            Some(n) => s.count_total + n,
            None => s.count_total,
        },
        size_min: match m.file_size {
            Some(n) => Some(running_min(s.size_min, n)),
            None => s.size_min,
        },
        size_max: match m.file_size {
            Some(n) => Some(running_max(s.size_max, n)),
            None => s.size_max,
        },
        size_sum: match m.file_size {
            Some(n) => s.size_sum + n,
            None => s.size_sum,
        },
        size_count: match m.file_size {
            Some(_) => s.size_count + 1,
            None => s.size_count,
        },
    }
}

/// Merging `m` into `s` keeps every counter within its machine type.
pub open spec fn can_merge(s: SummariesView, m: ItemView) -> bool {
    &&& (m.count matches Some(n) ==> s.count_total + n <= u64::MAX)
    &&& (m.file_size matches Some(n) ==> s.size_sum + n <= u128::MAX && s.size_count + 1 <= u64::MAX)
}

impl SummariesView {
    /// The running statistics agree with each other: minimum and maximum are
    /// present together, and bound what the totals were built from.
    pub open spec fn consistent(self) -> bool {
        &&& (self.count_min is Some) == (self.count_max is Some)
        &&& (self.count_min matches Some(lo) ==> lo <= self.count_max->0 <= self.count_total)
        &&& (self.count_min is None ==> self.count_total == 0)
        &&& (self.size_min is Some) == (self.size_max is Some)
        &&& (self.size_min is Some) == (self.size_count > 0)
        &&& (self.size_min is None ==> self.size_sum == 0)
        &&& (self.size_min matches Some(lo) ==> {
            &&& lo <= self.size_max->0
            &&& self.size_count * lo <= self.size_sum <= self.size_count * self.size_max->0
        })
    }
}

/// Pre-aggregated summaries computed incrementally during item processing.
///
/// The string sets are kept as strictly increasing vectors, so each value
/// occurs once and the order in which items arrive does not show.
pub struct AggregatedSummaries {
    pub versions: Vec<String>,
    pub lods: Vec<String>,
    pub co_types: Vec<String>,
    pub proj_codes: Vec<String>,
    pub semantic_surfaces: BoolSet,
    pub textures: BoolSet,
    pub materials: BoolSet,
    pub count_min: Option<u64>,
    pub count_max: Option<u64>,
    pub count_total: u64,
    /// Smallest data-asset file size observed (bytes).
    pub size_min: Option<u64>,
    /// Largest data-asset file size observed (bytes).
    pub size_max: Option<u64>,
    /// Sum of all observed file sizes.
    pub size_sum: u128,
    /// Number of items that contributed a file size.
    pub size_count: u64,
}

impl View for AggregatedSummaries {
    type V = SummariesView;

    open spec fn view(&self) -> SummariesView {
        SummariesView {
            versions: view_set(self.versions@),
            lods: view_set(self.lods@),
            co_types: view_set(self.co_types@),
            proj_codes: view_set(self.proj_codes@),
            semantic_surfaces: self.semantic_surfaces@,
            textures: self.textures@,
            materials: self.materials@,
            count_min: self.count_min,
            count_max: self.count_max,
            count_total: self.count_total as int,
            size_min: self.size_min,
            size_max: self.size_max,
            size_sum: self.size_sum as int,
            size_count: self.size_count as int,
        }
    }
}

/// One more value keeps a count, minimum and maximum consistent with a sum.
proof fn lemma_range_step(c: int, lo: int, hi: int, sum: int, n: int, lo2: int, hi2: int)
    requires
        c >= 0,
        0 <= lo <= hi,
        n >= 0,
        c * lo <= sum <= c * hi,
        lo2 <= lo,
        lo2 <= n,
        hi2 >= hi,
        hi2 >= n,
        lo2 >= 0,
    ensures
        (c + 1) * lo2 <= sum + n <= (c + 1) * hi2,
{
    assert(c * lo2 <= c * lo) by (nonlinear_arith)
        requires
            c >= 0,
            lo2 <= lo,
    ;
    assert(c * hi <= c * hi2) by (nonlinear_arith)
        requires
            c >= 0,
            hi <= hi2,
    ;
    assert((c + 1) * lo2 == c * lo2 + lo2) by (nonlinear_arith);
    assert((c + 1) * hi2 == c * hi2 + hi2) by (nonlinear_arith);
}

impl AggregatedSummaries {
    /// Well-formedness: sorted distinct string sets and consistent statistics.
    pub open spec fn wf(&self) -> bool {
        &&& strictly_sorted(views(self.versions@))
        &&& strictly_sorted(views(self.lods@))
        &&& strictly_sorted(views(self.co_types@))
        &&& strictly_sorted(views(self.proj_codes@))
        &&& self@.consistent()
    }

    /// Summaries of no item.
    pub fn new() -> (r: Self)
        ensures
            r.wf(),
            r@ == empty_summaries(),
    {
        let r = AggregatedSummaries {
            versions: Vec::new(),
            lods: Vec::new(),
            co_types: Vec::new(),
            proj_codes: Vec::new(),
            semantic_surfaces: BoolSet::new(),
            textures: BoolSet::new(),
            materials: BoolSet::new(),
            count_min: None,
            count_max: None,
            count_total: 0,
            size_min: None,
            size_max: None,
            size_sum: 0,
            size_count: 0,
        };
        assert(view_set(r.versions@) =~= Set::<Seq<char>>::empty());
        r
    }

    /// Incrementally merges the metadata of one item.
    pub fn merge_item(&mut self, metadata: &ItemMetadata)
        requires
            old(self).wf(),
            can_merge(old(self)@, metadata@),
        ensures
            final(self).wf(),
            final(self)@ == merged(old(self)@, metadata@),
    {
        let ghost s0 = self@;
        insert_opt_string(&mut self.versions, &metadata.city3d_version);
        insert_opt_strings(&mut self.lods, &metadata.city3d_lods);
        insert_opt_strings(&mut self.co_types, &metadata.city3d_co_types);
        insert_opt_string(&mut self.proj_codes, &metadata.proj_code);
        insert_opt_bool(&mut self.semantic_surfaces, metadata.city3d_semantic_surfaces);
        insert_opt_bool(&mut self.textures, metadata.city3d_textures);
        insert_opt_bool(&mut self.materials, metadata.city3d_materials);
        if let Some(c) = &metadata.city3d_city_objects {
            let n = c.total();
            self.count_min = Some(min_with(self.count_min, n));
            self.count_max = Some(max_with(self.count_max, n));
            self.count_total = self.count_total + n;
        }
        if let Some(size) = metadata.file_size {
            self.size_min = Some(min_with(self.size_min, size));
            self.size_max = Some(max_with(self.size_max, size));
            self.size_sum = self.size_sum + size as u128;
            self.size_count = self.size_count + 1;
        }
        proof {
            lemma_merged_consistent(s0, metadata@);
        }
        assert(self@ == merged(s0, metadata@));
    }
}

/// The smaller of a running minimum and a new value.
fn min_with(cur: Option<u64>, n: u64) -> (r: u64)
    ensures
        r == running_min(cur, n),
{
    match cur {
        Some(m) => if m <= n { m } else { n },
        None => n,
    }
}

/// The larger of a running maximum and a new value.
fn max_with(cur: Option<u64>, n: u64) -> (r: u64)
    ensures
        r == running_max(cur, n),
{
    match cur {
        Some(m) => if m >= n { m } else { n },
        None => n,
    }
}

/// Adds an optional string to a strictly increasing vector.
fn insert_opt_string(v: &mut Vec<String>, o: &Option<String>)
    requires
        strictly_sorted(views(old(v)@)),
    ensures
        strictly_sorted(views(final(v)@)),
        view_set(final(v)@) == opt_insert(view_set(old(v)@), opt_view(*o)),
{
    if let Some(s) = o {
        insert_sorted(v, copy_string(s));
    }
}

/// Adds the strings of an optional list to a strictly increasing vector.
fn insert_opt_strings(v: &mut Vec<String>, o: &Option<Vec<String>>)
    requires
        strictly_sorted(views(old(v)@)),
    ensures
        strictly_sorted(views(final(v)@)),
        view_set(final(v)@) == view_set(old(v)@).union(opt_view_set(*o)),
{
    if let Some(src) = o {
        insert_all_sorted(v, src);
    } else {
        assert(view_set(v@).union(Set::empty()) =~= view_set(v@));
    }
}

/// Adds an optional flag value to a set of booleans.
fn insert_opt_bool(s: &mut BoolSet, o: Option<bool>)
    ensures
        final(s)@ == opt_insert(old(s)@, o),
{
    if let Some(b) = o {
        s.insert(b);
    }
}

/// Merging an item keeps the running statistics consistent.
pub proof fn lemma_merged_consistent(s: SummariesView, m: ItemView)
    requires
        s.consistent(),
        s.size_count >= 0,
        s.size_sum >= 0,
    ensures
        merged(s, m).consistent(),
{
    let t = merged(s, m);
    if let Some(n) = m.file_size {
        match s.size_min {
            Some(lo) => {
                lemma_range_step(s.size_count, lo as int, s.size_max->0 as int, s.size_sum, n as int,
                    t.size_min->0 as int, t.size_max->0 as int);
            },
            None => {
                assert(1 * (n as int) == n as int);
            },
        }
    }
}

/// Merging two items gives the same summaries in either order: the
/// summaries do not depend on the order in which items are processed.
pub proof fn law_merge_order_independent(s: SummariesView, a: ItemView, b: ItemView)
    ensures
        merged(merged(s, a), b) == merged(merged(s, b), a),
{
    let x = merged(merged(s, a), b);
    let y = merged(merged(s, b), a);
    assert(x.versions =~= y.versions);
    assert(x.lods =~= y.lods);
    assert(x.co_types =~= y.co_types);
    assert(x.proj_codes =~= y.proj_codes);
    assert(x.semantic_surfaces =~= y.semantic_surfaces);
    assert(x.textures =~= y.textures);
    assert(x.materials =~= y.materials);
}

/// Merging the same item twice changes nothing in the sets of observed
/// values, the minima and the maxima: only the totals grow.
pub proof fn law_merge_repeat_keeps_observed_values(s: SummariesView, a: ItemView)
    ensures
        merged(merged(s, a), a).versions == merged(s, a).versions,
        merged(merged(s, a), a).lods == merged(s, a).lods,
        merged(merged(s, a), a).co_types == merged(s, a).co_types,
        merged(merged(s, a), a).proj_codes == merged(s, a).proj_codes,
        merged(merged(s, a), a).semantic_surfaces == merged(s, a).semantic_surfaces,
        merged(merged(s, a), a).textures == merged(s, a).textures,
        merged(merged(s, a), a).materials == merged(s, a).materials,
        merged(merged(s, a), a).count_min == merged(s, a).count_min,
        merged(merged(s, a), a).count_max == merged(s, a).count_max,
        merged(merged(s, a), a).size_min == merged(s, a).size_min,
        merged(merged(s, a), a).size_max == merged(s, a).size_max,
{
    let x = merged(merged(s, a), a);
    let y = merged(s, a);
    assert(x.versions =~= y.versions);
    assert(x.lods =~= y.lods);
    assert(x.co_types =~= y.co_types);
    assert(x.proj_codes =~= y.proj_codes);
    assert(x.semantic_surfaces =~= y.semantic_surfaces);
    assert(x.textures =~= y.textures);
    assert(x.materials =~= y.materials);
}

/// The `file:size` collection summary: range of the observed sizes and their
/// rounded mean.
#[derive(Debug, Clone, Copy, PartialEq, Eq, Structural)]
pub struct FileSizeSummary {
    pub minimum: u64,
    pub maximum: u64,
    pub mean: u64,
}

/// The `file:size` summary of the observed sizes: none when no size was
/// observed; otherwise the minimum, the maximum and the mean
/// `sum / count` rounded half up.
pub open spec fn file_size_summary_spec(size_min: Option<u64>, size_max: Option<u64>, size_sum: int, size_count: int) -> Option<FileSizeSummary> {
    match (size_min, size_max) {
        (Some(lo), Some(hi)) => if size_count == 0 {
            None
        } else {
            Some(FileSizeSummary {
                minimum: lo,
                maximum: hi,
                mean: ((size_sum + size_count / 2) / size_count) as u64,
            })
        },
        _ => None,
    }
}

/// Builds the `file:size` summary (minimum, maximum and rounded mean) of
/// the observed data-asset sizes.
pub fn file_size_summary(size_min: Option<u64>, size_max: Option<u64>, size_sum: u128, size_count: u64) -> (r: Option<FileSizeSummary>)
    requires
        size_min is Some && size_max is Some && size_count > 0 ==> size_sum + size_count / 2 <= u128::MAX,
    ensures
        r == file_size_summary_spec(size_min, size_max, size_sum as int, size_count as int),
{
    match (size_min, size_max) {
        (Some(lo), Some(hi)) => {
            if size_count == 0 {
                return None;
            }
            let count = size_count as u128;
            let mean = ((size_sum + count / 2) / count) as u64;
            Some(FileSizeSummary { minimum: lo, maximum: hi, mean })
        },
        _ => None,
    }
}

/// The rounded mean of values between `lo` and `hi` lies between them.
proof fn lemma_rounded_mean_in_range(c: int, lo: int, hi: int, sum: int)
    requires
        c > 0,
        0 <= lo <= hi,
        c * lo <= sum <= c * hi,
    ensures
        lo <= (sum + c / 2) / c <= hi,
{
    let q = (sum + c / 2) / c;
    let r = (sum + c / 2) % c;
    assert(c / 2 < c) by (nonlinear_arith)
        requires
            c > 0,
    ;
    assert(0 <= c / 2) by (nonlinear_arith)
        requires
            c > 0,
    ;
    assert(sum + c / 2 == c * q + r && 0 <= r < c) by (nonlinear_arith)
        requires
            c > 0,
            q == (sum + c / 2) / c,
            r == (sum + c / 2) % c,
    ;
    assert(lo <= q) by (nonlinear_arith)
        requires
            c > 0,
            c * lo <= sum,
            0 <= c / 2,
            sum + c / 2 == c * q + r,
            r < c,
    ;
    assert(q <= hi) by (nonlinear_arith)
        requires
            c > 0,
            sum <= c * hi,
            c / 2 < c,
            sum + c / 2 == c * q + r,
            0 <= r,
    ;
}

/// Whenever the running statistics are consistent, the mean reported in the
/// `file:size` summary lies between its minimum and maximum, and a summary
/// exists exactly when some size was observed.
pub proof fn law_file_size_mean_in_range(s: SummariesView)
    requires
        s.consistent(),
    ensures
        file_size_summary_spec(s.size_min, s.size_max, s.size_sum, s.size_count) is Some <==> s.size_count > 0,
        file_size_summary_spec(s.size_min, s.size_max, s.size_sum, s.size_count) matches Some(f)
            ==> f.minimum <= f.mean <= f.maximum,
{
    if s.size_count > 0 {
        let lo = s.size_min->0 as int;
        let hi = s.size_max->0 as int;
        lemma_rounded_mean_in_range(s.size_count, lo, hi, s.size_sum);
    }
}

/// The summaries of a sequence of items, merged in order.
pub open spec fn summaries_of(items: Seq<ItemView>) -> SummariesView
    decreases items.len(),
{
    if items.len() == 0 {
        empty_summaries()
    } else {
        merged(summaries_of(items.drop_last()), items.last())
    }
}

/// The sum of the city object counts of a sequence of items.
pub open spec fn count_sum(items: Seq<ItemView>) -> int
    decreases items.len(),
{
    if items.len() == 0 {
        0
    } else {
        count_sum(items.drop_last()) + match items.last().count {
            Some(n) => n as int,
            None => 0,
        }
    }
}

/// The sum of the file sizes of a sequence of items.
pub open spec fn size_sum(items: Seq<ItemView>) -> int
    decreases items.len(),
{
    if items.len() == 0 {
        0
    } else {
        size_sum(items.drop_last()) + match items.last().file_size {
            Some(n) => n as int,
            None => 0,
        }
    }
}

/// The number of items of a sequence that carry a file size.
pub open spec fn size_number(items: Seq<ItemView>) -> int
    decreases items.len(),
{
    if items.len() == 0 {
        0
    } else {
        size_number(items.drop_last()) + if items.last().file_size is Some { 1int } else { 0int }
    }
}

/// The totals of a sequence of items fit their machine types.
pub open spec fn totals_fit(items: Seq<ItemView>) -> bool {
    &&& count_sum(items) <= u64::MAX
    &&& size_sum(items) <= u128::MAX
    &&& size_number(items) <= u64::MAX
}

/// The running totals of the summaries are the sums over the items, and
/// the sums only grow along a sequence.
proof fn lemma_summaries_totals(items: Seq<ItemView>, i: int)
    requires
        0 <= i <= items.len(),
    ensures
        summaries_of(items).count_total == count_sum(items),
        summaries_of(items).size_sum == size_sum(items),
        summaries_of(items).size_count == size_number(items),
        count_sum(items.take(i)) <= count_sum(items),
        size_sum(items.take(i)) <= size_sum(items),
        size_number(items.take(i)) <= size_number(items),
        count_sum(items) >= 0,
        size_sum(items) >= 0,
        size_number(items) >= 0,
    decreases items.len(),
{
    if items.len() > 0 {
        let j = if i == items.len() { i - 1 } else { i };
        lemma_summaries_totals(items.drop_last(), j);
        if i < items.len() {
            assert(items.drop_last().take(i) =~= items.take(i));
        } else {
            assert(items.take(i) =~= items);
        }
    } else {
        assert(items.take(i) =~= items);
    }
}

/// Merging a sequence of items from nothing gives consistent statistics.
pub proof fn lemma_summaries_consistent(items: Seq<ItemView>)
    ensures
        summaries_of(items).consistent(),
        summaries_of(items).size_count >= 0,
        summaries_of(items).size_sum >= 0,
    decreases items.len(),
{
    if items.len() > 0 {
        lemma_summaries_consistent(items.drop_last());
        lemma_summaries_totals(items.drop_last(), 0);
        lemma_merged_consistent(summaries_of(items.drop_last()), items.last());
        lemma_summaries_totals(items, 0);
    }
}

/// The summaries of items hold the values of the items and nothing else:
/// each version, level of detail, city object type, CRS code and flag value
/// that some item carries, and no other.
pub proof fn law_summaries_unions(items: Seq<ItemView>)
    ensures
        forall|v: Seq<char>|
            #[trigger] summaries_of(items).versions.contains(v) <==> exists|i: int|
                0 <= i < items.len() && #[trigger] items[i].version == Some(v),
        forall|l: Seq<char>|
            #[trigger] summaries_of(items).lods.contains(l) <==> exists|i: int|
                0 <= i < items.len() && #[trigger] items[i].lods.contains(l),
        forall|c: Seq<char>|
            #[trigger] summaries_of(items).co_types.contains(c) <==> exists|i: int|
                0 <= i < items.len() && #[trigger] items[i].co_types.contains(c),
        forall|p: Seq<char>|
            #[trigger] summaries_of(items).proj_codes.contains(p) <==> exists|i: int|
                0 <= i < items.len() && #[trigger] items[i].proj_code == Some(p),
        forall|b: bool|
            #[trigger] summaries_of(items).semantic_surfaces.contains(b) <==> exists|i: int|
                0 <= i < items.len() && #[trigger] items[i].semantic_surfaces == Some(b),
        forall|b: bool|
            #[trigger] summaries_of(items).textures.contains(b) <==> exists|i: int|
                0 <= i < items.len() && #[trigger] items[i].textures == Some(b),
        forall|b: bool|
            #[trigger] summaries_of(items).materials.contains(b) <==> exists|i: int|
                0 <= i < items.len() && #[trigger] items[i].materials == Some(b),
    decreases items.len(),
{
    if items.len() > 0 {
        let pre = items.drop_last();
        law_summaries_unions(pre);
        assert forall|i: int| 0 <= i < pre.len() implies pre[i] == items[i] by {}
        assert(items[items.len() - 1] == items.last());
    }
}

/// The city object statistics of items: present exactly when some item
/// has a count; then the minimum and the maximum are counts of items that
/// bound every item's count, and the total is the sum of the counts.
pub proof fn law_summaries_counts(items: Seq<ItemView>)
    ensures
        summaries_of(items).count_min is Some <==> exists|i: int|
            0 <= i < items.len() && (#[trigger] items[i]).count is Some,
        summaries_of(items).count_max is Some <==> summaries_of(items).count_min is Some,
        forall|i: int|
            0 <= i < items.len() && (#[trigger] items[i]).count is Some ==> summaries_of(items).count_min->0
                <= items[i].count->0 <= summaries_of(items).count_max->0,
        summaries_of(items).count_min matches Some(lo) ==> exists|i: int|
            0 <= i < items.len() && (#[trigger] items[i]).count == Some(lo),
        summaries_of(items).count_max matches Some(hi) ==> exists|i: int|
            0 <= i < items.len() && (#[trigger] items[i]).count == Some(hi),
        summaries_of(items).count_total == count_sum(items),
    decreases items.len(),
{
    lemma_summaries_totals(items, 0);
    if items.len() > 0 {
        let pre = items.drop_last();
        law_summaries_counts(pre);
        assert forall|i: int| 0 <= i < pre.len() implies pre[i] == items[i] by {}
        let k = items.len() - 1;
        assert(items[k] == items.last());
        let s = summaries_of(pre);
        let t = summaries_of(items);
        if let Some(lo) = t.count_min {
            if s.count_min == Some(lo) {
                let j = choose|j: int| 0 <= j < pre.len() && (#[trigger] pre[j]).count == Some(lo);
                assert(items[j] == pre[j]);
            } else {
                assert(items[k].count == Some(lo));
            }
        }
        if let Some(hi) = t.count_max {
            if s.count_max == Some(hi) {
                let j = choose|j: int| 0 <= j < pre.len() && (#[trigger] pre[j]).count == Some(hi);
                assert(items[j] == pre[j]);
            } else {
                assert(items[k].count == Some(hi));
            }
        }
        if t.count_min is Some && !(exists|i: int| 0 <= i < pre.len() && (#[trigger] pre[i]).count is Some) {
            assert(items[k].count is Some);
        }
        if exists|i: int| 0 <= i < items.len() && (#[trigger] items[i]).count is Some {
            let j = choose|j: int| 0 <= j < items.len() && (#[trigger] items[j]).count is Some;
            if j < k {
                assert(pre[j] == items[j]);
            }
        }
    }
}

/// The views of a vector of item metadata.
pub open spec fn item_views(v: Seq<ItemMetadata>) -> Seq<ItemView> {
    v.map_values(|m: ItemMetadata| m@)
}

/// Aggregates the metadata of a list of items.
pub fn aggregate_items(items: &Vec<ItemMetadata>) -> (r: AggregatedSummaries)
    requires
        totals_fit(item_views(items@)),
    ensures
        r.wf(),
        r@ == summaries_of(item_views(items@)),
{
    let ghost all = item_views(items@);
    let mut r = AggregatedSummaries::new();
    let mut i: usize = 0;
    assert(all.take(0) =~= Seq::<ItemView>::empty());
    while i < items.len()
        invariant
            i <= items.len(),
            all == item_views(items@),
            totals_fit(all),
            r.wf(),
            r@ == summaries_of(all.take(i as int)),
        decreases items.len() - i,
    {
        proof {
            let pre = all.take(i + 1);
            assert(pre.drop_last() =~= all.take(i as int));
            assert(pre.last() == items@[i as int]@);
            lemma_summaries_totals(pre, 0);
            lemma_summaries_totals(all, i + 1);
            lemma_summaries_totals(all.take(i as int), 0);
        }
        r.merge_item(&items[i]);
        proof {
            let pre = all.take(i + 1);
            assert(pre.drop_last() =~= all.take(i as int));
        }
        i = i + 1;
    }
    assert(all.take(items.len() as int) =~= all);
    r
}

/// The summary values a collection declares, in the order they are written.
pub struct CollectionSummaries {
    pub versions: Vec<String>,
    pub lods: Vec<String>,
    pub co_types: Vec<String>,
    pub city_objects: Option<CityObjectsCount>,
    pub semantic_surfaces: Vec<bool>,
    pub textures: Vec<bool>,
    pub materials: Vec<bool>,
    pub proj_codes: Vec<String>,
    pub file_size: Option<FileSizeSummary>,
}

/// The city object statistics of the summaries, when any count was seen.
pub open spec fn count_statistics(s: SummariesView) -> Option<CityObjectsCount> {
    match (s.count_min, s.count_max) {
        (Some(lo), Some(hi)) => Some(CityObjectsCount::Statistics { min: lo, max: hi, total: s.count_total as u64 }),
        _ => None,
    }
}

/// Turns pre-aggregated summaries into the values a collection declares:
/// each string set in increasing order, each flag set in increasing order,
/// the city object statistics when counts were seen, and the `file:size`
/// summary when sizes were seen.
pub fn collection_summaries(s: &AggregatedSummaries) -> (r: CollectionSummaries)
    requires
        s.wf(),
    ensures
        views(r.versions@) == views(s.versions@),
        views(r.lods@) == views(s.lods@),
        views(r.co_types@) == views(s.co_types@),
        views(r.proj_codes@) == views(s.proj_codes@),
        strictly_sorted(views(r.versions@)) && view_set(r.versions@) == s@.versions,
        strictly_sorted(views(r.lods@)) && view_set(r.lods@) == s@.lods,
        strictly_sorted(views(r.co_types@)) && view_set(r.co_types@) == s@.co_types,
        strictly_sorted(views(r.proj_codes@)) && view_set(r.proj_codes@) == s@.proj_codes,
        r.semantic_surfaces@.to_set() == s@.semantic_surfaces && bools_sorted(r.semantic_surfaces@),
        r.textures@.to_set() == s@.textures && bools_sorted(r.textures@),
        r.materials@.to_set() == s@.materials && bools_sorted(r.materials@),
        r.city_objects == count_statistics(s@),
        r.file_size == file_size_summary_spec(s.size_min, s.size_max, s.size_sum as int, s.size_count as int),
{
    let city_objects = match (s.count_min, s.count_max) {
        (Some(lo), Some(hi)) => Some(CityObjectsCount::Statistics { min: lo, max: hi, total: s.count_total }),
        _ => None,
    };
    proof {
        if s.size_count > 0 {
            let c = s.size_count as int;
            let hi = s.size_max->0 as int;
            assert(c * hi <= 0xffff_ffff_ffff_ffff * 0xffff_ffff_ffff_ffff) by (nonlinear_arith)
                requires
                    0 <= c <= 0xffff_ffff_ffff_ffff,
                    0 <= hi <= 0xffff_ffff_ffff_ffff,
            ;
        }
    }
    CollectionSummaries {
        versions: copy_strings(&s.versions),
        lods: copy_strings(&s.lods),
        co_types: copy_strings(&s.co_types),
        city_objects,
        semantic_surfaces: s.semantic_surfaces.sorted_values(),
        textures: s.textures.sorted_values(),
        materials: s.materials.sorted_values(),
        proj_codes: copy_strings(&s.proj_codes),
        file_size: file_size_summary(s.size_min, s.size_max, s.size_sum, s.size_count),
    }
}

/// Accumulates metadata from many items for collection generation: the
/// summaries, a bounded list of item links, and the per-item errors.
pub struct CollectionAccumulator {
    pub summaries: AggregatedSummaries,
    pub item_links: Vec<(String, Option<String>)>,
    pub errors: Vec<(String, String)>,
    pub max_item_links: Option<usize>,
    pub omitted_item_links: usize,
    pub item_count: usize,
}

/// What a collection accumulator shows: the summaries, the kept item
/// links, how many links were left out, and how many items were added.
pub struct AccumulatorView {
    pub summaries: SummariesView,
    pub item_links: Seq<(String, Option<String>)>,
    pub omitted: nat,
    pub count: nat,
}

impl CollectionAccumulator {
    /// The observable content of the accumulator.
    pub open spec fn acc_view(&self) -> AccumulatorView {
        AccumulatorView {
            summaries: self.summaries@,
            item_links: self.item_links@,
            omitted: self.omitted_item_links as nat,
            count: self.item_count as nat,
        }
    }
}

/// One item added: its metadata merged into the summaries, its link kept
/// while fewer than `limit` links are kept and counted as left out after.
pub open spec fn add_step(
    a: AccumulatorView,
    limit: Option<usize>,
    m: ItemView,
    link: (String, Option<String>),
) -> AccumulatorView {
    if limit matches Some(l) && a.item_links.len() >= l {
        AccumulatorView { summaries: merged(a.summaries, m), omitted: a.omitted + 1, count: a.count + 1, ..a }
    } else {
        AccumulatorView {
            summaries: merged(a.summaries, m),
            item_links: a.item_links.push(link),
            count: a.count + 1,
            ..a
        }
    }
}

/// A fresh accumulator.
pub open spec fn empty_accumulator() -> AccumulatorView {
    AccumulatorView { summaries: empty_summaries(), item_links: seq![], omitted: 0, count: 0 }
}

/// The accumulator after adding the items of `calls` in order (metadata and
/// link of each) to a fresh one.
pub open spec fn run_adds(limit: Option<usize>, calls: Seq<(ItemView, (String, Option<String>))>) -> AccumulatorView
    decreases calls.len(),
{
    if calls.len() == 0 {
        empty_accumulator()
    } else {
        add_step(run_adds(limit, calls.drop_last()), limit, calls.last().0, calls.last().1)
    }
}

/// How many of `n` links a limit keeps.
pub open spec fn kept_count(n: nat, limit: Option<usize>) -> nat {
    match limit {
        Some(l) => if (l as nat) < n { l as nat } else { n },
        None => n,
    }
}

/// Adding `n` items to a fresh accumulator, in order, gives the summaries
/// of all `n` items, keeps the links of the first `min(n, limit)` items in
/// call order, counts the others as left out, and counts `n` items.
pub proof fn law_accumulator_sequence(limit: Option<usize>, calls: Seq<(ItemView, (String, Option<String>))>)
    ensures
        run_adds(limit, calls) == (AccumulatorView {
            summaries: summaries_of(calls.map_values(|c: (ItemView, (String, Option<String>))| c.0)),
            item_links: calls.map_values(|c: (ItemView, (String, Option<String>))| c.1).take(
                kept_count(calls.len(), limit) as int,
            ),
            omitted: (calls.len() - kept_count(calls.len(), limit)) as nat,
            count: calls.len(),
        }),
    decreases calls.len(),
{
    let ms = calls.map_values(|c: (ItemView, (String, Option<String>))| c.0);
    let ls = calls.map_values(|c: (ItemView, (String, Option<String>))| c.1);
    if calls.len() == 0 {
        assert(ls.take(0) =~= Seq::<(String, Option<String>)>::empty());
    } else {
        let pre = calls.drop_last();
        law_accumulator_sequence(limit, pre);
        let pms = pre.map_values(|c: (ItemView, (String, Option<String>))| c.0);
        let pls = pre.map_values(|c: (ItemView, (String, Option<String>))| c.1);
        assert(ms.drop_last() =~= pms);
        assert(ms.last() == calls.last().0);
        let n = calls.len();
        let k = kept_count((n - 1) as nat, limit);
        assert(pls =~= ls.drop_last());
        if limit matches Some(l) && k >= l {
            assert(pls.take(k as int) =~= ls.take(kept_count(n, limit) as int));
        } else {
            assert(pls.take(k as int).push(calls.last().1) =~= ls.take(kept_count(n, limit) as int));
        }
    }
}

impl CollectionAccumulator {
    /// The most item links kept (`None`: no limit).
    pub open spec fn link_limit(&self) -> Option<usize> {
        self.max_item_links
    }

    /// The number of items whose link was left out.
    pub open spec fn omitted_spec(&self) -> nat {
        self.omitted_item_links as nat
    }

    /// The number of items added.
    pub open spec fn count_spec(&self) -> nat {
        self.item_count as nat
    }

    /// Every added item has either its link kept or counted as omitted, and
    /// no more links are kept than the limit allows.
    pub open spec fn wf(&self) -> bool {
        &&& self.summaries.wf()
        &&& self.item_links.len() + self.omitted_spec() == self.count_spec()
        &&& (self.link_limit() matches Some(limit) ==> self.item_links.len() <= limit)
    }

    /// An empty accumulator that keeps at most `max_item_links` item links.
    pub fn new(max_item_links: Option<usize>) -> (r: Self)
        ensures
            r.wf(),
            r.link_limit() == max_item_links,
            r.summaries@ == empty_summaries(),
            r.item_links@.len() == 0,
            r.errors@.len() == 0,
            r.count_spec() == 0,
            r.omitted_spec() == 0,
            r.acc_view() == empty_accumulator(),
    {
        CollectionAccumulator {
            summaries: AggregatedSummaries::new(),
            item_links: Vec::new(),
            errors: Vec::new(),
            max_item_links,
            omitted_item_links: 0,
            item_count: 0,
        }
    }

    /// Adds one processed item: its metadata joins the summaries, and its
    /// link is kept while the limit allows, otherwise counted as omitted.
    pub fn add_item(&mut self, metadata: ItemMetadata, href: String, title: Option<String>)
        requires
            old(self).wf(),
            can_merge(old(self).summaries@, metadata@),
            old(self).count_spec() < usize::MAX,
        ensures
            final(self).wf(),
            final(self).summaries@ == merged(old(self).summaries@, metadata@),
            final(self).link_limit() == old(self).link_limit(),
            final(self).errors@ == old(self).errors@,
            final(self).count_spec() == old(self).count_spec() + 1,
            final(self).acc_view() == add_step(old(self).acc_view(), old(self).link_limit(), metadata@, (href, title)),
            (old(self).link_limit() matches Some(limit) && old(self).item_links.len() >= limit) ==> {
                &&& final(self).item_links@ == old(self).item_links@
                &&& final(self).omitted_spec() == old(self).omitted_spec() + 1
            },
            !(old(self).link_limit() matches Some(limit) && old(self).item_links.len() >= limit) ==> {
                &&& final(self).item_links@ == old(self).item_links@.push((href, title))
                &&& final(self).omitted_spec() == old(self).omitted_spec()
            },
    {
        self.summaries.merge_item(&metadata);
        let keep = match self.max_item_links {
            Some(limit) => self.item_links.len() < limit,
            None => true,
        };
        if keep {
            self.item_links.push((href, title));
        } else {
            self.omitted_item_links = self.omitted_item_links + 1;
        }
        self.item_count = self.item_count + 1;
    }

    /// Whether one more item fits the accumulator's counters: its object
    /// count and file size keep the running totals within their machine
    /// types, and the item count stays below `usize::MAX`.
    pub fn accepts(&self, metadata: &ItemMetadata) -> (r: bool)
        ensures
            r == (can_merge(self.summaries@, metadata@) && self.count_spec() < usize::MAX),
    {
        if self.item_count == usize::MAX {
            return false;
        }
        let count_fits = match &metadata.city3d_city_objects {
            Some(c) => self.summaries.count_total.checked_add(c.total()).is_some(),
            None => true,
        };
        let size_fits = match metadata.file_size {
            Some(n) => self.summaries.size_sum.checked_add(n as u128).is_some()
                && self.summaries.size_count < u64::MAX,
            None => true,
        };
        count_fits && size_fits
    }

    /// Records an input that could not be processed.
    pub fn add_error(&mut self, source: String, error: String)
        ensures
            final(self).errors@ == old(self).errors@.push((source, error)),
            final(self).summaries@ == old(self).summaries@,
            final(self).item_links@ == old(self).item_links@,
            final(self).link_limit() == old(self).link_limit(),
            final(self).count_spec() == old(self).count_spec(),
            final(self).omitted_spec() == old(self).omitted_spec(),
            old(self).wf() ==> final(self).wf(),
    {
        self.errors.push((source, error));
    }

    /// Whether some input could not be processed.
    pub fn has_errors(&self) -> (r: bool)
        ensures
            r == (self.errors@.len() > 0),
    {
        self.errors.len() > 0
    }

    /// The number of items added.
    pub fn successful_count(&self) -> (r: usize)
        ensures
            r == self.count_spec(),
    {
        self.item_count
    }

    /// The number of recorded errors.
    pub fn error_count(&self) -> (r: usize)
        ensures
            r == self.errors@.len(),
    {
        self.errors.len()
    }

    /// The number of items whose link was left out because of the limit.
    pub fn omitted_item_links(&self) -> (r: usize)
        ensures
            r == self.omitted_spec(),
    {
        self.omitted_item_links
    }
}

/// What one dataset reader answered; `None` where the reader failed.
pub struct ReaderReport {
    pub version: Option<String>,
    pub lods: Option<Vec<String>>,
    pub city_object_types: Option<Vec<String>>,
    pub city_object_count: Option<usize>,
    pub semantic_surfaces: Option<bool>,
    pub textures: Option<bool>,
    pub materials: Option<bool>,
    pub crs: Option<CRS>,
    pub attributes: Option<Vec<AttributeDefinition>>,
}

/// The `proj:code` of an optional CRS.
pub open spec fn proj_code_of(crs: Option<CRS>) -> Option<Seq<char>> {
    match crs {
        Some(c) => match c.epsg {
            Some(code) => Some("EPSG:"@ + crate::text::decimal(code as nat)),
            None => None,
        },
        None => None,
    }
}

impl View for ReaderReport {
    type V = ItemView;

    open spec fn view(&self) -> ItemView {
        ItemView {
            version: opt_view(self.version),
            lods: opt_view_set(self.lods),
            co_types: opt_view_set(self.city_object_types),
            proj_code: proj_code_of(self.crs),
            semantic_surfaces: self.semantic_surfaces,
            textures: self.textures,
            materials: self.materials,
            count: match self.city_object_count {
                Some(n) => Some(n as u64),
                None => None,
            },
            file_size: None,
        }
    }
}

/// The views of a vector of reader reports.
pub open spec fn report_views(v: Seq<ReaderReport>) -> Seq<ItemView> {
    v.map_values(|r: ReaderReport| r@)
}

/// A copy of an optional list of strings.
fn copy_opt_strings(o: &Option<Vec<String>>) -> (r: Option<Vec<String>>)
    ensures
        opt_view_set(r) == opt_view_set(*o),
{
    match o {
        Some(v) => {
            let c = copy_strings(v);
            assert(view_set(c@) == view_set(v@));
            Some(c)
        },
        None => None,
    }
}

impl ReaderReport {
    /// The item record this report contributes to the summaries.
    pub fn to_item_metadata(&self) -> (r: ItemMetadata)
        ensures
            r@ == self@,
    {
        let proj_code = match &self.crs {
            Some(c) => c.to_stac_proj_code(),
            None => None,
        };
        let count = match self.city_object_count {
            Some(n) => Some(CityObjectsCount::Integer(n as u64)),
            None => None,
        };
        ItemMetadata {
            id: String::new(),
            city3d_version: copy_opt_string(&self.version),
            city3d_city_objects: count,
            city3d_lods: copy_opt_strings(&self.lods),
            city3d_co_types: copy_opt_strings(&self.city_object_types),
            city3d_attributes: None,
            city3d_semantic_surfaces: self.semantic_surfaces,
            city3d_textures: self.textures,
            city3d_materials: self.materials,
            proj_code,
            file_size: None,
        }
    }
}

/// Aggregates what the readers of a collection's datasets reported: the
/// distinct versions, levels of detail, object types, flags and projection
/// codes, and the statistics of the object counts. Failed answers are left
/// out.
pub fn aggregate_reader_reports(reports: &Vec<ReaderReport>) -> (r: AggregatedSummaries)
    requires
        totals_fit(report_views(reports@)),
    ensures
        r.wf(),
        r@ == summaries_of(report_views(reports@)),
{
    let mut items: Vec<ItemMetadata> = Vec::new();
    let mut i: usize = 0;
    while i < reports.len()
        invariant
            i <= reports.len(),
            item_views(items@) == report_views(reports@).take(i as int),
        decreases reports.len() - i,
    {
        let m = reports[i].to_item_metadata();
        let ghost before = items@;
        items.push(m);
        assert(item_views(items@) =~= item_views(before).push(m@));
        assert(report_views(reports@).take(i + 1) =~= report_views(reports@).take(i as int).push(reports@[i as int]@));
        i = i + 1;
    }
    assert(report_views(reports@).take(reports.len() as int) =~= report_views(reports@));
    aggregate_items(&items)
}

} // verus!
