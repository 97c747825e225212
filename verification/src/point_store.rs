//! The point-value store: one address-indexed cache of latest-known
//! values per information-point category.
//!
//! Six structurally identical tables, one per category, each indexed by
//! the 16-bit information-object address.  Cells start unset, are only
//! ever overwritten by inbound updates (last write wins) and are never
//! removed.  Callers that need concurrent access wrap each table in its
//! own lock; the store itself is plain data, so independent categories
//! never contend.

use vstd::prelude::*;
use vstd::string::StrSliceExecFns;
use crate::errors::ConfigError;
use crate::format_spec::Functions;
use crate::literals::is_digit_seq;
use crate::literals::radix_value;
use crate::literals::spec_signed_literal;
use crate::literals::parse_bool_literal;
use crate::literals::parse_i16_literal;
use crate::literals::parse_i32_literal;

verus! {

/// How many cells one table holds: one per 16-bit address.
pub const TABLE_SIZE: usize = 65536;

/// One address-indexed table of latest-known point values.
pub struct PointTable<V> {
    cells: Vec<Option<V>>,
}

impl<V> PointTable<V> {
    /// The table's contents, one optional value per address.
    pub closed spec fn view(&self) -> Seq<Option<V>> {
        self.cells@
    }

    /// A table is well formed when it holds exactly one cell per
    /// 16-bit address.
    pub open spec fn wf(&self) -> bool {
        self.view().len() == TABLE_SIZE
    }

    /// A fresh table with every cell unset.
    pub fn new() -> (t: PointTable<V>)
        ensures
            t.wf(),
            forall|a: int| 0 <= a < TABLE_SIZE ==> t.view()[a] is None,
    {
        let mut cells: Vec<Option<V>> = Vec::new();
        let mut i: usize = 0;
        while i < TABLE_SIZE
            invariant
                i == cells@.len(),
                i <= TABLE_SIZE,
                forall|a: int| 0 <= a < i ==> cells@[a] is None,
            decreases TABLE_SIZE - i,
        {
            cells.push(None);
            i = i + 1;
        }
        PointTable { cells }
    }

    /// Overwrite the cell at `addr` with `v`, unconditionally.
    pub fn update(&mut self, addr: u16, v: V)
        requires
            old(self).wf(),
        ensures
            final(self).wf(),
            final(self).view() == old(self).view().update(addr as int, Some(v)),
    {
        self.cells.set(addr as usize, Some(v));
    }

}

/// The populated cells among the first `n` addresses, in ascending
/// address order, each paired with its address.
pub open spec fn populated_prefix<V>(cells: Seq<Option<V>>, n: int) -> Seq<(u16, V)>
    decreases n,
{
    if n <= 0 {
        Seq::empty()
    } else {
        let rest = populated_prefix(cells, n - 1);
        match cells[n - 1] {
            Some(v) => rest.push(((n - 1) as u16, v)),
            None => rest,
        }
    }
}

impl<V: Copy> PointTable<V> {
    /// The cell at `addr`: the latest value written there, or unset.
    pub fn read(&self, addr: u16) -> (r: Option<V>)
        requires
            self.wf(),
        ensures
            r == self.view()[addr as int],
    {
        self.cells[addr as usize]
    }

    /// Every populated cell of the table, in ascending address order.
    pub fn read_all_populated(&self) -> (r: Vec<(u16, V)>)
        requires
            self.wf(),
        ensures
            r@ == populated_prefix(self.view(), TABLE_SIZE as int),
    {
        let mut out: Vec<(u16, V)> = Vec::new();
        let mut i: usize = 0;
        while i < TABLE_SIZE
            invariant
                self.wf(),
                i <= TABLE_SIZE,
                out@ == populated_prefix(self.view(), i as int),
            decreases TABLE_SIZE - i,
        {
            match self.cells[i] {
                Some(v) => {
                    out.push((i as u16, v));
                },
                None => {},
            }
            i = i + 1;
        }
        out
    }
}

/// What the all-points scan means: every listed pair reads back from
/// its cell, the addresses come out strictly ascending, and every
/// populated cell among the first `n` addresses is listed.
pub proof fn lemma_populated_prefix_sound<V>(cells: Seq<Option<V>>, n: int)
    requires
        0 <= n <= cells.len(),
        n <= 0x10000,
    ensures
        ({
            let r = populated_prefix(cells, n);
            &&& forall|i: int|
                0 <= i < r.len() ==> 0 <= (#[trigger] r[i]).0 < n && cells[r[i].0 as int] == Some(
                    r[i].1,
                )
            &&& forall|i: int, j: int| 0 <= i < j < r.len() ==> (#[trigger] r[i]).0 < (
            #[trigger] r[j]).0
            &&& forall|a: int|
                0 <= a < n && (#[trigger] cells[a]) is Some ==> exists|i: int|
                    0 <= i < r.len() && (#[trigger] r[i]).0 == a
        }),
    decreases n,
{
    if n > 0 {
        lemma_populated_prefix_sound(cells, n - 1);
        let prev = populated_prefix(cells, n - 1);
        let r = populated_prefix(cells, n);
        match cells[n - 1] {
            Some(v) => {
                assert(r == prev.push((((n - 1) as u16), v)));
                assert(r[r.len() - 1] == (((n - 1) as u16), v));
                assert(forall|i: int| 0 <= i < prev.len() ==> r[i] == prev[i]);
                assert forall|a: int|
                    0 <= a < n && (#[trigger] cells[a]) is Some implies exists|i: int|
                        0 <= i < r.len() && (#[trigger] r[i]).0 == a by {
                    if a == n - 1 {
                        assert(0 <= r.len() - 1 < r.len() && (r[r.len() - 1]).0 == a);
                    } else {
                        let i = choose|i: int|
                            0 <= i < prev.len() && (#[trigger] prev[i]).0 == a;
                        assert(0 <= i < r.len() && (r[i]).0 == a);
                    }
                }
            },
            None => {
                assert(r == prev);
            },
        }
    }
}

/// The six information-point categories of the event-driven protocol.
#[derive(Clone, Copy, Debug, PartialEq, Eq, Structural)]
pub enum PointCategory {
    /// Single-point information: a boolean.
    Siq,
    /// Double-point information: a 2-bit code, 0 to 3.
    Diq,
    /// Measured value, normalized: a signed 16-bit number.
    Nva,
    /// Measured value, scaled: a signed 16-bit number.
    Sva,
    /// Measured value, short float: an IEEE-754 bit pattern.
    R,
    /// Binary counter reading: a signed 32-bit total.
    Bcr,
}

/// A typed point value, tagged with its category.
#[derive(Clone, Copy, Debug, PartialEq, Eq, Structural)]
pub enum PointValue {
    Siq(bool),
    Diq(u8),
    Nva(i16),
    Sva(i16),
    /// The IEEE-754 bit pattern of the float value.
    R(u32),
    Bcr(i32),
}

/// The category a point value belongs to.
pub open spec fn spec_category_of(v: PointValue) -> PointCategory {
    match v {
        PointValue::Siq(_) => PointCategory::Siq,
        PointValue::Diq(_) => PointCategory::Diq,
        PointValue::Nva(_) => PointCategory::Nva,
        PointValue::Sva(_) => PointCategory::Sva,
        PointValue::R(_) => PointCategory::R,
        PointValue::Bcr(_) => PointCategory::Bcr,
    }
}

/// The category a point value belongs to.
pub fn category_of(v: &PointValue) -> (r: PointCategory)
    ensures
        r == spec_category_of(*v),
{
    match v {
        PointValue::Siq(_) => PointCategory::Siq,
        PointValue::Diq(_) => PointCategory::Diq,
        PointValue::Nva(_) => PointCategory::Nva,
        PointValue::Sva(_) => PointCategory::Sva,
        PointValue::R(_) => PointCategory::R,
        PointValue::Bcr(_) => PointCategory::Bcr,
    }
}

/// The mathematical contents of a whole store: one table of optional
/// values per category.
pub struct StoreContents {
    pub siq: Seq<Option<bool>>,
    pub diq: Seq<Option<u8>>,
    pub nva: Seq<Option<i16>>,
    pub sva: Seq<Option<i16>>,
    pub r: Seq<Option<u32>>,
    pub bcr: Seq<Option<i32>>,
}

/// The contents after one inbound update lands: the addressed cell of
/// the value's category is overwritten, every other cell survives.
pub open spec fn apply_one(sv: StoreContents, addr: u16, v: PointValue) -> StoreContents {
    match v {
        PointValue::Siq(b) => StoreContents { siq: sv.siq.update(addr as int, Some(b)), ..sv },
        PointValue::Diq(d) => StoreContents { diq: sv.diq.update(addr as int, Some(d)), ..sv },
        PointValue::Nva(x) => StoreContents { nva: sv.nva.update(addr as int, Some(x)), ..sv },
        PointValue::Sva(x) => StoreContents { sva: sv.sva.update(addr as int, Some(x)), ..sv },
        PointValue::R(b) => StoreContents { r: sv.r.update(addr as int, Some(b)), ..sv },
        PointValue::Bcr(x) => StoreContents { bcr: sv.bcr.update(addr as int, Some(x)), ..sv },
    }
}

/// The contents after a whole batch of inbound updates lands, in order
/// (last write wins).
pub open spec fn apply_batch(sv: StoreContents, pts: Seq<(u16, PointValue)>) -> StoreContents
    decreases pts.len(),
{
    if pts.len() == 0 {
        sv
    } else {
        apply_one(apply_batch(sv, pts.drop_last()), pts.last().0, pts.last().1)
    }
}

/// Whether the contents have the store's shape: one cell per 16-bit
/// address in every category.
pub open spec fn contents_wf(sv: StoreContents) -> bool {
    sv.siq.len() == TABLE_SIZE && sv.diq.len() == TABLE_SIZE && sv.nva.len() == TABLE_SIZE
        && sv.sva.len() == TABLE_SIZE && sv.r.len() == TABLE_SIZE && sv.bcr.len() == TABLE_SIZE
}

/// Entries are never removed: whatever inbound traffic arrives, a cell
/// that holds a value keeps holding one — updates only overwrite.
pub proof fn lemma_batch_never_unsets(sv: StoreContents, pts: Seq<(u16, PointValue)>, a: int)
    requires
        contents_wf(sv),
        0 <= a < TABLE_SIZE,
    ensures
        sv.siq[a] is Some ==> apply_batch(sv, pts).siq[a] is Some,
        sv.diq[a] is Some ==> apply_batch(sv, pts).diq[a] is Some,
        sv.nva[a] is Some ==> apply_batch(sv, pts).nva[a] is Some,
        sv.sva[a] is Some ==> apply_batch(sv, pts).sva[a] is Some,
        sv.r[a] is Some ==> apply_batch(sv, pts).r[a] is Some,
        sv.bcr[a] is Some ==> apply_batch(sv, pts).bcr[a] is Some,
        contents_wf(apply_batch(sv, pts)),
    decreases pts.len(),
{
    if pts.len() > 0 {
        lemma_batch_never_unsets(sv, pts.drop_last(), a);
    }
}

/// The six per-category caches of latest-known point values.
pub struct PointStore {
    pub siq: PointTable<bool>,
    pub diq: PointTable<u8>,
    pub nva: PointTable<i16>,
    pub sva: PointTable<i16>,
    pub r: PointTable<u32>,
    pub bcr: PointTable<i32>,
}

impl PointStore {
    /// The store's mathematical contents.
    pub open spec fn contents(&self) -> StoreContents {
        StoreContents {
            siq: self.siq.view(),
            diq: self.diq.view(),
            nva: self.nva.view(),
            sva: self.sva.view(),
            r: self.r.view(),
            bcr: self.bcr.view(),
        }
    }

    /// All six tables carry one cell per 16-bit address.
    pub open spec fn wf(&self) -> bool {
        self.siq.wf() && self.diq.wf() && self.nva.wf() && self.sva.wf() && self.r.wf()
            && self.bcr.wf()
    }

    /// A fresh store with every cell of every category unset.
    pub fn new() -> (s: PointStore)
        ensures
            s.wf(),
            forall|a: int| 0 <= a < TABLE_SIZE ==> s.contents().siq[a] is None,
            forall|a: int| 0 <= a < TABLE_SIZE ==> s.contents().diq[a] is None,
            forall|a: int| 0 <= a < TABLE_SIZE ==> s.contents().nva[a] is None,
            forall|a: int| 0 <= a < TABLE_SIZE ==> s.contents().sva[a] is None,
            forall|a: int| 0 <= a < TABLE_SIZE ==> s.contents().r[a] is None,
            forall|a: int| 0 <= a < TABLE_SIZE ==> s.contents().bcr[a] is None,
    {
        PointStore {
            siq: PointTable::new(),
            diq: PointTable::new(),
            nva: PointTable::new(),
            sva: PointTable::new(),
            r: PointTable::new(),
            bcr: PointTable::new(),
        }
    }

    /// Land one inbound update: overwrite the addressed cell of the
    /// value's own category and touch nothing else.
    pub fn update(&mut self, addr: u16, v: PointValue)
        requires
            old(self).wf(),
        ensures
            final(self).wf(),
            final(self).contents() == apply_one(old(self).contents(), addr, v),
    {
        match v {
            PointValue::Siq(b) => self.siq.update(addr, b),
            PointValue::Diq(d) => self.diq.update(addr, d),
            PointValue::Nva(x) => self.nva.update(addr, x),
            PointValue::Sva(x) => self.sva.update(addr, x),
            PointValue::R(b) => self.r.update(addr, b),
            PointValue::Bcr(x) => self.bcr.update(addr, x),
        }
    }

    /// The latest value cached for `addr` in `category`, or unset.
    pub fn read(&self, category: PointCategory, addr: u16) -> (r: Option<PointValue>)
        requires
            self.wf(),
        ensures
            r == match category {
                PointCategory::Siq => match self.contents().siq[addr as int] {
                    Some(b) => Some(PointValue::Siq(b)),
                    None => None::<PointValue>,
                },
                PointCategory::Diq => match self.contents().diq[addr as int] {
                    Some(d) => Some(PointValue::Diq(d)),
                    None => None::<PointValue>,
                },
                PointCategory::Nva => match self.contents().nva[addr as int] {
                    Some(x) => Some(PointValue::Nva(x)),
                    None => None::<PointValue>,
                },
                PointCategory::Sva => match self.contents().sva[addr as int] {
                    Some(x) => Some(PointValue::Sva(x)),
                    None => None::<PointValue>,
                },
                PointCategory::R => match self.contents().r[addr as int] {
                    Some(b) => Some(PointValue::R(b)),
                    None => None::<PointValue>,
                },
                PointCategory::Bcr => match self.contents().bcr[addr as int] {
                    Some(x) => Some(PointValue::Bcr(x)),
                    None => None::<PointValue>,
                },
            },
    {
        match category {
            PointCategory::Siq => match self.siq.read(addr) {
                Some(b) => Some(PointValue::Siq(b)),
                None => None,
            },
            PointCategory::Diq => match self.diq.read(addr) {
                Some(d) => Some(PointValue::Diq(d)),
                None => None,
            },
            PointCategory::Nva => match self.nva.read(addr) {
                Some(x) => Some(PointValue::Nva(x)),
                None => None,
            },
            PointCategory::Sva => match self.sva.read(addr) {
                Some(x) => Some(PointValue::Sva(x)),
                None => None,
            },
            PointCategory::R => match self.r.read(addr) {
                Some(b) => Some(PointValue::R(b)),
                None => None,
            },
            PointCategory::Bcr => match self.bcr.read(addr) {
                Some(x) => Some(PointValue::Bcr(x)),
                None => None,
            },
        }
    }

    /// Land a whole decoded application-layer unit: every carried point
    /// overwrites its cell, in order, last write winning.
    pub fn apply_inbound_batch(&mut self, points: &Vec<(u16, PointValue)>)
        requires
            old(self).wf(),
        ensures
            final(self).wf(),
            final(self).contents() == apply_batch(old(self).contents(), points@),
    {
        let n = points.len();
        let mut i: usize = 0;
        while i < n
            invariant
                self.wf(),
                i <= n,
                n == points@.len(),
                self.contents() == apply_batch(old(self).contents(), points@.take(i as int)),
            decreases n - i,
        {
            let (addr, v) = points[i];
            self.update(addr, v);
            proof {
                let taken = points@.take(i + 1);
                assert(taken.drop_last() =~= points@.take(i as int));
                assert(taken.last() == points@[i as int]);
            }
            i = i + 1;
        }
        proof {
            assert(points@.take(n as int) =~= points@);
        }
    }
}

/// The point value a write literal denotes under an event-driven
/// category: a boolean token for single points, a decimal 2-bit code
/// for double points, a signed 16-bit number for the normalized and
/// scaled values, and a signed 32-bit number for binary counters.
/// Short-float literals are not parsed here: they are floating point,
/// and their bit patterns enter through `build_float_point_writes`.
pub open spec fn spec_point_value_of(f: Functions, lit: Seq<char>) -> Option<PointValue> {
    match f {
        Functions::Siq => if lit == "true"@ {
            Some(PointValue::Siq(true))
        } else if lit == "false"@ {
            Some(PointValue::Siq(false))
        } else {
            None
        },
        Functions::Diq => if is_digit_seq(lit, 10) && radix_value(lit, 10) <= 3 {
            Some(PointValue::Diq(radix_value(lit, 10) as u8))
        } else {
            None
        },
        Functions::Nva => match spec_signed_literal(lit) {
            Some(v) => if -0x8000 <= v <= 0x7FFF {
                Some(PointValue::Nva(v as i16))
            } else {
                None
            },
            None => None,
        },
        Functions::Sva => match spec_signed_literal(lit) {
            Some(v) => if -0x8000 <= v <= 0x7FFF {
                Some(PointValue::Sva(v as i16))
            } else {
                None
            },
            None => None,
        },
        Functions::Bcr => match spec_signed_literal(lit) {
            Some(v) => if -0x8000_0000 <= v <= 0x7FFF_FFFF {
                Some(PointValue::Bcr(v as i32))
            } else {
                None
            },
            None => None,
        },
        _ => None,
    }
}

/// The point value a write literal denotes (see `spec_point_value_of`).
fn point_value_of(f: Functions, lit: &str) -> (r: Option<PointValue>)
    requires
        f is Siq || f is Diq || f is Nva || f is Sva || f is Bcr,
    ensures
        r == spec_point_value_of(f, lit@),
{
    match f {
        Functions::Siq => match parse_bool_literal(lit) {
            Some(b) => Some(PointValue::Siq(b)),
            None => None,
        },
        Functions::Diq => {
            let n = lit.unicode_len();
            proof {
                assert(lit@.subrange(0, lit@.len() as int) =~= lit@);
            }
            match crate::literals::parse_dec_range(lit, 0, n, 3) {
                Some(v) => Some(PointValue::Diq(v as u8)),
                None => None,
            }
        },
        Functions::Nva => match parse_i16_literal(lit) {
            Some(v) => Some(PointValue::Nva(v)),
            None => None,
        },
        Functions::Sva => match parse_i16_literal(lit) {
            Some(v) => Some(PointValue::Sva(v)),
            None => None,
        },
        _ => match parse_i32_literal(lit) {
            Some(v) => Some(PointValue::Bcr(v)),
            None => None,
        },
    }
}

/// Validate and plan the point writes of one event-driven write run:
/// literal `i` goes to information-object address `start + i`.  A
/// literal that does not parse under the category aborts the whole
/// plan before anything is sent.
pub fn build_point_writes(f: Functions, literals: &Vec<String>, start: u16) -> (r: Result<
    Vec<(u16, PointValue)>,
    ConfigError,
>)
    requires
        f is Siq || f is Diq || f is Nva || f is Sva || f is Bcr,
        start + literals@.len() <= 0x10000,
    ensures
        match r {
            Ok(v) => v@.len() == literals@.len() && forall|i: int|
                0 <= i < v@.len() ==> v@[i].0 == start + i && Some(v@[i].1)
                    == spec_point_value_of(f, literals@[i]@),
            Err(e) => e == ConfigError::InvalidLiteral && exists|i: int|
                0 <= i < literals@.len() && spec_point_value_of(f, #[trigger] literals@[i]@)
                    is None,
        },
{
    let n = literals.len();
    let mut out: Vec<(u16, PointValue)> = Vec::new();
    let mut i: usize = 0;
    while i < n
        invariant
            f is Siq || f is Diq || f is Nva || f is Sva || f is Bcr,
            n == literals@.len(),
            start + n <= 0x10000,
            i <= n,
            out@.len() == i,
            forall|k: int|
                0 <= k < i ==> out@[k].0 == start + k && Some(out@[k].1) == spec_point_value_of(
                    f,
                    literals@[k]@,
                ),
        decreases n - i,
    {
        match point_value_of(f, literals[i].as_str()) {
            Some(v) => {
                out.push(((start as usize + i) as u16, v));
            },
            None => {
                return Err(ConfigError::InvalidLiteral);
            },
        }
        i = i + 1;
    }
    Ok(out)
}

/// The addresses one event-driven read pass displays: for each
/// configured starting reference, `count` consecutive addresses,
/// advancing by one.
pub fn plan_point_reads(references: &Vec<u16>, count: u16) -> (r: Vec<u16>)
    requires
        forall|i: int| 0 <= i < references@.len() ==> references@[i] + count <= 0x10000,
    ensures
        r@.len() == references@.len() * count,
        forall|i: int, j: int|
            #![trigger r@[i * count + j]]
            0 <= i < references@.len() && 0 <= j < count ==> r@[i * count + j] == references@[i]
                + j,
{
    let n = references.len();
    let m = count as usize;
    let mut out: Vec<u16> = Vec::new();
    let mut i: usize = 0;
    while i < n
        invariant
            n == references@.len(),
            m == count,
            forall|x: int| 0 <= x < n ==> references@[x] + count <= 0x10000,
            i <= n,
            out@.len() == i * m,
            forall|idx: int|
                0 <= idx < out@.len() ==> out@[idx] == references@[idx / (m as int)] + (idx % (
                m as int)),
        decreases n - i,
    {
        let base = references[i];
        let mut j: usize = 0;
        while j < m
            invariant
                n == references@.len(),
                m == count,
                i < n,
                base == references@[i as int],
                base + count <= 0x10000,
                j <= m,
                out@.len() == i * m + j,
                forall|idx: int|
                    0 <= idx < out@.len() ==> out@[idx] == references@[idx / (m as int)] + (idx % (
                    m as int)),
            decreases m - j,
        {
            out.push(base + j as u16);
            proof {
                vstd::arithmetic::div_mod::lemma_fundamental_div_mod_converse(
                    i * (m as int) + j,
                    m as int,
                    i as int,
                    j as int,
                );
            }
            j = j + 1;
        }
        proof {
            vstd::arithmetic::mul::lemma_mul_is_distributive_add_other_way(m as int, i as int, 1);
        }
        i = i + 1;
    }
    proof {
        assert forall|a: int, b: int|
            #![trigger out@[a * (count as int) + b]]
            0 <= a < references@.len() && 0 <= b < count implies out@[a * (count as int) + b]
            == references@[a] + b by {
            let mm = count as int;
            vstd::arithmetic::mul::lemma_mul_is_distributive_add_other_way(mm, a, 1);
            vstd::arithmetic::mul::lemma_mul_inequality(a + 1, references@.len() as int, mm);
            vstd::arithmetic::div_mod::lemma_fundamental_div_mod_converse(a * mm + b, mm, a, b);
        }
    }
    out
}

/// Plan the point writes of a short-float write run from pre-parsed
/// IEEE-754 bit patterns: pattern `i` goes to address `start + i`.
pub fn build_float_point_writes(bits: &Vec<u32>, start: u16) -> (r: Vec<(u16, PointValue)>)
    requires
        start + bits@.len() <= 0x10000,
    ensures
        r@.len() == bits@.len(),
        forall|i: int|
            0 <= i < r@.len() ==> r@[i].0 == start + i && r@[i].1 == PointValue::R(bits@[i]),
{
    let n = bits.len();
    let mut out: Vec<(u16, PointValue)> = Vec::new();
    let mut i: usize = 0;
    while i < n
        invariant
            n == bits@.len(),
            start + n <= 0x10000,
            i <= n,
            out@.len() == i,
            forall|k: int|
                0 <= k < i ==> out@[k].0 == start + k && out@[k].1 == PointValue::R(bits@[k]),
        decreases n - i,
    {
        out.push(((start as usize + i) as u16, PointValue::R(bits[i])));
        i = i + 1;
    }
    out
}

} // verus!
