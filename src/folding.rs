//! Collapsed folding ranges of a buffer, tracked by position markers.
//!
//! A fold hides the lines after its header line. Its two ends are markers
//! in a marker list (so that an editing layer can move them); a line index
//! turns byte positions into line numbers.

use crate::text::{chars_of, is_whitespace, is_whitespace_char};
use std::collections::BTreeMap;
use vstd::laws_cmp::group_laws_cmp;
use vstd::prelude::*;
use vstd::std_specs::btree::group_btree_axioms;

verus! {

broadcast use {group_btree_axioms, group_laws_cmp};

pub type MarkerId = usize;

/// Position markers, each with its affinity; a deleted marker has no position.
pub struct MarkerList {
    slots: Vec<Option<(usize, bool)>>,
}

pub open spec fn marker_position(m: Seq<Option<(usize, bool)>>, id: MarkerId) -> Option<usize> {
    if id < m.len() {
        match m[id as int] {
            Some(p) => Some(p.0),
            None => None,
        }
    } else {
        None
    }
}

pub open spec fn delete_marker(m: Seq<Option<(usize, bool)>>, id: MarkerId) -> Seq<
    Option<(usize, bool)>,
> {
    if id < m.len() {
        m.update(id as int, None)
    } else {
        m
    }
}

impl View for MarkerList {
    type V = Seq<Option<(usize, bool)>>;

    closed spec fn view(&self) -> Seq<Option<(usize, bool)>> {
        self.slots@
    }
}

impl MarkerList {
    pub fn new() -> (r: Self)
        ensures
            r@ == Seq::<Option<(usize, bool)>>::empty(),
    {
        MarkerList { slots: Vec::new() }
    }

    /// A new marker at `pos`; `left_affinity` says which side of an insertion
    /// at `pos` it stays on.
    pub fn create(&mut self, pos: usize, left_affinity: bool) -> (r: MarkerId)
        ensures
            r == old(self)@.len(),
            final(self)@ == old(self)@.push(Some((pos, left_affinity))),
    {
        let id = self.slots.len();
        self.slots.push(Some((pos, left_affinity)));
        id
    }

    pub fn delete(&mut self, id: MarkerId)
        ensures
            final(self)@ == delete_marker(old(self)@, id),
    {
        if id < self.slots.len() {
            self.slots.set(id, None);
        }
    }

    pub fn get_position(&self, id: MarkerId) -> (r: Option<usize>)
        ensures
            r == marker_position(self@, id),
    {
        if id < self.slots.len() {
            match self.slots[id] {
                Some(p) => Some(p.0),
                None => None,
            }
        } else {
            None
        }
    }
}

/// The line number of byte `b`, given the start offset of every line in
/// increasing order (the first is 0): the last line that starts at or before `b`.
pub open spec fn line_of(starts: Seq<usize>, b: usize) -> nat
    decreases starts.len(),
{
    if starts.len() <= 1 {
        0
    } else if starts.last() <= b {
        (starts.len() - 1) as nat
    } else {
        line_of(starts.drop_last(), b)
    }
}

pub open spec fn line_start(starts: Seq<usize>, line: int) -> Option<usize> {
    if 0 <= line < starts.len() {
        Some(starts[line])
    } else {
        None
    }
}

/// Start offsets of the lines of a buffer.
pub struct LineIndex {
    starts: Vec<usize>,
}

impl View for LineIndex {
    type V = Seq<usize>;

    closed spec fn view(&self) -> Seq<usize> {
        self.starts@
    }
}

impl LineIndex {
    /// A line index from the start offsets of the lines; `None` unless they
    /// begin with 0 and increase strictly.
    pub fn new(starts: Vec<usize>) -> (r: Option<Self>)
        ensures
            match r {
                Some(li) => li@ == starts@,
                None => !(starts@.len() > 0 && starts@[0] == 0 && forall|i: int|
                    0 < i < starts@.len() ==> #[trigger] starts@[i - 1] < starts@[i]),
            },
    {
        if starts.len() == 0 || starts[0] != 0 {
            return None;
        }
        let mut i: usize = 1;
        while i < starts.len()
            invariant
                1 <= i <= starts@.len(),
                forall|k: int| 0 < k < i ==> #[trigger] starts@[k - 1] < starts@[k],
            decreases starts@.len() - i,
        {
            if starts[i - 1] >= starts[i] {
                return None;
            }
            i = i + 1;
        }
        Some(LineIndex { starts })
    }

    pub fn line_count(&self) -> (r: usize)
        ensures
            r == self@.len(),
    {
        self.starts.len()
    }

    /// The byte at which line `line` starts, if the buffer has that line.
    pub fn line_start_offset(&self, line: usize) -> (r: Option<usize>)
        ensures
            r == line_start(self@, line as int),
    {
        if line < self.starts.len() {
            Some(self.starts[line])
        } else {
            None
        }
    }

    /// The line that byte `b` lies on.
    pub fn get_line_number(&self, b: usize) -> (r: usize)
        ensures
            r == line_of(self@, b),
    {
        let mut n: usize = self.starts.len();
        assert(self@.subrange(0, n as int) =~= self@);
        while n > 1
            invariant
                n <= self@.len(),
                line_of(self@, b) == line_of(self@.subrange(0, n as int), b),
            decreases n,
        {
            let ghost pre = self@.subrange(0, n as int);
            assert(pre.drop_last() =~= self@.subrange(0, n - 1));
            if self.starts[n - 1] <= b {
                return n - 1;
            }
            n = n - 1;
        }
        0
    }
}

/// A collapsed fold: markers at the first hidden byte and just past the
/// hidden range, and the text shown in its place.
#[derive(Debug)]
pub struct FoldRange {
    pub start_marker: MarkerId,
    pub end_marker: MarkerId,
    pub placeholder: Option<String>,
}

/// A fold with its current lines and bytes.
#[derive(Debug)]
pub struct ResolvedFoldRange {
    /// The visible line that owns the fold.
    pub header_line: usize,
    /// First hidden line (the header line plus one).
    pub start_line: usize,
    /// Last hidden line, inclusive.
    pub end_line: usize,
    pub start_byte: usize,
    /// End of the hidden bytes, exclusive.
    pub end_byte: usize,
    pub placeholder: Option<String>,
}

/// The lines and bytes of fold `r`, or `None` where a marker is gone, the
/// range is empty, or it would have no header line.
pub open spec fn resolve(r: FoldRange, m: Seq<Option<(usize, bool)>>, lines: Seq<usize>) -> Option<
    ResolvedFoldRange,
> {
    match (marker_position(m, r.start_marker), marker_position(m, r.end_marker)) {
        (Some(s), Some(e)) => if e <= s {
            None
        } else {
            let sl = line_of(lines, s);
            let el = line_of(lines, (e - 1) as usize);
            if sl == 0 || el < sl {
                None
            } else {
                Some(
                    ResolvedFoldRange {
                        header_line: (sl - 1) as usize,
                        start_line: sl as usize,
                        end_line: el as usize,
                        start_byte: s,
                        end_byte: e,
                        placeholder: r.placeholder,
                    },
                )
            }
        },
        _ => None,
    }
}

pub open spec fn resolve_all(
    rs: Seq<FoldRange>,
    m: Seq<Option<(usize, bool)>>,
    lines: Seq<usize>,
) -> Seq<ResolvedFoldRange>
    decreases rs.len(),
{
    if rs.len() == 0 {
        Seq::empty()
    } else {
        let prev = resolve_all(rs.drop_last(), m, lines);
        match resolve(rs.last(), m, lines) {
            Some(x) => prev.push(x),
            None => prev,
        }
    }
}

/// The folds of `rs` for which `gone` does not hold, in order.
pub open spec fn keep(rs: Seq<FoldRange>, gone: spec_fn(FoldRange) -> bool) -> Seq<FoldRange>
    decreases rs.len(),
{
    if rs.len() == 0 {
        Seq::empty()
    } else if gone(rs.last()) {
        keep(rs.drop_last(), gone)
    } else {
        keep(rs.drop_last(), gone).push(rs.last())
    }
}

/// The marker list after the markers of each fold of `rs` are deleted.
pub open spec fn delete_fold_markers(m: Seq<Option<(usize, bool)>>, rs: Seq<FoldRange>) -> Seq<
    Option<(usize, bool)>,
>
    decreases rs.len(),
{
    if rs.len() == 0 {
        m
    } else {
        let prev = delete_fold_markers(m, rs.drop_last());
        delete_marker(delete_marker(prev, rs.last().start_marker), rs.last().end_marker)
    }
}

/// Fold `r` covers byte `b`.
pub open spec fn covers_byte(m: Seq<Option<(usize, bool)>>, b: usize, r: FoldRange) -> bool {
    match (marker_position(m, r.start_marker), marker_position(m, r.end_marker)) {
        (Some(s), Some(e)) => s <= b && b < e,
        _ => false,
    }
}

/// Fold `r` has header line `h`.
pub open spec fn has_header(
    m: Seq<Option<(usize, bool)>>,
    lines: Seq<usize>,
    h: usize,
    r: FoldRange,
) -> bool {
    match marker_position(m, r.start_marker) {
        Some(s) => line_of(lines, s) > 0 && line_of(lines, s) - 1 == h,
        None => false,
    }
}

/// The header-to-placeholder map of resolved folds (a later fold wins).
pub open spec fn header_map(rs: Seq<ResolvedFoldRange>) -> Map<usize, Option<String>>
    decreases rs.len(),
{
    if rs.len() == 0 {
        Map::empty()
    } else {
        header_map(rs.drop_last()).insert(rs.last().header_line, rs.last().placeholder)
    }
}

/// Hidden lines of the resolved folds whose header lies in `[lo, hi]`.
pub open spec fn hidden_lines(rs: Seq<ResolvedFoldRange>, lo: usize, hi: usize) -> int
    decreases rs.len(),
{
    if rs.len() == 0 {
        0
    } else {
        let r = rs.last();
        hidden_lines(rs.drop_last(), lo, hi) + if lo <= r.header_line <= hi {
            r.end_line - r.start_line + 1
        } else {
            0
        }
    }
}

fn copy_placeholder(p: &Option<String>) -> (r: Option<String>)
    ensures
        r == *p,
{
    match p {
        Some(s) => Some(s.clone()),
        None => None,
    }
}

fn copy_range(r: &FoldRange) -> (c: FoldRange)
    ensures
        c == *r,
{
    FoldRange {
        start_marker: r.start_marker,
        end_marker: r.end_marker,
        placeholder: copy_placeholder(&r.placeholder),
    }
}

/// The collapsed folds of one buffer view.
pub struct FoldManager {
    ranges: Vec<FoldRange>,
}

impl View for FoldManager {
    type V = Seq<FoldRange>;

    closed spec fn view(&self) -> Seq<FoldRange> {
        self.ranges@
    }
}

impl FoldManager {
    pub fn new() -> (r: Self)
        ensures
            r@ == Seq::<FoldRange>::empty(),
    {
        FoldManager { ranges: Vec::new() }
    }

    pub fn is_empty(&self) -> (r: bool)
        ensures
            r == (self@.len() == 0),
    {
        self.ranges.len() == 0
    }

    /// Adds a collapsed fold hiding the bytes `[start, end)`; an empty or
    /// reversed range adds nothing.
    pub fn add(
        &mut self,
        marker_list: &mut MarkerList,
        start: usize,
        end: usize,
        placeholder: Option<String>,
    )
        ensures
            end <= start ==> final(self)@ == old(self)@ && final(marker_list)@ == old(
                marker_list,
            )@,
            start < end ==> {
                &&& final(marker_list)@ == old(marker_list)@.push(Some((start, true))).push(
                    Some((end, false)),
                )
                &&& final(self)@ == old(self)@.push(
                    FoldRange {
                        start_marker: old(marker_list)@.len() as usize,
                        end_marker: (old(marker_list)@.len() + 1) as usize,
                        placeholder,
                    },
                )
            },
    {
        if end <= start {
            return;
        }
        let start_marker = marker_list.create(start, true);
        let end_marker = marker_list.create(end, false);
        self.ranges.push(FoldRange { start_marker, end_marker, placeholder });
    }

    fn delete_markers(marker_list: &mut MarkerList, gone: &Vec<FoldRange>)
        ensures
            final(marker_list)@ == delete_fold_markers(old(marker_list)@, gone@),
    {
        let mut i: usize = 0;
        while i < gone.len()
            invariant
                i <= gone@.len(),
                marker_list@ == delete_fold_markers(old(marker_list)@, gone@.subrange(0, i as int)),
            decreases gone@.len() - i,
        {
            assert(gone@.subrange(0, i + 1).drop_last() =~= gone@.subrange(0, i as int));
            marker_list.delete(gone[i].start_marker);
            marker_list.delete(gone[i].end_marker);
            i = i + 1;
        }
        assert(gone@.subrange(0, gone@.len() as int) =~= gone@);
    }

    /// Removes every fold and deletes its markers.
    pub fn clear(&mut self, marker_list: &mut MarkerList)
        ensures
            final(self)@ == Seq::<FoldRange>::empty(),
            final(marker_list)@ == delete_fold_markers(old(marker_list)@, old(self)@),
    {
        Self::delete_markers(marker_list, &self.ranges);
        self.ranges.clear();
    }

    /// Removes the folds whose header line is `header_line` and deletes their
    /// markers. Returns whether one was removed.
    pub fn remove_by_header_line(
        &mut self,
        lines: &LineIndex,
        marker_list: &mut MarkerList,
        header_line: usize,
    ) -> (r: bool)
        ensures
            ({
                let gone = |f: FoldRange| has_header(old(marker_list)@, lines@, header_line, f);
                let stay = |f: FoldRange| !has_header(old(marker_list)@, lines@, header_line, f);
                &&& final(self)@ == keep(old(self)@, gone)
                &&& final(marker_list)@ == delete_fold_markers(
                    old(marker_list)@,
                    keep(old(self)@, stay),
                )
                &&& r == (keep(old(self)@, stay).len() > 0)
            }),
    {
        let mut kept: Vec<FoldRange> = Vec::new();
        let mut gone: Vec<FoldRange> = Vec::new();
        let ghost gone_f = |f: FoldRange| has_header(marker_list@, lines@, header_line, f);
        let ghost stay_f = |f: FoldRange| !has_header(marker_list@, lines@, header_line, f);
        let mut i: usize = 0;
        while i < self.ranges.len()
            invariant
                i <= self.ranges@.len(),
                kept@ == keep(self.ranges@.subrange(0, i as int), gone_f),
                gone@ == keep(self.ranges@.subrange(0, i as int), stay_f),
                gone_f == (|f: FoldRange| has_header(marker_list@, lines@, header_line, f)),
                stay_f == (|f: FoldRange| !has_header(marker_list@, lines@, header_line, f)),
            decreases self.ranges@.len() - i,
        {
            let r = &self.ranges[i];
            assert(self.ranges@.subrange(0, i + 1).drop_last() =~= self.ranges@.subrange(
                0,
                i as int,
            ));
            let matched = match marker_list.get_position(r.start_marker) {
                Some(s) => {
                    let sl = lines.get_line_number(s);
                    sl > 0 && sl - 1 == header_line
                },
                None => false,
            };
            if matched {
                gone.push(copy_range(r));
            } else {
                kept.push(copy_range(r));
            }
            i = i + 1;
        }
        assert(self.ranges@.subrange(0, self.ranges@.len() as int) =~= self.ranges@);
        Self::delete_markers(marker_list, &gone);
        self.ranges = kept;
        gone.len() > 0
    }

    /// Removes the folds that cover byte `byte` and deletes their markers.
    /// Returns whether one was removed.
    pub fn remove_if_contains_byte(&mut self, marker_list: &mut MarkerList, byte: usize) -> (r:
        bool)
        ensures
            ({
                let gone = |f: FoldRange| covers_byte(old(marker_list)@, byte, f);
                let stay = |f: FoldRange| !covers_byte(old(marker_list)@, byte, f);
                &&& final(self)@ == keep(old(self)@, gone)
                &&& final(marker_list)@ == delete_fold_markers(
                    old(marker_list)@,
                    keep(old(self)@, stay),
                )
                &&& r == (keep(old(self)@, stay).len() > 0)
            }),
    {
        let mut kept: Vec<FoldRange> = Vec::new();
        let mut gone: Vec<FoldRange> = Vec::new();
        let ghost gone_f = |f: FoldRange| covers_byte(marker_list@, byte, f);
        let ghost stay_f = |f: FoldRange| !covers_byte(marker_list@, byte, f);
        let mut i: usize = 0;
        while i < self.ranges.len()
            invariant
                i <= self.ranges@.len(),
                kept@ == keep(self.ranges@.subrange(0, i as int), gone_f),
                gone@ == keep(self.ranges@.subrange(0, i as int), stay_f),
                gone_f == (|f: FoldRange| covers_byte(marker_list@, byte, f)),
                stay_f == (|f: FoldRange| !covers_byte(marker_list@, byte, f)),
            decreases self.ranges@.len() - i,
        {
            let r = &self.ranges[i];
            assert(self.ranges@.subrange(0, i + 1).drop_last() =~= self.ranges@.subrange(
                0,
                i as int,
            ));
            let matched = match (
                marker_list.get_position(r.start_marker),
                marker_list.get_position(r.end_marker),
            ) {
                (Some(s), Some(e)) => s <= byte && byte < e,
                _ => false,
            };
            if matched {
                gone.push(copy_range(r));
            } else {
                kept.push(copy_range(r));
            }
            i = i + 1;
        }
        assert(self.ranges@.subrange(0, self.ranges@.len() as int) =~= self.ranges@);
        Self::delete_markers(marker_list, &gone);
        self.ranges = kept;
        gone.len() > 0
    }

    /// The folds with their current lines and bytes, in order, leaving out
    /// those that no longer resolve.
    pub fn resolved_ranges(&self, lines: &LineIndex, marker_list: &MarkerList) -> (r: Vec<
        ResolvedFoldRange,
    >)
        ensures
            r@ == resolve_all(self@, marker_list@, lines@),
    {
        let mut out: Vec<ResolvedFoldRange> = Vec::new();
        let mut i: usize = 0;
        while i < self.ranges.len()
            invariant
                i <= self.ranges@.len(),
                out@ == resolve_all(self.ranges@.subrange(0, i as int), marker_list@, lines@),
            decreases self.ranges@.len() - i,
        {
            let range = &self.ranges[i];
            assert(self.ranges@.subrange(0, i + 1).drop_last() =~= self.ranges@.subrange(
                0,
                i as int,
            ));
            i = i + 1;
            let start_byte = match marker_list.get_position(range.start_marker) {
                Some(s) => s,
                None => {
                    continue;
                },
            };
            let end_byte = match marker_list.get_position(range.end_marker) {
                Some(e) => e,
                None => {
                    continue;
                },
            };
            if end_byte <= start_byte {
                continue;
            }
            let start_line = lines.get_line_number(start_byte);
            if start_line == 0 {
                continue;
            }
            let end_line = lines.get_line_number(end_byte - 1);
            if end_line < start_line {
                continue;
            }
            out.push(
                ResolvedFoldRange {
                    header_line: start_line - 1,
                    start_line,
                    end_line,
                    start_byte,
                    end_byte,
                    placeholder: copy_placeholder(&range.placeholder),
                },
            );
        }
        assert(self.ranges@.subrange(0, self.ranges@.len() as int) =~= self.ranges@);
        out
    }

    /// Header line to placeholder, for every resolved fold.
    pub fn collapsed_headers(&self, lines: &LineIndex, marker_list: &MarkerList) -> (r: BTreeMap<
        usize,
        Option<String>,
    >)
        ensures
            r@ == header_map(resolve_all(self@, marker_list@, lines@)),
    {
        let resolved = self.resolved_ranges(lines, marker_list);
        let mut map: BTreeMap<usize, Option<String>> = BTreeMap::new();
        let mut i: usize = 0;
        while i < resolved.len()
            invariant
                i <= resolved@.len(),
                map@ == header_map(resolved@.subrange(0, i as int)),
            decreases resolved@.len() - i,
        {
            assert(resolved@.subrange(0, i + 1).drop_last() =~= resolved@.subrange(0, i as int));
            map.insert(resolved[i].header_line, copy_placeholder(&resolved[i].placeholder));
            i = i + 1;
        }
        assert(resolved@.subrange(0, resolved@.len() as int) =~= resolved@);
        map
    }

    /// The number of hidden lines of the folds whose header line lies in
    /// `[start_line, end_line]`, saturating at `usize::MAX`.
    pub fn hidden_line_count_in_range(
        &self,
        lines: &LineIndex,
        marker_list: &MarkerList,
        start_line: usize,
        end_line: usize,
    ) -> (r: usize)
        ensures
            r as int == if hidden_lines(resolve_all(self@, marker_list@, lines@), start_line, end_line)
                < usize::MAX {
                hidden_lines(resolve_all(self@, marker_list@, lines@), start_line, end_line)
            } else {
                usize::MAX as int
            },
    {
        let resolved = self.resolved_ranges(lines, marker_list);
        let n_lines = lines.line_count();
        proof {
            assert(lines@.len() == n_lines);
            lemma_resolved_lines_ordered(self@, marker_list@, lines@);
        }
        let mut hidden: usize = 0;
        let mut i: usize = 0;
        while i < resolved.len()
            invariant
                i <= resolved@.len(),
                forall|k: int|
                    0 <= k < resolved@.len() ==> 1 <= #[trigger] resolved@[k].start_line
                        <= resolved@[k].end_line,
                hidden as int == if hidden_lines(resolved@.subrange(0, i as int), start_line, end_line)
                    < usize::MAX {
                    hidden_lines(resolved@.subrange(0, i as int), start_line, end_line)
                } else {
                    usize::MAX as int
                },
                hidden_lines(resolved@.subrange(0, i as int), start_line, end_line) >= 0,
            decreases resolved@.len() - i,
        {
            assert(resolved@.subrange(0, i + 1).drop_last() =~= resolved@.subrange(0, i as int));
            let r = &resolved[i];
            if r.header_line >= start_line && r.header_line <= end_line {
                hidden = hidden.saturating_add(r.end_line - r.start_line + 1);
            }
            i = i + 1;
        }
        assert(resolved@.subrange(0, resolved@.len() as int) =~= resolved@);
        hidden
    }
}

proof fn lemma_line_of_bound(starts: Seq<usize>, b: usize)
    ensures
        line_of(starts, b) <= if starts.len() == 0 {
            0
        } else {
            starts.len() - 1
        },
    decreases starts.len(),
{
    if starts.len() > 1 {
        lemma_line_of_bound(starts.drop_last(), b);
    }
}

proof fn lemma_resolved_lines_ordered(
    rs: Seq<FoldRange>,
    m: Seq<Option<(usize, bool)>>,
    lines: Seq<usize>,
)
    requires
        lines.len() <= usize::MAX,
    ensures
        forall|k: int|
            0 <= k < resolve_all(rs, m, lines).len() ==> 1 <= #[trigger] resolve_all(
                rs,
                m,
                lines,
            )[k].start_line <= resolve_all(rs, m, lines)[k].end_line,
    decreases rs.len(),
{
    if rs.len() > 0 {
        lemma_resolved_lines_ordered(rs.drop_last(), m, lines);
        match (marker_position(m, rs.last().start_marker), marker_position(m, rs.last().end_marker)) {
            (Some(s), Some(e)) => {
                lemma_line_of_bound(lines, s);
                if e > s {
                    lemma_line_of_bound(lines, (e - 1) as usize);
                }
            },
            _ => {},
        }
    }
}

/// A folding range reported by the server: zero-based lines, both inclusive.
#[derive(Debug)]
pub struct LspFoldingRange {
    pub start_line: u32,
    pub end_line: u32,
    pub collapsed_text: Option<String>,
}

/// What toggling the fold at a line did.
#[derive(Debug, PartialEq, Eq)]
pub enum FoldToggle {
    /// A collapsed fold with that header line was opened.
    Unfolded,
    /// The bytes `[start_byte, end_byte)` were folded away. Cursors inside
    /// them move to `header_byte`; the viewport top moves to `new_top_byte`
    /// when it is `Some`.
    Folded { start_byte: usize, end_byte: usize, header_byte: Option<usize>, new_top_byte: Option<usize> },
    /// Nothing to fold or unfold at that line.
    Unchanged,
}

/// A server range can fold at `line`: it starts there and spans more than one line.
pub open spec fn folds_at(r: LspFoldingRange, line: usize) -> bool {
    r.end_line > r.start_line && r.start_line == line
}

/// Among the first `n` server ranges, the first narrowest one that can fold at `line`.
pub open spec fn narrowest_at(rs: Seq<LspFoldingRange>, line: usize, n: int) -> Option<int>
    decreases n,
{
    if n <= 0 {
        None
    } else {
        let best = narrowest_at(rs, line, n - 1);
        let r = rs[n - 1];
        if folds_at(r, line) && (best is None || r.end_line - r.start_line < rs[best->Some_0].end_line
            - rs[best->Some_0].start_line) {
            Some(n - 1)
        } else {
            best
        }
    }
}

/// The text shown for a fold: the server's collapsed text, unless it is blank.
pub open spec fn placeholder_spec(t: Option<String>) -> Option<String> {
    match t {
        Some(s) => if exists|i: int| 0 <= i < s@.len() && !is_whitespace_char(#[trigger] s@[i]) {
            Some(s)
        } else {
            None
        },
        None => None,
    }
}

/// The hidden bytes for folding server range `r` at header line `line`: from
/// the start of the next line to the start of the line after the range (or
/// the end of the buffer).
pub open spec fn hidden_bytes(starts: Seq<usize>, buffer_len: usize, line: usize, r: LspFoldingRange) -> Option<(usize, usize)> {
    match line_start(starts, line + 1) {
        Some(sb) => Some((sb, match line_start(starts, r.end_line + 1) {
            Some(eb) => eb,
            None => buffer_len,
        })),
        None => None,
    }
}

fn placeholder_of(t: &Option<String>) -> (r: Option<String>)
    ensures
        r == placeholder_spec(*t),
{
    match t {
        Some(s) => {
            let cs = chars_of(s.as_str());
            let mut i: usize = 0;
            while i < cs.len()
                invariant
                    *t == Some(*s),
                    cs@ == s@,
                    i <= cs@.len(),
                    forall|k: int| 0 <= k < i ==> is_whitespace_char(#[trigger] s@[k]),
                decreases cs@.len() - i,
            {
                if !is_whitespace(cs[i]) {
                    assert(cs@[i as int] == s@[i as int]);
                    assert(!is_whitespace_char(s@[i as int]));
                    return Some(s.clone());
                }
                i = i + 1;
            }
            None
        },
        None => None,
    }
}

proof fn lemma_keep_none_gone(rs: Seq<FoldRange>, gone: spec_fn(FoldRange) -> bool, stay: spec_fn(FoldRange) -> bool)
    requires
        forall|f: FoldRange| #[trigger] stay(f) == !gone(f),
        keep(rs, stay).len() == 0,
    ensures
        keep(rs, gone) == rs,
        forall|m: Seq<Option<(usize, bool)>>| #[trigger] delete_fold_markers(m, keep(rs, stay)) == m,
    decreases rs.len(),
{
    if rs.len() > 0 {
        if !gone(rs.last()) {
            assert(stay(rs.last()));
        }
        lemma_keep_none_gone(rs.drop_last(), gone, stay);
        assert(rs.drop_last().push(rs.last()) =~= rs);
    }
}

/// A cursor of the buffer view: its position, its selection anchor and the
/// column it tries to keep on vertical moves.
#[derive(Clone, Copy, Debug, PartialEq, Eq, Structural)]
pub struct Cursor {
    pub position: usize,
    pub anchor: Option<usize>,
    pub sticky_column: usize,
}

pub open spec fn in_span(p: usize, start: usize, end: usize) -> bool {
    start <= p && p < end
}

/// A cursor whose position or anchor would be hidden by folding `[start,
/// end)` moves to the header byte, without selection.
pub open spec fn move_out_of(c: Cursor, start: usize, end: usize, header: usize) -> Cursor {
    if in_span(c.position, start, end) || (c.anchor matches Some(a) && in_span(a, start, end)) {
        Cursor { position: header, anchor: None, sticky_column: 0 }
    } else {
        c
    }
}

/// What toggling the fold at `line` does to the folds, the markers and the
/// cursors, and what it reports. It opens the collapsed fold whose header is
/// `line`; failing that, it folds the narrowest server range that starts at
/// `line` (the first of equal ones), moving the cursors out of the hidden
/// bytes. `top_byte` is the first byte of the viewport.
pub open spec fn fold_toggled(
    old_folds: Seq<FoldRange>,
    folds: Seq<FoldRange>,
    old_markers: Seq<Option<(usize, bool)>>,
    markers: Seq<Option<(usize, bool)>>,
    old_cursors: Seq<Cursor>,
    cursors: Seq<Cursor>,
    lines: Seq<usize>,
    buffer_len: usize,
    ranges: Seq<LspFoldingRange>,
    line: usize,
    top_byte: usize,
    r: FoldToggle,
) -> bool {
    let gone = |f: FoldRange| has_header(old_markers, lines, line, f);
    let stay = |f: FoldRange| !has_header(old_markers, lines, line, f);
    let best = narrowest_at(ranges, line, ranges.len() as int);
    if keep(old_folds, stay).len() > 0 {
        &&& r == FoldToggle::Unfolded
        &&& folds == keep(old_folds, gone)
        &&& markers == delete_fold_markers(old_markers, keep(old_folds, stay))
        &&& cursors == old_cursors
    } else if best is None || hidden_bytes(lines, buffer_len, line, ranges[best->Some_0]) is None {
        &&& r == FoldToggle::Unchanged
        &&& folds == old_folds
        &&& markers == old_markers
        &&& cursors == old_cursors
    } else {
        let range = ranges[best->Some_0];
        let (sb, eb) = hidden_bytes(lines, buffer_len, line, range)->Some_0;
        let header = line_start(lines, line as int);
        let top_line = line_of(lines, top_byte);
        &&& r == (FoldToggle::Folded {
            start_byte: sb,
            end_byte: eb,
            header_byte: header,
            new_top_byte: if line + 1 <= top_line <= range.end_line { header } else { None },
        })
        &&& sb < eb ==> {
            &&& markers == old_markers.push(Some((sb, true))).push(Some((eb, false)))
            &&& folds == old_folds.push(FoldRange {
                start_marker: old_markers.len() as usize,
                end_marker: (old_markers.len() + 1) as usize,
                placeholder: placeholder_spec(range.collapsed_text),
            })
        }
        &&& eb <= sb ==> folds == old_folds && markers == old_markers
        &&& cursors == match header {
            Some(h) => old_cursors.map_values(|c: Cursor| move_out_of(c, sb, eb, h)),
            None => old_cursors,
        }
    }
}

fn move_cursors_out(cursors: &mut Vec<Cursor>, start: usize, end: usize, header: usize)
    ensures
        final(cursors)@ == old(cursors)@.map_values(|c: Cursor| move_out_of(c, start, end, header)),
{
    let ghost orig = cursors@;
    let mut i: usize = 0;
    while i < cursors.len()
        invariant
            i <= cursors@.len(),
            cursors@.len() == orig.len(),
            forall|k: int| 0 <= k < i ==> cursors@[k] == move_out_of(orig[k], start, end, header),
            forall|k: int| i <= k < cursors@.len() ==> cursors@[k] == orig[k],
        decreases cursors@.len() - i,
    {
        let c = cursors[i];
        let anchor_hidden = match c.anchor {
            Some(a) => start <= a && a < end,
            None => false,
        };
        if (start <= c.position && c.position < end) || anchor_hidden {
            cursors.set(i, Cursor { position: header, anchor: None, sticky_column: 0 });
        }
        i = i + 1;
    }
    assert(cursors@ =~= orig.map_values(|c: Cursor| move_out_of(c, start, end, header)));
}

impl FoldManager {
    /// Toggles the fold at `line` (see `fold_toggled`).
    pub fn toggle_fold_at_line(
        &mut self,
        marker_list: &mut MarkerList,
        cursors: &mut Vec<Cursor>,
        lines: &LineIndex,
        buffer_len: usize,
        folding_ranges: &Vec<LspFoldingRange>,
        line: usize,
        top_byte: usize,
    ) -> (r: FoldToggle)
        ensures
            fold_toggled(
                old(self)@,
                final(self)@,
                old(marker_list)@,
                final(marker_list)@,
                old(cursors)@,
                final(cursors)@,
                lines@,
                buffer_len,
                folding_ranges@,
                line,
                top_byte,
                r,
            ),
    {
        let ghost gone = |f: FoldRange| has_header(marker_list@, lines@, line, f);
        let ghost stay = |f: FoldRange| !has_header(marker_list@, lines@, line, f);
        let ghost old_folds = self@;
        if self.remove_by_header_line(lines, marker_list, line) {
            return FoldToggle::Unfolded;
        }
        proof {
            lemma_keep_none_gone(old_folds, gone, stay);
        }
        let mut selected: Option<usize> = None;
        let mut i: usize = 0;
        while i < folding_ranges.len()
            invariant
                i <= folding_ranges@.len(),
                selected == match narrowest_at(folding_ranges@, line, i as int) {
                    Some(k) => Some(k as usize),
                    None => None::<usize>,
                },
                narrowest_at(folding_ranges@, line, i as int) matches Some(k) ==> 0 <= k < i
                    && folds_at(folding_ranges@[k], line),
            decreases folding_ranges@.len() - i,
        {
            let r = &folding_ranges[i];
            if r.end_line > r.start_line && r.start_line as usize == line {
                let better = match selected {
                    None => true,
                    Some(k) => r.end_line - r.start_line < folding_ranges[k].end_line - folding_ranges[k].start_line,
                };
                if better {
                    selected = Some(i);
                }
            }
            i = i + 1;
        }
        let k = match selected {
            Some(k) => k,
            None => {
                return FoldToggle::Unchanged;
            },
        };
        let range = &folding_ranges[k];
        let n_lines = lines.line_count();
        assert(lines@.len() == n_lines);
        let start_line = line + 1;
        let start_byte = match lines.line_start_offset(start_line) {
            Some(b) => b,
            None => {
                return FoldToggle::Unchanged;
            },
        };
        let after_range = match (range.end_line as usize).checked_add(1) {
            Some(l) => lines.line_start_offset(l),
            None => None,
        };
        let end_byte = match after_range {
            Some(b) => b,
            None => buffer_len,
        };
        let header_byte = lines.line_start_offset(line);
        if let Some(h) = header_byte {
            move_cursors_out(cursors, start_byte, end_byte, h);
        }
        let top_line = lines.get_line_number(top_byte);
        let new_top_byte = if start_line <= top_line && top_line <= range.end_line as usize {
            header_byte
        } else {
            None
        };
        let placeholder = placeholder_of(&range.collapsed_text);
        self.add(marker_list, start_byte, end_byte, placeholder);
        FoldToggle::Folded { start_byte, end_byte, header_byte, new_top_byte }
    }

    /// Toggles the fold at the line that byte `cursor` lies on (see `fold_toggled`).
    pub fn toggle_fold_at_cursor(
        &mut self,
        marker_list: &mut MarkerList,
        cursors: &mut Vec<Cursor>,
        lines: &LineIndex,
        buffer_len: usize,
        folding_ranges: &Vec<LspFoldingRange>,
        cursor: usize,
        top_byte: usize,
    ) -> (r: FoldToggle)
        ensures
            fold_toggled(
                old(self)@,
                final(self)@,
                old(marker_list)@,
                final(marker_list)@,
                old(cursors)@,
                final(cursors)@,
                lines@,
                buffer_len,
                folding_ranges@,
                line_of(lines@, cursor) as usize,
                top_byte,
                r,
            ),
    {
        let line = lines.get_line_number(cursor);
        self.toggle_fold_at_line(marker_list, cursors, lines, buffer_len, folding_ranges, line, top_byte)
    }
}

} // verus!
