//! The state of the session view and its decisions: which pane is
//! selected, how far each pane is scrolled back, what a key or a click asks
//! tmux to do, and what is shown.

use vstd::prelude::*;

use crate::ansi::{capture_to_lines, decode, lines_view, plain_style, Color, Line, Span, Style};
use crate::geometry::{pane_area, pane_area_of, rect_contains, rect_fits, rect_has, sat_add, Rect};
use crate::model::{Pane, SplitDirection};
use crate::text::{decimal, push_decimal, push_str, str_equal};

verus! {

/// How far one pane is scrolled back.
pub struct ScrollEntry {
    pub pane_id: String,
    pub offset: usize,
}

/// The scroll-back offsets of panes as a map from pane id to offset, later
/// entries winning.
pub open spec fn entries_map(v: Seq<ScrollEntry>) -> Map<Seq<char>, usize>
    decreases v.len(),
{
    if v.len() == 0 {
        Map::empty()
    } else {
        entries_map(v.drop_last()).insert(v.last().pane_id@, v.last().offset)
    }
}

/// The ids of `panes`.
pub open spec fn pane_id_set(panes: Seq<Pane>) -> Set<Seq<char>> {
    Set::new(|k: Seq<char>| exists|i: int| 0 <= i < panes.len() && (#[trigger] panes[i]).id@ == k)
}

/// Whether one of `panes` has the id `pane_id`.
pub fn has_pane_id(panes: &[Pane], pane_id: &str) -> (b: bool)
    ensures
        b == pane_id_set(panes@).contains(pane_id@),
{
    let mut i: usize = 0;
    while i < panes.len()
        invariant
            i <= panes.len(),
            forall|j: int| 0 <= j < i ==> (#[trigger] panes@[j]).id@ != pane_id@,
        decreases panes.len() - i,
    {
        if str_equal(panes[i].id.as_str(), pane_id) {
            assert(panes@[i as int].id@ == pane_id@);
            return true;
        }
        i = i + 1;
    }
    false
}

/// The scroll-back offsets of the panes that are scrolled back; a pane
/// absent from the table shows its live view.
pub struct ScrollOffsets {
    entries: Vec<ScrollEntry>,
}

proof fn lemma_entries_map(v: Seq<ScrollEntry>)
    requires
        forall|i: int, j: int|
            0 <= i < j < v.len() ==> (#[trigger] v[i]).pane_id@ != (#[trigger] v[j]).pane_id@,
    ensures
        forall|k: Seq<char>|
            #[trigger] entries_map(v).contains_key(k) <==> exists|i: int|
                0 <= i < v.len() && (#[trigger] v[i]).pane_id@ == k,
        forall|i: int| 0 <= i < v.len() ==> entries_map(v)[(#[trigger] v[i]).pane_id@] == v[i].offset,
    decreases v.len(),
{
    if v.len() > 0 {
        let w = v.drop_last();
        assert forall|i: int, j: int| 0 <= i < j < w.len() implies (#[trigger] w[i]).pane_id@ != (
        #[trigger] w[j]).pane_id@ by {
            assert(w[i] == v[i] && w[j] == v[j]);
        }
        lemma_entries_map(w);
        let last = v[v.len() - 1];
        assert(entries_map(v) == entries_map(w).insert(last.pane_id@, last.offset));
        assert forall|k: Seq<char>|
            #[trigger] entries_map(v).contains_key(k) <==> exists|i: int|
                0 <= i < v.len() && (#[trigger] v[i]).pane_id@ == k by {
            if k == last.pane_id@ {
                assert(v[v.len() - 1].pane_id@ == k);
            } else {
                if entries_map(w).contains_key(k) {
                    let i = choose|i: int| 0 <= i < w.len() && (#[trigger] w[i]).pane_id@ == k;
                    assert(v[i] == w[i]);
                }
                if exists|i: int| 0 <= i < v.len() && (#[trigger] v[i]).pane_id@ == k {
                    let i = choose|i: int| 0 <= i < v.len() && (#[trigger] v[i]).pane_id@ == k;
                    assert(i < v.len() - 1);
                    assert(w[i] == v[i]);
                    assert(entries_map(w).contains_key(k));
                }
            }
        }
        assert forall|i: int| 0 <= i < v.len() implies entries_map(v)[(#[trigger] v[i]).pane_id@]
            == v[i].offset by {
            if i < v.len() - 1 {
                assert(w[i] == v[i]);
                assert(v[i].pane_id@ != v[v.len() - 1].pane_id@);
            }
        }
    }
}

proof fn lemma_entries_map_push(v: Seq<ScrollEntry>, e: ScrollEntry)
    ensures
        entries_map(v.push(e)) == entries_map(v).insert(e.pane_id@, e.offset),
{
    assert(v.push(e).drop_last() =~= v);
}

impl ScrollOffsets {
    /// The offsets as a map from pane id.
    pub closed spec fn view_map(&self) -> Map<Seq<char>, usize> {
        entries_map(self.entries@)
    }

    /// Each pane appears once, and only with a positive offset.
    #[verifier::type_invariant]
    closed spec fn well_formed(&self) -> bool {
        &&& forall|i: int, j: int|
            0 <= i < j < self.entries@.len() ==> (#[trigger] self.entries@[i]).pane_id@ != (
            #[trigger] self.entries@[j]).pane_id@
        &&& forall|i: int| 0 <= i < self.entries@.len() ==> (#[trigger] self.entries@[i]).offset > 0
    }

    /// No pane is scrolled back.
    pub fn new() -> (t: ScrollOffsets)
        ensures
            t.view_map() == Map::<Seq<char>, usize>::empty(),
    {
        ScrollOffsets { entries: Vec::new() }
    }

    /// The offset of `pane_id`, 0 when it is not scrolled back.
    pub fn get(&self, pane_id: &str) -> (offset: usize)
        ensures
            offset == (if self.view_map().contains_key(pane_id@) {
                self.view_map()[pane_id@]
            } else {
                0
            }),
            self.view_map().contains_key(pane_id@) ==> offset > 0,
    {
        proof {
            use_type_invariant(self);
            lemma_entries_map(self.entries@);
        }
        let mut i: usize = 0;
        while i < self.entries.len()
            invariant
                i <= self.entries.len(),
                forall|j: int| 0 <= j < i ==> (#[trigger] self.entries@[j]).pane_id@ != pane_id@,
                forall|k: Seq<char>|
                    #[trigger] entries_map(self.entries@).contains_key(k) <==> exists|j: int|
                        0 <= j < self.entries@.len() && (#[trigger] self.entries@[j]).pane_id@ == k,
                forall|j: int|
                    0 <= j < self.entries@.len() ==> entries_map(self.entries@)[(
                    #[trigger] self.entries@[j]).pane_id@] == self.entries@[j].offset,
                forall|j: int| 0 <= j < self.entries@.len() ==> (#[trigger] self.entries@[j]).offset > 0,
            decreases self.entries.len() - i,
        {
            if str_equal(self.entries[i].pane_id.as_str(), pane_id) {
                assert(self.entries@[i as int].pane_id@ == pane_id@);
                return self.entries[i].offset;
            }
            i = i + 1;
        }
        0
    }

    /// The table without `pane_id`.
    fn without(&self, pane_id: &str) -> (r: Vec<ScrollEntry>)
        ensures
            entries_map(r@) == self.view_map().remove(pane_id@),
            forall|i: int, j: int|
                0 <= i < j < r@.len() ==> (#[trigger] r@[i]).pane_id@ != (#[trigger] r@[j]).pane_id@,
            forall|i: int| 0 <= i < r@.len() ==> (#[trigger] r@[i]).offset > 0,
            forall|i: int| 0 <= i < r@.len() ==> (#[trigger] r@[i]).pane_id@ != pane_id@,
    {
        proof {
            use_type_invariant(self);
        }
        let mut r: Vec<ScrollEntry> = Vec::new();
        let mut i: usize = 0;
        assert(self.entries@.take(0) =~= Seq::<ScrollEntry>::empty());
        assert(entries_map(r@) =~= entries_map(self.entries@.take(0)).remove(pane_id@));
        while i < self.entries.len()
            invariant
                i <= self.entries.len(),
                entries_map(r@) == entries_map(self.entries@.take(i as int)).remove(pane_id@),
                forall|a: int, b: int|
                    0 <= a < b < self.entries@.len() ==> (#[trigger] self.entries@[a]).pane_id@
                        != (#[trigger] self.entries@[b]).pane_id@,
                forall|a: int| 0 <= a < self.entries@.len() ==> (#[trigger] self.entries@[a]).offset > 0,
                forall|a: int, b: int|
                    0 <= a < b < r@.len() ==> (#[trigger] r@[a]).pane_id@ != (
                    #[trigger] r@[b]).pane_id@,
                forall|a: int| 0 <= a < r@.len() ==> (#[trigger] r@[a]).offset > 0,
                forall|a: int| 0 <= a < r@.len() ==> (#[trigger] r@[a]).pane_id@ != pane_id@,
                forall|a: int|
                    0 <= a < r@.len() ==> exists|b: int|
                        0 <= b < i && (#[trigger] self.entries@[b]).pane_id@ == (
                        #[trigger] r@[a]).pane_id@,
            decreases self.entries.len() - i,
        {
            let e = &self.entries[i];
            assert(self.entries@.take(i + 1).drop_last() =~= self.entries@.take(i as int));
            if !str_equal(e.pane_id.as_str(), pane_id) {
                let ghost before = r@;
                let entry = ScrollEntry { pane_id: e.pane_id.clone(), offset: e.offset };
                proof {
                    lemma_entries_map_push(before, entry);
                    lemma_entries_map_push(self.entries@.take(i as int), self.entries@[i as int]);
                    assert(self.entries@.take(i as int).push(self.entries@[i as int])
                        =~= self.entries@.take(i + 1));
                }
                r.push(entry);
                assert(entries_map(r@) =~= entries_map(self.entries@.take(i + 1)).remove(
                    pane_id@,
                ));
                assert forall|a: int, b: int|
                    0 <= a < b < r@.len() implies (#[trigger] r@[a]).pane_id@ != (
                    #[trigger] r@[b]).pane_id@ by {
                    if b == r@.len() - 1 {
                        let c = choose|c: int|
                            0 <= c < i && (#[trigger] self.entries@[c]).pane_id@ == r@[a].pane_id@;
                        assert(before[a] == r@[a]);
                    } else {
                        assert(before[a] == r@[a] && before[b] == r@[b]);
                    }
                }
                assert forall|a: int| 0 <= a < r@.len() implies exists|b: int|
                    0 <= b < i + 1 && (#[trigger] self.entries@[b]).pane_id@ == (
                    #[trigger] r@[a]).pane_id@ by {
                    if a < r@.len() - 1 {
                        assert(before[a] == r@[a]);
                        let c = choose|c: int|
                            0 <= c < i && (#[trigger] self.entries@[c]).pane_id@ == before[a].pane_id@;
                    } else {
                        assert(self.entries@[i as int].pane_id@ == r@[a].pane_id@);
                    }
                }
            } else {
                proof {
                    lemma_entries_map_push(self.entries@.take(i as int), self.entries@[i as int]);
                    assert(self.entries@.take(i as int).push(self.entries@[i as int])
                        =~= self.entries@.take(i + 1));
                }
                assert(entries_map(r@) =~= entries_map(self.entries@.take(i + 1)).remove(
                    pane_id@,
                ));
            }
            i = i + 1;
        }
        assert(self.entries@.take(self.entries@.len() as int) =~= self.entries@);
        r
    }

    /// Forgets the offset of `pane_id`.
    pub fn remove(&mut self, pane_id: &str)
        ensures
            final(self).view_map() == old(self).view_map().remove(pane_id@),
    {
        let r = self.without(pane_id);
        self.entries = r;
    }

    /// Records `offset` for `pane_id`; 0 forgets it.
    pub fn set(&mut self, pane_id: &str, offset: usize)
        ensures
            final(self).view_map() == (if offset == 0 {
                old(self).view_map().remove(pane_id@)
            } else {
                old(self).view_map().insert(pane_id@, offset)
            }),
    {
        let mut r = self.without(pane_id);
        if offset > 0 {
            let ghost before = r@;
            let entry = ScrollEntry { pane_id: pane_id.to_owned(), offset };
            proof {
                lemma_entries_map_push(before, entry);
            }
            r.push(entry);
            assert(entries_map(r@) =~= old(self).view_map().insert(pane_id@, offset));
            assert forall|a: int, b: int| 0 <= a < b < r@.len() implies (#[trigger] r@[a]).pane_id@
                != (#[trigger] r@[b]).pane_id@ by {
                if b == r@.len() - 1 {
                    assert(before[a] == r@[a]);
                } else {
                    assert(before[a] == r@[a] && before[b] == r@[b]);
                }
            }
        }
        self.entries = r;
    }

    /// Keeps only the offsets of panes in `panes`.
    pub fn retain_panes(&mut self, panes: &[Pane])
        ensures
            final(self).view_map() == old(self).view_map().restrict(pane_id_set(panes@)),
    {
        proof {
            use_type_invariant(&*self);
        }
        let mut r: Vec<ScrollEntry> = Vec::new();
        let mut i: usize = 0;
        let ghost keep = pane_id_set(panes@);
        assert(self.entries@.take(0) =~= Seq::<ScrollEntry>::empty());
        assert(entries_map(r@) =~= entries_map(self.entries@.take(0)).restrict(keep));
        while i < self.entries.len()
            invariant
                i <= self.entries.len(),
                keep == pane_id_set(panes@),
                entries_map(r@) == entries_map(self.entries@.take(i as int)).restrict(keep),
                forall|a: int, b: int|
                    0 <= a < b < self.entries@.len() ==> (#[trigger] self.entries@[a]).pane_id@
                        != (#[trigger] self.entries@[b]).pane_id@,
                forall|a: int| 0 <= a < self.entries@.len() ==> (#[trigger] self.entries@[a]).offset > 0,
                forall|a: int, b: int|
                    0 <= a < b < r@.len() ==> (#[trigger] r@[a]).pane_id@ != (
                    #[trigger] r@[b]).pane_id@,
                forall|a: int| 0 <= a < r@.len() ==> (#[trigger] r@[a]).offset > 0,
                forall|a: int|
                    0 <= a < r@.len() ==> exists|b: int|
                        0 <= b < i && (#[trigger] self.entries@[b]).pane_id@ == (
                        #[trigger] r@[a]).pane_id@,
            decreases self.entries.len() - i,
        {
            let e = &self.entries[i];
            assert(self.entries@.take(i + 1).drop_last() =~= self.entries@.take(i as int));
            proof {
                lemma_entries_map_push(self.entries@.take(i as int), self.entries@[i as int]);
                assert(self.entries@.take(i as int).push(self.entries@[i as int])
                    =~= self.entries@.take(i + 1));
            }
            if has_pane_id(panes, e.pane_id.as_str()) {
                let ghost before = r@;
                let entry = ScrollEntry { pane_id: e.pane_id.clone(), offset: e.offset };
                proof {
                    lemma_entries_map_push(before, entry);
                }
                r.push(entry);
                assert(entries_map(r@) =~= entries_map(self.entries@.take(i + 1)).restrict(keep));
                assert forall|a: int, b: int|
                    0 <= a < b < r@.len() implies (#[trigger] r@[a]).pane_id@ != (
                    #[trigger] r@[b]).pane_id@ by {
                    if b == r@.len() - 1 {
                        let c = choose|c: int|
                            0 <= c < i && (#[trigger] self.entries@[c]).pane_id@ == r@[a].pane_id@;
                        assert(before[a] == r@[a]);
                    } else {
                        assert(before[a] == r@[a] && before[b] == r@[b]);
                    }
                }
                assert forall|a: int| 0 <= a < r@.len() implies exists|b: int|
                    0 <= b < i + 1 && (#[trigger] self.entries@[b]).pane_id@ == (
                    #[trigger] r@[a]).pane_id@ by {
                    if a < r@.len() - 1 {
                        assert(before[a] == r@[a]);
                        let c = choose|c: int|
                            0 <= c < i && (#[trigger] self.entries@[c]).pane_id@ == before[a].pane_id@;
                    } else {
                        assert(self.entries@[i as int].pane_id@ == r@[a].pane_id@);
                    }
                }
            } else {
                assert(entries_map(r@) =~= entries_map(self.entries@.take(i + 1)).restrict(keep));
            }
            i = i + 1;
        }
        assert(self.entries@.take(self.entries@.len() as int) =~= self.entries@);
        self.entries = r;
    }

    /// Forgets all offsets.
    pub fn clear(&mut self)
        ensures
            final(self).view_map() == Map::<Seq<char>, usize>::empty(),
    {
        self.entries = Vec::new();
    }
}

/// The index chosen for `preferred` (or the first pane with that id), else
/// the first active pane, else `fallback` capped to the last pane; 0 for no
/// panes.
pub open spec fn is_pane_choice(
    panes: Seq<Pane>,
    preferred: Option<Seq<char>>,
    fallback: int,
    r: int,
) -> bool {
    let has_preferred = match preferred {
        Some(p) => exists|i: int| 0 <= i < panes.len() && (#[trigger] panes[i]).id@ == p,
        None => false,
    };
    let has_active = exists|i: int| 0 <= i < panes.len() && (#[trigger] panes[i]).active;
    if panes.len() == 0 {
        r == 0
    } else if has_preferred {
        0 <= r < panes.len() && panes[r].id@ == preferred->0 && forall|j: int|
            0 <= j < r ==> (#[trigger] panes[j]).id@ != preferred->0
    } else if has_active {
        0 <= r < panes.len() && panes[r].active && forall|j: int|
            0 <= j < r ==> !(#[trigger] panes[j]).active
    } else {
        r == if fallback < panes.len() - 1 {
            fallback
        } else {
            panes.len() - 1
        }
    }
}

/// The pane to select after the pane list changed: the previously
/// selected pane if it is still there, else the active pane, else the
/// previous index capped to the list.
pub fn select_pane_index(panes: &[Pane], preferred_id: Option<&str>, fallback: usize) -> (r: usize)
    ensures
        is_pane_choice(
            panes@,
            match preferred_id {
                Some(p) => Some(p@),
                None => None,
            },
            fallback as int,
            r as int,
        ),
{
    if panes.len() == 0 {
        return 0;
    }
    if let Some(preferred) = preferred_id {
        let mut i: usize = 0;
        while i < panes.len()
            invariant
                i <= panes.len(),
                preferred_id == Some(preferred),
                panes@.len() > 0,
                forall|j: int| 0 <= j < i ==> (#[trigger] panes@[j]).id@ != preferred@,
            decreases panes.len() - i,
        {
            if str_equal(panes[i].id.as_str(), preferred) {
                assert(panes@[i as int].id@ == preferred@);
                return i;
            }
            i = i + 1;
        }
    }
    let ghost no_preferred = match preferred_id {
        Some(p) => forall|j: int| 0 <= j < panes@.len() ==> (#[trigger] panes@[j]).id@ != p@,
        None => true,
    };
    assert(no_preferred);
    let mut k: usize = 0;
    while k < panes.len()
        invariant
            k <= panes.len(),
            no_preferred == match preferred_id {
                Some(p) => forall|j: int| 0 <= j < panes@.len() ==> (#[trigger] panes@[j]).id@ != p@,
                None => true,
            },
            no_preferred,
            forall|j: int| 0 <= j < k ==> !(#[trigger] panes@[j]).active,
        decreases panes.len() - k,
    {
        if panes[k].active {
            assert(panes@[k as int].active);
            return k;
        }
        k = k + 1;
    }
    if fallback < panes.len() - 1 {
        fallback
    } else {
        panes.len() - 1
    }
}

/// The position of the first pane with the id `pane_id`.
pub fn pane_position(panes: &[Pane], pane_id: &str) -> (r: Option<usize>)
    ensures
        match r {
            None => !pane_id_set(panes@).contains(pane_id@),
            Some(i) => i < panes@.len() && panes@[i as int].id@ == pane_id@ && forall|j: int|
                0 <= j < i ==> (#[trigger] panes@[j]).id@ != pane_id@,
        },
{
    let mut i: usize = 0;
    while i < panes.len()
        invariant
            i <= panes.len(),
            forall|j: int| 0 <= j < i ==> (#[trigger] panes@[j]).id@ != pane_id@,
        decreases panes.len() - i,
    {
        if str_equal(panes[i].id.as_str(), pane_id) {
            return Some(i);
        }
        i = i + 1;
    }
    None
}

/// `a` followed by `b`.
pub fn concat(a: &str, b: &str) -> (r: String)
    ensures
        r@ == a@ + b@,
{
    let mut r = String::new();
    push_str(&mut r, a);
    push_str(&mut r, b);
    assert(r@ =~= a@ + b@);
    r
}

/// The decoded capture of one pane.
pub struct PaneCapture {
    pub pane_id: String,
    pub lines: Vec<Line>,
}

/// A capture to take for one pane: its id, how many lines it shows, how
/// far it is scrolled back.
pub struct CaptureRequest {
    pub pane_id: String,
    pub height: usize,
    pub scroll_offset: usize,
}

/// What the session view asks tmux to do for a pane.
pub enum PaneCommand {
    Select { pane_id: String },
    Split { pane_id: String, direction: SplitDirection },
    Kill { pane_id: String },
    SendLiteral { pane_id: String, text: String },
    SendKey { pane_id: String, key: String },
}

/// A `PaneCommand` with its strings as character sequences.
pub enum CommandView {
    Select(Seq<char>),
    Split(Seq<char>, SplitDirection),
    Kill(Seq<char>),
    SendLiteral(Seq<char>, Seq<char>),
    SendKey(Seq<char>, Seq<char>),
}

impl View for PaneCommand {
    type V = CommandView;

    open spec fn view(&self) -> CommandView {
        match self {
            PaneCommand::Select { pane_id } => CommandView::Select(pane_id@),
            PaneCommand::Split { pane_id, direction } => CommandView::Split(pane_id@, *direction),
            PaneCommand::Kill { pane_id } => CommandView::Kill(pane_id@),
            PaneCommand::SendLiteral { pane_id, text } => CommandView::SendLiteral(pane_id@, text@),
            PaneCommand::SendKey { pane_id, key } => CommandView::SendKey(pane_id@, key@),
        }
    }
}

/// The state of the session view.
pub struct SessionViewState {
    pub session: String,
    pub panes: Vec<Pane>,
    pub selected_pane: usize,
    pub captures: Vec<PaneCapture>,
    pub scroll_offsets: ScrollOffsets,
    pub command_mode: bool,
    pub message: String,
}

/// The id of the selected pane, if the selection points at a pane.
pub open spec fn selected_id(state: &SessionViewState) -> Option<Seq<char>> {
    if state.selected_pane < state.panes@.len() {
        Some(state.panes@[state.selected_pane as int].id@)
    } else {
        None
    }
}

/// `a + b` for offsets, saturated at `usize::MAX`.
pub open spec fn offset_add(a: int, b: int) -> int {
    if a + b > usize::MAX {
        usize::MAX as int
    } else {
        a + b
    }
}

/// The offset after scrolling `delta` lines back (forward when negative),
/// saturating at both ends.
pub open spec fn scrolled(current: int, delta: int) -> int {
    if delta < 0 {
        if current + delta < 0 {
            0
        } else {
            current + delta
        }
    } else {
        offset_add(current, delta)
    }
}

/// The index before `i`, or 0.
pub open spec fn index_before(i: int) -> int {
    if i > 0 {
        i - 1
    } else {
        0
    }
}

/// The offset of `id` in a table of offsets (0 when absent).
pub open spec fn offset_in(m: Map<Seq<char>, usize>, id: Seq<char>) -> int {
    if m.contains_key(id) {
        m[id] as int
    } else {
        0
    }
}

impl SessionViewState {
    /// A view of `session` that has seen no panes yet.
    pub fn new(session: &str) -> (state: SessionViewState)
        ensures
            state.session@ == session@,
            state.panes@.len() == 0,
            state.selected_pane == 0,
            state.captures@.len() == 0,
            state.scroll_offsets.view_map() == Map::<Seq<char>, usize>::empty(),
            !state.command_mode,
            state.message@ == "opening session"@,
    {
        SessionViewState {
            session: session.to_owned(),
            panes: Vec::new(),
            selected_pane: 0,
            captures: Vec::new(),
            scroll_offsets: ScrollOffsets::new(),
            command_mode: false,
            message: "opening session".to_owned(),
        }
    }

    /// The id of the selected pane.
    pub fn selected_pane_id(&self) -> (id: Option<String>)
        ensures
            match id {
                Some(s) => selected_id(self) == Some(s@),
                None => selected_id(self) is None,
            },
    {
        if self.selected_pane < self.panes.len() {
            Some(self.panes[self.selected_pane].id.clone())
        } else {
            None
        }
    }

    /// How far `pane_id` is scrolled back; 0 is the live view.
    pub fn scroll_offset(&self, pane_id: &str) -> (offset: usize)
        ensures
            offset == offset_in(self.scroll_offsets.view_map(), pane_id@),
    {
        self.scroll_offsets.get(pane_id)
    }

    /// Scrolls the selected pane `delta` lines back (forward when
    /// negative); back at 0 it shows the live view again.
    pub fn scroll_selected(&mut self, delta: isize)
        ensures
            match selected_id(old(self)) {
                None => final(self).scroll_offsets.view_map() == old(self).scroll_offsets.view_map()
                    && final(self).message == old(self).message,
                Some(id) => {
                    let next = scrolled(offset_in(old(self).scroll_offsets.view_map(), id), delta as int);
                    &&& next == 0 ==> final(self).scroll_offsets.view_map() == old(self).scroll_offsets.view_map().remove(id) && final(self).message@ == "live view"@
                    &&& next != 0 ==> final(self).scroll_offsets.view_map() == old(self).scroll_offsets.view_map().insert(id, next as usize) && final(self).message@
                        == "scrollback -"@ + decimal(next as nat)
                },
            },
            final(self).panes == old(self).panes,
            final(self).selected_pane == old(self).selected_pane,
            final(self).command_mode == old(self).command_mode,
            final(self).session == old(self).session,
            final(self).captures == old(self).captures,
    {
        let pane_id = match self.selected_pane_id() {
            Some(id) => id,
            None => {
                return;
            },
        };
        let current = self.scroll_offset(pane_id.as_str());
        let next: usize = if delta < 0 {
            let back: usize = ((-(delta + 1)) as usize) + 1;
            if current < back {
                0
            } else {
                current - back
            }
        } else {
            current.saturating_add(delta as usize)
        };
        self.scroll_offsets.set(pane_id.as_str(), next);
        if next == 0 {
            self.message = "live view".to_owned();
        } else {
            let mut m = String::new();
            push_str(&mut m, "scrollback -");
            push_decimal(&mut m, next as u64);
            self.message = m;
        }
    }

    /// Returns the selected pane to its live view.
    pub fn reset_selected_scroll(&mut self)
        ensures
            match selected_id(old(self)) {
                None => final(self).scroll_offsets.view_map() == old(self).scroll_offsets.view_map(),
                Some(id) => final(self).scroll_offsets.view_map() == old(self).scroll_offsets.view_map().remove(id),
            },
            final(self).panes == old(self).panes,
            final(self).selected_pane == old(self).selected_pane,
            final(self).message == old(self).message,
            final(self).command_mode == old(self).command_mode,
            final(self).session == old(self).session,
            final(self).captures == old(self).captures,
    {
        if let Some(pane_id) = self.selected_pane_id() {
            self.scroll_offsets.remove(pane_id.as_str());
        }
    }

    /// Forgets the offsets of panes that are gone.
    pub fn prune_scroll_offsets(&mut self)
        ensures
            final(self).scroll_offsets.view_map() == old(self).scroll_offsets.view_map().restrict(
                pane_id_set(old(self).panes@),
            ),
            final(self).panes == old(self).panes,
            final(self).selected_pane == old(self).selected_pane,
            final(self).message == old(self).message,
            final(self).command_mode == old(self).command_mode,
            final(self).session == old(self).session,
            final(self).captures == old(self).captures,
    {
        self.scroll_offsets.retain_panes(self.panes.as_slice());
    }

    /// Selects the pane `pane_id` when it is shown, and asks tmux to make
    /// it active; nothing for an unknown pane.
    pub fn select_pane_id(&mut self, pane_id: &str) -> (command: Option<PaneCommand>)
        ensures
            match command {
                None => !pane_id_set(old(self).panes@).contains(pane_id@)
                    && final(self).selected_pane == old(self).selected_pane,
                Some(c) => pane_id_set(old(self).panes@).contains(pane_id@)
                    && final(self).selected_pane < old(self).panes@.len()
                    && old(self).panes@[final(self).selected_pane as int].id@ == pane_id@
                    && (forall|j: int|
                    0 <= j < final(self).selected_pane ==> (#[trigger] old(self).panes@[j]).id@
                        != pane_id@) && c@ == CommandView::Select(pane_id@),
            },
            final(self).panes == old(self).panes,
            final(self).message == old(self).message,
            final(self).scroll_offsets.view_map() == old(self).scroll_offsets.view_map(),
            final(self).command_mode == old(self).command_mode,
            final(self).session == old(self).session,
            final(self).captures == old(self).captures,
    {
        match pane_position(self.panes.as_slice(), pane_id) {
            Some(i) => {
                self.selected_pane = i;
                Some(PaneCommand::Select { pane_id: pane_id.to_owned() })
            },
            None => None,
        }
    }

    /// Asks tmux to split the selected pane.
    pub fn split_selected_pane(&mut self, direction: SplitDirection) -> (command: Option<
        PaneCommand,
    >)
        ensures
            match selected_id(old(self)) {
                None => command is None && final(self).message@ == "no pane selected"@,
                Some(id) => command is Some && command->0@ == CommandView::Split(id, direction)
                    && final(self).message == old(self).message,
            },
            final(self).panes == old(self).panes,
            final(self).selected_pane == old(self).selected_pane,
            final(self).scroll_offsets.view_map() == old(self).scroll_offsets.view_map(),
            final(self).command_mode == old(self).command_mode,
            final(self).session == old(self).session,
            final(self).captures == old(self).captures,
    {
        match self.selected_pane_id() {
            None => {
                self.message = "no pane selected".to_owned();
                None
            },
            Some(pane_id) => Some(PaneCommand::Split { pane_id, direction }),
        }
    }

    /// Asks tmux to close the selected pane, unless it is the last one.
    pub fn close_selected_pane(&mut self) -> (command: Option<PaneCommand>)
        ensures
            old(self).panes@.len() <= 1 ==> command is None && final(self).message@
                == "not closing the last pane"@,
            old(self).panes@.len() > 1 ==> match selected_id(old(self)) {
                None => command is None && final(self).message@ == "no pane selected"@,
                Some(id) => command is Some && command->0@ == CommandView::Kill(id) && final(self).message == old(self).message,
            },
            final(self).panes == old(self).panes,
            final(self).selected_pane == old(self).selected_pane,
            final(self).scroll_offsets.view_map() == old(self).scroll_offsets.view_map(),
            final(self).command_mode == old(self).command_mode,
            final(self).session == old(self).session,
            final(self).captures == old(self).captures,
    {
        if self.panes.len() <= 1 {
            self.message = "not closing the last pane".to_owned();
            return None;
        }
        match self.selected_pane_id() {
            None => {
                self.message = "no pane selected".to_owned();
                None
            },
            Some(pane_id) => Some(PaneCommand::Kill { pane_id }),
        }
    }

    /// Asks tmux to type `text` into the selected pane, which returns to
    /// its live view.
    pub fn send_literal(&mut self, text: &str) -> (command: Option<PaneCommand>)
        ensures
            match selected_id(old(self)) {
                None => command is None && final(self).message@ == "no pane selected"@
                    && final(self).scroll_offsets.view_map() == old(self).scroll_offsets.view_map(),
                Some(id) => command is Some && command->0@ == CommandView::SendLiteral(id, text@)
                    && final(self).message == old(self).message
                    && final(self).scroll_offsets.view_map() == old(self).scroll_offsets.view_map().remove(id),
            },
            final(self).panes == old(self).panes,
            final(self).selected_pane == old(self).selected_pane,
            final(self).command_mode == old(self).command_mode,
            final(self).session == old(self).session,
            final(self).captures == old(self).captures,
    {
        match self.selected_pane_id() {
            None => {
                self.message = "no pane selected".to_owned();
                None
            },
            Some(pane_id) => {
                self.reset_selected_scroll();
                Some(PaneCommand::SendLiteral { pane_id, text: text.to_owned() })
            },
        }
    }

    /// Asks tmux to press the named key in the selected pane, which returns
    /// to its live view.
    pub fn send_key(&mut self, key: &str) -> (command: Option<PaneCommand>)
        ensures
            match selected_id(old(self)) {
                None => command is None && final(self).message@ == "no pane selected"@
                    && final(self).scroll_offsets.view_map() == old(self).scroll_offsets.view_map(),
                Some(id) => command is Some && command->0@ == CommandView::SendKey(id, key@)
                    && final(self).message == old(self).message
                    && final(self).scroll_offsets.view_map() == old(self).scroll_offsets.view_map().remove(id),
            },
            final(self).panes == old(self).panes,
            final(self).selected_pane == old(self).selected_pane,
            final(self).command_mode == old(self).command_mode,
            final(self).session == old(self).session,
            final(self).captures == old(self).captures,
    {
        match self.selected_pane_id() {
            None => {
                self.message = "no pane selected".to_owned();
                None
            },
            Some(pane_id) => {
                self.reset_selected_scroll();
                Some(PaneCommand::SendKey { pane_id, key: key.to_owned() })
            },
        }
    }

    /// Takes in what tmux answered to `command`: a split drops all scroll
    /// offsets and selects the new pane; a closed pane loses its offset and
    /// the selection moves up; failures are reported.
    pub fn apply_outcome(&mut self, command: &PaneCommand, outcome: Result<(), String>)
        ensures
            match (command@, outcome) {
                (CommandView::Select(id), Ok(())) => final(self).message@ == "selected pane "@ + id,
                (CommandView::Select(_), Err(e)) => final(self).message@ == "select failed: "@ + e@,
                (CommandView::Split(_, d), Ok(())) => final(self).scroll_offsets.view_map()
                    == Map::<Seq<char>, usize>::empty() && final(self).selected_pane == old(self).panes@.len() && final(self).message@ == (match d {
                    SplitDirection::Right => "split pane right"@,
                    SplitDirection::Down => "split pane down"@,
                }),
                (CommandView::Split(_, _), Err(e)) => final(self).message@ == "split failed: "@
                    + e@,
                (CommandView::Kill(id), Ok(())) => final(self).scroll_offsets.view_map() == old(self).scroll_offsets.view_map().remove(id) && final(self).selected_pane
                    == index_before(old(self).selected_pane as int) && final(self).message@
                    == "closed pane "@ + id,
                (CommandView::Kill(_), Err(e)) => final(self).message@ == "close failed: "@ + e@,
                (CommandView::SendLiteral(_, _), Ok(())) => final(self).message == old(self).message,
                (CommandView::SendKey(_, _), Ok(())) => final(self).message == old(self).message,
                (_, Err(e)) => final(self).message@ == "send failed: "@ + e@,
            },
            !(command@ is Split && outcome is Ok) && !(command@ is Kill && outcome is Ok) ==> final(self).selected_pane == old(self).selected_pane && final(self).scroll_offsets.view_map()
                == old(self).scroll_offsets.view_map(),
            final(self).panes == old(self).panes,
            final(self).command_mode == old(self).command_mode,
            final(self).session == old(self).session,
            final(self).captures == old(self).captures,
    {
        match command {
            PaneCommand::Select { pane_id } => match outcome {
                Ok(()) => {
                    self.message = concat("selected pane ", pane_id.as_str());
                },
                Err(e) => {
                    self.message = concat("select failed: ", e.as_str());
                },
            },
            PaneCommand::Split { pane_id: _, direction } => match outcome {
                Ok(()) => {
                    self.scroll_offsets.clear();
                    self.selected_pane = self.panes.len();
                    self.message = match direction {
                        SplitDirection::Right => "split pane right".to_owned(),
                        SplitDirection::Down => "split pane down".to_owned(),
                    };
                },
                Err(e) => {
                    self.message = concat("split failed: ", e.as_str());
                },
            },
            PaneCommand::Kill { pane_id } => match outcome {
                Ok(()) => {
                    self.scroll_offsets.remove(pane_id.as_str());
                    self.selected_pane = self.selected_pane.saturating_sub(1);
                    self.message = concat("closed pane ", pane_id.as_str());
                },
                Err(e) => {
                    self.message = concat("close failed: ", e.as_str());
                },
            },
            PaneCommand::SendLiteral { .. } | PaneCommand::SendKey { .. } => {
                if let Err(e) = outcome {
                    self.message = concat("send failed: ", e.as_str());
                }
            },
        }
    }
}

/// A key as the session view reads it.
#[derive(Debug, Clone, Copy, PartialEq, Eq, Structural)]
pub enum KeyCode {
    Char(char),
    Enter,
    Tab,
    BackTab,
    Backspace,
    Esc,
    Up,
    Down,
    Left,
    Right,
    Home,
    End,
    PageUp,
    PageDown,
    Delete,
    Insert,
    F(u8),
    Other,
}

/// A key press with its Control and Alt modifiers.
#[derive(Debug, Clone, Copy, PartialEq, Eq, Structural)]
pub struct KeyInput {
    pub code: KeyCode,
    pub ctrl: bool,
    pub alt: bool,
}

/// What a key forwarded to the pane becomes: a named tmux key, or text.
pub enum KeyAction {
    Key(Seq<char>),
    Literal(Seq<char>),
}

/// tmux's name for a key that is not a character.
pub open spec fn named_key(code: KeyCode) -> Option<Seq<char>> {
    match code {
        KeyCode::Enter => Some("Enter"@),
        KeyCode::Tab => Some("Tab"@),
        KeyCode::BackTab => Some("BTab"@),
        KeyCode::Backspace => Some("BSpace"@),
        KeyCode::Esc => Some("Escape"@),
        KeyCode::Up => Some("Up"@),
        KeyCode::Down => Some("Down"@),
        KeyCode::Left => Some("Left"@),
        KeyCode::Right => Some("Right"@),
        KeyCode::Home => Some("Home"@),
        KeyCode::End => Some("End"@),
        KeyCode::PageUp => Some("PPage"@),
        KeyCode::PageDown => Some("NPage"@),
        KeyCode::Delete => Some("Delete"@),
        KeyCode::Insert => Some("Insert"@),
        KeyCode::F(n) => Some(seq!['F'] + decimal(n as nat)),
        _ => None,
    }
}

pub open spec fn is_ascii_alpha(c: char) -> bool {
    ('a' <= c && c <= 'z') || ('A' <= c && c <= 'Z')
}

pub open spec fn ascii_lower(c: char) -> char {
    if 'A' <= c && c <= 'Z' {
        ((c as int) + 32) as char
    } else {
        c
    }
}

/// What a key sends to the selected pane outside command mode: Control
/// with a letter as `C-<letter>`, Alt with a character as Escape and the
/// character, a character as text, other keys by their tmux name.
pub open spec fn forwarded(key: KeyInput) -> Seq<KeyAction> {
    match key.code {
        KeyCode::Char(ch) => if key.ctrl && is_ascii_alpha(ch) {
            seq![KeyAction::Key(seq!['C', '-', ascii_lower(ch)])]
        } else if key.alt {
            seq![KeyAction::Key("Escape"@), KeyAction::Literal(seq![ch])]
        } else {
            seq![KeyAction::Literal(seq![ch])]
        },
        _ => match named_key(key.code) {
            Some(name) => seq![KeyAction::Key(name)],
            None => Seq::<KeyAction>::empty(),
        },
    }
}

/// The command that sends a key action to the pane `id`.
pub open spec fn action_command(id: Seq<char>, a: KeyAction) -> CommandView {
    match a {
        KeyAction::Key(k) => CommandView::SendKey(id, k),
        KeyAction::Literal(t) => CommandView::SendLiteral(id, t),
    }
}

/// The commands as views.
pub open spec fn commands_view(v: Seq<PaneCommand>) -> Seq<CommandView> {
    v.map_values(|c: PaneCommand| c@)
}

/// The pane list, the selection, the session and the captures are the
/// same in `a` and `b`.
pub open spec fn same_panes(a: SessionViewState, b: SessionViewState) -> bool {
    &&& a.panes == b.panes
    &&& a.selected_pane == b.selected_pane
    &&& a.session == b.session
    &&& a.captures == b.captures
}

/// Forwarding `key` took `old` to `new` and asked for `commands`: with a
/// selected pane, one command per action and that pane back at its live
/// view; without one, nothing sent and, if the key sends anything, "no pane
/// selected".
pub open spec fn forwards(
    old: SessionViewState,
    new: SessionViewState,
    key: KeyInput,
    commands: Seq<CommandView>,
) -> bool {
    let acts = forwarded(key);
    &&& same_panes(old, new)
    &&& new.command_mode == old.command_mode
    &&& match selected_id(&old) {
        None => {
            &&& commands.len() == 0
            &&& new.scroll_offsets.view_map() == old.scroll_offsets.view_map()
            &&& acts.len() > 0 ==> new.message@ == "no pane selected"@
            &&& acts.len() == 0 ==> new.message == old.message
        },
        Some(id) => {
            &&& commands == acts.map_values(|a: KeyAction| action_command(id, a))
            &&& new.message == old.message
            &&& acts.len() > 0 ==> new.scroll_offsets.view_map() == old.scroll_offsets.view_map().remove(id)
            &&& acts.len() == 0 ==> new.scroll_offsets.view_map() == old.scroll_offsets.view_map()
        },
    }
}

/// The split that `old` asked for in the direction `d`, leaving command
/// mode.
pub open spec fn splits(
    old: SessionViewState,
    new: SessionViewState,
    d: SplitDirection,
    commands: Seq<CommandView>,
) -> bool {
    &&& same_panes(old, new)
    &&& !new.command_mode
    &&& new.scroll_offsets.view_map() == old.scroll_offsets.view_map()
    &&& match selected_id(&old) {
        None => commands.len() == 0 && new.message@ == "no pane selected"@,
        Some(id) => commands == seq![CommandView::Split(id, d)] && new.message == old.message,
    }
}

/// The close that `old` asked for, leaving command mode.
pub open spec fn closes(old: SessionViewState, new: SessionViewState, commands: Seq<CommandView>) -> bool {
    &&& same_panes(old, new)
    &&& !new.command_mode
    &&& new.scroll_offsets.view_map() == old.scroll_offsets.view_map()
    &&& if old.panes@.len() <= 1 {
        commands.len() == 0 && new.message@ == "not closing the last pane"@
    } else {
        match selected_id(&old) {
            None => commands.len() == 0 && new.message@ == "no pane selected"@,
            Some(id) => commands == seq![CommandView::Kill(id)] && new.message == old.message,
        }
    }
}

/// Only the message and the mode may have changed, to `message` and
/// `mode`; nothing is sent.
pub open spec fn just_says(
    old: SessionViewState,
    new: SessionViewState,
    mode: bool,
    message: Seq<char>,
    commands: Seq<CommandView>,
) -> bool {
    &&& same_panes(old, new)
    &&& new.scroll_offsets.view_map() == old.scroll_offsets.view_map()
    &&& new.command_mode == mode
    &&& new.message@ == message
    &&& commands.len() == 0
}

/// Nothing changed and nothing is sent.
pub open spec fn unchanged(old: SessionViewState, new: SessionViewState, commands: Seq<CommandView>) -> bool {
    &&& same_panes(old, new)
    &&& new.scroll_offsets.view_map() == old.scroll_offsets.view_map()
    &&& new.command_mode == old.command_mode
    &&& new.message == old.message
    &&& commands.len() == 0
}

/// What a key does in command mode: Esc cancels, `v` or `|` splits right,
/// `h` or `-` splits down, `x` closes the pane, `r` refreshes, `q` leaves
/// the view (`false`), another character is unknown and keeps command
/// mode, other keys do nothing.
pub open spec fn command_key_effect(
    old: SessionViewState,
    new: SessionViewState,
    key: KeyInput,
    keep: bool,
    commands: Seq<CommandView>,
) -> bool {
    match key.code {
        KeyCode::Esc => keep && just_says(old, new, false, "command mode canceled"@, commands),
        KeyCode::Char(ch) => if ch == 'v' || ch == '|' {
            keep && splits(old, new, SplitDirection::Right, commands)
        } else if ch == 'h' || ch == '-' {
            keep && splits(old, new, SplitDirection::Down, commands)
        } else if ch == 'x' {
            keep && closes(old, new, commands)
        } else if ch == 'r' {
            keep && just_says(old, new, false, "refreshed"@, commands)
        } else if ch == 'q' {
            !keep && unchanged(old, new, commands)
        } else {
            keep && just_says(old, new, true, "unknown command: "@ + seq![ch], commands)
        },
        _ => keep && unchanged(old, new, commands),
    }
}

/// Outside command mode, with the pane `id` selected, every key reaches
/// that pane: a key that is not a character under tmux's name for that
/// same key (Enter as `Enter`, Tab as `Tab`, Shift-Tab as `BTab`,
/// Backspace as `BSpace`, Esc as `Escape`, the arrows as `Up`, `Down`,
/// `Left` and `Right`, Home as `Home`, End as `End`, Page Up as `PPage`,
/// Page Down as `NPage`, Delete as `Delete`, Insert as `Insert`, F`n` as
/// `F<n>`); Control with a letter as `C-` and the letter in lower case;
/// Alt with a character as Escape followed by the character as text; any
/// other character as text.
pub proof fn lemma_keys_reach_the_pane(
    old: SessionViewState,
    new: SessionViewState,
    key: KeyInput,
    commands: Seq<CommandView>,
    id: Seq<char>,
)
    requires
        forwards(old, new, key, commands),
        selected_id(&old) == Some(id),
    ensures
        ({
            let sends = |name: Seq<char>| commands == seq![CommandView::SendKey(id, name)];
            match key.code {
                KeyCode::Enter => sends("Enter"@),
                KeyCode::Tab => sends("Tab"@),
                KeyCode::BackTab => sends("BTab"@),
                KeyCode::Backspace => sends("BSpace"@),
                KeyCode::Esc => sends("Escape"@),
                KeyCode::Up => sends("Up"@),
                KeyCode::Down => sends("Down"@),
                KeyCode::Left => sends("Left"@),
                KeyCode::Right => sends("Right"@),
                KeyCode::Home => sends("Home"@),
                KeyCode::End => sends("End"@),
                KeyCode::PageUp => sends("PPage"@),
                KeyCode::PageDown => sends("NPage"@),
                KeyCode::Delete => sends("Delete"@),
                KeyCode::Insert => sends("Insert"@),
                KeyCode::F(n) => sends(seq!['F'] + decimal(n as nat)),
                KeyCode::Char(c) => if key.ctrl && (('a' <= c && c <= 'z') || ('A' <= c && c <= 'Z')) {
                    commands.len() == 1 && (commands[0] matches CommandView::SendKey(p, name) && p == id
                        && name.len() == 3 && name[0] == 'C' && name[1] == '-' && 'a' <= name[2]
                        && name[2] <= 'z' && (name[2] == c || name[2] as int == c as int + 32))
                } else if key.alt {
                    commands == seq![
                        CommandView::SendKey(id, "Escape"@),
                        CommandView::SendLiteral(id, seq![c]),
                    ]
                } else {
                    commands == seq![CommandView::SendLiteral(id, seq![c])]
                },
                KeyCode::Other => commands.len() == 0,
            }
        }),
{
    let acts = forwarded(key);
    assert(commands == acts.map_values(|a: KeyAction| action_command(id, a)));
    match key.code {
        KeyCode::Char(c) => {
            if key.ctrl && (('a' <= c && c <= 'z') || ('A' <= c && c <= 'Z')) {
                assert(commands[0] == action_command(id, acts[0]));
            } else if key.alt {
                assert(commands =~= seq![
                    CommandView::SendKey(id, "Escape"@),
                    CommandView::SendLiteral(id, seq![c]),
                ]);
            } else {
                assert(commands =~= seq![CommandView::SendLiteral(id, seq![c])]);
            }
        },
        KeyCode::Other => {},
        _ => {
            assert(acts.len() == 1);
            assert(commands =~= seq![action_command(id, acts[0])]);
        },
    }
}

/// In command mode, with the pane `id` selected: `v` and `|` ask for a
/// split of that pane with the new pane to the right, `h` and `-` for one
/// with the new pane below, `x` closes it unless it is the only pane, Esc
/// and `r` send nothing; each of these leaves command mode and keeps the
/// view open, while `q` leaves the view.
pub proof fn lemma_command_keys(
    old: SessionViewState,
    new: SessionViewState,
    key: KeyInput,
    keep: bool,
    commands: Seq<CommandView>,
    id: Seq<char>,
)
    requires
        command_key_effect(old, new, key, keep, commands),
        selected_id(&old) == Some(id),
    ensures
        (key.code == KeyCode::Char('v') || key.code == KeyCode::Char('|')) ==> keep && !new.command_mode
            && commands == seq![CommandView::Split(id, SplitDirection::Right)],
        (key.code == KeyCode::Char('h') || key.code == KeyCode::Char('-')) ==> keep && !new.command_mode
            && commands == seq![CommandView::Split(id, SplitDirection::Down)],
        key.code == KeyCode::Char('x') ==> keep && !new.command_mode && (old.panes@.len() > 1 ==> commands
            == seq![CommandView::Kill(id)]) && (old.panes@.len() <= 1 ==> commands.len() == 0),
        (key.code == KeyCode::Esc || key.code == KeyCode::Char('r')) ==> keep && !new.command_mode
            && commands.len() == 0,
        key.code == KeyCode::Char('q') ==> !keep && commands.len() == 0,
{
}

/// Control-A, the key that enters command mode.
pub open spec fn is_command_prefix(key: KeyInput) -> bool {
    key.ctrl && (key.code == KeyCode::Char('a') || key.code == KeyCode::Char('A'))
}

/// Control-A (in either case), and no other key, enters command mode.
pub proof fn lemma_command_prefix(key: KeyInput)
    ensures
        is_command_prefix(key) <==> key.ctrl && (key.code == KeyCode::Char('a') || key.code
            == KeyCode::Char('A')),
{
}

/// The F-key name `F<n>`.
fn function_key_name(n: u8) -> (s: String)
    ensures
        s@ == seq!['F'] + decimal(n as nat),
{
    let mut s = String::new();
    crate::text::push_char(&mut s, 'F');
    push_decimal(&mut s, n as u64);
    assert(s@ =~= seq!['F'] + decimal(n as nat));
    s
}

fn named_key_string(code: KeyCode) -> (r: Option<String>)
    ensures
        match r {
            Some(s) => named_key(code) == Some(s@),
            None => named_key(code) is None,
        },
{
    match code {
        KeyCode::Enter => Some("Enter".to_owned()),
        KeyCode::Tab => Some("Tab".to_owned()),
        KeyCode::BackTab => Some("BTab".to_owned()),
        KeyCode::Backspace => Some("BSpace".to_owned()),
        KeyCode::Esc => Some("Escape".to_owned()),
        KeyCode::Up => Some("Up".to_owned()),
        KeyCode::Down => Some("Down".to_owned()),
        KeyCode::Left => Some("Left".to_owned()),
        KeyCode::Right => Some("Right".to_owned()),
        KeyCode::Home => Some("Home".to_owned()),
        KeyCode::End => Some("End".to_owned()),
        KeyCode::PageUp => Some("PPage".to_owned()),
        KeyCode::PageDown => Some("NPage".to_owned()),
        KeyCode::Delete => Some("Delete".to_owned()),
        KeyCode::Insert => Some("Insert".to_owned()),
        KeyCode::F(n) => Some(function_key_name(n)),
        _ => None,
    }
}

fn char_string(c: char) -> (s: String)
    ensures
        s@ == seq![c],
{
    let mut s = String::new();
    crate::text::push_char(&mut s, c);
    assert(s@ =~= seq![c]);
    s
}

impl SessionViewState {
    /// Forwards `key` to the selected pane.
    pub fn forward_key(&mut self, key: KeyInput) -> (commands: Vec<PaneCommand>)
        ensures
            forwards(*old(self), *final(self), key, commands_view(commands@)),
    {
        let mut commands: Vec<PaneCommand> = Vec::new();
        let ghost acts = forwarded(key);
        let ghost sel = selected_id(self);
        match key.code {
            KeyCode::Char(ch) => {
                if key.ctrl && (('a' <= ch && ch <= 'z') || ('A' <= ch && ch <= 'Z')) {
                    let lower = if 'A' <= ch && ch <= 'Z' {
                        ((ch as u8) + 32) as char
                    } else {
                        ch
                    };
                    assert(lower == ascii_lower(ch));
                    let mut name = String::new();
                    push_str(&mut name, "C-");
                    crate::text::push_char(&mut name, lower);
                    proof {
                        reveal_strlit("C-");
                    }
                    assert(name@ =~= seq!['C', '-', ascii_lower(ch)]);
                    if let Some(c) = self.send_key(name.as_str()) {
                        commands.push(c);
                    }
                } else if key.alt {
                    if let Some(c) = self.send_key("Escape") {
                        commands.push(c);
                    }
                    let text = char_string(ch);
                    if let Some(c) = self.send_literal(text.as_str()) {
                        commands.push(c);
                    }
                    proof {
                        if let Some(id) = sel {
                            assert(self.scroll_offsets.view_map() =~= old(
                                self,
                            ).scroll_offsets.view_map().remove(id));
                        }
                    }
                } else {
                    let text = char_string(ch);
                    if let Some(c) = self.send_literal(text.as_str()) {
                        commands.push(c);
                    }
                }
            },
            _ => {
                if let Some(name) = named_key_string(key.code) {
                    if let Some(c) = self.send_key(name.as_str()) {
                        commands.push(c);
                    }
                }
            },
        }
        assert(commands_view(commands@) =~= match sel {
            None => Seq::<CommandView>::empty(),
            Some(id) => acts.map_values(|a: KeyAction| action_command(id, a)),
        });
        commands
    }

    /// Handles a key in command mode; `false` leaves the view.
    fn handle_command_key(&mut self, key: KeyInput) -> (r: (bool, Vec<PaneCommand>))
        requires
            old(self).command_mode,
        ensures
            command_key_effect(*old(self), *final(self), key, r.0, commands_view(r.1@)),
    {
        let mut commands: Vec<PaneCommand> = Vec::new();
        assert(commands_view(commands@) =~= Seq::<CommandView>::empty());
        match key.code {
            KeyCode::Esc => {
                self.command_mode = false;
                self.message = "command mode canceled".to_owned();
                (true, commands)
            },
            KeyCode::Char(ch) => {
                if ch == 'v' || ch == '|' {
                    self.command_mode = false;
                    if let Some(c) = self.split_selected_pane(SplitDirection::Right) {
                        commands.push(c);
                    }
                    assert(commands_view(commands@) =~= match selected_id(old(self)) {
                        None => Seq::<CommandView>::empty(),
                        Some(id) => seq![CommandView::Split(id, SplitDirection::Right)],
                    });
                    (true, commands)
                } else if ch == 'h' || ch == '-' {
                    self.command_mode = false;
                    if let Some(c) = self.split_selected_pane(SplitDirection::Down) {
                        commands.push(c);
                    }
                    assert(commands_view(commands@) =~= match selected_id(old(self)) {
                        None => Seq::<CommandView>::empty(),
                        Some(id) => seq![CommandView::Split(id, SplitDirection::Down)],
                    });
                    (true, commands)
                } else if ch == 'x' {
                    self.command_mode = false;
                    if let Some(c) = self.close_selected_pane() {
                        commands.push(c);
                    }
                    assert(commands_view(commands@).len() == 0 || commands_view(commands@)
                        =~= seq![commands@[0]@]);
                    (true, commands)
                } else if ch == 'r' {
                    self.command_mode = false;
                    self.message = "refreshed".to_owned();
                    (true, commands)
                } else if ch == 'q' {
                    (false, commands)
                } else {
                    let mut m = String::new();
                    push_str(&mut m, "unknown command: ");
                    crate::text::push_char(&mut m, ch);
                    assert(m@ =~= "unknown command: "@ + seq![ch]);
                    self.message = m;
                    (true, commands)
                }
            },
            _ => (true, commands),
        }
    }

    /// Handles a key: in command mode as a command, Control-A enters
    /// command mode, any other key goes to the selected pane. `false`
    /// leaves the view.
    pub fn handle_key(&mut self, key: KeyInput) -> (r: (bool, Vec<PaneCommand>))
        ensures
            old(self).command_mode ==> command_key_effect(
                *old(self),
                *final(self),
                key,
                r.0,
                commands_view(r.1@),
            ),
            !old(self).command_mode && is_command_prefix(key) ==> r.0 && just_says(
                *old(self),
                *final(self),
                true,
                "command mode"@,
                commands_view(r.1@),
            ),
            !old(self).command_mode && !is_command_prefix(key) ==> r.0 && forwards(
                *old(self),
                *final(self),
                key,
                commands_view(r.1@),
            ),
    {
        if self.command_mode {
            return self.handle_command_key(key);
        }
        if key.ctrl && (key.code == KeyCode::Char('a') || key.code == KeyCode::Char('A')) {
            self.command_mode = true;
            self.message = "command mode".to_owned();
            let commands: Vec<PaneCommand> = Vec::new();
            assert(commands_view(commands@) =~= Seq::<CommandView>::empty());
            return (true, commands);
        }
        let commands = self.forward_key(key);
        (true, commands)
    }
}

/// The captures as a map from pane id to decoded lines, later entries
/// winning.
pub open spec fn captures_map(v: Seq<PaneCapture>) -> Map<Seq<char>, Seq<Seq<(Seq<char>, Style)>>>
    decreases v.len(),
{
    if v.len() == 0 {
        Map::empty()
    } else {
        captures_map(v.drop_last()).insert(v.last().pane_id@, lines_view(v.last().lines@))
    }
}

proof fn lemma_captures_map_push(v: Seq<PaneCapture>, c: PaneCapture)
    ensures
        captures_map(v.push(c)) == captures_map(v).insert(c.pane_id@, lines_view(c.lines@)),
{
    assert(v.push(c).drop_last() =~= v);
}

/// The lines shown for a pane whose capture failed.
pub open spec fn capture_failure_lines(error: Seq<char>) -> Seq<Seq<(Seq<char>, Style)>> {
    seq![seq![("capture failed: "@ + error, Style { fg: Some(Color::Red), ..plain_style() })]]
}

/// The area in which a session view draws panes: the terminal area
/// without its last row, which holds the footer.
pub uninterp spec fn body_layout(x: u16, y: u16, width: u16, height: u16) -> (u16, u16, u16, u16);

/// Splits `area` into the body and a one-row footer with ratatui's
/// `Layout::vertical([Constraint::Min(1), Constraint::Length(1)])` and
/// returns the body. The contract names the result, which ratatui's layout
/// solver decides from the area alone, and states what ratatui's source
/// shows of every vertical split: the body keeps the area's columns, and
/// its rows lie within the area's (the solver holds every segment between
/// the area's top and bottom edges); and, for an area of two rows or more
/// within the cell range, the body is every row but the last (the footer's
/// `Length(1)` outweighs the preference of `Min(1)` for exactly one row,
/// and nothing lies between the two). For an area of one row, which of the
/// two gets the row is left unsaid.
#[verifier::external_body]
fn layout_body(area: Rect) -> (body: Rect)
    ensures
        (body.x, body.y, body.width, body.height) == body_layout(area.x, area.y, area.width, area.height),
        body.x == area.x,
        body.width == area.width,
        area.y <= body.y,
        body.y + body.height <= sat_add(area.y as int, area.height as int),
        area.height >= 2 && area.y + area.height <= u16::MAX ==> body.y == area.y && body.height
            == area.height - 1,
{
    let area = ratatui::layout::Rect { x: area.x, y: area.y, width: area.width, height: area.height };
    let [body, _footer] = ratatui::layout::Layout::vertical(
        [ratatui::layout::Constraint::Min(1), ratatui::layout::Constraint::Length(1)],
    ).areas(area);
    Rect { x: body.x, y: body.y, width: body.width, height: body.height }
}

/// The part of the terminal area `area` in which panes are drawn: the
/// area's columns, and all its rows but the last, which holds the footer.
pub fn body_area(area: Rect) -> (body: Rect)
    ensures
        (body.x, body.y, body.width, body.height) == body_layout(area.x, area.y, area.width, area.height),
        body.x == area.x,
        body.width == area.width,
        area.y <= body.y,
        body.y + body.height <= sat_add(area.y as int, area.height as int),
        area.height >= 2 && area.y + area.height <= u16::MAX ==> body.y == area.y && body.height
            == area.height - 1,
        rect_fits(area) ==> rect_fits(body),
{
    layout_body(area)
}

/// `new` is `old` after taking in the pane list `panes` for a body at
/// `body`, where `message` was the message just before: the selected pane
/// is kept when it is still there (else the active pane, else the old
/// index capped), offsets of panes that are gone are forgotten and so are
/// the old captures, the panes are counted in the message while the view
/// is opening, and `requests` asks for one capture per pane, in order, of
/// the height the pane is drawn with and at its scroll offset.
pub open spec fn accepted(
    old: SessionViewState,
    message: Seq<char>,
    new: SessionViewState,
    panes: Seq<Pane>,
    body: Rect,
    requests: Seq<CaptureRequest>,
) -> bool {
    &&& new.panes@ == panes
    &&& is_pane_choice(panes, selected_id(&old), old.selected_pane as int, new.selected_pane as int)
    &&& new.scroll_offsets.view_map() == old.scroll_offsets.view_map().restrict(pane_id_set(panes))
    &&& new.captures@.len() == 0
    &&& message == "opening session"@ ==> new.message@ == decimal(panes.len() as nat) + " panes"@
    &&& message != "opening session"@ ==> new.message@ == message
    &&& new.session == old.session
    &&& new.command_mode == old.command_mode
    &&& requests.len() == panes.len()
    &&& forall|i: int|
        0 <= i < panes.len() ==> {
            let r = #[trigger] requests[i];
            &&& r.pane_id@ == panes[i].id@
            &&& r.height == pane_area_of(body, panes[i], panes).height
            &&& r.scroll_offset == offset_in(new.scroll_offsets.view_map(), panes[i].id@)
        }
}

impl SessionViewState {
    /// Takes in a fresh pane list from tmux: keeps the selected pane when
    /// it is still there (else the active pane, else the old index capped),
    /// forgets offsets of panes that are gone and the old captures, counts
    /// the panes in the message while the view is opening, and returns what
    /// to capture for each pane.
    pub fn accept_panes(&mut self, panes: Vec<Pane>, body: Rect) -> (requests: Vec<CaptureRequest>)
        requires
            rect_fits(body),
        ensures
            accepted(*old(self), old(self).message@, *final(self), panes@, body, requests@),
    {
        let previous = self.selected_pane_id();
        let fallback = self.selected_pane;
        self.panes = panes;
        self.selected_pane = match &previous {
            Some(id) => select_pane_index(self.panes.as_slice(), Some(id.as_str()), fallback),
            None => select_pane_index(self.panes.as_slice(), None, fallback),
        };
        self.prune_scroll_offsets();
        self.captures = Vec::new();
        if str_equal(self.message.as_str(), "opening session") {
            let mut m = String::new();
            push_decimal(&mut m, self.panes.len() as u64);
            push_str(&mut m, " panes");
            self.message = m;
        }
        let mut requests: Vec<CaptureRequest> = Vec::new();
        let mut i: usize = 0;
        while i < self.panes.len()
            invariant
                i <= self.panes.len(),
                rect_fits(body),
                requests@.len() == i,
                forall|j: int|
                    0 <= j < i ==> {
                        let r = #[trigger] requests@[j];
                        &&& r.pane_id@ == self.panes@[j].id@
                        &&& r.height == pane_area_of(body, self.panes@[j], self.panes@).height
                        &&& r.scroll_offset == offset_in(self.scroll_offsets.view_map(), self.panes@[j].id@)
                    },
            decreases self.panes.len() - i,
        {
            let pane = &self.panes[i];
            let area = pane_area(body, pane, self.panes.as_slice());
            let offset = self.scroll_offset(pane.id.as_str());
            requests.push(
                CaptureRequest {
                    pane_id: pane.id.clone(),
                    height: area.height as usize,
                    scroll_offset: offset,
                },
            );
            i = i + 1;
        }
        requests
    }

    /// Stores the capture of `pane_id`: its decoded lines, or one red line
    /// that tells why it could not be captured.
    pub fn store_capture(&mut self, pane_id: &str, capture: Result<String, String>)
        ensures
            captures_map(final(self).captures@) == captures_map(old(self).captures@).insert(
                pane_id@,
                match capture {
                    Ok(text) => decode(text@),
                    Err(e) => capture_failure_lines(e@),
                },
            ),
            final(self).panes == old(self).panes,
            final(self).selected_pane == old(self).selected_pane,
            final(self).scroll_offsets.view_map() == old(self).scroll_offsets.view_map(),
            final(self).message == old(self).message,
            final(self).command_mode == old(self).command_mode,
            final(self).session == old(self).session,
    {
        let lines = match &capture {
            Ok(text) => capture_to_lines(text.as_str()),
            Err(e) => {
                let span = Span {
                    content: concat("capture failed: ", e.as_str()),
                    style: Style { fg: Some(Color::Red), ..Style::plain() },
                };
                let mut spans: Vec<Span> = Vec::new();
                spans.push(span);
                let mut lines: Vec<Line> = Vec::new();
                lines.push(Line { spans });
                assert(lines_view(lines@) =~= capture_failure_lines(e@)) by {
                    assert(crate::ansi::spans_view(lines@[0].spans@) =~= seq![
                        ("capture failed: "@ + e@, Style { fg: Some(Color::Red), ..plain_style() }),
                    ]);
                }
                lines
            },
        };
        let entry = PaneCapture { pane_id: pane_id.to_owned(), lines };
        proof {
            lemma_captures_map_push(self.captures@, entry);
        }
        self.captures.push(entry);
    }

    /// The position of the capture of `pane_id` (the last one stored).
    pub fn capture_index(&self, pane_id: &str) -> (r: Option<usize>)
        ensures
            match r {
                Some(i) => i < self.captures@.len() && self.captures@[i as int].pane_id@ == pane_id@
                    && captures_map(self.captures@).contains_key(pane_id@) && captures_map(
                    self.captures@,
                )[pane_id@] == lines_view(self.captures@[i as int].lines@),
                None => !captures_map(self.captures@).contains_key(pane_id@),
            },
    {
        let mut i: usize = self.captures.len();
        let ghost k = pane_id@;
        let ghost whole = captures_map(self.captures@);
        assert(self.captures@.take(i as int) =~= self.captures@);
        while i > 0
            invariant
                i <= self.captures@.len(),
                k == pane_id@,
                whole == captures_map(self.captures@),
                captures_map(self.captures@.take(i as int)).contains_key(k) == whole.contains_key(k),
                captures_map(self.captures@.take(i as int)).contains_key(k) ==> captures_map(
                    self.captures@.take(i as int),
                )[k] == whole[k],
            decreases i,
        {
            let ghost pre = self.captures@.take(i as int);
            assert(self.captures@.take(i - 1).push(self.captures@[i - 1]) =~= pre);
            proof {
                lemma_captures_map_push(self.captures@.take(i - 1), self.captures@[i - 1]);
            }
            if str_equal(self.captures[i - 1].pane_id.as_str(), pane_id) {
                return Some(i - 1);
            }
            i = i - 1;
        }
        assert(self.captures@.take(0) =~= Seq::<PaneCapture>::empty());
        None
    }

    /// The panes are gone: nothing is shown or selected.
    pub fn clear_panes(&mut self)
        ensures
            final(self).panes@.len() == 0,
            final(self).captures@.len() == 0,
            final(self).selected_pane == 0,
            final(self).scroll_offsets.view_map() == old(self).scroll_offsets.view_map(),
            final(self).message == old(self).message,
            final(self).command_mode == old(self).command_mode,
            final(self).session == old(self).session,
    {
        self.panes = Vec::new();
        self.captures = Vec::new();
        self.selected_pane = 0;
    }

    /// Reports that resizing the tmux window failed.
    pub fn note_resize_failure(&mut self, error: &str)
        ensures
            final(self).message@ == "resize failed: "@ + error@,
            final(self).panes == old(self).panes,
            final(self).selected_pane == old(self).selected_pane,
            final(self).scroll_offsets.view_map() == old(self).scroll_offsets.view_map(),
            final(self).command_mode == old(self).command_mode,
            final(self).session == old(self).session,
            final(self).captures == old(self).captures,
    {
        self.message = concat("resize failed: ", error);
    }
}

/// Where the terminal cursor goes: at the selected pane's cursor, inside
/// its drawn area; none in command mode, for a hidden cursor, for a pane
/// scrolled back, or without a selected pane.
pub open spec fn cursor_position(body: Rect, state: SessionViewState) -> Option<(u16, u16)> {
    if state.command_mode || state.selected_pane >= state.panes@.len() {
        None
    } else {
        let pane = state.panes@[state.selected_pane as int];
        if !pane.cursor_visible || offset_in(state.scroll_offsets.view_map(), pane.id@) > 0 {
            None
        } else {
            let area = pane_area_of(body, pane, state.panes@);
            if area.width == 0 || area.height == 0 {
                None
            } else {
                let cx = (pane.cursor_x % 65536) as int;
                let cy = (pane.cursor_y % 65536) as int;
                let x = if cx < area.width - 1 {
                    cx
                } else {
                    area.width - 1
                };
                let y = if cy < area.height - 1 {
                    cy
                } else {
                    area.height - 1
                };
                Some(((area.x + x) as u16, (area.y + y) as u16))
            }
        }
    }
}

/// The terminal cursor position for the view.
pub fn selected_cursor_position(body: Rect, state: &SessionViewState) -> (p: Option<(u16, u16)>)
    requires
        rect_fits(body),
    ensures
        p == cursor_position(body, *state),
{
    if state.command_mode {
        return None;
    }
    if state.selected_pane >= state.panes.len() {
        return None;
    }
    let pane = &state.panes[state.selected_pane];
    if !pane.cursor_visible || state.scroll_offset(pane.id.as_str()) > 0 {
        return None;
    }
    let area = pane_area(body, pane, state.panes.as_slice());
    if area.width == 0 || area.height == 0 {
        return None;
    }
    let cx = (pane.cursor_x % 65536) as u16;
    let cy = (pane.cursor_y % 65536) as u16;
    let x = if cx < area.width - 1 {
        cx
    } else {
        area.width - 1
    };
    let y = if cy < area.height - 1 {
        cy
    } else {
        area.height - 1
    };
    Some((area.x + x, area.y + y))
}

/// The footer line in command mode.
pub const COMMAND_FOOTER: &'static str = " COMMAND | v split right | h split down | x close | r refresh | q detach | Esc cancel ";

/// The footer line: the command help in command mode, else the selected
/// pane, the message and the controls.
pub open spec fn footer(state: SessionViewState) -> Seq<char> {
    if state.command_mode {
        COMMAND_FOOTER@
    } else {
        let selected = match selected_id(&state) {
            Some(id) => id,
            None => "no pane"@,
        };
        " "@ + selected + " | "@ + state.message@ + " | Ctrl-A commands | click pane | wheel scroll "@
    }
}

/// The footer line of the view.
pub fn footer_text(state: &SessionViewState) -> (s: String)
    ensures
        s@ == footer(*state),
{
    if state.command_mode {
        return COMMAND_FOOTER.to_owned();
    }
    let selected = match state.selected_pane_id() {
        Some(id) => id,
        None => "no pane".to_owned(),
    };
    let mut s = String::new();
    push_str(&mut s, " ");
    push_str(&mut s, selected.as_str());
    push_str(&mut s, " | ");
    push_str(&mut s, state.message.as_str());
    push_str(&mut s, " | Ctrl-A commands | click pane | wheel scroll ");
    assert(s@ =~= footer(*state));
    s
}

/// How many lines one turn of the mouse wheel scrolls a pane.
pub const WHEEL_SCROLL_LINES: isize = 3;

/// Where a pane is drawn on screen, for mouse hits.
pub struct PaneHitbox {
    pub pane_id: String,
    pub area: Rect,
}

/// `hit` is the id of the first hitbox that holds `(column, row)`, or
/// `None` when none does.
pub open spec fn is_first_hit(hitboxes: Seq<PaneHitbox>, column: int, row: int, hit: Option<Seq<char>>) -> bool {
    match hit {
        Some(id) => exists|i: int|
            0 <= i < hitboxes.len() && rect_has((#[trigger] hitboxes[i]).area, column, row)
                && hitboxes[i].pane_id@ == id && forall|j: int|
                0 <= j < i ==> !rect_has((#[trigger] hitboxes[j]).area, column, row),
        None => forall|i: int| 0 <= i < hitboxes.len() ==> !rect_has((#[trigger] hitboxes[i]).area, column, row),
    }
}

/// The pane drawn at `(column, row)`: the first hitbox that holds it.
pub fn hit_pane(hitboxes: &[PaneHitbox], column: u16, row: u16) -> (r: Option<String>)
    ensures
        is_first_hit(
            hitboxes@,
            column as int,
            row as int,
            match r {
                Some(id) => Some(id@),
                None => None,
            },
        ),
{
    let mut i: usize = 0;
    while i < hitboxes.len()
        invariant
            i <= hitboxes.len(),
            forall|j: int|
                0 <= j < i ==> !rect_has((#[trigger] hitboxes@[j]).area, column as int, row as int),
        decreases hitboxes.len() - i,
    {
        if rect_contains(hitboxes[i].area, column, row) {
            let id = hitboxes[i].pane_id.clone();
            assert(rect_has(hitboxes@[i as int].area, column as int, row as int));
            return Some(id);
        }
        i = i + 1;
    }
    None
}

/// What the mouse did in the session view.
#[derive(Debug, Clone, Copy, PartialEq, Eq, Structural)]
pub enum PointerKind {
    LeftDown,
    ScrollUp,
    ScrollDown,
    Other,
}

/// What a mouse event asks of the session view: select the pane under
/// the pointer (if any), then scroll the selected pane by `scroll` lines
/// back (forward when negative, nothing when 0), and whether to redraw.
pub struct PointerAction {
    pub select: Option<String>,
    pub scroll: isize,
    pub redraw: bool,
}

/// What a mouse event at `(column, row)` asks: a left click selects the
/// pane under it (redrawing when there is one); the wheel selects the pane
/// under it and scrolls the selected pane `WHEEL_SCROLL_LINES` back (up)
/// or forward (down); anything else does nothing.
pub fn pointer_action(hitboxes: &[PaneHitbox], kind: PointerKind, column: u16, row: u16) -> (a:
    PointerAction)
    ensures
        kind is Other ==> a.select is None && a.scroll == 0 && !a.redraw,
        !(kind is Other) ==> is_first_hit(
            hitboxes@,
            column as int,
            row as int,
            match a.select {
                Some(id) => Some(id@),
                None => None,
            },
        ),
        kind is LeftDown ==> a.scroll == 0 && a.redraw == a.select is Some,
        kind is ScrollUp ==> a.scroll == WHEEL_SCROLL_LINES && a.redraw,
        kind is ScrollDown ==> a.scroll == -WHEEL_SCROLL_LINES && a.redraw,
{
    match kind {
        PointerKind::Other => PointerAction { select: None, scroll: 0, redraw: false },
        PointerKind::LeftDown => {
            let select = hit_pane(hitboxes, column, row);
            let redraw = select.is_some();
            PointerAction { select, scroll: 0, redraw }
        },
        PointerKind::ScrollUp => PointerAction {
            select: hit_pane(hitboxes, column, row),
            scroll: WHEEL_SCROLL_LINES,
            redraw: true,
        },
        PointerKind::ScrollDown => PointerAction {
            select: hit_pane(hitboxes, column, row),
            scroll: -WHEEL_SCROLL_LINES,
            redraw: true,
        },
    }
}

/// Where one pane is drawn: its content area and the frame around it.
pub struct PaneFrame {
    pub pane_id: String,
    pub content: Rect,
    pub panel: Rect,
}

/// Where each pane of `panes` is drawn in `body`, in order: the content
/// area, and the frame around it (which is also where a click selects it).
pub fn pane_frames(body: Rect, panes: &[Pane]) -> (frames: Vec<PaneFrame>)
    requires
        rect_fits(body),
    ensures
        frames@.len() == panes@.len(),
        forall|i: int|
            0 <= i < panes@.len() ==> {
                let f = #[trigger] frames@[i];
                &&& f.pane_id@ == panes@[i].id@
                &&& f.content == pane_area_of(body, panes@[i], panes@)
                &&& f.panel == crate::geometry::panel_area_of(body, f.content)
            },
{
    let mut frames: Vec<PaneFrame> = Vec::new();
    let mut i: usize = 0;
    while i < panes.len()
        invariant
            i <= panes.len(),
            rect_fits(body),
            frames@.len() == i,
            forall|j: int|
                0 <= j < i ==> {
                    let f = #[trigger] frames@[j];
                    &&& f.pane_id@ == panes@[j].id@
                    &&& f.content == pane_area_of(body, panes@[j], panes@)
                    &&& f.panel == crate::geometry::panel_area_of(body, f.content)
                },
        decreases panes.len() - i,
    {
        let content = pane_area(body, &panes[i], panes);
        let panel = crate::geometry::pane_panel_area(body, content);
        frames.push(PaneFrame { pane_id: panes[i].id.clone(), content, panel });
        i = i + 1;
    }
    frames
}

/// Scrolling back and then forward by the same amount returns to the same
/// offset (when the way back did not saturate), and scrolling forward at
/// least as far as the offset reaches the live view.
pub proof fn lemma_scroll_round_trip(current: int, delta: int)
    requires
        0 <= current <= usize::MAX,
        delta > 0,
    ensures
        current + delta <= usize::MAX ==> scrolled(scrolled(current, delta), -delta) == current,
        delta >= current ==> scrolled(current, -delta) == 0,
{
}

/// An offset recorded for a pane is read back; a pane whose offset is set
/// to 0 (or removed) reads back as the live view.
pub proof fn lemma_offset_read_back(m: Map<Seq<char>, usize>, id: Seq<char>, offset: usize)
    ensures
        offset_in(
            if offset == 0 {
                m.remove(id)
            } else {
                m.insert(id, offset)
            },
            id,
        ) == offset,
        offset_in(m.remove(id), id) == 0,
{
}

} // verus!
