//! The controller: the list of decoded packets, the selection, the pinned
//! detail view, the input mode, and the viewport that is cut out of the
//! filtered list for display.

use crate::chain::{
    first_hit, hits, last_hit, lemma_ends_of_hits, lemma_hit_at, lemma_hits_ascend,
    lemma_rank_bound, lemma_rank_mono, lemma_rank_of_hit, lemma_rank_range, lemma_snap_forward,
    lemma_walk_hits, next_hit, prev_hit, rank,
};
use crate::filtable::{to_index, FiltableList};
use crate::packet::Packet;
use crate::text::{join_lines, lines_of, spec_join_lines};
use std::collections::VecDeque;
use vstd::prelude::*;

verus! {

/// Which pane the keys go to.
#[derive(Debug, Copy, Clone, PartialEq, Eq, Structural)]
pub enum InputMode {
    Filter,
    List,
    View,
}

impl InputMode {
    /// The mode that follows `self` in the cycle filter, list, view.
    pub open spec fn spec_next(self) -> InputMode {
        match self {
            InputMode::Filter => InputMode::List,
            InputMode::List => InputMode::View,
            InputMode::View => InputMode::Filter,
        }
    }

    /// Moves on to the next mode of the cycle.
    pub fn next(&mut self)
        ensures
            *final(self) == old(self).spec_next(),
    {
        match self {
            InputMode::Filter => *self = InputMode::List,
            InputMode::List => *self = InputMode::View,
            InputMode::View => *self = InputMode::Filter,
        };
    }
}

/// The controller's state.
pub struct App {
    list: FiltableList<Packet>,
    select: Option<usize>,
    view: Option<usize>,
    input_mode: InputMode,
    running: bool,
}

/// What a controller is to its callers.
pub struct AppView {
    pub items: Seq<Packet>,
    pub filter: Seq<char>,
    pub select: Option<usize>,
    pub view: Option<usize>,
    pub input_mode: InputMode,
    pub running: bool,
}

/// The smaller of two indices.
pub open spec fn spec_min(a: int, b: int) -> int {
    if a < b {
        a
    } else {
        b
    }
}

/// The selection after a move toward the tail: from no selection to the
/// last match, else to the next match, staying put at the last one.
pub open spec fn spec_select_next(flags: Seq<bool>, select: Option<usize>) -> Option<usize> {
    match select {
        None => to_index(last_hit(flags)),
        Some(s) => match next_hit(flags, s as int) {
            Some(x) => Some(x as usize),
            None => Some(s),
        },
    }
}

/// The selection after a move toward the head: from no selection to the
/// first match, else to the previous match, staying put at the first one.
pub open spec fn spec_select_previous(flags: Seq<bool>, select: Option<usize>) -> Option<usize> {
    match select {
        None => to_index(first_hit(flags)),
        Some(s) => match prev_hit(flags, s as int) {
            Some(x) => Some(x as usize),
            None => Some(s),
        },
    }
}

/// The selection brought back onto a match after the filter has changed: it
/// stays where it still matches, else moves to the next match, else to the
/// previous one, and is given up where nothing matches.
pub open spec fn spec_reselect(flags: Seq<bool>, select: Option<usize>) -> Option<usize> {
    match select {
        None => None,
        Some(s) => if flags[s as int] {
            Some(s)
        } else {
            match next_hit(flags, s as int) {
                Some(x) => Some(x as usize),
                None => to_index(prev_hit(flags, s as int)),
            }
        },
    }
}

/// The first position shown when the selection stands at position `p` of
/// the matches and the scan starts at position `q`, with room for `h`: the
/// scan's start, unless the selection lies `h` or more beyond it, in which
/// case the window slides until the selection is its last line.
pub open spec fn spec_window_start(q: int, p: int, h: int) -> int {
    if p - q >= h {
        p + 1 - h
    } else {
        q
    }
}

/// The position after the last one shown: `h` further than the start, or
/// the end of the matches where that comes first.
pub open spec fn spec_window_end(a: int, h: int, total: int) -> int {
    if a + h < total {
        a + h
    } else {
        total
    }
}

/// The window as a range of positions in the ascending list of matches.
///
/// Without a selection it is the last `height` matches. With one, the scan
/// starts at the first match at or after the smaller of `offset` and the
/// selection, and the window is `spec_window_start` to `spec_window_end`.
pub open spec fn spec_window_range(
    flags: Seq<bool>,
    select: Option<usize>,
    offset: usize,
    height: u16,
) -> (int, int) {
    let total = hits(flags).len() as int;
    let h = height as int;
    match select {
        None => (
            if total > h {
                total - h
            } else {
                0
            },
            total,
        ),
        Some(s) => {
            let q = rank(flags, spec_min(offset as int, s as int));
            let p = rank(flags, s as int);
            if h == 0 {
                (q, q)
            } else {
                (spec_window_start(q, p, h), spec_window_end(spec_window_start(q, p, h), h, total))
            }
        },
    }
}

/// The indices shown, in ascending order: the matches at the positions of
/// the window's range.
pub open spec fn spec_window(
    flags: Seq<bool>,
    select: Option<usize>,
    offset: usize,
    height: u16,
) -> Seq<usize> {
    let (a, b) = spec_window_range(flags, select, offset, height);
    Seq::new((b - a) as nat, |k: int| hits(flags)[a + k] as usize)
}

/// The offset handed back: untouched without a selection, else the match
/// that the window's range starts at.
pub open spec fn spec_window_offset(
    flags: Seq<bool>,
    select: Option<usize>,
    offset: usize,
    height: u16,
) -> usize {
    match select {
        None => offset,
        Some(s) => hits(flags)[spec_window_range(flags, select, offset, height).0] as usize,
    }
}

/// The line of the window that the selection stands on.
pub open spec fn spec_window_select(
    flags: Seq<bool>,
    select: Option<usize>,
    offset: usize,
    height: u16,
) -> Option<usize> {
    match select {
        None => None,
        Some(s) => if height == 0 {
            None
        } else {
            Some(
                (rank(flags, s as int) - spec_window_range(flags, select, offset, height).0) as usize,
            )
        },
    }
}

/// `v` holds the entries of `m` from position `a` on, one after the other.
spec fn is_run_of(v: Seq<usize>, m: Seq<int>, a: int) -> bool {
    forall|i: int| 0 <= i < v.len() ==> #[trigger] v[i] == m[a + i]
}

/// The window never holds more than `height` indices, every index in it
/// matches, and a selection that matches is in it, on the line that
/// `spec_window_select` names, whenever there is room for at least one line.
pub proof fn lemma_window_bounds(
    flags: Seq<bool>,
    select: Option<usize>,
    offset: usize,
    height: u16,
)
    requires
        flags.len() <= usize::MAX,
        select matches Some(s) ==> s < flags.len() && flags[s as int],
    ensures
        spec_window(flags, select, offset, height).len() <= height,
        forall|k: int|
            0 <= k < spec_window(flags, select, offset, height).len() ==> #[trigger] spec_window(
                flags,
                select,
                offset,
                height,
            )[k] < flags.len() && flags[spec_window(flags, select, offset, height)[k] as int],
        select matches Some(s) ==> (height > 0 ==> (spec_window_select(
            flags,
            select,
            offset,
            height,
        ) matches Some(k) && k < spec_window(flags, select, offset, height).len() && spec_window(
            flags,
            select,
            offset,
            height,
        )[k as int] == s && spec_window(flags, select, offset, height)[0] == spec_window_offset(
            flags,
            select,
            offset,
            height,
        ))),
        0 <= spec_window_range(flags, select, offset, height).0 <= spec_window_range(
            flags,
            select,
            offset,
            height,
        ).1 <= hits(flags).len(),
{
    let (a, b) = spec_window_range(flags, select, offset, height);
    if let Some(s) = select {
        let o = spec_min(offset as int, s as int);
        lemma_rank_mono(flags, o, s as int);
        lemma_rank_bound(flags, o);
        lemma_rank_of_hit(flags, s as int);
    }
    assert forall|k: int|
        0 <= k < spec_window(flags, select, offset, height).len() implies #[trigger] spec_window(
        flags,
        select,
        offset,
        height,
    )[k] < flags.len() && flags[spec_window(flags, select, offset, height)[k] as int] by {
        lemma_hit_at(flags, a + k);
    }
}

/// The window holds still while nothing changes: cutting it again with the
/// offset that the first cut handed back gives the same window, the same
/// line for the selection and the same offset.
pub proof fn lemma_window_is_stable(
    flags: Seq<bool>,
    select: Option<usize>,
    offset: usize,
    height: u16,
)
    requires
        flags.len() <= usize::MAX,
        select matches Some(s) ==> s < flags.len() && flags[s as int],
    ensures
        spec_window(
            flags,
            select,
            spec_window_offset(flags, select, offset, height),
            height,
        ) == spec_window(flags, select, offset, height),
        spec_window_select(
            flags,
            select,
            spec_window_offset(flags, select, offset, height),
            height,
        ) == spec_window_select(flags, select, offset, height),
        spec_window_offset(
            flags,
            select,
            spec_window_offset(flags, select, offset, height),
            height,
        ) == spec_window_offset(flags, select, offset, height),
{
    if let Some(s) = select {
        let o = spec_min(offset as int, s as int);
        let p = rank(flags, s as int);
        let a = spec_window_range(flags, select, offset, height).0;
        lemma_rank_mono(flags, o, s as int);
        lemma_rank_bound(flags, o);
        lemma_rank_of_hit(flags, s as int);
        lemma_hit_at(flags, a);
        if a < p {
            lemma_hits_ascend(flags, a, p);
        }
        assert(spec_window_range(
            flags,
            select,
            spec_window_offset(flags, select, offset, height),
            height,
        ) == spec_window_range(flags, select, offset, height));
    }
}

impl View for App {
    type V = AppView;

    closed spec fn view(&self) -> AppView {
        AppView {
            items: self.list@.items,
            filter: self.list@.filter,
            select: self.select,
            view: self.view,
            input_mode: self.input_mode,
            running: self.running,
        }
    }
}

impl AppView {
    /// One flag per packet: whether it matches the active filter.
    pub open spec fn flags(self) -> Seq<bool> {
        crate::filtable::flags_of(self.items, self.filter)
    }

    /// The state after `exit`: no longer running.
    pub open spec fn spec_exit(self) -> AppView {
        AppView { running: false, ..self }
    }

    /// The state after `add_packet`: one more packet at the end.
    pub open spec fn spec_add_packet(self, p: Packet) -> AppView {
        AppView { items: self.items.push(p), ..self }
    }

    /// The state after the filter has become `filter`: the selection is
    /// brought back onto a match.
    pub open spec fn spec_set_filter(self, filter: Seq<char>) -> AppView {
        AppView {
            filter,
            select: spec_reselect(crate::filtable::flags_of(self.items, filter), self.select),
            ..self
        }
    }

    /// The state after `add_filter_str`.
    pub open spec fn spec_add_filter_str(self, st: Seq<char>) -> AppView {
        self.spec_set_filter(self.filter + st)
    }

    /// The state after `delete_filter_char`.
    pub open spec fn spec_delete_filter_char(self) -> AppView {
        self.spec_set_filter(
            if self.filter.len() > 0 {
                self.filter.drop_last()
            } else {
                self.filter
            },
        )
    }

    /// The state after `next`.
    pub open spec fn spec_next(self) -> AppView {
        AppView { select: spec_select_next(self.flags(), self.select), ..self }
    }

    /// The state after `previous`.
    pub open spec fn spec_previous(self) -> AppView {
        AppView { select: spec_select_previous(self.flags(), self.select), ..self }
    }

    /// The state after `to_view`: the selection is pinned.
    pub open spec fn spec_to_view(self) -> AppView {
        AppView { view: self.select, ..self }
    }

    /// The state after `unselect`.
    pub open spec fn spec_unselect(self) -> AppView {
        AppView { select: None, ..self }
    }

    /// The state after `next_forcus`.
    pub open spec fn spec_next_forcus(self) -> AppView {
        AppView { input_mode: self.input_mode.spec_next(), ..self }
    }

    /// The selection is nothing or a packet that matches the active filter,
    /// and the pinned packet, if any, exists.
    pub open spec fn well_formed(self) -> bool {
        &&& self.select matches Some(s) ==> s < self.items.len() && self.flags()[s as int]
        &&& self.view matches Some(v) ==> v < self.items.len()
    }
}

/// Copies a queue of indices into a list, front first.
fn deque_to_vec(ans: &VecDeque<usize>) -> (v: Vec<usize>)
    ensures
        v@ == ans@,
{
    let mut v: Vec<usize> = Vec::new();
    let mut i: usize = 0;
    while i < ans.len()
        invariant
            i <= ans@.len(),
            v@ == ans@.take(i as int),
        decreases ans@.len() - i,
    {
        v.push(ans[i]);
        i += 1;
    }
    v
}

/// The first place at which `x` stands in `ans`.
fn position(ans: &VecDeque<usize>, x: usize) -> (r: Option<usize>)
    ensures
        match r {
            Some(k) => k < ans@.len() && ans@[k as int] == x && forall|j: int|
                0 <= j < k ==> ans@[j] != x,
            None => forall|j: int| 0 <= j < ans@.len() ==> ans@[j] != x,
        },
{
    let mut k: usize = 0;
    while k < ans.len()
        invariant
            k <= ans@.len(),
            forall|j: int| 0 <= j < k ==> ans@[j] != x,
        decreases ans@.len() - k,
    {
        if ans[k] == x {
            return Some(k);
        }
        k += 1;
    }
    None
}

impl App {
    #[verifier::type_invariant]
    spec fn inv(self) -> bool {
        self@.well_formed()
    }

    /// Whether the application has not been told to quit.
    pub fn is_running(&self) -> (b: bool)
        ensures
            b == self@.running,
    {
        self.running
    }

    /// Tells the application to quit. Nothing else changes.
    pub fn exit(&mut self)
        ensures
            final(self)@ == old(self)@.spec_exit(),
    {
        proof {
            use_type_invariant(&*self);
        }
        self.running = false
    }

    /// The detailed rendering of the pinned packet, its lines joined by
    /// line feeds; empty while nothing is pinned.
    pub fn get_view_text(&self) -> (s: String)
        ensures
            s@ == match self@.view {
                Some(v) => spec_join_lines(self@.items[v as int].spec_text()),
                None => Seq::<char>::empty(),
            },
    {
        proof {
            use_type_invariant(self);
        }
        match self.view {
            Some(x) => {
                let lines = self.list.get_item(x).text();
                join_lines(&lines)
            },
            None => String::new(),
        }
    }

    /// A copy of the active filter.
    pub fn get_filter(&self) -> (s: String)
        ensures
            s@ == self@.filter,
    {
        self.list.get_filter()
    }

    /// The summary lines of the window that `get_view_list_index` cuts out,
    /// with the line that the selection stands on.
    pub fn get_view_list(&self, height: u16, offset: &mut usize) -> (r: (Vec<String>, Option<usize>))
        ensures
            lines_of(r.0@) == Seq::new(
                spec_window(self@.flags(), self@.select, *old(offset), height).len(),
                |k: int|
                    self@.items[spec_window(
                        self@.flags(),
                        self@.select,
                        *old(offset),
                        height,
                    )[k] as int].spec_line(),
            ),
            r.1 == spec_window_select(self@.flags(), self@.select, *old(offset), height),
            *final(offset) == spec_window_offset(
                self@.flags(),
                self@.select,
                *old(offset),
                height,
            ),
            r.0@.len() <= height,
            self@.select matches Some(s) ==> (height > 0 ==> (r.1 matches Some(k) && k < r.0@.len()
                && r.0@[k as int]@ == self@.items[s as int].spec_line())),
    {
        let ghost window = spec_window(self@.flags(), self@.select, *old(offset), height);
        let (items, select) = self.get_view_list_index(height, offset);
        let mut ans: Vec<String> = Vec::new();
        let mut i: usize = 0;
        while i < items.len()
            invariant
                i <= items@.len(),
                items@ == window,
                forall|k: int|
                    0 <= k < items@.len() ==> #[trigger] items@[k] < self@.items.len(),
                ans@.len() == i,
                forall|k: int|
                    0 <= k < i ==> (#[trigger] ans@[k])@ == self@.items[window[k] as int].spec_line(),
            decreases items@.len() - i,
        {
            ans.push(self.list.get_item(items[i]).line());
            i += 1;
        }
        proof {
            assert(lines_of(ans@) =~= Seq::new(
                window.len(),
                |k: int| self@.items[window[k] as int].spec_line(),
            ));
        }
        (ans, select)
    }

    /// Appends `st` to the filter, rebuilds the chain, and brings the
    /// selection back onto a match where it no longer stands on one.
    pub fn add_filter_str(&mut self, st: &str)
        ensures
            final(self)@ == old(self)@.spec_add_filter_str(st@),
    {
        proof {
            use_type_invariant(&*self);
        }
        let select = self.select;
        let view = self.view;
        self.select = None;
        self.view = None;
        let mut list = FiltableList::<Packet>::new();
        std::mem::swap(&mut list, &mut self.list);
        list.add_filter_str(st);
        let select = Self::reselect(&list, select);
        self.list = list;
        self.view = view;
        self.select = select;
    }

    /// Removes the last character of the filter, if it has one, rebuilds
    /// the chain, and brings the selection back onto a match where it no
    /// longer stands on one.
    pub fn delete_filter_char(&mut self)
        ensures
            final(self)@ == old(self)@.spec_delete_filter_char(),
    {
        proof {
            use_type_invariant(&*self);
        }
        let select = self.select;
        let view = self.view;
        self.select = None;
        self.view = None;
        let mut list = FiltableList::<Packet>::new();
        std::mem::swap(&mut list, &mut self.list);
        list.delete_filter_char();
        let select = Self::reselect(&list, select);
        self.list = list;
        self.view = view;
        self.select = select;
    }

    /// The selection brought back onto a match of `list`.
    fn reselect(list: &FiltableList<Packet>, select: Option<usize>) -> (r: Option<usize>)
        requires
            select matches Some(s) ==> s < list@.items.len(),
        ensures
            r == spec_reselect(list@.flags(), select),
            r matches Some(s) ==> s < list@.items.len() && list@.flags()[s as int],
    {
        match select {
            None => None,
            Some(s) => {
                if list.is_match(s) {
                    Some(s)
                } else {
                    match list.next(s) {
                        Some(x) => Some(x),
                        None => list.previous(s),
                    }
                }
            },
        }
    }

    /// Cuts the window to display out of the filtered list: at most
    /// `height` matching indices in ascending order, and the line of the
    /// window that the selection stands on.
    ///
    /// Without a selection the window is the tail: the last `height`
    /// matches, and `offset` is left alone. With a selection, `offset` is
    /// first lowered to the selection and moved onto a match; the scan then
    /// runs forward from there, and once the window is full it slides, one
    /// match at a time, until the selection has come into it. `offset`
    /// leaves as the first index of the window. A window filled this way
    /// never exceeds `height`, so nothing is cut off it afterwards. With no
    /// room at all the window is empty and `offset` stays on the match it
    /// was moved onto.
    pub fn get_view_list_index(&self, height: u16, offset: &mut usize) -> (r: (
        Vec<usize>,
        Option<usize>,
    ))
        ensures
            r.0@ == spec_window(self@.flags(), self@.select, *old(offset), height),
            r.1 == spec_window_select(self@.flags(), self@.select, *old(offset), height),
            *final(offset) == spec_window_offset(
                self@.flags(),
                self@.select,
                *old(offset),
                height,
            ),
            r.0@.len() <= height,
            forall|k: int|
                0 <= k < r.0@.len() ==> #[trigger] r.0@[k] < self@.items.len()
                    && self@.flags()[r.0@[k] as int],
            self@.select matches Some(s) ==> (height > 0 ==> (r.1 matches Some(k) && k < r.0@.len()
                && r.0@[k as int] == s && *final(offset) == r.0@[0])),
    {
        let ghost flags = self@.flags();
        let ghost m = hits(flags);
        let ghost total = m.len() as int;
        proof {
            use_type_invariant(self);
            lemma_ends_of_hits(flags);
            lemma_rank_range(flags, flags.len() as int);
        }
        if self.list.is_filterd_empty() {
            let v: Vec<usize> = Vec::new();
            return (v, None);
        }
        let h: usize = height as usize;
        let mut ans: VecDeque<usize> = VecDeque::new();
        let s: usize = match self.select {
            None => {
                let mut count: usize = self.list.filterd_last().unwrap();
                while h > ans.len()
                    invariant_except_break
                        ans@.len() < total,
                        count == m[total - 1 - ans@.len()],
                    invariant
                        flags == self@.flags(),
                        m == hits(flags),
                        total == m.len(),
                        ans@.len() <= h,
                        ans@.len() <= total,
                        is_run_of(ans@, m, total - ans@.len()),
                    ensures
                        ans@.len() == h || ans@.len() == total,
                    decreases total - ans@.len(),
                {
                    let ghost c = total - 1 - ans@.len();
                    proof {
                        lemma_hit_at(flags, c);
                        lemma_walk_hits(flags, c);
                    }
                    ans.push_front(count);
                    proof {
                        assert(is_run_of(ans@, m, c));
                    }
                    match self.list.previous(count) {
                        Some(x) => {
                            count = x;
                        },
                        None => {
                            break ;
                        },
                    }
                }
                let v = deque_to_vec(&ans);
                proof {
                    assert forall|k: int| 0 <= k < v@.len() implies #[trigger] v@[k]
                        < self@.items.len() && self@.flags()[v@[k] as int] by {
                        lemma_hit_at(flags, total - v@.len() + k);
                    }
                }
                return (v, None);
            },
            Some(s) => s,
        };
        let ghost o = spec_min(*old(offset) as int, s as int);
        let ghost q = rank(flags, o);
        let ghost p = rank(flags, s as int);
        if s < *offset {
            *offset = s;
        }
        proof {
            lemma_rank_mono(flags, o, s as int);
            lemma_rank_range(flags, o);
            lemma_rank_of_hit(flags, s as int);
            if flags[o] {
                lemma_rank_of_hit(flags, o);
            } else {
                lemma_snap_forward(flags, o);
            }
        }
        if !self.list.is_match(*offset) {
            *offset = match self.list.next(*offset) {
                Some(x) => x,
                None => self.list.previous(*offset).unwrap(),
            };
        }
        if h == 0 {
            let v: Vec<usize> = Vec::new();
            return (v, None);
        }
        // `count` is the match at position `c`; the window so far holds the
        // matches at positions `a` up to `c`.
        let mut count: usize = *offset;
        let ghost mut c: int = q;
        let ghost mut a: int = q;
        let ghost start = spec_window_start(q, p, h as int);
        let ghost end = spec_window_end(start, h as int, total);
        loop
            invariant_except_break
                q <= a <= c < total,
                count == m[c],
                ans@.len() == c - a,
                is_run_of(ans@, m, a),
                a == if c - h > q {
                    c - h
                } else {
                    q
                },
                c <= p + 1 || c <= q + h,
            invariant
                flags == self@.flags(),
                m == hits(flags),
                total == m.len(),
                self@.select == Some(s),
                s < flags.len(),
                flags[s as int],
                p == rank(flags, s as int),
                m[p] == s,
                0 <= q <= p < total,
                h >= 1,
                start == spec_window_start(q, p, h as int),
                end == spec_window_end(start, h as int, total),
            ensures
                ans@.len() == end - start,
                is_run_of(ans@, m, start),
            decreases total - c,
        {
            proof {
                lemma_hit_at(flags, c);
                lemma_walk_hits(flags, c);
            }
            if ans.len() >= h {
                if count > s {
                    proof {
                        if c < p {
                            lemma_hits_ascend(flags, c, p);
                        }
                    }
                    break ;
                }
                proof {
                    if c > p {
                        lemma_hits_ascend(flags, p, c);
                    }
                }
                ans.pop_front();
                proof {
                    a = a + 1;
                    assert(is_run_of(ans@, m, a));
                }
            }
            ans.push_back(count);
            proof {
                assert(is_run_of(ans@, m, a));
            }
            match self.list.next(count) {
                Some(x) => {
                    count = x;
                    proof {
                        c = c + 1;
                    }
                },
                None => {
                    break ;
                },
            }
        }
        *offset = ans[0];
        let select = position(&ans, s);
        proof {
            let k = p - start;
            assert(ans@[k] == m[start + k]);
            if let Some(j) = select {
                if (j as int) < k {
                    lemma_hits_ascend(flags, start + j, start + k);
                }
            }
        }
        let v = deque_to_vec(&ans);
        proof {
            assert forall|k: int| 0 <= k < v@.len() implies #[trigger] v@[k] < self@.items.len()
                && self@.flags()[v@[k] as int] by {
                lemma_hit_at(flags, start + k);
            }
        }
        (v, select)
    }

    /// Appends a decoded packet. Selection, pinned packet and filter stay.
    pub fn add_packet(&mut self, p: Packet)
        ensures
            final(self)@ == old(self)@.spec_add_packet(p),
    {
        proof {
            use_type_invariant(&*self);
        }
        let select = self.select;
        let view = self.view;
        self.select = None;
        self.view = None;
        let mut list = FiltableList::<Packet>::new();
        std::mem::swap(&mut list, &mut self.list);
        let ghost before = list@;
        list.push(p);
        proof {
            assert forall|i: int| 0 <= i < before.items.len() implies list@.flags()[i]
                == before.flags()[i] by {}
        }
        self.list = list;
        self.view = view;
        self.select = select;
    }

    /// Moves the selection toward the tail: from no selection onto the last
    /// match, else onto the next match; at the last match it stays.
    pub fn next(&mut self)
        ensures
            final(self)@ == old(self)@.spec_next(),
    {
        proof {
            use_type_invariant(&*self);
        }
        match self.select {
            None => {
                self.select = self.list.filterd_last();
            },
            Some(s) => {
                if let Some(x) = self.list.next(s) {
                    self.select = Some(x);
                }
            },
        }
    }

    /// Moves the selection toward the head: from no selection onto the
    /// first match, else onto the previous match; at the first match it
    /// stays.
    pub fn previous(&mut self)
        ensures
            final(self)@ == old(self)@.spec_previous(),
    {
        proof {
            use_type_invariant(&*self);
        }
        match self.select {
            None => {
                self.select = self.list.filterd_first();
            },
            Some(s) => {
                if let Some(x) = self.list.previous(s) {
                    self.select = Some(x);
                }
            },
        }
    }

    /// Pins the selected packet for the detail view; with no selection the
    /// detail view is cleared.
    pub fn to_view(&mut self)
        ensures
            final(self)@ == old(self)@.spec_to_view(),
    {
        proof {
            use_type_invariant(&*self);
        }
        self.view = self.select;
    }

    /// Gives up the selection, so that the window follows the tail again.
    pub fn unselect(&mut self)
        ensures
            final(self)@ == old(self)@.spec_unselect(),
    {
        proof {
            use_type_invariant(&*self);
        }
        self.select = None;
    }

    /// Hands the keys to the next pane.
    pub fn next_forcus(&mut self)
        ensures
            final(self)@ == old(self)@.spec_next_forcus(),
    {
        proof {
            use_type_invariant(&*self);
        }
        let mut mode = self.input_mode;
        mode.next();
        self.input_mode = mode;
    }

    /// The pane that the keys go to.
    pub fn get_input_mode(&self) -> (m: InputMode)
        ensures
            m == self@.input_mode,
    {
        self.input_mode
    }

    /// The selected index, which is nothing or a packet that matches the
    /// active filter.
    pub fn get_select(&self) -> (r: Option<usize>)
        ensures
            r == self@.select,
            self@.well_formed(),
    {
        proof {
            use_type_invariant(self);
        }
        self.select
    }
}

impl Default for App {
    /// A running controller without packets, filter, selection or pinned
    /// packet, with the keys going to the list.
    fn default() -> (s: Self)
        ensures
            s@ == (AppView {
                items: Seq::<Packet>::empty(),
                filter: Seq::<char>::empty(),
                select: None,
                view: None,
                input_mode: InputMode::List,
                running: true,
            }),
    {
        Self {
            list: FiltableList::<Packet>::new(),
            select: None,
            view: None,
            input_mode: InputMode::List,
            running: true,
        }
    }
}

} // verus!
