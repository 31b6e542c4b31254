//! Selection state of the multi-select search boxes (airports, aircraft):
//! the picked items, identified by key, and the keyboard cursor and range
//! over them.
use vstd::prelude::*;
use crate::query::{join_commas, join_with_commas, texts};

verus! {

/// No key occurs twice.
pub open spec fn distinct(s: Seq<u64>) -> bool {
    forall|i: int, j: int| 0 <= i < j < s.len() ==> s[i] != s[j]
}

/// Position of the first occurrence of `x` in `s`, or `s.len()`.
pub open spec fn first_pos(s: Seq<u64>, x: u64) -> int
    decreases s.len(),
{
    if s.len() == 0 {
        0
    } else {
        let f = first_pos(s.drop_last(), x);
        if f < s.len() - 1 {
            f
        } else if s.last() == x {
            s.len() - 1
        } else {
            s.len() as int
        }
    }
}

/// `s` without the first occurrence of `x`, if there is one.
pub open spec fn without_first(s: Seq<u64>, x: u64) -> Seq<u64> {
    if first_pos(s, x) < s.len() {
        s.remove(first_pos(s, x))
    } else {
        s
    }
}

/// The picked items once room is made for one more: when a limit is set and
/// reached, the last item is dropped.
pub open spec fn make_room(s: Seq<u64>, max_items: Option<usize>) -> Seq<u64> {
    if max_items is Some && s.len() >= max_items->0 && s.len() > 0 {
        s.drop_last()
    } else {
        s
    }
}

/// `x` appended unless already present.
pub open spec fn with_item(s: Seq<u64>, x: u64) -> Seq<u64> {
    if s.contains(x) {
        s
    } else {
        s.push(x)
    }
}

/// The first flag at or after `from` that is set, or `-1`.
pub open spec fn next_set(f: Seq<bool>, from: int) -> int
    decreases f.len() - from,
{
    if from < 0 || from >= f.len() {
        -1
    } else if f[from] {
        from
    } else {
        next_set(f, from + 1)
    }
}

/// The last flag at or before `from` that is set, or `-1`.
pub open spec fn prev_set(f: Seq<bool>, from: int) -> int
    decreases from + 1,
{
    if from < 0 || from >= f.len() {
        -1
    } else if f[from] {
        from
    } else {
        prev_set(f, from - 1)
    }
}

pub open spec fn min_usize(a: usize, b: usize) -> usize {
    if a <= b {
        a
    } else {
        b
    }
}

pub open spec fn max_usize(a: usize, b: usize) -> usize {
    if a >= b {
        a
    } else {
        b
    }
}

/// The item at `i`, if there is one.
pub open spec fn item_at(s: Seq<u64>, i: usize) -> Option<u64> {
    if i < s.len() {
        Some(s[i as int])
    } else {
        None
    }
}

/// Whether a token naming `item` (if it names one) gets picked into `sel`.
pub open spec fn token_accepted(sel: Seq<u64>, item: Option<u64>, ok: bool) -> bool {
    item is Some && ok && !sel.contains(item->0)
}

/// The picked items and the left-over tokens after the first `k` typed
/// tokens, starting from `sel`.
pub open spec fn apply_tokens(
    sel: Seq<u64>,
    tokens: Seq<Seq<char>>,
    items: Seq<Option<u64>>,
    oks: Seq<bool>,
    max_items: Option<usize>,
    k: nat,
) -> (Seq<u64>, Seq<Seq<char>>)
    decreases k,
{
    if k == 0 {
        (sel, Seq::empty())
    } else {
        let (s, l) = apply_tokens(sel, tokens, items, oks, max_items, (k - 1) as nat);
        if token_accepted(s, items[k - 1], oks[k - 1]) {
            (with_item(make_room(s, max_items), items[k - 1]->0), l)
        } else {
            (s, l.push(tokens[k - 1]))
        }
    }
}

/// The left-over tokens followed by the part still being typed, if any.
pub open spec fn leftover_query(leftovers: Seq<Seq<char>>, tail: Seq<char>) -> Seq<char> {
    join_commas(
        if tail.len() > 0 {
            leftovers.push(tail)
        } else {
            leftovers
        },
    )
}

/// What one user action does to the picked items.
#[derive(Clone, Copy, Debug, PartialEq, Eq, Structural)]
pub enum SelectionEvent {
    /// A click or Enter on an item (picked only when allowed).
    Pick(u64, bool),
    /// A typed token naming an item, if any (picked only when allowed and
    /// not picked yet).
    PickTyped(Option<u64>, bool),
    /// A pill removed.
    Drop(u64),
    /// The item at a position deleted with the keyboard.
    DropAt(usize),
    /// The last item deleted with the keyboard.
    DropLast,
    /// A keyboard range `first..=last` deleted.
    Cut(usize, usize),
}

/// The picked items after `e`.
pub open spec fn after_event(s: Seq<u64>, e: SelectionEvent, max_items: Option<usize>) -> Seq<u64> {
    match e {
        SelectionEvent::Pick(x, ok) => if ok {
            with_item(make_room(s, max_items), x)
        } else {
            s
        },
        SelectionEvent::PickTyped(item, ok) => if token_accepted(s, item, ok) {
            with_item(make_room(s, max_items), item->0)
        } else {
            s
        },
        SelectionEvent::Drop(x) => without_first(s, x),
        SelectionEvent::DropAt(i) => if i < s.len() {
            s.remove(i as int)
        } else {
            s
        },
        SelectionEvent::DropLast => if s.len() > 0 {
            s.drop_last()
        } else {
            s
        },
        SelectionEvent::Cut(a, b) => if a <= b + 1 && b < s.len() {
            s.subrange(0, a as int) + s.subrange(b + 1, s.len() as int)
        } else {
            s
        },
    }
}

/// The picked items after the events `es`, in order.
pub open spec fn after_events(s: Seq<u64>, es: Seq<SelectionEvent>, max_items: Option<usize>) -> Seq<u64>
    decreases es.len(),
{
    if es.len() == 0 {
        s
    } else {
        after_event(after_events(s, es.drop_last(), max_items), es.last(), max_items)
    }
}

/// The events of a typed list: token `k` names `items[k]`, allowed when
/// `oks[k]`.
pub open spec fn typed_events(items: Seq<Option<u64>>, oks: Seq<bool>) -> Seq<SelectionEvent> {
    Seq::new(items.len(), |k: int| SelectionEvent::PickTyped(items[k], oks[k]))
}

/// Whether `e` picks `x`, when allowed.
pub open spec fn allows_pick(e: SelectionEvent, x: u64) -> bool {
    e == SelectionEvent::Pick(x, true) || e == SelectionEvent::PickTyped(Some(x), true)
}

/// No item twice, and no more items than the limit.
pub open spec fn well_kept(s: Seq<u64>, max_items: Option<usize>) -> bool {
    &&& distinct(s)
    &&& max_items matches Some(m) ==> s.len() <= m
}

pub struct Picker {
    /// Keys of the picked items, in the order they were picked.
    pub selected: Vec<u64>,
    /// Item under the keyboard cursor.
    pub cursor: Option<usize>,
    /// Where a shift-selection started.
    pub anchor: Option<usize>,
    /// First and last item of the shift-selection.
    pub range: Option<(usize, usize)>,
    /// Item whose details stay shown.
    pub pinned: Option<u64>,
    /// Item whose details are shown.
    pub active: Option<u64>,
}

proof fn lemma_first_pos(s: Seq<u64>, x: u64)
    ensures
        0 <= first_pos(s, x) <= s.len(),
        forall|k: int| 0 <= k < first_pos(s, x) ==> #[trigger] s[k] != x,
        first_pos(s, x) < s.len() ==> s[first_pos(s, x)] == x,
        first_pos(s, x) < s.len() <==> s.contains(x),
    decreases s.len(),
{
    if s.len() > 0 {
        let d = s.drop_last();
        lemma_first_pos(d, x);
        assert forall|k: int| 0 <= k < first_pos(s, x) implies #[trigger] s[k] != x by {
            if k < d.len() {
                assert(d[k] == s[k]);
            }
        }
        if s.contains(x) && first_pos(s, x) == s.len() {
            let k = choose|k: int| 0 <= k < s.len() && s[k] == x;
            assert(false);
        }
    }
}

proof fn lemma_distinct_remove(s: Seq<u64>, k: int)
    requires
        distinct(s),
        0 <= k < s.len(),
    ensures
        distinct(s.remove(k)),
{
    let r = s.remove(k);
    assert forall|i: int, j: int| 0 <= i < j < r.len() implies r[i] != r[j] by {
        let si = if i < k { i } else { i + 1 };
        let sj = if j < k { j } else { j + 1 };
        assert(r[i] == s[si]);
        assert(r[j] == s[sj]);
    }
}

proof fn lemma_distinct_cut(s: Seq<u64>, a: int, b: int)
    requires
        distinct(s),
        0 <= a <= b <= s.len(),
    ensures
        distinct(s.subrange(0, a) + s.subrange(b, s.len() as int)),
{
    let r = s.subrange(0, a) + s.subrange(b, s.len() as int);
    assert forall|i: int, j: int| 0 <= i < j < r.len() implies r[i] != r[j] by {
        let si = if i < a { i } else { i - a + b };
        let sj = if j < a { j } else { j - a + b };
        assert(r[i] == s[si]);
        assert(r[j] == s[sj]);
    }
}

proof fn lemma_make_room_with_item(s: Seq<u64>, x: u64, max_items: Option<usize>)
    requires
        well_kept(s, max_items),
        max_items matches Some(m) ==> m >= 1,
    ensures
        well_kept(with_item(make_room(s, max_items), x), max_items),
        forall|y: u64| #[trigger] with_item(make_room(s, max_items), x).contains(y) ==> s.contains(y) || y == x,
{
    let t = make_room(s, max_items);
    if t.len() < s.len() {
        lemma_distinct_remove(s, s.len() - 1);
        assert(s.remove(s.len() - 1) =~= t);
    }
    assert forall|y: u64| t.contains(y) implies s.contains(y) by {
        let k = choose|k: int| 0 <= k < t.len() && t[k] == y;
        assert(s[k] == y);
    }
    if !t.contains(x) {
        let r = t.push(x);
        assert forall|i: int, j: int| 0 <= i < j < r.len() implies r[i] != r[j] by {
            if j == t.len() {
                assert(t.contains(t[i]));
            }
        }
        assert forall|y: u64| r.contains(y) implies s.contains(y) || y == x by {
            let k = choose|k: int| 0 <= k < r.len() && r[k] == y;
            if k < t.len() {
                assert(t.contains(y));
            }
        }
    }
}

proof fn lemma_remove_kept(s: Seq<u64>, i: int, max_items: Option<usize>)
    requires
        well_kept(s, max_items),
        0 <= i < s.len(),
    ensures
        well_kept(s.remove(i), max_items),
        forall|y: u64| #[trigger] s.remove(i).contains(y) ==> s.contains(y),
{
    lemma_distinct_remove(s, i);
    assert forall|y: u64| s.remove(i).contains(y) implies s.contains(y) by {
        let k = choose|k: int| 0 <= k < s.remove(i).len() && s.remove(i)[k] == y;
        if k < i {
            assert(s[k] == y);
        } else {
            assert(s[k + 1] == y);
        }
    }
}

/// Every single event keeps the picked items distinct and within a limit of
/// at least one, and adds at most the item that it picks.
pub proof fn lemma_event_keeps_selection(s: Seq<u64>, e: SelectionEvent, max_items: Option<usize>)
    requires
        well_kept(s, max_items),
        max_items matches Some(m) ==> m >= 1,
    ensures
        well_kept(after_event(s, e, max_items), max_items),
        forall|y: u64| #[trigger] after_event(s, e, max_items).contains(y) ==> s.contains(y)
            || allows_pick(e, y),
{
    match e {
        SelectionEvent::Pick(x, ok) => {
            if ok {
                lemma_make_room_with_item(s, x, max_items);
            }
        },
        SelectionEvent::PickTyped(item, ok) => {
            if token_accepted(s, item, ok) {
                lemma_make_room_with_item(s, item->0, max_items);
            }
        },
        SelectionEvent::Drop(x) => {
            lemma_first_pos(s, x);
            if first_pos(s, x) < s.len() {
                lemma_remove_kept(s, first_pos(s, x), max_items);
            }
        },
        SelectionEvent::DropAt(i) => {
            if i < s.len() {
                lemma_remove_kept(s, i as int, max_items);
            }
        },
        SelectionEvent::DropLast => {
            if s.len() > 0 {
                lemma_remove_kept(s, s.len() - 1, max_items);
                assert(s.remove(s.len() - 1) =~= s.drop_last());
            }
        },
        SelectionEvent::Cut(a, b) => {
            if a <= b + 1 && b < s.len() {
                lemma_distinct_cut(s, a as int, b + 1);
                let r = s.subrange(0, a as int) + s.subrange(b + 1, s.len() as int);
                assert forall|y: u64| r.contains(y) implies s.contains(y) by {
                    let k = choose|k: int| 0 <= k < r.len() && r[k] == y;
                    if k < a {
                        assert(s[k] == y);
                    } else {
                        assert(s[k - a + b + 1] == y);
                    }
                }
            }
        },
    }
}

/// Whatever the user does, the picked items stay distinct and within a limit
/// of at least one, and every item picked along the way was picked by an event
/// that allowed it.
pub proof fn lemma_events_keep_selection(s: Seq<u64>, es: Seq<SelectionEvent>, max_items: Option<usize>)
    requires
        well_kept(s, max_items),
        max_items matches Some(m) ==> m >= 1,
    ensures
        well_kept(after_events(s, es, max_items), max_items),
        forall|y: u64| #[trigger] after_events(s, es, max_items).contains(y) ==> s.contains(y)
            || exists|k: int| 0 <= k < es.len() && allows_pick(es[k], y),
    decreases es.len(),
{
    if es.len() > 0 {
        let d = es.drop_last();
        lemma_events_keep_selection(s, d, max_items);
        let mid = after_events(s, d, max_items);
        lemma_event_keeps_selection(mid, es.last(), max_items);
        assert forall|y: u64| #[trigger] after_events(s, es, max_items).contains(y) implies s.contains(y)
            || exists|k: int| 0 <= k < es.len() && allows_pick(es[k], y) by {
            if mid.contains(y) {
                if !s.contains(y) {
                    let k = choose|k: int| 0 <= k < d.len() && allows_pick(d[k], y);
                    assert(es[k] == d[k]);
                }
            } else {
                assert(allows_pick(es[es.len() - 1], y));
            }
        }
    }
}

/// Applying the first `k` typed tokens acts on the picked items as their
/// events do.
proof fn lemma_apply_tokens_events(
    sel: Seq<u64>,
    tokens: Seq<Seq<char>>,
    items: Seq<Option<u64>>,
    oks: Seq<bool>,
    max_items: Option<usize>,
    k: nat,
)
    requires
        k <= items.len(),
        oks.len() == items.len(),
    ensures
        apply_tokens(sel, tokens, items, oks, max_items, k).0 == after_events(
            sel,
            typed_events(items, oks).take(k as int),
            max_items,
        ),
    decreases k,
{
    let es = typed_events(items, oks).take(k as int);
    if k == 0 {
        assert(es =~= Seq::<SelectionEvent>::empty());
    } else {
        lemma_apply_tokens_events(sel, tokens, items, oks, max_items, (k - 1) as nat);
        assert(es.drop_last() =~= typed_events(items, oks).take(k - 1));
        assert(es.last() == SelectionEvent::PickTyped(items[k - 1], oks[k - 1]));
    }
}

impl Picker {
    pub fn new() -> (r: Picker)
        ensures
            r.selected@.len() == 0,
            r.cursor is None,
            r.anchor is None,
            r.range is None,
            r.pinned is None,
            r.active is None,
    {
        Picker {
            selected: Vec::new(),
            cursor: None,
            anchor: None,
            range: None,
            pinned: None,
            active: None,
        }
    }

    fn contains(&self, x: u64) -> (r: bool)
        ensures
            r == self.selected@.contains(x),
    {
        let n = self.selected.len();
        let mut i: usize = 0;
        while i < n
            invariant
                i <= n,
                n == self.selected@.len(),
                forall|k: int| 0 <= k < i ==> self.selected@[k] != x,
            decreases n - i,
        {
            if self.selected[i] == x {
                return true;
            }
            i = i + 1;
        }
        false
    }

    /// Make room for one more item, then append `item` unless present.
    fn add_with_room(&mut self, item: u64, max_items: Option<usize>)
        ensures
            final(self).selected@ == with_item(make_room(old(self).selected@, max_items), item),
            final(self).cursor == old(self).cursor,
            final(self).anchor == old(self).anchor,
            final(self).range == old(self).range,
            final(self).pinned == old(self).pinned,
            final(self).active == old(self).active,
            distinct(old(self).selected@) ==> distinct(final(self).selected@),
            max_items is Some && max_items->0 >= 1 && old(self).selected@.len() <= max_items->0
                ==> final(self).selected@.len() <= max_items->0,
    {
        if let Some(max) = max_items {
            if self.selected.len() >= max {
                self.selected.pop();
            }
        }
        let ghost trimmed = self.selected@;
        assert(trimmed == make_room(old(self).selected@, max_items));
        if !self.contains(item) {
            self.selected.push(item);
            proof {
                assert forall|i: int, j: int|
                    distinct(old(self).selected@) && 0 <= i < j < self.selected@.len() implies self.selected@[i]
                    != self.selected@[j] by {
                    if j == trimmed.len() {
                        assert(trimmed.contains(trimmed[i]));
                    } else {
                        if trimmed.len() < old(self).selected@.len() {
                            assert(trimmed[i] == old(self).selected@[i]);
                            assert(trimmed[j] == old(self).selected@[j]);
                        }
                    }
                }
            }
        } else {
            proof {
                assert forall|i: int, j: int|
                    distinct(old(self).selected@) && 0 <= i < j < self.selected@.len() implies self.selected@[i]
                    != self.selected@[j] by {
                    if trimmed.len() < old(self).selected@.len() {
                        assert(trimmed[i] == old(self).selected@[i]);
                        assert(trimmed[j] == old(self).selected@[j]);
                    }
                }
            }
        }
    }

    /// Pick the item a typed token names: only a named item that may be
    /// picked and is not picked yet is added (making room as [Picker::select]
    /// does). Returns whether it was added; otherwise the token is left over.
    pub fn add_token_item(&mut self, item: Option<u64>, selectable: bool, max_items: Option<usize>) -> (r: bool)
        ensures
            r == (item is Some && selectable && !old(self).selected@.contains(item->0)),
            r ==> final(self).selected@ == with_item(
                make_room(old(self).selected@, max_items),
                item->0,
            ),
            !r ==> final(self).selected@ == old(self).selected@,
            final(self).cursor == old(self).cursor,
            final(self).anchor == old(self).anchor,
            final(self).range == old(self).range,
            final(self).pinned == old(self).pinned,
            final(self).active == old(self).active,
            distinct(old(self).selected@) ==> distinct(final(self).selected@),
            final(self).selected@ == after_event(
                old(self).selected@,
                SelectionEvent::PickTyped(item, selectable),
                max_items,
            ),
    {
        match item {
            Some(x) => {
                if selectable && !self.contains(x) {
                    self.add_with_room(x, max_items);
                    true
                } else {
                    false
                }
            },
            None => false,
        }
    }

    /// Apply the tokens of a typed comma-separated list: token `k` names
    /// `items[k]` (if any), which may be picked when `selectable[k]`. Picked
    /// tokens are added as [Picker::add_token_item] does; the others, then
    /// the part still being typed, make up the returned text of the box. The
    /// keyboard cursor and range are cleared.
    pub fn apply_typed_tokens(
        &mut self,
        tokens: Vec<String>,
        items: &Vec<Option<u64>>,
        selectable: &Vec<bool>,
        tail: String,
        max_items: Option<usize>,
    ) -> (r: String)
        requires
            items@.len() == tokens@.len(),
            selectable@.len() == tokens@.len(),
        ensures
            ({
                let (s, l) = apply_tokens(
                    old(self).selected@,
                    texts(tokens@),
                    items@,
                    selectable@,
                    max_items,
                    tokens@.len(),
                );
                &&& final(self).selected@ == s
                &&& r@ == leftover_query(l, tail@)
            }),
            final(self).cursor is None,
            final(self).anchor is None,
            final(self).range is None,
            final(self).pinned == old(self).pinned,
            final(self).active == old(self).active,
            distinct(old(self).selected@) ==> distinct(final(self).selected@),
            final(self).selected@ == after_events(
                old(self).selected@,
                typed_events(items@, selectable@),
                max_items,
            ),
            well_kept(old(self).selected@, max_items) && (max_items matches Some(m) ==> m >= 1)
                ==> well_kept(final(self).selected@, max_items),
    {
        let ghost sel0 = self.selected@;
        let ghost tk = texts(tokens@);
        let mut leftovers: Vec<String> = Vec::new();
        let n = tokens.len();
        let mut k: usize = 0;
        while k < n
            invariant
                k <= n,
                n == tokens@.len(),
                items@.len() == n,
                selectable@.len() == n,
                tk == texts(tokens@),
                (self.selected@, texts(leftovers@)) == apply_tokens(
                    sel0,
                    tk,
                    items@,
                    selectable@,
                    max_items,
                    k as nat,
                ),
                self.pinned == old(self).pinned,
                self.active == old(self).active,
                distinct(sel0) ==> distinct(self.selected@),
            decreases n - k,
        {
            let ghost lo = leftovers@;
            let accepted = self.add_token_item(items[k], selectable[k], max_items);
            if !accepted {
                let t = tokens[k].clone();
                leftovers.push(t);
                proof {
                    assert(texts(leftovers@) =~= texts(lo).push(tk[k as int]));
                }
            }
            k = k + 1;
        }
        let ghost lo = leftovers@;
        if tail.unicode_len() > 0 {
            leftovers.push(tail);
            proof {
                assert(texts(leftovers@) =~= texts(lo).push(tail@));
            }
        }
        self.cursor = None;
        self.anchor = None;
        self.range = None;
        proof {
            lemma_apply_tokens_events(sel0, tk, items@, selectable@, max_items, n as nat);
            assert(typed_events(items@, selectable@).take(n as int) =~= typed_events(
                items@,
                selectable@,
            ));
            if well_kept(sel0, max_items) && (max_items matches Some(m) ==> m >= 1) {
                lemma_events_keep_selection(sel0, typed_events(items@, selectable@), max_items);
            }
        }
        join_with_commas(&leftovers)
    }

    /// Pick `item` (when it may be picked). With a limit that is reached, the
    /// last picked item makes room first; an item already picked is not
    /// added twice. Every cursor, range and pin is cleared. Returns whether
    /// the item could be picked.
    pub fn select(&mut self, item: u64, selectable: bool, max_items: Option<usize>) -> (r: bool)
        ensures
            r == selectable,
            !selectable ==> *final(self) == *old(self),
            selectable ==> final(self).selected@ == with_item(
                make_room(old(self).selected@, max_items),
                item,
            ),
            selectable ==> final(self).cursor is None && final(self).anchor is None
                && final(self).range is None && final(self).pinned is None
                && final(self).active is None,
            distinct(old(self).selected@) ==> distinct(final(self).selected@),
            max_items is Some && max_items->0 >= 1 && old(self).selected@.len() <= max_items->0
                ==> final(self).selected@.len() <= max_items->0,
            final(self).selected@ == after_event(
                old(self).selected@,
                SelectionEvent::Pick(item, selectable),
                max_items,
            ),
    {
        if !selectable {
            return false;
        }
        self.add_with_room(item, max_items);
        self.cursor = None;
        self.anchor = None;
        self.range = None;
        self.pinned = None;
        self.active = None;
        true
    }

    /// Unpick `item`: its first occurrence leaves; an unpinned item stops
    /// being shown; the cursor moves back onto the last item if it fell off.
    pub fn remove(&mut self, item: u64)
        ensures
            final(self).selected@ == without_first(old(self).selected@, item),
            final(self).selected@ == after_event(old(self).selected@, SelectionEvent::Drop(item), None),
            distinct(old(self).selected@) ==> distinct(final(self).selected@),
            old(self).pinned == Some(item) ==> final(self).pinned is None && final(self).active is None,
            old(self).pinned != Some(item) ==> final(self).pinned == old(self).pinned
                && final(self).active == old(self).active,
            final(self).anchor == old(self).anchor,
            final(self).range == old(self).range,
            final(self).cursor == match old(self).cursor {
                None => None,
                Some(i) => if final(self).selected@.len() == 0 {
                    None
                } else if i >= final(self).selected@.len() {
                    Some((final(self).selected@.len() - 1) as usize)
                } else {
                    Some(i)
                },
            },
    {
        proof {
            lemma_first_pos(self.selected@, item);
        }
        let n = self.selected.len();
        let mut i: usize = 0;
        while i < n && self.selected[i] != item
            invariant
                i <= n,
                n == self.selected@.len(),
                self.selected@ == old(self).selected@,
                forall|k: int| 0 <= k < i ==> self.selected@[k] != item,
            decreases n - i,
        {
            i = i + 1;
        }
        proof {
            let f = first_pos(self.selected@, item);
            if f < i {
                assert(self.selected@[f] == item);
            }
            if i < n && f > i {
                assert(self.selected@[i as int] != item);
            }
        }
        if i < n {
            proof {
                if distinct(self.selected@) {
                    lemma_distinct_remove(self.selected@, i as int);
                }
            }
            self.selected.remove(i);
        }
        if self.pinned == Some(item) {
            self.pinned = None;
            self.active = None;
        }
        let len = self.selected.len();
        if let Some(c) = self.cursor {
            if len == 0 {
                self.cursor = None;
            } else if c >= len {
                self.cursor = Some(len - 1);
            }
        }
    }

    /// Clicking a picked item pins it (and shows it), or unpins it.
    pub fn pill_click(&mut self, item: u64)
        ensures
            old(self).pinned == Some(item) ==> final(self).pinned is None && final(self).active == old(self).active,
            old(self).pinned != Some(item) ==> final(self).pinned == Some(item) && final(self).active == Some(item),
            final(self).selected@ == old(self).selected@,
            final(self).cursor == old(self).cursor,
            final(self).anchor == old(self).anchor,
            final(self).range == old(self).range,
    {
        if self.pinned == Some(item) {
            self.pinned = None;
        } else {
            self.pinned = Some(item);
            self.active = Some(item);
        }
    }

    /// Select every picked item (ctrl/cmd + A). Returns whether there was
    /// anything to select.
    pub fn select_all(&mut self) -> (r: bool)
        ensures
            r == (old(self).selected@.len() > 0),
            !r ==> *final(self) == *old(self),
            r ==> {
                let n = old(self).selected@.len();
                &&& final(self).selected@ == old(self).selected@
                &&& final(self).anchor == Some(0usize)
                &&& final(self).range == Some((0usize, (n - 1) as usize))
                &&& final(self).cursor == Some((n - 1) as usize)
                &&& final(self).active == Some(old(self).selected@[n - 1])
                &&& final(self).pinned == old(self).pinned
            },
    {
        let n = self.selected.len();
        if n == 0 {
            return false;
        }
        self.anchor = Some(0);
        self.range = Some((0, n - 1));
        self.cursor = Some(n - 1);
        self.active = Some(self.selected[n - 1]);
        true
    }

    /// Keys to copy (ctrl/cmd + C): the selected range, else everything when
    /// nothing is being typed, else nothing.
    pub fn copy_keys(&self, query_empty: bool) -> (r: Vec<u64>)
        requires
            self.range matches Some(p) ==> p.0 <= p.1 + 1 && p.1 < self.selected@.len(),
        ensures
            r@ == match self.range {
                Some(p) => self.selected@.subrange(p.0 as int, p.1 + 1),
                None => if self.selected@.len() > 0 && query_empty {
                    self.selected@
                } else {
                    Seq::empty()
                },
            },
    {
        let mut out: Vec<u64> = Vec::new();
        let n = self.selected.len();
        let (from, to) = match self.range {
            Some((s, e)) => (s, e + 1),
            None => if n > 0 && query_empty {
                (0, n)
            } else {
                (0, 0)
            },
        };
        let mut i = from;
        while i < to
            invariant
                from <= i <= to <= self.selected@.len(),
                out@ == self.selected@.subrange(from as int, i as int),
            decreases to - i,
        {
            out.push(self.selected[i]);
            i = i + 1;
        }
        assert(self.selected@.subrange(0, self.selected@.len() as int) =~= self.selected@);
        out
    }

    /// Move the cursor one item left (extending the range with shift).
    /// Returns whether there was anything to move over.
    pub fn arrow_left(&mut self, shift: bool) -> (r: bool)
        ensures
            r == (old(self).selected@.len() > 0),
            !r ==> *final(self) == *old(self),
            r ==> {
                let n = old(self).selected@.len() as usize;
                let current = match old(self).cursor {
                    Some(c) => c,
                    None => n,
                };
                let next = if current > 0 {
                    (current - 1) as usize
                } else {
                    0usize
                };
                let anchor = match old(self).anchor {
                    Some(a) => a,
                    None => next,
                };
                &&& final(self).selected@ == old(self).selected@
                &&& final(self).cursor == Some(next)
                &&& final(self).active == item_at(old(self).selected@, next)
                &&& final(self).pinned == old(self).pinned
                &&& shift ==> final(self).anchor == Some(anchor) && final(self).range == Some(
                    (min_usize(anchor, next), max_usize(anchor, next)),
                )
                &&& !shift ==> final(self).anchor is None && final(self).range is None
            },
    {
        let n = self.selected.len();
        if n == 0 {
            return false;
        }
        let current = match self.cursor {
            Some(c) => c,
            None => n,
        };
        let next = if current > 0 {
            current - 1
        } else {
            0
        };
        if shift {
            let anchor = match self.anchor {
                Some(a) => a,
                None => next,
            };
            self.anchor = Some(anchor);
            let lo = if anchor <= next {
                anchor
            } else {
                next
            };
            let hi = if anchor >= next {
                anchor
            } else {
                next
            };
            self.range = Some((lo, hi));
        } else {
            self.anchor = None;
            self.range = None;
        }
        self.cursor = Some(next);
        self.active = if next < n {
            Some(self.selected[next])
        } else {
            None
        };
        true
    }

    /// Move the cursor one item right (extending the range with shift);
    /// moving past the last item leaves the items. Returns whether there was
    /// anything to move over.
    pub fn arrow_right(&mut self, shift: bool) -> (r: bool)
        requires
            old(self).cursor matches Some(c) ==> c < usize::MAX,
        ensures
            r == (old(self).selected@.len() > 0),
            !r ==> *final(self) == *old(self),
            r ==> {
                let n = old(self).selected@.len() as usize;
                let current = match old(self).cursor {
                    Some(c) => c,
                    None => 0usize,
                };
                let next = min_usize((current + 1) as usize, n);
                let anchor = match old(self).anchor {
                    Some(a) => a,
                    None => current,
                };
                &&& final(self).selected@ == old(self).selected@
                &&& final(self).pinned == old(self).pinned
                &&& next == n ==> final(self).cursor is None && final(self).active is None
                &&& next < n ==> final(self).cursor == Some(next) && final(self).active == Some(
                    old(self).selected@[next as int],
                )
                &&& shift && next < n ==> final(self).anchor == Some(anchor) && final(self).range
                    == Some((min_usize(anchor, next), max_usize(anchor, next)))
                &&& !(shift && next < n) ==> final(self).anchor is None && final(self).range is None
            },
    {
        let n = self.selected.len();
        if n == 0 {
            return false;
        }
        let current = match self.cursor {
            Some(c) => c,
            None => 0,
        };
        let next = if current + 1 <= n {
            current + 1
        } else {
            n
        };
        if shift && next < n {
            let anchor = match self.anchor {
                Some(a) => a,
                None => current,
            };
            self.anchor = Some(anchor);
            let lo = if anchor <= next {
                anchor
            } else {
                next
            };
            let hi = if anchor >= next {
                anchor
            } else {
                next
            };
            self.range = Some((lo, hi));
        } else {
            self.anchor = None;
            self.range = None;
        }
        if next == n {
            self.cursor = None;
            self.active = None;
        } else {
            self.cursor = Some(next);
            self.active = Some(self.selected[next]);
        }
        true
    }

    /// Backspace with nothing typed: delete the selected range, else the
    /// item under the cursor (the cursor stays, moving back if it fell off),
    /// else the last item.
    pub fn backspace(&mut self)
        requires
            old(self).range matches Some(p) ==> p.0 <= p.1 + 1 && p.1 < old(self).selected@.len(),
        ensures
            distinct(old(self).selected@) ==> distinct(final(self).selected@),
            final(self).selected@ == after_event(
                old(self).selected@,
                match old(self).range {
                    Some(p) => SelectionEvent::Cut(p.0, p.1),
                    None => match old(self).cursor {
                        Some(i) => SelectionEvent::DropAt(i),
                        None => SelectionEvent::DropLast,
                    },
                },
                None,
            ),
            match old(self).range {
                Some(p) => {
                    &&& final(self).selected@ == old(self).selected@.subrange(0, p.0 as int)
                        + old(self).selected@.subrange(p.1 + 1, old(self).selected@.len() as int)
                    &&& final(self).anchor is None && final(self).range is None
                    &&& final(self).cursor is None && final(self).active is None
                    &&& final(self).pinned == old(self).pinned
                },
                None => match old(self).cursor {
                    Some(i) => {
                        &&& final(self).selected@ == if i < old(self).selected@.len() {
                            old(self).selected@.remove(i as int)
                        } else {
                            old(self).selected@
                        }
                        &&& final(self).selected@.len() == 0 ==> final(self).cursor is None
                            && final(self).active is None
                        &&& final(self).selected@.len() > 0 ==> {
                            let next = min_usize(i, (final(self).selected@.len() - 1) as usize);
                            &&& final(self).cursor == Some(next)
                            &&& final(self).active == Some(final(self).selected@[next as int])
                        }
                        &&& final(self).anchor == old(self).anchor
                        &&& final(self).range == old(self).range
                        &&& final(self).pinned == old(self).pinned
                    },
                    None => {
                        &&& final(self).selected@ == if old(self).selected@.len() > 0 {
                            old(self).selected@.drop_last()
                        } else {
                            old(self).selected@
                        }
                        &&& old(self).selected@.len() > 0 && old(self).pinned == Some(
                            old(self).selected@.last(),
                        ) ==> final(self).pinned is None
                        &&& !(old(self).selected@.len() > 0 && old(self).pinned == Some(
                            old(self).selected@.last(),
                        )) ==> final(self).pinned == old(self).pinned
                        &&& final(self).active is None
                        &&& final(self).cursor == old(self).cursor
                        &&& final(self).anchor == old(self).anchor
                        &&& final(self).range == old(self).range
                    },
                },
            },
    {
        match self.range {
            Some((start, end)) => {
                let n = self.selected.len();
                let mut kept: Vec<u64> = Vec::new();
                let mut i: usize = 0;
                while i < n
                    invariant
                        i <= n,
                        n == self.selected@.len(),
                        start <= end + 1,
                        end < n,
                        kept@ == if i <= start {
                            self.selected@.subrange(0, i as int)
                        } else if i <= end + 1 {
                            self.selected@.subrange(0, start as int)
                        } else {
                            self.selected@.subrange(0, start as int) + self.selected@.subrange(
                                end + 1,
                                i as int,
                            )
                        },
                    decreases n - i,
                {
                    if i < start || i > end {
                        kept.push(self.selected[i]);
                    }
                    proof {
                        if i > end {
                            assert(self.selected@.subrange(end + 1, i + 1) =~= self.selected@.subrange(
                                end + 1,
                                i as int,
                            ).push(self.selected@[i as int]));
                        }
                    }
                    i = i + 1;
                }
                proof {
                    assert(kept@ =~= self.selected@.subrange(0, start as int) + self.selected@.subrange(
                        end + 1,
                        n as int,
                    ));
                    if distinct(self.selected@) {
                        lemma_distinct_cut(self.selected@, start as int, end + 1);
                    }
                }
                self.selected = kept;
                self.anchor = None;
                self.range = None;
                self.cursor = None;
                self.active = None;
            },
            None => match self.cursor {
                Some(i) => {
                    if i < self.selected.len() {
                        proof {
                            if distinct(self.selected@) {
                                lemma_distinct_remove(self.selected@, i as int);
                            }
                        }
                        self.selected.remove(i);
                    }
                    let len = self.selected.len();
                    if len == 0 {
                        self.cursor = None;
                        self.active = None;
                    } else {
                        let next = if i <= len - 1 {
                            i
                        } else {
                            len - 1
                        };
                        self.cursor = Some(next);
                        self.active = Some(self.selected[next]);
                    }
                },
                None => {
                    proof {
                        if distinct(self.selected@) && self.selected@.len() > 0 {
                            lemma_distinct_cut(
                                self.selected@,
                                self.selected@.len() - 1,
                                self.selected@.len() as int,
                            );
                            assert(self.selected@.drop_last() =~= self.selected@.subrange(
                                0,
                                self.selected@.len() - 1,
                            ) + self.selected@.subrange(
                                self.selected@.len() as int,
                                self.selected@.len() as int,
                            ));
                        }
                    }
                    let popped = self.selected.pop();
                    if let Some(item) = popped {
                        if self.pinned == Some(item) {
                            self.pinned = None;
                        }
                    }
                    self.active = None;
                },
            },
        }
    }
}

/// The first suggestion that may be picked, or the first suggestion.
pub fn first_selectable(flags: &Vec<bool>) -> (r: usize)
    ensures
        r as int == if next_set(flags@, 0) >= 0 {
            next_set(flags@, 0)
        } else {
            0
        },
{
    let n = flags.len();
    let mut k: usize = 0;
    while k < n
        invariant
            k <= n,
            n == flags@.len(),
            next_set(flags@, 0) == next_set(flags@, k as int),
        decreases n - k,
    {
        if flags[k] {
            return k;
        }
        k = k + 1;
    }
    0
}

/// Arrow down in the suggestions: the next one that may be picked, or stay.
pub fn highlight_down(i: usize, flags: &Vec<bool>) -> (r: usize)
    requires
        i < usize::MAX,
    ensures
        r as int == if next_set(flags@, i + 1) >= 0 {
            next_set(flags@, i + 1)
        } else {
            i as int
        },
{
    let n = flags.len();
    let mut k: usize = i + 1;
    while k < n
        invariant
            i + 1 <= k,
            n == flags@.len(),
            next_set(flags@, i + 1) == next_set(flags@, k as int),
        decreases n - k,
    {
        if flags[k] {
            return k;
        }
        k = k + 1;
    }
    i
}

/// Arrow up in the suggestions: the previous one that may be picked, or stay.
/// The highlight lies at most one past the last suggestion.
pub fn highlight_up(i: usize, flags: &Vec<bool>) -> (r: usize)
    requires
        i <= flags@.len(),
    ensures
        r as int == if i > 0 && prev_set(flags@, i - 1) >= 0 {
            prev_set(flags@, i - 1)
        } else {
            i as int
        },
{
    if i == 0 {
        return i;
    }
    let mut k: usize = i;
    while k > 0
        invariant
            k <= i <= flags@.len(),
            prev_set(flags@, i - 1) == prev_set(flags@, k - 1),
        decreases k,
    {
        if flags[k - 1] {
            return k - 1;
        }
        k = k - 1;
    }
    i
}

} // verus!
