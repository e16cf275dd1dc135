//! The widgets of a window as far as focus goes: which kinds they are, and which one has
//! the keyboard focus.
use vstd::prelude::*;

verus! {

/// The kinds of widgets.
#[derive(Clone, Copy, Debug, PartialEq, Eq)]
pub enum WidgetKind {
    TextBox,
    Plot,
    Button,
    Label,
}

impl WidgetKind {
    /// Only text boxes take the keyboard focus.
    pub open spec fn spec_want_focus(self) -> bool {
        self == WidgetKind::TextBox
    }

    /// Whether a widget of this kind takes the keyboard focus.
    pub fn want_focus(self) -> (res: bool)
        ensures
            res == self.spec_want_focus(),
    {
        match self {
            WidgetKind::TextBox => true,
            _ => false,
        }
    }
}

/// The index `k` steps from `start` among `n` widgets, forward or backward, going round.
pub open spec fn cyclic_step(n: int, start: int, forward: bool, k: int) -> int {
    if forward {
        (start + k) % n
    } else {
        (start - k) % n
    }
}

/// Searching from step `k` on: the first index at or after `k` steps from `start` whose
/// widget takes the focus, before coming round to `start` again; `start` if there is none.
pub open spec fn focus_search(kinds: Seq<WidgetKind>, start: int, forward: bool, k: int) -> int
    decreases kinds.len() - k,
{
    if k >= kinds.len() {
        start
    } else if kinds[cyclic_step(kinds.len() as int, start, forward, k)].spec_want_focus() {
        cyclic_step(kinds.len() as int, start, forward, k)
    } else {
        focus_search(kinds, start, forward, k + 1)
    }
}

/// Where the focus moves from `start`: to the next widget in the direction that takes the
/// focus, going round; it stays when no other widget takes it, or when there are none.
pub open spec fn advance_target(kinds: Seq<WidgetKind>, start: int, forward: bool) -> int {
    if kinds.len() == 0 {
        start
    } else {
        focus_search(kinds, start, forward, 1)
    }
}

/// Where a search for the focus starts among `n` widgets from `focus`: there, or, past
/// the last widget, as many places from the start as it is past the end, going round.
pub open spec fn focus_start(n: int, focus: int) -> int {
    if n > 0 {
        focus % n
    } else {
        focus
    }
}

/// The widgets of a window, by kind, in the order they were added, and the index of the
/// one with the keyboard focus.
pub struct WidgetBag {
    pub kinds: Vec<WidgetKind>,
    pub focus: usize,
}

proof fn lemma_step_next(n: int, start: int, forward: bool, k: int)
    requires
        0 <= start < n,
        0 <= k,
    ensures
        0 <= cyclic_step(n, start, forward, k) < n,
        forward ==> cyclic_step(n, start, forward, k + 1) == if cyclic_step(n, start, forward, k) + 1 == n {
            0
        } else {
            cyclic_step(n, start, forward, k) + 1
        },
        !forward ==> cyclic_step(n, start, forward, k + 1) == if cyclic_step(n, start, forward, k) == 0 {
            n - 1
        } else {
            cyclic_step(n, start, forward, k) - 1
        },
{
    let a = if forward { start + k } else { start - k };
    let b = if forward { a + 1 } else { a - 1 };
    assert(0 <= a % n < n) by (nonlinear_arith)
        requires
            n > 0,
    ;
    let q = a / n;
    let r = a % n;
    assert(a == q * n + r) by (nonlinear_arith)
        requires
            n > 0,
            q == a / n,
            r == a % n,
    ;
    if forward {
        if r + 1 == n {
            assert(b == (q + 1) * n) by (nonlinear_arith)
                requires
                    a == q * n + r,
                    r + 1 == n,
                    b == a + 1,
            ;
            assert(b % n == 0) by (nonlinear_arith)
                requires
                    b == (q + 1) * n,
                    n > 0,
            ;
        } else {
            assert(b % n == r + 1) by (nonlinear_arith)
                requires
                    b == q * n + r + 1,
                    0 <= r,
                    r + 1 < n,
                    n > 0,
            ;
        }
    } else {
        if r == 0 {
            assert(b == (q - 1) * n + (n - 1)) by (nonlinear_arith)
                requires
                    a == q * n + r,
                    r == 0,
                    b == a - 1,
            ;
            assert(b % n == n - 1) by (nonlinear_arith)
                requires
                    b == (q - 1) * n + (n - 1),
                    n > 0,
            ;
        } else {
            assert(b % n == r - 1) by (nonlinear_arith)
                requires
                    b == q * n + (r - 1),
                    0 <= r - 1 < n,
                    n > 0,
            ;
        }
    }
}

proof fn lemma_step_round(n: int, start: int, forward: bool, k: int)
    requires
        0 <= start < n,
        0 <= k <= n,
    ensures
        cyclic_step(n, start, forward, k) == start <==> (k == 0 || k == n),
{
    if forward {
        if start + k < n {
            assert((start + k) % n == start + k) by (nonlinear_arith)
                requires
                    0 <= start + k < n,
            ;
        } else {
            assert((start + k) % n == start + k - n) by (nonlinear_arith)
                requires
                    n <= start + k < 2 * n,
            ;
        }
    } else {
        if start - k >= 0 {
            assert((start - k) % n == start - k) by (nonlinear_arith)
                requires
                    0 <= start - k < n,
            ;
        } else {
            assert((start - k) % n == start - k + n) by (nonlinear_arith)
                requires
                    -n <= start - k < 0,
            ;
        }
    }
}

impl WidgetBag {
    /// The kinds of the widgets, by index.
    pub open spec fn kinds(&self) -> Seq<WidgetKind> {
        self.kinds@
    }

    /// No widgets, focus on index 0.
    pub fn new() -> (res: Self)
        ensures
            res.kinds() == Seq::<WidgetKind>::empty(),
            res.focus == 0,
    {
        WidgetBag { kinds: Vec::new(), focus: 0 }
    }

    /// The number of widgets.
    pub fn len(&self) -> (res: usize)
        ensures
            res == self.kinds().len(),
    {
        self.kinds.len()
    }

    /// The kind of the widget at `index`.
    pub fn kind(&self, index: usize) -> (res: Option<WidgetKind>)
        ensures
            index < self.kinds().len() ==> res == Some(self.kinds()[index as int]),
            index >= self.kinds().len() ==> res is None,
    {
        if index < self.kinds.len() {
            Some(self.kinds[index])
        } else {
            None
        }
    }

    fn add(&mut self, kind: WidgetKind) -> (index: usize)
        requires
            old(self).kinds().len() < usize::MAX,
        ensures
            final(self).kinds() == old(self).kinds().push(kind),
            final(self).focus == old(self).focus,
            index == old(self).kinds().len(),
    {
        let index = self.kinds.len();
        self.kinds.push(kind);
        index
    }

    /// Adds a text box; returns its index.
    pub fn add_text_box(&mut self) -> (index: usize)
        requires
            old(self).kinds().len() < usize::MAX,
        ensures
            final(self).kinds() == old(self).kinds().push(WidgetKind::TextBox),
            final(self).focus == old(self).focus,
            index == old(self).kinds().len(),
    {
        self.add(WidgetKind::TextBox)
    }

    /// Adds a plot; returns its index.
    pub fn add_plot(&mut self) -> (index: usize)
        requires
            old(self).kinds().len() < usize::MAX,
        ensures
            final(self).kinds() == old(self).kinds().push(WidgetKind::Plot),
            final(self).focus == old(self).focus,
            index == old(self).kinds().len(),
    {
        self.add(WidgetKind::Plot)
    }

    /// Adds a button; returns its index.
    pub fn add_button(&mut self) -> (index: usize)
        requires
            old(self).kinds().len() < usize::MAX,
        ensures
            final(self).kinds() == old(self).kinds().push(WidgetKind::Button),
            final(self).focus == old(self).focus,
            index == old(self).kinds().len(),
    {
        self.add(WidgetKind::Button)
    }

    /// Adds a label; returns its index.
    pub fn add_label(&mut self) -> (index: usize)
        requires
            old(self).kinds().len() < usize::MAX,
        ensures
            final(self).kinds() == old(self).kinds().push(WidgetKind::Label),
            final(self).focus == old(self).focus,
            index == old(self).kinds().len(),
    {
        self.add(WidgetKind::Label)
    }

    /// Removes the last widget, if any.
    pub fn pop(&mut self) -> (res: Option<WidgetKind>)
        ensures
            old(self).kinds().len() > 0 ==> res == Some(old(self).kinds().last())
                && final(self).kinds() == old(self).kinds().drop_last(),
            old(self).kinds().len() == 0 ==> res is None && final(self).kinds() == old(self).kinds(),
            final(self).focus == old(self).focus,
    {
        self.kinds.pop()
    }

    /// Moves the focus to the next widget that takes it, forward when `direction` is not
    /// negative and backward otherwise, going round. A focus past the last widget first
    /// counts round from the start.
    pub fn advance_focus(&mut self, direction: i32)
        requires
            old(self).focus >= old(self).kinds().len() > 0 ==> {
                &&& exists|j: int| 0 <= j < old(self).kinds().len() && (#[trigger] old(self).kinds()[j]).spec_want_focus()
                &&& direction >= 0 ==> old(self).focus < usize::MAX
                &&& direction < 0 ==> old(self).focus + old(self).kinds().len() - 1 <= usize::MAX
            },
        ensures
            final(self).kinds() == old(self).kinds(),
            final(self).focus == advance_target(
                old(self).kinds(),
                focus_start(old(self).kinds().len() as int, old(self).focus as int),
                direction >= 0,
            ),
    {
        if self.kinds.is_empty() {
            return;
        }
        let n = self.kinds.len();
        if self.focus >= n {
            self.focus = self.focus % n;
        }
        let start = self.focus;
        let forward = direction >= 0;
        let ghost mut k: int = 0;
        proof {
            lemma_step_round(n as int, start as int, forward, 0);
        }
        loop
            invariant
                n == self.kinds@.len(),
                n > 0,
                start < n,
                forward == (direction >= 0),
                self.kinds() == old(self).kinds(),
                start == focus_start(n as int, old(self).focus as int),
                0 <= k < n,
                self.focus == cyclic_step(n as int, start as int, forward, k),
                advance_target(self.kinds@, start as int, forward) == focus_search(self.kinds@, start as int, forward, k + 1),
            decreases n - k,
        {
            proof {
                lemma_step_next(n as int, start as int, forward, k);
            }
            if forward {
                self.focus = if self.focus + 1 == n { 0 } else { self.focus + 1 };
            } else {
                self.focus = if self.focus == 0 { n - 1 } else { self.focus - 1 };
            }
            proof {
                k = k + 1;
                lemma_step_round(n as int, start as int, forward, k);
            }
            if self.focus == start || self.kinds[self.focus].want_focus() {
                return;
            }
        }
    }

    /// Gives the focus to the first widget that takes it and is hit (`hits[i]` for the
    /// widget at `i`), if any.
    pub fn focus_clicked(&mut self, hits: &[bool])
        requires
            hits@.len() == old(self).kinds().len(),
        ensures
            final(self).kinds() == old(self).kinds(),
            match first_focus_hit(old(self).kinds(), hits@, 0) {
                Some(i) => final(self).focus == i,
                None => final(self).focus == old(self).focus,
            },
    {
        let mut index: usize = 0;
        while index < self.kinds.len()
            invariant
                index <= self.kinds@.len(),
                hits@.len() == self.kinds@.len(),
                self.kinds() == old(self).kinds(),
                self.focus == old(self).focus,
                first_focus_hit(self.kinds@, hits@, 0) == first_focus_hit(self.kinds@, hits@, index as int),
            decreases self.kinds@.len() - index,
        {
            if self.kinds[index].want_focus() && hits[index] {
                self.focus = index;
                return;
            }
            index = index + 1;
        }
    }
}

/// The first index at or after `i` whose widget takes the focus and is hit.
pub open spec fn first_focus_hit(kinds: Seq<WidgetKind>, hits: Seq<bool>, i: int) -> Option<nat>
    decreases kinds.len() - i,
{
    if i < 0 || i >= kinds.len() {
        None
    } else if kinds[i].spec_want_focus() && hits[i] {
        Some(i as nat)
    } else {
        first_focus_hit(kinds, hits, i + 1)
    }
}

/// Advancing the focus keeps it among the widgets; it lands on a widget that takes
/// the focus unless it stays where it was; and when some other widget takes the focus, it
/// moves.
pub proof fn law_advance_focus(kinds: Seq<WidgetKind>, start: int, forward: bool)
    requires
        0 <= start < kinds.len(),
    ensures
        0 <= advance_target(kinds, start, forward) < kinds.len(),
        advance_target(kinds, start, forward) == start
            || kinds[advance_target(kinds, start, forward)].spec_want_focus(),
        (exists|j: int| 0 <= j < kinds.len() && j != start && (#[trigger] kinds[j]).spec_want_focus())
            ==> advance_target(kinds, start, forward) != start,
{
    lemma_search(kinds, start, forward, 1);
    if exists|j: int| 0 <= j < kinds.len() && j != start && (#[trigger] kinds[j]).spec_want_focus() {
        let j = choose|j: int| 0 <= j < kinds.len() && j != start && (#[trigger] kinds[j]).spec_want_focus();
        let k = steps_to(kinds.len() as int, start, forward, j);
        lemma_steps_to(kinds.len() as int, start, forward, j);
        lemma_step_round(kinds.len() as int, start, forward, k);
        lemma_search_finds(kinds, start, forward, 1, k);
    }
}

/// The number of steps from `start` to `j` in the direction, between 0 and n - 1.
spec fn steps_to(n: int, start: int, forward: bool, j: int) -> int {
    if forward {
        (j - start) % n
    } else {
        (start - j) % n
    }
}

proof fn lemma_steps_to(n: int, start: int, forward: bool, j: int)
    requires
        0 <= start < n,
        0 <= j < n,
    ensures
        0 <= steps_to(n, start, forward, j) < n,
        cyclic_step(n, start, forward, steps_to(n, start, forward, j)) == j,
{
    if forward {
        if j >= start {
            assert((j - start) % n == j - start) by (nonlinear_arith)
                requires
                    0 <= j - start < n,
            ;
            assert((start + (j - start)) % n == j) by (nonlinear_arith)
                requires
                    0 <= j < n,
            ;
        } else {
            assert((j - start) % n == j - start + n) by (nonlinear_arith)
                requires
                    -n < j - start < 0,
            ;
            assert((start + (j - start + n)) % n == j) by (nonlinear_arith)
                requires
                    0 <= j < n,
            ;
        }
    } else {
        if start >= j {
            assert((start - j) % n == start - j) by (nonlinear_arith)
                requires
                    0 <= start - j < n,
            ;
            assert((start - (start - j)) % n == j) by (nonlinear_arith)
                requires
                    0 <= j < n,
            ;
        } else {
            assert((start - j) % n == start - j + n) by (nonlinear_arith)
                requires
                    -n < start - j < 0,
            ;
            assert((start - (start - j + n)) % n == j) by (nonlinear_arith)
                requires
                    0 <= j < n,
            ;
        }
    }
}

proof fn lemma_search(kinds: Seq<WidgetKind>, start: int, forward: bool, k: int)
    requires
        0 <= start < kinds.len(),
        1 <= k,
    ensures
        0 <= focus_search(kinds, start, forward, k) < kinds.len(),
        focus_search(kinds, start, forward, k) == start
            || kinds[focus_search(kinds, start, forward, k)].spec_want_focus(),
    decreases kinds.len() - k,
{
    if k < kinds.len() {
        lemma_step_next(kinds.len() as int, start, forward, k);
        lemma_search(kinds, start, forward, k + 1);
    }
}

proof fn lemma_search_finds(kinds: Seq<WidgetKind>, start: int, forward: bool, k: int, target: int)
    requires
        0 <= start < kinds.len(),
        1 <= k <= target < kinds.len(),
        kinds[cyclic_step(kinds.len() as int, start, forward, target)].spec_want_focus(),
        cyclic_step(kinds.len() as int, start, forward, target) != start,
    ensures
        focus_search(kinds, start, forward, k) != start,
    decreases target - k,
{
    let n = kinds.len() as int;
    lemma_step_next(n, start, forward, k);
    lemma_step_round(n, start, forward, k);
    if k < target {
        lemma_search_finds(kinds, start, forward, k + 1, target);
    }
}

/// The first index at or after `i` whose widget is hit, if any.
pub open spec fn first_hit(hits: Seq<bool>, i: int) -> Option<nat>
    decreases hits.len() - i,
{
    if i < 0 || i >= hits.len() {
        None
    } else if hits[i] {
        Some(i as nat)
    } else {
        first_hit(hits, i + 1)
    }
}

/// The widget under the pointer, whose mouse cursor is shown: the first one hit
/// (`hits[i]` for the widget at `i`), if any.
pub fn widget_under_pointer(hits: &[bool]) -> (res: Option<usize>)
    ensures
        res == match first_hit(hits@, 0) {
            Some(i) => Some(i as usize),
            None => None::<usize>,
        },
{
    let mut i: usize = 0;
    while i < hits.len()
        invariant
            i <= hits@.len(),
            first_hit(hits@, 0) == first_hit(hits@, i as int),
        decreases hits@.len() - i,
    {
        if hits[i] {
            return Some(i);
        }
        i = i + 1;
    }
    None
}

} // verus!
