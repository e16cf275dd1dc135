//! The window's widgets as far as its decisions go: the fixed widgets, then a kind button
//! and a text box for each graph source; which one has the focus; and what adding,
//! removing and re-kinding sources does to them.
use vstd::prelude::*;
use crate::source::GraphSourceKind;
use crate::widgets::bag::{advance_target, first_focus_hit, focus_start, law_advance_focus, WidgetBag, WidgetKind};

verus! {

/// The number of fixed widgets: the add and remove buttons, the four bound text boxes,
/// the zoom axis button and the plot.
pub const FIXED_WIDGETS: usize = 8;

/// Index of the add button.
pub const ADD_BUTTON: usize = 0;

/// Index of the remove button.
pub const REMOVE_BUTTON: usize = 1;

/// Index of the text box of the smallest x.
pub const MIN_X_BOX: usize = 2;

/// Index of the text box of the smallest y.
pub const MIN_Y_BOX: usize = 3;

/// Index of the text box of the largest x.
pub const MAX_X_BOX: usize = 4;

/// Index of the text box of the largest y.
pub const MAX_Y_BOX: usize = 5;

/// Index of the zoom axis button.
pub const ZOOM_BUTTON: usize = 6;

/// Index of the plot.
pub const PLOT: usize = 7;

/// The kinds of the fixed widgets, in order.
pub open spec fn fixed_kinds() -> Seq<WidgetKind> {
    seq![
        WidgetKind::Button,
        WidgetKind::Button,
        WidgetKind::TextBox,
        WidgetKind::TextBox,
        WidgetKind::TextBox,
        WidgetKind::TextBox,
        WidgetKind::Button,
        WidgetKind::Plot,
    ]
}

/// The kinds of the window's widgets with `n` sources.
pub open spec fn layout(n: nat) -> Seq<WidgetKind>
    decreases n,
{
    if n == 0 {
        fixed_kinds()
    } else {
        layout((n - 1) as nat).push(WidgetKind::Button).push(WidgetKind::TextBox)
    }
}

/// The index of the kind button of source `i`.
pub open spec fn kind_widget(i: int) -> int {
    FIXED_WIDGETS + 2 * i
}

/// The index of the text box of source `i`.
pub open spec fn text_widget(i: int) -> int {
    FIXED_WIDGETS + 2 * i + 1
}

/// What the window's decisions see: the focus, and the kind of each source.
pub struct SpecWindow {
    pub focus: int,
    pub sources: Seq<GraphSourceKind>,
}

/// What happens to the window in a frame, one at a time.
pub enum WindowEvent {
    /// Tab, forward when not negative.
    FocusStep(i32),
    /// A click, with which widgets are under the pointer.
    Click(Vec<bool>),
    /// The add button was clicked.
    AddSource,
    /// The remove button was clicked.
    RemoveSource,
    /// The kind button of source `i` was clicked.
    CycleKind(usize),
}

/// The model of an event.
pub enum SpecWindowEvent {
    FocusStep(i32),
    Click(Seq<bool>),
    AddSource,
    RemoveSource,
    CycleKind(usize),
}

impl View for WindowEvent {
    type V = SpecWindowEvent;

    open spec fn view(&self) -> SpecWindowEvent {
        match self {
            WindowEvent::FocusStep(d) => SpecWindowEvent::FocusStep(*d),
            WindowEvent::Click(h) => SpecWindowEvent::Click(h@),
            WindowEvent::AddSource => SpecWindowEvent::AddSource,
            WindowEvent::RemoveSource => SpecWindowEvent::RemoveSource,
            WindowEvent::CycleKind(i) => SpecWindowEvent::CycleKind(*i),
        }
    }
}

/// What the window's widgets must do after an event.
#[derive(Clone, Copy, Debug)]
pub enum WindowAction {
    Nothing,
    /// Make the kind button and the text box of a new source of kind `kind`.
    AddSource { kind: GraphSourceKind, kind_widget: usize, text_widget: usize },
    /// Remove the last source's kind button and text box.
    RemoveSource { kind_widget: usize, text_widget: usize },
    /// Source `source` is now of kind `kind`.
    SetKind { source: usize, kind: GraphSourceKind },
}

/// The window after `ev`, and what its widgets must do. Tab and clicks move the focus; the
/// add button appends an expression source and focuses its text box; the remove button
/// removes the last source when more than one is left, moving the focus to the new last
/// text box when it was on the removed one; a kind button cycles its source's kind.
pub open spec fn window_step(w: SpecWindow, ev: SpecWindowEvent) -> (SpecWindow, WindowAction) {
    let n = w.sources.len();
    match ev {
        SpecWindowEvent::FocusStep(d) => (
            SpecWindow { focus: advance_target(layout(n), w.focus, d >= 0), ..w },
            WindowAction::Nothing,
        ),
        SpecWindowEvent::Click(hits) => (
            if hits.len() == layout(n).len() {
                match first_focus_hit(layout(n), hits, 0) {
                    Some(i) => SpecWindow { focus: i as int, ..w },
                    None => w,
                }
            } else {
                w
            },
            WindowAction::Nothing,
        ),
        SpecWindowEvent::AddSource => if text_widget(n as int) + 1 <= usize::MAX {
            (
                SpecWindow {
                    focus: text_widget(n as int),
                    sources: w.sources.push(GraphSourceKind::Expression),
                },
                WindowAction::AddSource {
                    kind: GraphSourceKind::Expression,
                    kind_widget: kind_widget(n as int) as usize,
                    text_widget: text_widget(n as int) as usize,
                },
            )
        } else {
            (w, WindowAction::Nothing)
        },
        SpecWindowEvent::RemoveSource => if n > 1 {
            (
                SpecWindow {
                    focus: if w.focus == text_widget(n - 1) {
                        text_widget(n - 2)
                    } else {
                        w.focus
                    },
                    sources: w.sources.drop_last(),
                },
                WindowAction::RemoveSource {
                    kind_widget: kind_widget(n - 1) as usize,
                    text_widget: text_widget(n - 1) as usize,
                },
            )
        } else {
            (w, WindowAction::Nothing)
        },
        SpecWindowEvent::CycleKind(i) => if i < n {
            let k = w.sources[i as int].spec_next();
            (
                SpecWindow { sources: w.sources.update(i as int, k), ..w },
                WindowAction::SetKind { source: i, kind: k },
            )
        } else {
            (w, WindowAction::Nothing)
        },
    }
}

proof fn lemma_layout(n: nat)
    ensures
        layout(n).len() == FIXED_WIDGETS + 2 * n,
        forall|k: int| 0 <= k < FIXED_WIDGETS ==> #[trigger] layout(n)[k] == fixed_kinds()[k],
        forall|i: int| 0 <= i < n ==> #[trigger] layout(n)[kind_widget(i)] == WidgetKind::Button,
        forall|i: int| 0 <= i < n ==> #[trigger] layout(n)[text_widget(i)] == WidgetKind::TextBox,
    decreases n,
{
    if n > 0 {
        lemma_layout((n - 1) as nat);
        let prev = layout((n - 1) as nat);
        assert forall|i: int| 0 <= i < n implies #[trigger] layout(n)[kind_widget(i)] == WidgetKind::Button by {
            if i < n - 1 {
                assert(layout(n)[kind_widget(i)] == prev[kind_widget(i)]);
            }
        }
        assert forall|i: int| 0 <= i < n implies #[trigger] layout(n)[text_widget(i)] == WidgetKind::TextBox by {
            if i < n - 1 {
                assert(layout(n)[text_widget(i)] == prev[text_widget(i)]);
            }
        }
        assert forall|k: int| 0 <= k < FIXED_WIDGETS implies #[trigger] layout(n)[k] == fixed_kinds()[k] by {
            assert(layout(n)[k] == prev[k]);
        }
    }
}

/// The window's widgets and sources.
pub struct WindowModel {
    pub bag: WidgetBag,
    pub sources: Vec<GraphSourceKind>,
}

impl View for WindowModel {
    type V = SpecWindow;

    open spec fn view(&self) -> SpecWindow {
        SpecWindow { focus: self.bag.focus as int, sources: self.sources@ }
    }
}

impl WindowModel {
    /// The widgets are the fixed ones and a button and a text box per source, and the
    /// focus is on a text box, or, with no source, on the first widget.
    pub open spec fn wf(&self) -> bool {
        &&& self.bag.kinds() == layout(self.sources@.len())
        &&& self.bag.focus < self.bag.kinds().len()
        &&& (self.bag.kinds()[self.bag.focus as int] == WidgetKind::TextBox || (
        self.sources@.len() == 0 && self.bag.focus == 0))
    }

    /// The window with the sources of kinds `kinds`, the focus on the first one's text
    /// box.
    pub fn new(kinds: &Vec<GraphSourceKind>) -> (m: Self)
        requires
            text_widget(kinds@.len() as int) <= usize::MAX,
        ensures
            m.wf(),
            m.sources@ == kinds@,
            m.bag.focus == if kinds@.len() > 0 {
                text_widget(0)
            } else {
                0
            },
    {
        let mut bag = WidgetBag::new();
        bag.add_button();
        bag.add_button();
        bag.add_text_box();
        bag.add_text_box();
        bag.add_text_box();
        bag.add_text_box();
        bag.add_button();
        bag.add_plot();
        assert(bag.kinds() =~= fixed_kinds());
        let mut sources: Vec<GraphSourceKind> = Vec::new();
        let mut i: usize = 0;
        while i < kinds.len()
            invariant
                i <= kinds@.len(),
                text_widget(kinds@.len() as int) <= usize::MAX,
                sources@ == kinds@.subrange(0, i as int),
                bag.kinds() == layout(i as nat),
                bag.focus == 0,
            decreases kinds@.len() - i,
        {
            proof {
                lemma_layout(i as nat);
            }
            bag.add_button();
            bag.add_text_box();
            sources.push(kinds[i]);
            assert(sources@ =~= kinds@.subrange(0, i + 1));
            i = i + 1;
        }
        assert(sources@ =~= kinds@);
        proof {
            lemma_layout(kinds@.len() as nat);
        }
        if kinds.len() > 0 {
            bag.focus = FIXED_WIDGETS + 1;
            assert(bag.kinds()[text_widget(0)] == WidgetKind::TextBox);
        }
        WindowModel { bag, sources }
    }

    /// Takes an event and tells the widgets what to do.
    pub fn step(&mut self, ev: &WindowEvent) -> (act: WindowAction)
        requires
            old(self).wf(),
        ensures
            final(self).wf(),
            (final(self)@, act) == window_step(old(self)@, ev@),
    {
        proof {
            lemma_layout(self.sources@.len() as nat);
        }
        let n = self.sources.len();
        match ev {
            WindowEvent::FocusStep(d) => {
                proof {
                    law_advance_focus(self.bag.kinds(), self.bag.focus as int, *d >= 0);
                    vstd::arithmetic::div_mod::lemma_small_mod(self.bag.focus as nat, self.bag.kinds().len());
                    assert(focus_start(self.bag.kinds().len() as int, self.bag.focus as int) == self.bag.focus);
                }
                self.bag.advance_focus(*d);
                WindowAction::Nothing
            },
            WindowEvent::Click(hits) => {
                if hits.len() == self.bag.len() {
                    self.bag.focus_clicked(hits.as_slice());
                    proof {
                        lemma_first_hit_focusable(self.bag.kinds(), hits@, 0);
                    }
                }
                WindowAction::Nothing
            },
            WindowEvent::AddSource => {
                if self.bag.len() < usize::MAX - 2 {
                    let kw = self.bag.add_button();
                    let tw = self.bag.add_text_box();
                    self.sources.push(GraphSourceKind::Expression);
                    self.bag.focus = tw;
                    proof {
                        lemma_layout(self.sources@.len() as nat);
                    }
                    WindowAction::AddSource { kind: GraphSourceKind::Expression, kind_widget: kw, text_widget: tw }
                } else {
                    WindowAction::Nothing
                }
            },
            WindowEvent::RemoveSource => {
                if n > 1 {
                    let len = self.bag.len();
                    let removed_text = len - 1;
                    let removed_kind = len - 2;
                    self.sources.pop();
                    self.bag.pop();
                    self.bag.pop();
                    if self.bag.focus == removed_text {
                        self.bag.focus = len - 3;
                    }
                    proof {
                        lemma_layout((n - 1) as nat);
                        assert(self.bag.kinds() =~= layout((n - 1) as nat));
                        assert(self.sources@ =~= old(self).sources@.drop_last());
                    }
                    WindowAction::RemoveSource { kind_widget: removed_kind, text_widget: removed_text }
                } else {
                    WindowAction::Nothing
                }
            },
            WindowEvent::CycleKind(i) => {
                if *i < n {
                    let k = self.sources[*i].next();
                    self.sources.set(*i, k);
                    WindowAction::SetKind { source: *i, kind: k }
                } else {
                    WindowAction::Nothing
                }
            },
        }
    }
}

/// A widget that a click gives the focus to takes it.
proof fn lemma_first_hit_focusable(kinds: Seq<WidgetKind>, hits: Seq<bool>, i: int)
    requires
        0 <= i,
    ensures
        first_focus_hit(kinds, hits, i) matches Some(k) ==> i <= k < kinds.len()
            && kinds[k as int] == WidgetKind::TextBox,
    decreases kinds.len() - i,
{
    if i < kinds.len() {
        lemma_first_hit_focusable(kinds, hits, i + 1);
    }
}

/// Over every event, the window keeps one kind button and one text box per source after
/// the fixed widgets, keeps the focus on a text box while there is a source, and never
/// removes its last source.
pub proof fn law_window_keeps_layout(w: SpecWindow, ev: SpecWindowEvent)
    requires
        0 <= w.focus < layout(w.sources.len()).len(),
        w.sources.len() > 0,
        layout(w.sources.len())[w.focus] == WidgetKind::TextBox,
    ensures
        window_step(w, ev).0.sources.len() > 0,
        0 <= window_step(w, ev).0.focus < layout(window_step(w, ev).0.sources.len()).len(),
        layout(window_step(w, ev).0.sources.len())[window_step(w, ev).0.focus] == WidgetKind::TextBox,
{
    let n = w.sources.len();
    lemma_layout(n);
    match ev {
        SpecWindowEvent::FocusStep(d) => {
            law_advance_focus(layout(n), w.focus, d >= 0);
        },
        SpecWindowEvent::Click(hits) => {
            lemma_first_hit_focusable(layout(n), hits, 0);
        },
        SpecWindowEvent::AddSource => {
            lemma_layout(n + 1);
        },
        SpecWindowEvent::RemoveSource => {
            if n > 1 {
                lemma_layout((n - 1) as nat);
                let f = w.focus;
                if f != text_widget(n - 1) {
                    assert(f != kind_widget(n - 1));
                    assert(layout((n - 1) as nat) == layout(n).drop_last().drop_last());
                    assert(layout((n - 1) as nat)[f] == layout(n)[f]);
                }
            }
        },
        SpecWindowEvent::CycleKind(i) => {},
    }
}

/// The add button puts a new expression source after the others and tells the widgets to
/// make one of kind expression; the remove button drops only the last source; a kind
/// button changes only its own source, to the next kind.
pub proof fn law_source_edits(w: SpecWindow, i: usize)
    ensures
        window_step(w, SpecWindowEvent::AddSource).1 is AddSource ==> {
            let w2 = window_step(w, SpecWindowEvent::AddSource).0;
            &&& window_step(w, SpecWindowEvent::AddSource).1->AddSource_kind == GraphSourceKind::Expression
            &&& w2.sources.len() == w.sources.len() + 1
            &&& w2.sources.last() == GraphSourceKind::Expression
            &&& w2.sources.take(w.sources.len() as int) == w.sources
        },
        window_step(w, SpecWindowEvent::AddSource).1 is Nothing ==> window_step(w, SpecWindowEvent::AddSource).0 == w,
        w.sources.len() > 1 ==> window_step(w, SpecWindowEvent::RemoveSource).0.sources == w.sources.take(w.sources.len() - 1),
        w.sources.len() <= 1 ==> window_step(w, SpecWindowEvent::RemoveSource).0 == w,
        i < w.sources.len() ==> {
            let w2 = window_step(w, SpecWindowEvent::CycleKind(i)).0;
            &&& w2.sources.len() == w.sources.len()
            &&& w2.sources[i as int] == w.sources[i as int].spec_next()
            &&& forall|j: int| 0 <= j < w.sources.len() && j != i ==> w2.sources[j] == w.sources[j]
        },
{
    let n = w.sources.len();
    assert(w.sources.push(GraphSourceKind::Expression).take(n as int) =~= w.sources);
    if n > 1 {
        assert(w.sources.drop_last() =~= w.sources.take(n - 1));
    }
}

} // verus!
