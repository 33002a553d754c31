//! UI widgets of live cells: sliders, text inputs and buttons kept by
//! identifier, and the values a cell has shown. A slider's bounds and value
//! are held as the bits of their IEEE 754 doubles (`f64::to_bits`), and its
//! value is kept clamped between its bounds.

use vstd::prelude::*;
use crate::runtime::abi::RuntimeError;
use crate::util::ieee::{clamp, clamped, is_nan, order_key, valid_bounds};
use crate::util::text::{decimal, push_str, to_owned_string, u64_to_text};
use std::collections::HashMap;

verus! {

/// Widget identifier.
pub type WidgetId = u64;

/// A widget.
#[derive(Debug)]
pub enum Widget {
    Slider { id: WidgetId, min: u64, max: u64, value: u64 },
    TextInput { id: WidgetId, placeholder: String, value: String },
    Button { id: WidgetId, label: String, clicked: bool },
}

/// The mathematical value of a widget.
pub enum WidgetModel {
    Slider { id: WidgetId, min: u64, max: u64, value: u64 },
    TextInput { id: WidgetId, placeholder: Seq<char>, value: Seq<char> },
    Button { id: WidgetId, label: Seq<char>, clicked: bool },
}

impl View for Widget {
    type V = WidgetModel;

    open spec fn view(&self) -> WidgetModel {
        match self {
            Widget::Slider { id, min, max, value } => WidgetModel::Slider { id: *id, min: *min, max: *max, value: *value },
            Widget::TextInput { id, placeholder, value } => WidgetModel::TextInput { id: *id, placeholder: placeholder@, value: value@ },
            Widget::Button { id, label, clicked } => WidgetModel::Button { id: *id, label: label@, clicked: *clicked },
        }
    }
}

/// The identifier a widget carries.
pub open spec fn widget_id(w: WidgetModel) -> WidgetId {
    match w {
        WidgetModel::Slider { id, .. } => id,
        WidgetModel::TextInput { id, .. } => id,
        WidgetModel::Button { id, .. } => id,
    }
}

/// The name of a widget's kind.
pub open spec fn widget_kind(w: WidgetModel) -> Seq<char> {
    match w {
        WidgetModel::Slider { .. } => "slider"@,
        WidgetModel::TextInput { .. } => "text-input"@,
        WidgetModel::Button { .. } => "button"@,
    }
}

impl Widget {
    /// The widget's identifier.
    pub fn id(&self) -> (r: WidgetId)
        ensures
            r == widget_id(self@),
    {
        match self {
            Widget::Slider { id, .. } => *id,
            Widget::TextInput { id, .. } => *id,
            Widget::Button { id, .. } => *id,
        }
    }

    /// The name of the widget's kind.
    pub fn kind(&self) -> (r: &'static str)
        ensures
            r@ == widget_kind(self@),
    {
        proof {
            reveal_strlit("slider");
            reveal_strlit("text-input");
            reveal_strlit("button");
        }
        match self {
            Widget::Slider { .. } => "slider",
            Widget::TextInput { .. } => "text-input",
            Widget::Button { .. } => "button",
        }
    }
}

/// A slider's bounds are valid and its value, unless NaN, lies between them.
pub open spec fn slider_ok(w: WidgetModel) -> bool {
    w matches WidgetModel::Slider { min, max, value, .. } ==> valid_bounds(min, max)
        && (!is_nan(value) ==> order_key(min) <= order_key(value) <= order_key(max))
}

/// The message for a widget that is not of the kind an update needs.
pub open spec fn wrong_kind_message(id: WidgetId, kind: Seq<char>) -> Seq<char> {
    "Widget "@ + decimal(id as nat) + " is not a "@ + kind
}

fn wrong_kind(id: WidgetId, kind: &str) -> (r: RuntimeError)
    ensures
        r matches RuntimeError::WasmError(m) && m@ == wrong_kind_message(id, kind@),
{
    let mut m = to_owned_string("Widget ");
    let d = u64_to_text(id);
    push_str(&mut m, d.as_str());
    push_str(&mut m, " is not a ");
    push_str(&mut m, kind);
    RuntimeError::WasmError(m)
}

/// Store for all widgets in a live cell runtime.
#[derive(Debug)]
pub struct WidgetStore {
    widgets: HashMap<WidgetId, Widget>,
    next_id: u64,
    output_buffer: Vec<Vec<u8>>,
}

impl WidgetStore {
    /// The widgets, by identifier.
    pub closed spec fn table(&self) -> Map<WidgetId, WidgetModel> {
        Map::new(|k: u64| self.widgets@.contains_key(k), |k: u64| self.widgets@[k]@)
    }

    /// The identifier the next widget will get.
    pub closed spec fn next(&self) -> u64 {
        self.next_id
    }

    /// The values shown since output was last taken, in order.
    pub closed spec fn output(&self) -> Seq<Seq<u8>> {
        Seq::new(self.output_buffer@.len(), |i: int| self.output_buffer@[i]@)
    }

    /// Identifiers are below the counter, each widget carries its own, and
    /// every slider's value lies between its bounds.
    pub closed spec fn wf(&self) -> bool {
        &&& forall|k: u64| #[trigger] self.widgets@.contains_key(k) ==> k < self.next_id
        &&& forall|k: u64| #[trigger] self.widgets@.contains_key(k) ==> widget_id(self.widgets@[k]@) == k
        &&& forall|k: u64| #[trigger] self.widgets@.contains_key(k) ==> slider_ok(self.widgets@[k]@)
    }

    /// Every widget in a well-formed store satisfies `slider_ok`.
    pub proof fn lemma_sliders_ok(&self, k: WidgetId)
        requires
            self.wf(),
            self.table().contains_key(k),
        ensures
            slider_ok(self.table()[k]),
    {
    }

    /// An empty store whose identifiers start at 1.
    pub fn new() -> (r: Self)
        ensures
            r.wf(),
            r.table() == Map::<WidgetId, WidgetModel>::empty(),
            r.next() == 1,
            r.output().len() == 0,
    {
        let r = WidgetStore { widgets: HashMap::new(), next_id: 1, output_buffer: Vec::new() };
        assert(r.table() =~= Map::<WidgetId, WidgetModel>::empty());
        r
    }

    fn insert_new(&mut self, w: Widget) -> (r: WidgetId)
        requires
            old(self).wf(),
            old(self).next() < u64::MAX,
            widget_id(w@) == old(self).next(),
            slider_ok(w@),
        ensures
            final(self).wf(),
            r == old(self).next(),
            final(self).next() == old(self).next() + 1,
            final(self).table() == old(self).table().insert(r, w@),
            final(self).output() == old(self).output(),
    {
        let ghost before = self.table();
        let ghost wm = w@;
        let id = self.next_id;
        self.next_id = self.next_id + 1;
        self.widgets.insert(id, w);
        assert(self.table() =~= before.insert(id, wm));
        id
    }

    /// Create a slider with the given bounds, its value `initial` clamped
    /// between them (all bits of doubles).
    pub fn create_slider(&mut self, min: u64, max: u64, initial: u64) -> (r: WidgetId)
        requires
            old(self).wf(),
            old(self).next() < u64::MAX,
            valid_bounds(min, max),
        ensures
            final(self).wf(),
            r == old(self).next(),
            final(self).next() == old(self).next() + 1,
            final(self).table() == old(self).table().insert(r,
                WidgetModel::Slider { id: r, min, max, value: clamped(initial, min, max) }),
            final(self).output() == old(self).output(),
    {
        let id = self.next_id;
        let value = clamp(initial, min, max);
        self.insert_new(Widget::Slider { id, min, max, value })
    }

    /// Create a text input widget.
    pub fn create_text_input(&mut self, placeholder: String, initial: String) -> (r: WidgetId)
        requires
            old(self).wf(),
            old(self).next() < u64::MAX,
        ensures
            final(self).wf(),
            r == old(self).next(),
            final(self).next() == old(self).next() + 1,
            final(self).table() == old(self).table().insert(r, WidgetModel::TextInput { id: r, placeholder: placeholder@, value: initial@ }),
            final(self).output() == old(self).output(),
    {
        let id = self.next_id;
        self.insert_new(Widget::TextInput { id, placeholder, value: initial })
    }

    /// Create a button widget, not clicked.
    pub fn create_button(&mut self, label: String) -> (r: WidgetId)
        requires
            old(self).wf(),
            old(self).next() < u64::MAX,
        ensures
            final(self).wf(),
            r == old(self).next(),
            final(self).next() == old(self).next() + 1,
            final(self).table() == old(self).table().insert(r, WidgetModel::Button { id: r, label: label@, clicked: false }),
            final(self).output() == old(self).output(),
    {
        let id = self.next_id;
        self.insert_new(Widget::Button { id, label, clicked: false })
    }

    /// The widget `id`.
    pub fn get(&self, id: WidgetId) -> (r: Result<&Widget, RuntimeError>)
        ensures
            match r {
                Ok(w) => self.table().contains_key(id) && w@ == self.table()[id],
                Err(e) => !self.table().contains_key(id) && e == RuntimeError::WidgetNotFound(id),
            },
    {
        match self.widgets.get(&id) {
            Some(w) => Ok(w),
            None => Err(RuntimeError::WidgetNotFound(id)),
        }
    }

    /// Set the value of slider `id` to `value` clamped between its bounds
    /// (bits of doubles).
    pub fn update_slider(&mut self, id: WidgetId, value: u64) -> (r: Result<(), RuntimeError>)
        requires
            old(self).wf(),
        ensures
            final(self).wf(),
            final(self).next() == old(self).next(),
            final(self).output() == old(self).output(),
            !old(self).table().contains_key(id) ==> r == Err::<(), RuntimeError>(RuntimeError::WidgetNotFound(id)) && final(self).table() == old(self).table(),
            old(self).table().contains_key(id) ==> match old(self).table()[id] {
                WidgetModel::Slider { id: i, min, max, .. } => r is Ok
                    && final(self).table() == old(self).table().insert(id,
                        WidgetModel::Slider { id: i, min, max, value: clamped(value, min, max) }),
                _ => (r matches Err(RuntimeError::WasmError(m)) && m@ == wrong_kind_message(id, "slider"@))
                    && final(self).table() == old(self).table(),
            },
    {
        let ghost before = self.table();
        let (wid, lo, hi) = match self.widgets.get(&id) {
            None => return Err(RuntimeError::WidgetNotFound(id)),
            Some(Widget::Slider { id: wid, min, max, .. }) => (*wid, *min, *max),
            Some(_) => {
                proof {
                    reveal_strlit("slider");
                }
                return Err(wrong_kind(id, "slider"));
            },
        };
        assert(slider_ok(self.widgets@[id]@));
        let v = clamp(value, lo, hi);
        self.widgets.insert(id, Widget::Slider { id: wid, min: lo, max: hi, value: v });
        assert(self.table() =~= before.insert(id, WidgetModel::Slider { id: wid, min: lo, max: hi, value: v }));
        Ok(())
    }

    /// Set the value of text input `id`.
    pub fn update_text_input(&mut self, id: WidgetId, value: String) -> (r: Result<(), RuntimeError>)
        requires
            old(self).wf(),
        ensures
            final(self).wf(),
            final(self).next() == old(self).next(),
            final(self).output() == old(self).output(),
            !old(self).table().contains_key(id) ==> r == Err::<(), RuntimeError>(RuntimeError::WidgetNotFound(id)) && final(self).table() == old(self).table(),
            old(self).table().contains_key(id) ==> match old(self).table()[id] {
                WidgetModel::TextInput { id: i, placeholder, .. } => r is Ok
                    && final(self).table() == old(self).table().insert(id, WidgetModel::TextInput { id: i, placeholder, value: value@ }),
                _ => (r matches Err(RuntimeError::WasmError(m)) && m@ == wrong_kind_message(id, "text input"@))
                    && final(self).table() == old(self).table(),
            },
    {
        let ghost before = self.table();
        let ghost v = value@;
        let (wid, placeholder) = match self.widgets.get(&id) {
            None => return Err(RuntimeError::WidgetNotFound(id)),
            Some(Widget::TextInput { id: wid, placeholder, .. }) => (*wid, placeholder.clone()),
            Some(_) => {
                proof {
                    reveal_strlit("text input");
                }
                return Err(wrong_kind(id, "text input"));
            },
        };
        let ghost p = placeholder@;
        self.widgets.insert(id, Widget::TextInput { id: wid, placeholder, value });
        assert(self.table() =~= before.insert(id, WidgetModel::TextInput { id: wid, placeholder: p, value: v }));
        Ok(())
    }

    /// Set whether button `id` is clicked.
    fn set_clicked(&mut self, id: WidgetId, clicked: bool) -> (r: Result<(), RuntimeError>)
        requires
            old(self).wf(),
        ensures
            final(self).wf(),
            final(self).next() == old(self).next(),
            final(self).output() == old(self).output(),
            !old(self).table().contains_key(id) ==> r == Err::<(), RuntimeError>(RuntimeError::WidgetNotFound(id)) && final(self).table() == old(self).table(),
            old(self).table().contains_key(id) ==> match old(self).table()[id] {
                WidgetModel::Button { id: i, label, .. } => r is Ok
                    && final(self).table() == old(self).table().insert(id, WidgetModel::Button { id: i, label, clicked }),
                _ => (r matches Err(RuntimeError::WasmError(m)) && m@ == wrong_kind_message(id, "button"@))
                    && final(self).table() == old(self).table(),
            },
    {
        let ghost before = self.table();
        let (wid, label) = match self.widgets.get(&id) {
            None => return Err(RuntimeError::WidgetNotFound(id)),
            Some(Widget::Button { id: wid, label, .. }) => (*wid, label.clone()),
            Some(_) => {
                proof {
                    reveal_strlit("button");
                }
                return Err(wrong_kind(id, "button"));
            },
        };
        let ghost l = label@;
        self.widgets.insert(id, Widget::Button { id: wid, label, clicked });
        assert(self.table() =~= before.insert(id, WidgetModel::Button { id: wid, label: l, clicked }));
        Ok(())
    }

    /// Mark button `id` as clicked.
    pub fn click_button(&mut self, id: WidgetId) -> (r: Result<(), RuntimeError>)
        requires
            old(self).wf(),
        ensures
            final(self).wf(),
            final(self).next() == old(self).next(),
            final(self).output() == old(self).output(),
            !old(self).table().contains_key(id) ==> r == Err::<(), RuntimeError>(RuntimeError::WidgetNotFound(id)) && final(self).table() == old(self).table(),
            old(self).table().contains_key(id) ==> match old(self).table()[id] {
                WidgetModel::Button { id: i, label, .. } => r is Ok
                    && final(self).table() == old(self).table().insert(id, WidgetModel::Button { id: i, label, clicked: true }),
                _ => (r matches Err(RuntimeError::WasmError(m)) && m@ == wrong_kind_message(id, "button"@))
                    && final(self).table() == old(self).table(),
            },
    {
        self.set_clicked(id, true)
    }

    /// Reset the clicked state of button `id`.
    pub fn reset_button(&mut self, id: WidgetId) -> (r: Result<(), RuntimeError>)
        requires
            old(self).wf(),
        ensures
            final(self).wf(),
            final(self).next() == old(self).next(),
            final(self).output() == old(self).output(),
            !old(self).table().contains_key(id) ==> r == Err::<(), RuntimeError>(RuntimeError::WidgetNotFound(id)) && final(self).table() == old(self).table(),
            old(self).table().contains_key(id) ==> match old(self).table()[id] {
                WidgetModel::Button { id: i, label, .. } => r is Ok
                    && final(self).table() == old(self).table().insert(id, WidgetModel::Button { id: i, label, clicked: false }),
                _ => (r matches Err(RuntimeError::WasmError(m)) && m@ == wrong_kind_message(id, "button"@))
                    && final(self).table() == old(self).table(),
            },
    {
        self.set_clicked(id, false)
    }

    /// Show a value in the output area.
    pub fn show(&mut self, value: Vec<u8>)
        ensures
            final(self).output() == old(self).output().push(value@),
            final(self).table() == old(self).table(),
            final(self).next() == old(self).next(),
            old(self).wf() ==> final(self).wf(),
    {
        let ghost before = self.output();
        let ghost v = value@;
        self.output_buffer.push(value);
        assert(self.output() =~= before.push(v));
    }

    /// The values shown so far, in order; the output is then empty.
    pub fn take_output(&mut self) -> (r: Vec<Vec<u8>>)
        ensures
            Seq::new(r@.len(), |i: int| r@[i]@) == old(self).output(),
            final(self).output().len() == 0,
            final(self).table() == old(self).table(),
            final(self).next() == old(self).next(),
            old(self).wf() ==> final(self).wf(),
    {
        let mut out: Vec<Vec<u8>> = Vec::new();
        std::mem::swap(&mut out, &mut self.output_buffer);
        assert(self.output() =~= Seq::<Seq<u8>>::empty());
        out
    }

    /// The number of widgets.
    pub fn len(&self) -> (r: usize)
        ensures
            r == self.table().len(),
    {
        proof {
            assert(self.table().dom() =~= self.widgets@.dom());
        }
        self.widgets.len()
    }

    /// Whether there are no widgets.
    pub fn is_empty(&self) -> (r: bool)
        ensures
            r == (self.table().len() == 0),
    {
        self.len() == 0
    }

    /// Remove all widgets and output.
    pub fn clear(&mut self)
        ensures
            final(self).table() == Map::<WidgetId, WidgetModel>::empty(),
            final(self).output().len() == 0,
            final(self).next() == old(self).next(),
            final(self).wf(),
    {
        self.widgets.clear();
        self.output_buffer.clear();
        assert(self.table() =~= Map::<WidgetId, WidgetModel>::empty());
    }
}

impl Default for WidgetStore {
    fn default() -> (r: Self)
        ensures
            r.wf(),
            r.table() == Map::<WidgetId, WidgetModel>::empty(),
            r.next() == 1,
            r.output().len() == 0,
    {
        WidgetStore::new()
    }
}

} // verus!
