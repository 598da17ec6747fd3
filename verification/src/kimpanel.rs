//! The panel side of the Kimpanel protocol: the state store that the
//! `org.kde.impanel2` methods and the `org.kde.kimpanel.inputmethod` signals
//! update, and the commands the panel sends back to Fcitx.

use crate::model::{
    string_views, CandidateLayout, LookupTableError, PanelState, PanelView, Rect,
};
use std::sync::mpsc::Sender;
use vstd::prelude::*;

verus! {

/// Bus name the panel owns.
pub const SERVICE_NAME: &'static str = "org.kde.impanel";

/// Object path the panel serves.
pub const OBJECT_PATH: &'static str = "/org/kde/impanel";

/// Interface of the panel's methods and of the signals it sends to Fcitx.
pub const V1_INTERFACE: &'static str = "org.kde.impanel";

/// Interface of the lookup-table and spot-rectangle methods.
pub const V2_INTERFACE: &'static str = "org.kde.impanel2";

#[verifier::external_type_specification]
#[verifier::external_body]
#[verifier::reject_recursive_types(T)]
pub struct ExSender<T>(Sender<T>);

/// Wakes whoever watches the store: `std::sync::mpsc::Sender::send` of a
/// unit message. A closed channel is ignored. Nothing about the panel state
/// depends on it, so no postcondition is claimed.
#[verifier::external_body]
fn wake(tx: &Sender<()>) {
    let _ = tx.send(());
}

/// What the panel asks Fcitx to do, sent as `org.kde.impanel` signals.
#[derive(Debug, Clone, PartialEq, Eq)]
pub enum PanelCommand {
    SelectCandidate(i32),
    PageUp,
    PageDown,
    TriggerProperty(String),
    Exit,
    Restart,
    ReloadConfig,
    Configure,
}

/// The signal member that carries a command.
pub open spec fn command_member(c: PanelCommand) -> Seq<char> {
    match c {
        PanelCommand::SelectCandidate(_) => "SelectCandidate"@,
        PanelCommand::PageUp => "LookupTablePageUp"@,
        PanelCommand::PageDown => "LookupTablePageDown"@,
        PanelCommand::TriggerProperty(_) => "TriggerProperty"@,
        PanelCommand::Exit => "Exit"@,
        PanelCommand::Restart => "Restart"@,
        PanelCommand::ReloadConfig => "ReloadConfig"@,
        PanelCommand::Configure => "Configure"@,
    }
}

impl PanelCommand {
    /// Name of the `org.kde.impanel` signal that carries this command.
    pub fn signal_member(&self) -> (r: &'static str)
        ensures
            r@ == command_member(*self),
    {
        match self {
            PanelCommand::SelectCandidate(_) => "SelectCandidate",
            PanelCommand::PageUp => "LookupTablePageUp",
            PanelCommand::PageDown => "LookupTablePageDown",
            PanelCommand::TriggerProperty(_) => "TriggerProperty",
            PanelCommand::Exit => "Exit",
            PanelCommand::Restart => "Restart",
            PanelCommand::ReloadConfig => "ReloadConfig",
            PanelCommand::Configure => "Configure",
        }
    }
}

/// A state signal of the Fcitx Kimpanel addon
/// (`org.kde.kimpanel.inputmethod` on `/kimpanel`), with its decoded body.
#[derive(Debug, Clone, PartialEq, Eq)]
pub enum InputMethodSignal {
    UpdatePreeditText(String),
    ShowPreedit(bool),
    UpdatePreeditCaret(i32),
    UpdateAux(String),
    ShowAux(bool),
    ShowLookupTable(bool),
    UpdateLookupTableCursor(i32),
}

/// The state signals the panel listens to, by member name.
#[derive(Debug, Clone, Copy, PartialEq, Eq, Structural)]
pub enum SignalKind {
    UpdatePreeditText,
    ShowPreedit,
    UpdatePreeditCaret,
    UpdateAux,
    ShowAux,
    ShowLookupTable,
    UpdateLookupTableCursor,
}

/// The signal a member name denotes, if the panel listens to it.
pub open spec fn kind_of_member(m: Seq<char>) -> Option<SignalKind> {
    if m == "UpdatePreeditText"@ {
        Some(SignalKind::UpdatePreeditText)
    } else if m == "ShowPreedit"@ {
        Some(SignalKind::ShowPreedit)
    } else if m == "UpdatePreeditCaret"@ {
        Some(SignalKind::UpdatePreeditCaret)
    } else if m == "UpdateAux"@ {
        Some(SignalKind::UpdateAux)
    } else if m == "ShowAux"@ {
        Some(SignalKind::ShowAux)
    } else if m == "ShowLookupTable"@ {
        Some(SignalKind::ShowLookupTable)
    } else if m == "UpdateLookupTableCursor"@ {
        Some(SignalKind::UpdateLookupTableCursor)
    } else {
        None
    }
}

fn is_member(m: &String, name: &str) -> (b: bool)
    ensures
        b == (m@ == name@),
{
    m.eq(&name.to_owned())
}

/// Which input-method signal a member name denotes; `None` for the members
/// the panel ignores.
pub fn signal_kind(member: &str) -> (r: Option<SignalKind>)
    ensures
        r == kind_of_member(member@),
{
    let m = member.to_owned();
    if is_member(&m, "UpdatePreeditText") {
        Some(SignalKind::UpdatePreeditText)
    } else if is_member(&m, "ShowPreedit") {
        Some(SignalKind::ShowPreedit)
    } else if is_member(&m, "UpdatePreeditCaret") {
        Some(SignalKind::UpdatePreeditCaret)
    } else if is_member(&m, "UpdateAux") {
        Some(SignalKind::UpdateAux)
    } else if is_member(&m, "ShowAux") {
        Some(SignalKind::ShowAux)
    } else if is_member(&m, "ShowLookupTable") {
        Some(SignalKind::ShowLookupTable)
    } else if is_member(&m, "UpdateLookupTableCursor") {
        Some(SignalKind::UpdateLookupTableCursor)
    } else {
        None
    }
}

impl PanelView {
    pub open spec fn with_preedit(self, text: Seq<char>) -> PanelView {
        PanelView { preedit: text, ..self }.recomputed()
    }

    pub open spec fn with_preedit_visible(self, visible: bool) -> PanelView {
        PanelView { preedit_visible: visible, ..self }.recomputed()
    }

    pub open spec fn with_preedit_cursor(self, cursor: i32) -> PanelView {
        PanelView { preedit_cursor: cursor, ..self }
    }

    pub open spec fn with_aux(self, text: Seq<char>) -> PanelView {
        PanelView { aux: text, ..self }.recomputed()
    }

    pub open spec fn with_aux_visible(self, visible: bool) -> PanelView {
        PanelView { aux_visible: visible, ..self }.recomputed()
    }

    /// Hiding the lookup table drops its candidates; showing it changes
    /// nothing but visibility.
    pub open spec fn with_lookup_visible(self, visible: bool) -> PanelView {
        if visible {
            self.recomputed()
        } else {
            PanelView { candidates: Seq::empty(), ..self }.recomputed()
        }
    }

    pub open spec fn with_lookup_cursor(self, index: i32) -> PanelView {
        PanelView { selected: index, ..self }
    }

    pub open spec fn with_visible(self, visible: bool) -> PanelView {
        PanelView { visible, ..self }
    }

    pub open spec fn with_absolute_spot(self, rect: Rect) -> PanelView {
        PanelView { spot: Some(rect), spot_absolute: true, scale_bits: None, ..self }
    }

    pub open spec fn with_relative_spot(self, rect: Rect, scale_bits: Option<u64>) -> PanelView {
        PanelView { spot: Some(rect), spot_absolute: false, scale_bits, ..self }
    }

    /// The state after an input-method signal.
    pub open spec fn with_signal(self, sig: InputMethodSignal) -> PanelView {
        match sig {
            InputMethodSignal::UpdatePreeditText(t) => self.with_preedit(t@),
            InputMethodSignal::ShowPreedit(v) => self.with_preedit_visible(v),
            InputMethodSignal::UpdatePreeditCaret(c) => self.with_preedit_cursor(c),
            InputMethodSignal::UpdateAux(t) => self.with_aux(t@),
            InputMethodSignal::ShowAux(v) => self.with_aux_visible(v),
            InputMethodSignal::ShowLookupTable(v) => self.with_lookup_visible(v),
            InputMethodSignal::UpdateLookupTableCursor(i) => self.with_lookup_cursor(i),
        }
    }
}

/// The panel state, plus the channel that is woken after every change.
pub struct StateStore {
    state: PanelState,
    notify: Option<Sender<()>>,
    /// How many changes have been announced on the channel.
    woken: Ghost<nat>,
}

impl View for StateStore {
    type V = PanelView;

    closed spec fn view(&self) -> PanelView {
        self.state@
    }
}

impl StateStore {
    /// The channel woken after each change, if any.
    pub closed spec fn channel(&self) -> Option<Sender<()>> {
        self.notify
    }

    /// Whether the store has a channel to wake after changes.
    pub open spec fn wakes_channel(&self) -> bool {
        self.channel() is Some
    }

    /// How many changes the store has announced on its channel: each change
    /// made while a channel is set counts one, and the count advances right
    /// after the store hands a wake-up to `Sender::send`. Whether the
    /// receiving end gets it is up to the channel.
    pub closed spec fn wakes(&self) -> nat {
        self.woken@
    }

    /// The wake count after one more change: one more when there is a
    /// channel.
    pub open spec fn next_wakes(&self) -> nat {
        if self.wakes_channel() {
            self.wakes() + 1
        } else {
            self.wakes()
        }
    }

    /// An empty store that wakes `notify` after each change.
    pub fn new(notify: Option<Sender<()>>) -> (s: StateStore)
        ensures
            s@ == PanelView::initial(),
            s.channel() == notify,
            s.wakes() == 0,
    {
        StateStore { state: PanelState::new(), notify, woken: Ghost(0) }
    }

    /// Replace the channel woken after each change.
    pub fn set_notify(&mut self, notify: Option<Sender<()>>)
        ensures
            final(self)@ == old(self)@,
            final(self).channel() == notify,
            final(self).wakes() == old(self).wakes(),
    {
        self.notify = notify;
    }

    /// Wake the channel, if there is one, once.
    fn changed(&mut self)
        ensures
            final(self)@ == old(self)@,
            final(self).channel() == old(self).channel(),
            final(self).wakes() == old(self).next_wakes(),
    {
        let woke = match &self.notify {
            Some(tx) => {
                wake(tx);
                true
            },
            None => false,
        };
        if woke {
            self.woken = Ghost(self.woken@ + 1);
        }
    }

    /// A copy of the current state.
    pub fn snapshot(&self) -> (s: PanelState)
        ensures
            s@ == self@,
    {
        self.state.copy()
    }

    /// `UpdatePreeditText`.
    pub fn set_preedit(&mut self, text: &str)
        ensures
            final(self)@ == old(self)@.with_preedit(text@),
            final(self).channel() == old(self).channel(),
            final(self).wakes() == old(self).next_wakes(),
    {
        self.state.preedit = text.to_owned();
        self.state.recompute_visible();
        self.changed();
    }

    /// `ShowPreedit`.
    pub fn set_preedit_visible(&mut self, visible: bool)
        ensures
            final(self)@ == old(self)@.with_preedit_visible(visible),
            final(self).channel() == old(self).channel(),
            final(self).wakes() == old(self).next_wakes(),
    {
        self.state.preedit_visible = visible;
        self.state.recompute_visible();
        self.changed();
    }

    /// `UpdatePreeditCaret`.
    pub fn set_preedit_cursor(&mut self, cursor: i32)
        ensures
            final(self)@ == old(self)@.with_preedit_cursor(cursor),
            final(self).channel() == old(self).channel(),
            final(self).wakes() == old(self).next_wakes(),
    {
        self.state.preedit_cursor = cursor;
        self.changed();
    }

    /// `UpdateAux`.
    pub fn set_aux(&mut self, text: &str)
        ensures
            final(self)@ == old(self)@.with_aux(text@),
            final(self).channel() == old(self).channel(),
            final(self).wakes() == old(self).next_wakes(),
    {
        self.state.aux = text.to_owned();
        self.state.recompute_visible();
        self.changed();
    }

    /// `ShowAux`.
    pub fn set_aux_visible(&mut self, visible: bool)
        ensures
            final(self)@ == old(self)@.with_aux_visible(visible),
            final(self).channel() == old(self).channel(),
            final(self).wakes() == old(self).next_wakes(),
    {
        self.state.aux_visible = visible;
        self.state.recompute_visible();
        self.changed();
    }

    /// `ShowLookupTable`.
    pub fn set_lookup_visible(&mut self, visible: bool)
        ensures
            final(self)@ == old(self)@.with_lookup_visible(visible),
            final(self).channel() == old(self).channel(),
            final(self).wakes() == old(self).next_wakes(),
    {
        if !visible {
            self.state.candidates.clear();
            assert(self.state@.candidates =~= Seq::empty());
        }
        self.state.recompute_visible();
        self.changed();
    }

    /// `UpdateLookupTableCursor`.
    pub fn set_lookup_cursor(&mut self, index: i32)
        ensures
            final(self)@ == old(self)@.with_lookup_cursor(index),
            final(self).channel() == old(self).channel(),
            final(self).wakes() == old(self).next_wakes(),
    {
        self.state.selected = index;
        self.changed();
    }

    /// Force the bar's visibility flag.
    pub fn set_visible(&mut self, visible: bool)
        ensures
            final(self)@ == old(self)@.with_visible(visible),
            final(self).channel() == old(self).channel(),
            final(self).wakes() == old(self).next_wakes(),
    {
        self.state.visible = visible;
        self.changed();
    }

    /// `SetSpotRect`: a caret rectangle in global coordinates.
    pub fn set_spot(&mut self, rect: Rect)
        ensures
            final(self)@ == old(self)@.with_absolute_spot(rect),
            final(self).channel() == old(self).channel(),
            final(self).wakes() == old(self).next_wakes(),
    {
        self.state.spot = Some(rect);
        self.state.spot_absolute = true;
        self.state.scale_bits = None;
        self.changed();
    }

    /// `SetRelativeSpotRect` / `SetRelativeSpotRectV2`: a caret rectangle
    /// relative to the client's toplevel surface, with the client's scale
    /// factor (as `f64::to_bits`) when it sent one.
    pub fn set_relative_spot(&mut self, rect: Rect, scale_bits: Option<u64>)
        ensures
            final(self)@ == old(self)@.with_relative_spot(rect, scale_bits),
            final(self).channel() == old(self).channel(),
            final(self).wakes() == old(self).next_wakes(),
    {
        self.state.spot = Some(rect);
        self.state.spot_absolute = false;
        self.state.scale_bits = scale_bits;
        self.changed();
    }

    /// `SetLookupTable`: see [`PanelState::set_lookup_table`]. A refused
    /// table leaves the store unchanged.
    pub fn set_lookup_table(
        &mut self,
        labels: Vec<String>,
        texts: Vec<String>,
        attrs: Vec<String>,
        has_previous: bool,
        has_next: bool,
        selected: i32,
        layout: i32,
    ) -> (r: Result<(), LookupTableError>)
        ensures
            r is Err <==> !(labels.len() == texts.len() && texts.len() == attrs.len()),
            r is Err ==> r == Err::<(), LookupTableError>(
                LookupTableError::LengthMismatch {
                    labels: labels.len(),
                    texts: texts.len(),
                    attrs: attrs.len(),
                },
            ) && final(self)@ == old(self)@,
            r is Ok ==> final(self)@ == old(self)@.with_lookup_table(
                string_views(labels@),
                string_views(texts@),
                string_views(attrs@),
                has_previous,
                has_next,
                selected,
                layout,
            ),
            final(self).channel() == old(self).channel(),
            r is Ok ==> final(self).wakes() == old(self).next_wakes(),
            r is Err ==> final(self).wakes() == old(self).wakes(),
    {
        let r = self.state.set_lookup_table(
            labels,
            texts,
            attrs,
            has_previous,
            has_next,
            selected,
            layout,
        );
        if r.is_ok() {
            self.changed();
        }
        r
    }

    /// Apply one input-method signal.
    pub fn apply_signal(&mut self, sig: InputMethodSignal)
        ensures
            final(self)@ == old(self)@.with_signal(sig),
            final(self).channel() == old(self).channel(),
            final(self).wakes() == old(self).next_wakes(),
    {
        match sig {
            InputMethodSignal::UpdatePreeditText(t) => self.set_preedit(t.as_str()),
            InputMethodSignal::ShowPreedit(v) => self.set_preedit_visible(v),
            InputMethodSignal::UpdatePreeditCaret(c) => self.set_preedit_cursor(c),
            InputMethodSignal::UpdateAux(t) => self.set_aux(t.as_str()),
            InputMethodSignal::ShowAux(v) => self.set_aux_visible(v),
            InputMethodSignal::ShowLookupTable(v) => self.set_lookup_visible(v),
            InputMethodSignal::UpdateLookupTableCursor(i) => self.set_lookup_cursor(i),
        }
    }
}

impl Default for StateStore {
    fn default() -> (s: Self)
        ensures
            s@ == PanelView::initial(),
            s.channel() is None,
            s.wakes() == 0,
    {
        StateStore::new(None)
    }
}

/// Owned copies of a list of string slices.
fn owned_strings(items: &[&str]) -> (r: Vec<String>)
    ensures
        r@.len() == items@.len(),
        string_views(r@) == items@.map_values(|s: &str| s@),
{
    let mut r: Vec<String> = Vec::new();
    let mut i: usize = 0;
    while i < items.len()
        invariant
            i <= items@.len(),
            r@.len() == i,
            forall|j: int| 0 <= j < i ==> #[trigger] r@[j]@ == items@[j]@,
        decreases items@.len() - i,
    {
        r.push(items[i].to_owned());
        i = i + 1;
    }
    assert(string_views(r@) =~= items@.map_values(|s: &str| s@));
    r
}

/// Load a lookup table given as string slices, with no paging and the
/// default layout: see [`StateStore::set_lookup_table`].
pub fn update_lookup_table(
    store: &mut StateStore,
    labels: &[&str],
    texts: &[&str],
    hints: &[&str],
    selected: i32,
) -> (r: Result<(), LookupTableError>)
    ensures
        r is Err <==> !(labels@.len() == texts@.len() && texts@.len() == hints@.len()),
        r is Err ==> r == Err::<(), LookupTableError>(
            LookupTableError::LengthMismatch {
                labels: labels@.len() as usize,
                texts: texts@.len() as usize,
                attrs: hints@.len() as usize,
            },
        ) && final(store)@ == old(store)@,
        r is Ok ==> final(store)@ == old(store)@.with_lookup_table(
            labels@.map_values(|s: &str| s@),
            texts@.map_values(|s: &str| s@),
            hints@.map_values(|s: &str| s@),
            false,
            false,
            selected,
            0,
        ),
        final(store).channel() == old(store).channel(),
        r is Ok ==> final(store).wakes() == old(store).next_wakes(),
        r is Err ==> final(store).wakes() == old(store).wakes(),
{
    store.set_lookup_table(
        owned_strings(labels),
        owned_strings(texts),
        owned_strings(hints),
        false,
        false,
        selected,
        0,
    )
}

/// Every signal that changes what the bar shows (preedit text, aux text,
/// their visibility, the lookup table's visibility) leaves the bar visible
/// exactly when it has something to show: a visible non-empty preedit, a
/// visible non-empty aux line, an aux-down line or a candidate. The cursor
/// signals change only their cursor.
pub proof fn lemma_signals_keep_visibility(v: PanelView, sig: InputMethodSignal)
    ensures
        ({
            let n = v.with_signal(sig);
            &&& !(sig is UpdatePreeditCaret) && !(sig is UpdateLookupTableCursor) ==> n.visible == (
            (n.preedit_visible && n.preedit.len() > 0) || (n.aux_visible && n.aux.len() > 0)
                || n.aux_down.len() > 0 || n.candidates.len() > 0)
            &&& sig matches InputMethodSignal::UpdatePreeditCaret(c) ==> n == (PanelView {
                preedit_cursor: c,
                ..v
            })
            &&& sig matches InputMethodSignal::UpdateLookupTableCursor(i) ==> n == (PanelView {
                selected: i,
                ..v
            })
        }),
{
}

/// Each text signal sets its own field and leaves the rest of the content
/// as it was; hiding the lookup table drops its candidates.
pub proof fn lemma_signals_set_their_field(v: PanelView, sig: InputMethodSignal)
    ensures
        ({
            let n = v.with_signal(sig);
            &&& sig matches InputMethodSignal::UpdatePreeditText(t) ==> n == (PanelView {
                preedit: t@,
                visible: n.visible,
                ..v
            })
            &&& sig matches InputMethodSignal::ShowPreedit(b) ==> n == (PanelView {
                preedit_visible: b,
                visible: n.visible,
                ..v
            })
            &&& sig matches InputMethodSignal::UpdateAux(t) ==> n == (PanelView {
                aux: t@,
                visible: n.visible,
                ..v
            })
            &&& sig matches InputMethodSignal::ShowAux(b) ==> n == (PanelView {
                aux_visible: b,
                visible: n.visible,
                ..v
            })
            &&& sig matches InputMethodSignal::ShowLookupTable(b) ==> n == (PanelView {
                candidates: if b {
                    v.candidates
                } else {
                    Seq::empty()
                },
                visible: n.visible,
                ..v
            })
        }),
{
}

/// The caret rectangle and the visibility flag are independent: moving the
/// caret never shows or hides the bar, and forcing visibility never moves
/// the caret.
pub proof fn lemma_spot_and_visibility_independent(v: PanelView, rect: Rect, scale_bits: Option<u64>, visible: bool)
    ensures
        v.with_absolute_spot(rect).visible == v.visible,
        v.with_relative_spot(rect, scale_bits).visible == v.visible,
        v.with_visible(visible).spot == v.spot,
        v.with_visible(visible).spot_absolute == v.spot_absolute,
        v.with_visible(visible).with_absolute_spot(rect) == v.with_absolute_spot(rect).with_visible(visible),
{
}

} // verus!
