//! The application state machine: the modal UI states, the single owner of
//! all mutable dashboard state, and the transition rules for user keys and
//! for events reported back by background operations.
//!
//! The event loop around this module performs no logic of its own: it hands
//! every key and every inbound event to [`App::handle_key`] /
//! [`App::handle_event`] and executes the [`Command`]s they return.

use vstd::prelude::*;
use crate::config::AppConfig;
use crate::filter::{
    apply_instance_filter,
    apply_type_filter,
    compatible_type_names,
    fallback_type_names,
    filter_matching,
    filter_type_names,
    inst_matches,
    insts_sorted,
    names_sorted,
    sort_types_alpha,
    sort_types_by_price,
    types_sorted,
};
use crate::instance::{InstanceInfo, InstanceTypeInfo, InstanceView, opt_view};
use crate::prices::{PriceTable, Prices, od_merged_all, spot_merged_all};
use crate::text::{seq_eq_fold, str_eq, str_eq_fold};

verus! {

/// The modal UI state; exactly one is active at a time, and every
/// transition replaces it wholesale.
#[derive(Clone, Debug, PartialEq)]
pub enum AppState {
    /// Default browsing mode.
    List,
    /// The free-text filter is being edited and live-applied.
    FilterInput,
    /// The price-aware type picker.
    SelectingType {
        input: String,
        options: Vec<String>,
        selected_index: Option<usize>,
        default_mode_active: bool,
    },
    /// Yes/no/force gate before a reboot; carries the instance id.
    ConfirmReboot(String),
    /// Non-interactive status or error display, cleared only explicitly.
    Processing(String),
}

/// An event reported into the loop by a background operation.
#[derive(Debug)]
pub enum AppEvent {
    Error(String),
    Message(String),
    InstancesUpdated,
    InstancesFetched(Vec<InstanceInfo>),
    /// Bulk on-demand prices, in micro-dollars per hour per type name.
    BulkOnDemandFetched(Vec<(String, u64)>),
    /// Bulk spot prices, in micro-dollars per hour per type name.
    BulkSpotFetched(Vec<(String, u64)>),
}

/// A key press, already decoded by the terminal layer.
#[derive(Clone, Copy, Debug, PartialEq)]
pub enum Key {
    Up,
    Down,
    PageUp,
    PageDown,
    Home,
    End,
    Enter,
    Esc,
    Backspace,
    Char(char),
    CtrlC,
}

/// A remote operation the caller must launch in the background; its
/// outcome comes back later as an [`AppEvent`].
#[derive(Clone, Debug, PartialEq)]
pub enum Command {
    /// Fetch the instance list anew.
    Refresh,
    /// Fetch the bulk on-demand price list.
    FetchOnDemandPrices,
    /// Fetch the bulk spot price list of one availability zone.
    FetchSpotPrices { availability_zone: String },
    StopInstance { instance_id: String },
    StartInstance { instance_id: String },
    RebootInstance { instance_id: String },
    ForceRebootInstance { instance_id: String },
    /// Run the whole resize workflow for one instance.
    Resize { instance_id: String, new_type: String, credit_spec: String },
}

/// All mutable dashboard state. One loop owns it; background operations
/// never touch it and report through events instead.
pub struct App {
    pub should_quit: bool,
    pub instances: Vec<InstanceInfo>,
    pub filtered_instances: Vec<InstanceInfo>,
    pub instance_types: Vec<InstanceTypeInfo>,
    /// Offset into `filtered_instances`, or absent when the list is empty.
    pub selected: Option<usize>,
    /// Whether a pricing endpoint is available at all.
    pub pricing_available: bool,
    pub config: AppConfig,
    pub filter: String,
    pub state: AppState,
    pub type_prices: PriceTable,
    pub last_refreshed: Option<String>,
}

/// Relies on chrono's `Local::now` and `format("%H:%M:%S")`: the current
/// wall-clock time rendered as two-digit hours, minutes and seconds
/// separated by colons, eight characters in all.
#[verifier::external_body]
fn local_time_hhmmss() -> (r: String)
    ensures
        r@.len() == 8,
{
    chrono::Local::now().format("%H:%M:%S").to_string()
}

/// Concatenates prefix, middle and suffix.
fn msg3(prefix: &str, mid: &str, suffix: &str) -> (r: String)
    ensures
        r@ == prefix@ + mid@ + suffix@,
{
    let mut s = prefix.to_owned();
    s.append(mid);
    s.append(suffix);
    s
}

/// Concatenates five parts.
fn msg5(a: &str, b: &str, c: &str, d: &str, e: &str) -> (r: String)
    ensures
        r@ == a@ + b@ + c@ + d@ + e@,
{
    let mut s = a.to_owned();
    s.append(b);
    s.append(c);
    s.append(d);
    s.append(e);
    s
}

// ---------------------------------------------------------------------------
// Selection arithmetic
// ---------------------------------------------------------------------------
/// How the list selection survives a re-filter: kept while still in
/// range, otherwise reset to the top when the result is non-empty,
/// absent when it is empty.
pub open spec fn selection_after_filter(sel: Option<usize>, len: int) -> Option<usize> {
    if len == 0 {
        None
    } else {
        match sel {
            Some(i) => if i < len {
                Some(i)
            } else {
                Some(0usize)
            },
            None => Some(0usize),
        }
    }
}

/// Moving down wraps from the last entry to the first.
pub open spec fn next_selection(sel: Option<usize>, len: int) -> Option<usize> {
    if len == 0 {
        None
    } else {
        match sel {
            Some(i) => if i as int >= len - 1 {
                Some(0usize)
            } else {
                Some((i + 1) as usize)
            },
            None => Some(0usize),
        }
    }
}

/// Moving up wraps from the first entry to the last.
pub open spec fn prev_selection(sel: Option<usize>, len: int) -> Option<usize> {
    if len == 0 {
        None
    } else {
        match sel {
            Some(i) => if i == 0 {
                Some((len - 1) as usize)
            } else {
                Some((i - 1) as usize)
            },
            None => Some(0usize),
        }
    }
}

/// Paging down moves 20 entries, clamped to the end.
pub open spec fn page_down_selection(sel: Option<usize>, len: int) -> Option<usize> {
    if len == 0 {
        None
    } else {
        match sel {
            Some(i) => if i + 20 < len {
                Some((i + 20) as usize)
            } else {
                Some((len - 1) as usize)
            },
            None => Some(0usize),
        }
    }
}

/// Paging up moves 20 entries, clamped to the start.
pub open spec fn page_up_selection(sel: Option<usize>, len: int) -> Option<usize> {
    if len == 0 {
        None
    } else {
        match sel {
            Some(i) => if i >= 20 {
                Some((i - 20) as usize)
            } else {
                Some(0usize)
            },
            None => Some(0usize),
        }
    }
}

// ---------------------------------------------------------------------------
// Well-formedness
// ---------------------------------------------------------------------------
impl App {
    /// The price cache keys are unique and the list selection, when
    /// present, points into the visible list.
    pub open spec fn wf(&self) -> bool {
        &&& self.type_prices.wf()
        &&& (self.selected matches Some(i) ==> (i as int) < self.filtered_instances@.len())
    }

    /// The filter text of the configuration, or empty when absent.
    pub open spec fn spec_config_filter(config: AppConfig) -> Seq<char> {
        match config.filter {
            Some(f) => f@,
            None => Seq::empty(),
        }
    }

    /// The visible list is the filtered, name-sorted image of `instances`
    /// under `filter`.
    pub open spec fn filtered_consistent(&self) -> bool {
        &&& self.filtered_instances.deep_view().to_multiset() == filter_matching(
            self.instances.deep_view(),
            self.filter@,
        ).to_multiset()
        &&& insts_sorted(self.filtered_instances.deep_view())
    }

    /// Builds the initial state: nothing running, browsing mode, the saved
    /// filter applied, the top entry selected when anything is visible.
    pub fn new(
        instances: Vec<InstanceInfo>,
        instance_types: Vec<InstanceTypeInfo>,
        config: AppConfig,
        pricing_available: bool,
    ) -> (app: App)
        ensures
            app.wf(),
            app.should_quit == false,
            app.instances == instances,
            app.instance_types == instance_types,
            app.config == config,
            app.pricing_available == pricing_available,
            app.state is List,
            app.filter@ == Self::spec_config_filter(config),
            app.type_prices@ == Map::<Seq<char>, Prices>::empty(),
            app.filtered_consistent(),
            app.selected == (if app.filtered_instances@.len() == 0 {
                None
            } else {
                Some(0usize)
            }),
            app.last_refreshed is Some,
    {
        let filter: String = match &config.filter {
            Some(f) => f.clone(),
            None => String::new(),
        };
        let filtered = apply_instance_filter(&instances, filter.as_str());
        let selected: Option<usize> = if filtered.len() == 0 {
            None
        } else {
            Some(0)
        };
        App {
            should_quit: false,
            instances,
            filtered_instances: filtered,
            instance_types,
            selected,
            pricing_available,
            config,
            filter,
            state: AppState::List,
            type_prices: PriceTable::new(),
            last_refreshed: Some(local_time_hhmmss()),
        }
    }

    /// Moves the selection down one entry, wrapping at the end.
    pub fn next(&mut self)
        requires
            old(self).wf(),
        ensures
            final(self).wf(),
            final(self).selected == next_selection(
                old(self).selected,
                old(self).filtered_instances@.len() as int,
            ),
            *final(self) == (App { selected: final(self).selected, ..*old(self) }),
    {
        let len = self.filtered_instances.len();
        if len == 0 {
            self.selected = None;
            return ;
        }
        self.selected = match self.selected {
            Some(i) => if i >= len - 1 {
                Some(0)
            } else {
                Some(i + 1)
            },
            None => Some(0),
        };
    }

    /// Moves the selection up one entry, wrapping at the start.
    pub fn previous(&mut self)
        requires
            old(self).wf(),
        ensures
            final(self).wf(),
            final(self).selected == prev_selection(
                old(self).selected,
                old(self).filtered_instances@.len() as int,
            ),
            *final(self) == (App { selected: final(self).selected, ..*old(self) }),
    {
        let len = self.filtered_instances.len();
        if len == 0 {
            self.selected = None;
            return ;
        }
        self.selected = match self.selected {
            Some(i) => if i == 0 {
                Some(len - 1)
            } else {
                Some(i - 1)
            },
            None => Some(0),
        };
    }

    /// Recomputes the visible list from `instances` and `filter`: matching
    /// entries only, sorted by display name; the selection is kept while
    /// still in range, otherwise reset to the top entry when the result is
    /// non-empty, and cleared when it is empty.
    pub fn update_filter(&mut self)
        requires
            old(self).wf(),
        ensures
            final(self).wf(),
            final(self).filtered_consistent(),
            final(self).selected == selection_after_filter(
                old(self).selected,
                final(self).filtered_instances@.len() as int,
            ),
            *final(self) == (App {
                filtered_instances: final(self).filtered_instances,
                selected: final(self).selected,
                ..*old(self)
            }),
    {
        let filtered = apply_instance_filter(&self.instances, self.filter.as_str());
        self.filtered_instances = filtered;
        let len = self.filtered_instances.len();
        if len == 0 {
            self.selected = None;
        } else {
            match self.selected {
                Some(i) => {
                    if i >= len {
                        self.selected = Some(0);
                    }
                },
                None => {
                    self.selected = Some(0);
                },
            }
        }
    }

    /// The architecture tag of the currently selected instance, if any.
    pub fn get_selected_architecture(&self) -> (r: Option<String>)
        requires
            self.wf(),
        ensures
            opt_view(r) == self.spec_selected_architecture(),
    {
        match self.selected {
            Some(i) => match &self.filtered_instances[i].architecture {
                Some(a) => Some(a.clone()),
                None => None,
            },
            None => None,
        }
    }

    /// The architecture of the selected instance, if an instance is
    /// selected and carries one.
    pub open spec fn spec_selected_architecture(&self) -> Option<Seq<char>> {
        match self.selected {
            Some(i) => self.filtered_instances.deep_view()[i as int].architecture,
            None => None,
        }
    }

    /// The architecture the type picker filters by: the selected
    /// instance's, or the default when unknown.
    pub open spec fn spec_effective_architecture(&self) -> Seq<char> {
        match self.spec_selected_architecture() {
            Some(a) => a,
            None => "x86_64"@,
        }
    }

    /// The type names the picker can offer: all names compatible with
    /// `arch`, or a hardcoded fallback list when no metadata is available.
    pub open spec fn spec_available_type_names(&self, arch: Seq<char>) -> Seq<Seq<char>> {
        if self.instance_types@.len() == 0 {
            fallback_type_names()
        } else {
            compatible_type_names(self.instance_types.deep_view(), arch)
        }
    }

    /// The type names compatible with `architecture` (defaulting to
    /// "x86_64" when unknown), or the fallback list when no instance-type
    /// metadata was loaded.
    pub fn get_instance_types(&self, architecture: Option<&str>) -> (r: Vec<String>)
        ensures
            r.deep_view() == self.spec_available_type_names(
                match architecture {
                    Some(a) => a@,
                    None => "x86_64"@,
                },
            ),
    {
        let arch: &str = match architecture {
            Some(a) => a,
            None => "x86_64",
        };
        if self.instance_types.len() == 0 {
            let mut r: Vec<String> = Vec::new();
            r.push("t3.nano".to_owned());
            r.push("t3.micro".to_owned());
            r.push("t3.small".to_owned());
            r.push("t3.medium".to_owned());
            r.push("t3.large".to_owned());
            r.push("t3a.nano".to_owned());
            r.push("t3a.micro".to_owned());
            r.push("t3a.small".to_owned());
            r.push("t3a.medium".to_owned());
            r.push("t2.nano".to_owned());
            r.push("t2.micro".to_owned());
            r.push("t2.small".to_owned());
            r.push("m5.large".to_owned());
            r.push("m5.xlarge".to_owned());
            r.push("c5.large".to_owned());
            proof {
                assert(r.deep_view() =~= fallback_type_names());
            }
            r
        } else {
            let mut r: Vec<String> = Vec::new();
            let mut i: usize = 0;
            proof {
                assert(r.deep_view() =~= compatible_type_names(
                    self.instance_types.deep_view().take(0),
                    arch@,
                ));
            }
            while i < self.instance_types.len()
                invariant
                    0 <= i <= self.instance_types@.len(),
                    arch@ == match architecture {
                        Some(a) => a@,
                        None => "x86_64"@,
                    },
                    r.deep_view() =~= compatible_type_names(
                        self.instance_types.deep_view().take(i as int),
                        arch@,
                    ),
                decreases self.instance_types@.len() - i,
            {
                let ghost tdv = self.instance_types.deep_view();
                let ghost rdv = r.deep_view();
                if contains_arch(&self.instance_types[i].architectures, arch) {
                    r.push(self.instance_types[i].name.clone());
                }
                proof {
                    assert(tdv.take(i + 1).drop_last() =~= tdv.take(i as int));
                    assert(tdv.take(i + 1).last() == tdv[i as int]);
                }
                i += 1;
            }
            proof {
                assert(self.instance_types.deep_view().take(
                    self.instance_types@.len() as int,
                ) =~= self.instance_types.deep_view());
            }
            r
        }
    }
}

/// Whether one of the listed architectures equals `arch`.
fn contains_arch(archs: &Vec<String>, arch: &str) -> (r: bool)
    ensures
        r == archs.deep_view().contains(arch@),
{
    let mut i: usize = 0;
    while i < archs.len()
        invariant
            0 <= i <= archs@.len(),
            forall|m: int| 0 <= m < i ==> archs.deep_view()[m] != arch@,
        decreases archs@.len() - i,
    {
        if str_eq(archs[i].as_str(), arch) {
            assert(archs.deep_view()[i as int] == arch@);
            return true;
        }
        i += 1;
    }
    false
}

/// Relies on std's `String::push`: appends exactly the one character.
#[verifier::external_body]
fn push_char(s: &mut String, c: char)
    ensures
        final(s)@ == old(s)@.push(c),
{
    s.push(c);
}

/// Concatenates two parts.
fn msg2(a: &str, b: &str) -> (r: String)
    ensures
        r@ == a@ + b@,
{
    let mut s = a.to_owned();
    s.append(b);
    s
}

/// The string without its last character (unchanged when empty).
fn drop_last_char(s: &String) -> (r: String)
    ensures
        r@ == (if s@.len() > 0 {
            s@.drop_last()
        } else {
            s@
        }),
{
    let n = s.as_str().unicode_len();
    if n == 0 {
        s.clone()
    } else {
        let sub = s.as_str().substring_char(0, n - 1);
        sub.to_owned()
    }
}

// ---------------------------------------------------------------------------
// Event handling
// ---------------------------------------------------------------------------
/// How a bulk on-demand price event affects the type picker: while the
/// picker is engaged (default mode off) its options are re-sorted by the
/// new prices and the selection returns to the top; while default mode is
/// active, or outside the picker, the state does not change at all.
pub open spec fn od_resorted(pre: App, post: App) -> bool {
    match pre.state {
        AppState::SelectingType { input, options, selected_index, default_mode_active } => {
            if default_mode_active {
                post.state == pre.state
            } else {
                &&& (post.state matches AppState::SelectingType {
                    input: input2,
                    options: options2,
                    selected_index: idx2,
                    default_mode_active: dma2,
                } && {
                    &&& input2 == input
                    &&& dma2 == false
                    &&& options2.deep_view().to_multiset() == options.deep_view().to_multiset()
                    &&& types_sorted(post.type_prices@, options2.deep_view())
                    &&& idx2 == (if options2@.len() == 0 {
                        None
                    } else {
                        Some(0usize)
                    })
                })
            }
        },
        _ => post.state == pre.state,
    }
}

/// What each inbound event does to the state, and which follow-up
/// command (if any) the loop must launch.
pub open spec fn event_transition(pre: App, event: AppEvent, post: App, cmd: Option<
    Command,
>) -> bool {
    match event {
        AppEvent::InstancesFetched(v) => {
            &&& post.instances == v
            &&& post.filtered_consistent()
            &&& post.selected == selection_after_filter(
                pre.selected,
                post.filtered_instances@.len() as int,
            )
            &&& post.last_refreshed is Some
            &&& post == (App {
                instances: post.instances,
                filtered_instances: post.filtered_instances,
                selected: post.selected,
                last_refreshed: post.last_refreshed,
                ..pre
            })
            &&& cmd is None
        },
        AppEvent::BulkOnDemandFetched(batch) => {
            &&& post.type_prices@ == od_merged_all(pre.type_prices@, batch.deep_view())
            &&& od_resorted(pre, post)
            &&& post == (App { state: post.state, type_prices: post.type_prices, ..pre })
            &&& cmd is None
        },
        AppEvent::BulkSpotFetched(batch) => {
            &&& post.type_prices@ == spot_merged_all(pre.type_prices@, batch.deep_view())
            &&& post == (App { type_prices: post.type_prices, ..pre })
            &&& cmd is None
        },
        AppEvent::InstancesUpdated => {
            &&& post == (App { state: post.state, ..pre })
            &&& post.state == (if pre.state is Processing {
                AppState::List
            } else {
                pre.state
            })
            &&& cmd == Some(Command::Refresh)
        },
        AppEvent::Error(e) => {
            &&& post == (App { state: post.state, ..pre })
            &&& (post.state matches AppState::Processing(m) && m@ == "Error: "@ + e@)
            &&& cmd is None
        },
        AppEvent::Message(m) => {
            &&& post == (App { state: post.state, ..pre })
            &&& post.state == AppState::Processing(m)
            &&& cmd is None
        },
    }
}

impl App {
    /// Applies one inbound event: replaces the instance list, merges
    /// prices (re-sorting the engaged picker on on-demand price arrival),
    /// dismisses `Processing` on a change signal, or surfaces a message or
    /// error. Returns the follow-up command the loop must launch.
    pub fn handle_event(&mut self, event: AppEvent) -> (cmd: Option<Command>)
        requires
            old(self).wf(),
        ensures
            final(self).wf(),
            event_transition(*old(self), event, *final(self), cmd),
    {
        match event {
            AppEvent::InstancesFetched(v) => {
                self.instances = v;
                self.update_filter();
                self.last_refreshed = Some(local_time_hhmmss());
                None
            },
            AppEvent::BulkOnDemandFetched(batch) => {
                self.type_prices.merge_on_demand(&batch);
                let engaged = match &self.state {
                    AppState::SelectingType { default_mode_active, .. } => !*default_mode_active,
                    _ => false,
                };
                if engaged {
                    let mut st = AppState::List;
                    core::mem::swap(&mut st, &mut self.state);
                    match st {
                        AppState::SelectingType {
                            input,
                            mut options,
                            selected_index: _,
                            default_mode_active,
                        } => {
                            sort_types_by_price(&self.type_prices, &mut options);
                            let idx: Option<usize> = if options.len() == 0 {
                                None
                            } else {
                                Some(0)
                            };
                            self.state = AppState::SelectingType {
                                input,
                                options,
                                selected_index: idx,
                                default_mode_active,
                            };
                        },
                        other => {
                            self.state = other;
                        },
                    }
                }
                None
            },
            AppEvent::BulkSpotFetched(batch) => {
                self.type_prices.merge_spot(&batch);
                None
            },
            AppEvent::InstancesUpdated => {
                let dismiss = match &self.state {
                    AppState::Processing(_) => true,
                    _ => false,
                };
                if dismiss {
                    self.state = AppState::List;
                }
                Some(Command::Refresh)
            },
            AppEvent::Error(e) => {
                self.state = AppState::Processing(msg2("Error: ", e.as_str()));
                None
            },
            AppEvent::Message(m) => {
                self.state = AppState::Processing(m);
                None
            },
        }
    }
}

// ---------------------------------------------------------------------------
// Key handling: Processing, FilterInput, ConfirmReboot
// ---------------------------------------------------------------------------
/// In `Processing`, Esc or Enter dismisses back to the list; every other
/// key is ignored. No command is ever launched.
pub open spec fn processing_transition(pre: App, key: Key, post: App, cmds: Seq<Command>) -> bool {
    &&& cmds.len() == 0
    &&& match key {
        Key::Esc | Key::Enter => post == (App { state: AppState::List, ..pre }),
        _ => post == pre,
    }
}

/// In `FilterInput`, typing and backspace edit the filter text and
/// re-apply it immediately; Esc or Enter returns to the list, keeping the
/// text. No command is ever launched.
pub open spec fn filter_input_transition(pre: App, key: Key, post: App, cmds: Seq<
    Command,
>) -> bool {
    &&& cmds.len() == 0
    &&& match key {
        Key::Esc | Key::Enter => post == (App { state: AppState::List, ..pre }),
        Key::Char(c) => {
            &&& post.filter@ == pre.filter@.push(c)
            &&& refiltered(pre, post)
        },
        Key::Backspace => {
            &&& post.filter@ == (if pre.filter@.len() > 0 {
                pre.filter@.drop_last()
            } else {
                pre.filter@
            })
            &&& refiltered(pre, post)
        },
        _ => post == pre,
    }
}

/// After a filter edit: the visible list matches the new text, and only
/// the filter, the visible list and the selection changed.
pub open spec fn refiltered(pre: App, post: App) -> bool {
    &&& post.filtered_consistent()
    &&& post.selected == selection_after_filter(
        pre.selected,
        post.filtered_instances@.len() as int,
    )
    &&& post == (App {
        filter: post.filter,
        filtered_instances: post.filtered_instances,
        selected: post.selected,
        ..pre
    })
}

/// Confirming a reboot: the state shows progress and the reboot command
/// is launched.
pub open spec fn reboot_confirmed(pre: App, id: Seq<char>, post: App, cmds: Seq<Command>) -> bool {
    &&& post == (App { state: post.state, ..pre })
    &&& (post.state matches AppState::Processing(m) && m@ == "Rebooting "@ + id + "..."@)
    &&& cmds.len() == 1
    &&& (cmds[0] matches Command::RebootInstance { instance_id } && instance_id@ == id)
}

/// Forcing a reboot: the state shows progress and the force-reboot
/// command is launched.
pub open spec fn force_reboot_confirmed(pre: App, id: Seq<char>, post: App, cmds: Seq<
    Command,
>) -> bool {
    &&& post == (App { state: post.state, ..pre })
    &&& (post.state matches AppState::Processing(m) && m@ == "Forced Rebooting "@ + id + "..."@)
    &&& cmds.len() == 1
    &&& (cmds[0] matches Command::ForceRebootInstance { instance_id } && instance_id@ == id)
}

/// In `ConfirmReboot`, y or Enter launches the reboot, f forces it, and n
/// or Esc cancels back to the list; other keys are ignored.
pub open spec fn confirm_transition(
    pre: App,
    id: Seq<char>,
    key: Key,
    post: App,
    cmds: Seq<Command>,
) -> bool {
    match key {
        Key::Enter => reboot_confirmed(pre, id, post, cmds),
        Key::Esc => post == (App { state: AppState::List, ..pre }) && cmds.len() == 0,
        Key::Char(c) => {
            if c == 'y' {
                reboot_confirmed(pre, id, post, cmds)
            } else if c == 'f' {
                force_reboot_confirmed(pre, id, post, cmds)
            } else if c == 'n' {
                post == (App { state: AppState::List, ..pre }) && cmds.len() == 0
            } else {
                post == pre && cmds.len() == 0
            }
        },
        _ => post == pre && cmds.len() == 0,
    }
}

impl App {
    fn key_processing(&mut self, key: Key) -> (cmds: Vec<Command>)
        requires
            old(self).wf(),
            old(self).state is Processing,
        ensures
            final(self).wf(),
            processing_transition(*old(self), key, *final(self), cmds@),
    {
        match key {
            Key::Esc | Key::Enter => {
                self.state = AppState::List;
            },
            _ => {},
        }
        Vec::new()
    }

    fn key_filter_input(&mut self, key: Key) -> (cmds: Vec<Command>)
        requires
            old(self).wf(),
            old(self).state is FilterInput,
        ensures
            final(self).wf(),
            filter_input_transition(*old(self), key, *final(self), cmds@),
    {
        match key {
            Key::Esc | Key::Enter => {
                self.state = AppState::List;
            },
            Key::Char(c) => {
                push_char(&mut self.filter, c);
                self.update_filter();
            },
            Key::Backspace => {
                self.filter = drop_last_char(&self.filter);
                self.update_filter();
            },
            _ => {},
        }
        Vec::new()
    }

    fn key_confirm_reboot(&mut self, key: Key) -> (cmds: Vec<Command>)
        requires
            old(self).wf(),
            old(self).state matches AppState::ConfirmReboot(_),
        ensures
            final(self).wf(),
            confirm_transition(
                *old(self),
                old(self).state->ConfirmReboot_0@,
                key,
                *final(self),
                cmds@,
            ),
    {
        let id: String = match &self.state {
            AppState::ConfirmReboot(s) => s.clone(),
            _ => String::new(),
        };
        let mut cmds: Vec<Command> = Vec::new();
        match key {
            Key::Enter => {
                self.state = AppState::Processing(msg3("Rebooting ", id.as_str(), "..."));
                cmds.push(Command::RebootInstance { instance_id: id });
            },
            Key::Esc => {
                self.state = AppState::List;
            },
            Key::Char(c) => {
                if c == 'y' {
                    self.state = AppState::Processing(msg3("Rebooting ", id.as_str(), "..."));
                    cmds.push(Command::RebootInstance { instance_id: id });
                } else if c == 'f' {
                    self.state = AppState::Processing(
                        msg3("Forced Rebooting ", id.as_str(), "..."),
                    );
                    cmds.push(Command::ForceRebootInstance { instance_id: id });
                } else if c == 'n' {
                    self.state = AppState::List;
                }
            },
            _ => {},
        }
        cmds
    }
}

// ---------------------------------------------------------------------------
// Key handling: List
// ---------------------------------------------------------------------------
/// Home jumps to the top of the list.
pub open spec fn home_selection(len: int) -> Option<usize> {
    if len == 0 {
        None
    } else {
        Some(0usize)
    }
}

/// End jumps to the bottom of the list.
pub open spec fn end_selection(len: int) -> Option<usize> {
    if len == 0 {
        None
    } else {
        Some((len - 1) as usize)
    }
}

/// Only the selection moved.
pub open spec fn sel_only(pre: App, post: App, sel: Option<usize>) -> bool {
    post == (App { selected: sel, ..pre })
}

/// Requesting a stop: the state shows progress and the stop command is
/// launched; without a selected instance nothing happens.
pub open spec fn stop_requested(pre: App, post: App, cmds: Seq<Command>) -> bool {
    match pre.selected {
        Some(i) => {
            let inst = pre.filtered_instances.deep_view()[i as int];
            &&& post == (App { state: post.state, ..pre })
            &&& (post.state matches AppState::Processing(m) && m@ == "Stopping "@ + inst.id
                + "..."@)
            &&& cmds.len() == 1
            &&& (cmds[0] matches Command::StopInstance { instance_id } && instance_id@ == inst.id)
        },
        None => post == pre && cmds.len() == 0,
    }
}

/// Requesting a start, analogously.
pub open spec fn start_requested(pre: App, post: App, cmds: Seq<Command>) -> bool {
    match pre.selected {
        Some(i) => {
            let inst = pre.filtered_instances.deep_view()[i as int];
            &&& post == (App { state: post.state, ..pre })
            &&& (post.state matches AppState::Processing(m) && m@ == "Starting "@ + inst.id
                + "..."@)
            &&& cmds.len() == 1
            &&& (cmds[0] matches Command::StartInstance { instance_id } && instance_id@ == inst.id)
        },
        None => post == pre && cmds.len() == 0,
    }
}

/// Requesting a reboot: a running instance gets the confirmation gate; any
/// other state gets an explanatory error and no remote call is made.
pub open spec fn reboot_requested(pre: App, post: App, cmds: Seq<Command>) -> bool {
    &&& cmds.len() == 0
    &&& match pre.selected {
        Some(i) => {
            let inst = pre.filtered_instances.deep_view()[i as int];
            if seq_eq_fold(inst.state, "running"@) {
                &&& post == (App { state: post.state, ..pre })
                &&& (post.state matches AppState::ConfirmReboot(id) && id@ == inst.id)
            } else {
                &&& post == (App { state: post.state, ..pre })
                &&& (post.state matches AppState::Processing(m) && m@
                    == "Error: Cannot reboot instance "@ + inst.id + " because it is in state '"@
                    + inst.state + "'."@)
            }
        },
        None => post == pre,
    }
}

/// Which price fetches opening the picker launches: none without an
/// availability zone; the spot fetch otherwise; the on-demand fetch too
/// when pricing is available and nothing is cached yet.
pub open spec fn picker_cmds_ok(pre: App, inst: InstanceView, cmds: Seq<Command>) -> bool {
    match inst.availability_zone {
        Some(az) => {
            if pre.pricing_available && pre.type_prices@ == Map::<Seq<char>, Prices>::empty() {
                &&& cmds.len() == 2
                &&& cmds[0] == Command::FetchOnDemandPrices
                &&& (cmds[1] matches Command::FetchSpotPrices { availability_zone } &&
                    availability_zone@ == az)
            } else {
                &&& cmds.len() == 1
                &&& (cmds[0] matches Command::FetchSpotPrices { availability_zone } &&
                    availability_zone@ == az)
            }
        },
        None => cmds.len() == 0,
    }
}

/// Opening the type picker: the input shows the configured default type,
/// the options are the architecture-compatible names sorted
/// alphabetically, nothing is selected, and default mode is active.
pub open spec fn picker_opened(pre: App, post: App, cmds: Seq<Command>) -> bool {
    match pre.selected {
        Some(i) => {
            let inst = pre.filtered_instances.deep_view()[i as int];
            let arch = match inst.architecture {
                Some(a) => a,
                None => "x86_64"@,
            };
            &&& post == (App { state: post.state, ..pre })
            &&& (post.state matches AppState::SelectingType {
                input,
                options,
                selected_index,
                default_mode_active,
            } && {
                &&& input@ == (match pre.config.default_instance_type {
                    Some(d) => d@,
                    None => Seq::<char>::empty(),
                })
                &&& options.deep_view().to_multiset() == pre.spec_available_type_names(
                    arch,
                ).to_multiset()
                &&& names_sorted(options.deep_view())
                &&& selected_index is None
                &&& default_mode_active == true
            })
            &&& picker_cmds_ok(pre, inst, cmds)
        },
        None => post == pre && cmds.len() == 0,
    }
}

/// What each key does in `List` mode.
pub open spec fn list_transition(pre: App, key: Key, post: App, cmds: Seq<Command>) -> bool {
    let len = pre.filtered_instances@.len() as int;
    match key {
        Key::Char(c) => {
            if c == 'q' {
                post == (App { should_quit: true, ..pre }) && cmds.len() == 0
            } else if c == 'f' {
                post == (App { state: AppState::FilterInput, ..pre }) && cmds.len() == 0
            } else if c == 'c' {
                picker_opened(pre, post, cmds)
            } else if c == 's' {
                stop_requested(pre, post, cmds)
            } else if c == 'S' {
                start_requested(pre, post, cmds)
            } else if c == 'r' {
                reboot_requested(pre, post, cmds)
            } else {
                post == pre && cmds.len() == 0
            }
        },
        Key::Down => sel_only(pre, post, next_selection(pre.selected, len)) && cmds.len() == 0,
        Key::Up => sel_only(pre, post, prev_selection(pre.selected, len)) && cmds.len() == 0,
        Key::PageDown => sel_only(pre, post, page_down_selection(pre.selected, len)) && cmds.len()
            == 0,
        Key::PageUp => sel_only(pre, post, page_up_selection(pre.selected, len)) && cmds.len()
            == 0,
        Key::Home => sel_only(pre, post, home_selection(len)) && cmds.len() == 0,
        Key::End => sel_only(pre, post, end_selection(len)) && cmds.len() == 0,
        _ => post == pre && cmds.len() == 0,
    }
}

impl App {
    fn key_list(&mut self, key: Key) -> (cmds: Vec<Command>)
        requires
            old(self).wf(),
            old(self).state is List,
        ensures
            final(self).wf(),
            list_transition(*old(self), key, *final(self), cmds@),
    {
        let mut cmds: Vec<Command> = Vec::new();
        match key {
            Key::Char(c) => {
                if c == 'q' {
                    self.should_quit = true;
                } else if c == 'f' {
                    self.state = AppState::FilterInput;
                } else if c == 'c' {
                    match self.selected {
                        Some(i) => {
                            let arch_opt = self.get_selected_architecture();
                            let mut options = self.get_instance_types(
                                match &arch_opt {
                                    Some(a) => Some(a.as_str()),
                                    None => None,
                                },
                            );
                            sort_types_alpha(&mut options);
                            let input: String = match &self.config.default_instance_type {
                                Some(d) => d.clone(),
                                None => String::new(),
                            };
                            match &self.filtered_instances[i].availability_zone {
                                Some(az) => {
                                    if self.pricing_available && self.type_prices.is_empty() {
                                        cmds.push(Command::FetchOnDemandPrices);
                                    }
                                    cmds.push(
                                        Command::FetchSpotPrices {
                                            availability_zone: az.clone(),
                                        },
                                    );
                                },
                                None => {},
                            }
                            self.state = AppState::SelectingType {
                                input,
                                options,
                                selected_index: None,
                                default_mode_active: true,
                            };
                        },
                        None => {},
                    }
                } else if c == 's' {
                    match self.selected {
                        Some(i) => {
                            let id = self.filtered_instances[i].id.clone();
                            self.state = AppState::Processing(
                                msg3("Stopping ", id.as_str(), "..."),
                            );
                            cmds.push(Command::StopInstance { instance_id: id });
                        },
                        None => {},
                    }
                } else if c == 'S' {
                    match self.selected {
                        Some(i) => {
                            let id = self.filtered_instances[i].id.clone();
                            self.state = AppState::Processing(
                                msg3("Starting ", id.as_str(), "..."),
                            );
                            cmds.push(Command::StartInstance { instance_id: id });
                        },
                        None => {},
                    }
                } else if c == 'r' {
                    match self.selected {
                        Some(i) => {
                            let id = self.filtered_instances[i].id.clone();
                            if str_eq_fold(self.filtered_instances[i].state.as_str(), "running") {
                                self.state = AppState::ConfirmReboot(id);
                            } else {
                                let st = self.filtered_instances[i].state.clone();
                                self.state = AppState::Processing(
                                    msg5(
                                        "Error: Cannot reboot instance ",
                                        id.as_str(),
                                        " because it is in state '",
                                        st.as_str(),
                                        "'.",
                                    ),
                                );
                            }
                        },
                        None => {},
                    }
                }
            },
            Key::Down => {
                self.next();
            },
            Key::Up => {
                self.previous();
            },
            Key::PageDown => {
                let len = self.filtered_instances.len();
                if len == 0 {
                    self.selected = None;
                } else {
                    self.selected = match self.selected {
                        Some(i) => if len - 1 - i > 20 {
                            Some(i + 20)
                        } else {
                            Some(len - 1)
                        },
                        None => Some(0),
                    };
                }
            },
            Key::PageUp => {
                let len = self.filtered_instances.len();
                if len == 0 {
                    self.selected = None;
                } else {
                    self.selected = match self.selected {
                        Some(i) => if i >= 20 {
                            Some(i - 20)
                        } else {
                            Some(0)
                        },
                        None => Some(0),
                    };
                }
            },
            Key::Home => {
                let len = self.filtered_instances.len();
                self.selected = if len == 0 {
                    None
                } else {
                    Some(0)
                };
            },
            Key::End => {
                let len = self.filtered_instances.len();
                self.selected = if len == 0 {
                    None
                } else {
                    Some(len - 1)
                };
            },
            _ => {},
        }
        cmds
    }
}

// ---------------------------------------------------------------------------
// Key handling: SelectingType
// ---------------------------------------------------------------------------
/// Navigation inside the engaged picker (default mode off): one step for
/// Up/Down bounded by the list, twenty for the page keys, clamped.
pub open spec fn picker_nav_selected(key: Key, idx: Option<usize>, len: int) -> Option<usize> {
    match idx {
        Some(i) => match key {
            Key::Up => if i > 0 {
                Some((i - 1) as usize)
            } else {
                Some(i)
            },
            Key::Down => if (i as int) < len - 1 {
                Some((i + 1) as usize)
            } else {
                Some(i)
            },
            Key::PageUp => if i >= 20 {
                Some((i - 20) as usize)
            } else {
                Some(0usize)
            },
            Key::PageDown => {
                let cap = if len == 0 {
                    0
                } else {
                    len - 1
                };
                if i + 20 < cap {
                    Some((i + 20) as usize)
                } else {
                    Some(cap as usize)
                }
            },
            _ => Some(i),
        },
        None => None,
    }
}

/// The picker state after a navigation key in default mode: the input is
/// cleared, the top entry is selected, default mode ends; the options are
/// untouched.
pub open spec fn picker_default_nav(options: Vec<String>, post: App) -> bool {
    post.state matches AppState::SelectingType {
        input: input2,
        options: options2,
        selected_index: idx2,
        default_mode_active: dma2,
    } && {
        &&& input2@ == Seq::<char>::empty()
        &&& options2 == options
        &&& idx2 == Some(0usize)
        &&& dma2 == false
    }
}

/// The picker state after recomputing options for `input2`: the names
/// containing it, sorted by price, top entry selected when non-empty.
pub open spec fn picker_refiltered(pre: App, input2: Seq<char>, post: App) -> bool {
    post.state matches AppState::SelectingType {
        input: pinput,
        options: poptions,
        selected_index: pidx,
        default_mode_active: pdma,
    } && {
        &&& pinput@ == input2
        &&& poptions.deep_view().to_multiset() == filter_type_names(
            pre.spec_available_type_names(pre.spec_effective_architecture()),
            input2,
        ).to_multiset()
        &&& types_sorted(pre.type_prices@, poptions.deep_view())
        &&& pidx == (if poptions@.len() == 0 {
            None
        } else {
            Some(0usize)
        })
        &&& pdma == false
    }
}

/// The picker state after re-entering default mode (the input was
/// backspaced to empty): the configured default type is shown, the full
/// compatible list returns in alphabetical order, nothing is selected.
pub open spec fn picker_default_reentered(pre: App, post: App) -> bool {
    post.state matches AppState::SelectingType {
        input: pinput,
        options: poptions,
        selected_index: pidx,
        default_mode_active: pdma,
    } && {
        &&& pinput@ == (match pre.config.default_instance_type {
            Some(d) => d@,
            None => Seq::<char>::empty(),
        })
        &&& poptions.deep_view().to_multiset() == pre.spec_available_type_names(
            pre.spec_effective_architecture(),
        ).to_multiset()
        &&& names_sorted(poptions.deep_view())
        &&& pidx is None
        &&& pdma == true
    }
}

/// What Enter picks: the sole remaining option; otherwise the highlighted
/// option, if the highlight is in range; otherwise the typed text, if it
/// names an option exactly; otherwise nothing.
pub open spec fn spec_chosen(input: Seq<char>, opts: Seq<Seq<char>>, idx: Option<usize>) -> Option<
    Seq<char>,
> {
    if opts.len() == 1 {
        Some(opts[0])
    } else {
        match idx {
            Some(i) => if (i as int) < opts.len() {
                Some(opts[i as int])
            } else {
                None
            },
            None => if opts.contains(input) {
                Some(input)
            } else {
                None
            },
        }
    }
}

/// Confirming a resize: the state shows progress on the stop step and the
/// resize workflow command is launched with the configured credit
/// preference ("standard" when absent).
pub open spec fn resize_launched(pre: App, inst: InstanceView, t: Seq<char>, post: App, cmds: Seq<
    Command,
>) -> bool {
    &&& post == (App { state: post.state, ..pre })
    &&& (post.state matches AppState::Processing(m) && m@ == "Stopping "@ + inst.id + "..."@)
    &&& cmds.len() == 1
    &&& (cmds[0] matches Command::Resize { instance_id, new_type, credit_spec } && {
        &&& instance_id@ == inst.id
        &&& new_type@ == t
        &&& credit_spec@ == (match pre.config.t_family_credit {
            Some(x) => x@,
            None => "standard"@,
        })
    })
}

/// What each key does in the type picker.
pub open spec fn selecting_transition(pre: App, key: Key, post: App, cmds: Seq<Command>) -> bool {
    match pre.state {
        AppState::SelectingType { input, options, selected_index, default_mode_active } => {
            match key {
                Key::Esc => post == (App { state: AppState::List, ..pre }) && cmds.len() == 0,
                Key::Up | Key::Down | Key::PageUp | Key::PageDown => {
                    &&& cmds.len() == 0
                    &&& post == (App { state: post.state, ..pre })
                    &&& if default_mode_active {
                        picker_default_nav(options, post)
                    } else {
                        post.state == (AppState::SelectingType {
                            input,
                            options,
                            selected_index: picker_nav_selected(
                                key,
                                selected_index,
                                options@.len() as int,
                            ),
                            default_mode_active,
                        })
                    }
                },
                Key::Home | Key::End => {
                    let cap: Option<usize> = if key is Home {
                        Some(0usize)
                    } else if options@.len() == 0 {
                        Some(0usize)
                    } else {
                        Some((options@.len() - 1) as usize)
                    };
                    &&& cmds.len() == 0
                    &&& post == (App { state: post.state, ..pre })
                    &&& (post.state matches AppState::SelectingType {
                        input: input2,
                        options: options2,
                        selected_index: idx2,
                        default_mode_active: dma2,
                    } && {
                        &&& input2@ == (if default_mode_active {
                            Seq::<char>::empty()
                        } else {
                            input@
                        })
                        &&& options2 == options
                        &&& idx2 == cap
                        &&& dma2 == false
                    })
                },
                Key::Char(c) => {
                    &&& cmds.len() == 0
                    &&& post == (App { state: post.state, ..pre })
                    &&& picker_refiltered(
                        pre,
                        (if default_mode_active {
                            Seq::<char>::empty()
                        } else {
                            input@
                        }).push(c),
                        post,
                    )
                },
                Key::Backspace => {
                    &&& cmds.len() == 0
                    &&& if default_mode_active {
                        post == pre
                    } else {
                        let shrunk = if input@.len() > 0 {
                            input@.drop_last()
                        } else {
                            input@
                        };
                        &&& post == (App { state: post.state, ..pre })
                        &&& if shrunk.len() == 0 {
                            picker_default_reentered(pre, post)
                        } else {
                            picker_refiltered(pre, shrunk, post)
                        }
                    }
                },
                Key::Enter => {
                    match spec_chosen(input@, options.deep_view(), selected_index) {
                        Some(t) => match pre.selected {
                            Some(si) => {
                                let inst = pre.filtered_instances.deep_view()[si as int];
                                if t == inst.instance_type {
                                    post == (App { state: AppState::List, ..pre }) && cmds.len()
                                        == 0
                                } else {
                                    resize_launched(pre, inst, t, post, cmds)
                                }
                            },
                            None => post == pre && cmds.len() == 0,
                        },
                        None => post == pre && cmds.len() == 0,
                    }
                },
                _ => post == pre && cmds.len() == 0,
            }
        },
        _ => false,
    }
}

/// Whether some entry equals `s`.
fn contains_string(v: &Vec<String>, s: &String) -> (r: bool)
    ensures
        r == v.deep_view().contains(s@),
{
    let mut i: usize = 0;
    while i < v.len()
        invariant
            0 <= i <= v@.len(),
            forall|m: int| 0 <= m < i ==> v.deep_view()[m] != s@,
        decreases v@.len() - i,
    {
        if str_eq(v[i].as_str(), s.as_str()) {
            assert(v.deep_view()[i as int] == s@);
            return true;
        }
        i += 1;
    }
    false
}

impl App {
    fn key_selecting_type(&mut self, key: Key) -> (cmds: Vec<Command>)
        requires
            old(self).wf(),
            old(self).state matches AppState::SelectingType { .. },
        ensures
            final(self).wf(),
            selecting_transition(*old(self), key, *final(self), cmds@),
    {
        let mut cmds: Vec<Command> = Vec::new();
        let mut st = AppState::List;
        core::mem::swap(&mut st, &mut self.state);
        match st {
            AppState::SelectingType { input, options, selected_index, default_mode_active } => {
                match key {
                    Key::Esc => {
                        self.state = AppState::List;
                    },
                    Key::Up | Key::Down | Key::PageUp | Key::PageDown => {
                        if default_mode_active {
                            self.state = AppState::SelectingType {
                                input: String::new(),
                                options,
                                selected_index: Some(0),
                                default_mode_active: false,
                            };
                        } else {
                            let len = options.len();
                            let idx2: Option<usize> = match selected_index {
                                Some(i) => match key {
                                    Key::Up => if i > 0 {
                                        Some(i - 1)
                                    } else {
                                        Some(i)
                                    },
                                    Key::Down => if len > 0 && i < len - 1 {
                                        Some(i + 1)
                                    } else {
                                        Some(i)
                                    },
                                    Key::PageUp => if i >= 20 {
                                        Some(i - 20)
                                    } else {
                                        Some(0)
                                    },
                                    Key::PageDown => {
                                        let cap: usize = if len == 0 {
                                            0
                                        } else {
                                            len - 1
                                        };
                                        if cap > i && cap - i > 20 {
                                            Some(i + 20)
                                        } else {
                                            Some(cap)
                                        }
                                    },
                                    _ => Some(i),
                                },
                                None => None,
                            };
                            self.state = AppState::SelectingType {
                                input,
                                options,
                                selected_index: idx2,
                                default_mode_active,
                            };
                        }
                    },
                    Key::Home | Key::End => {
                        let is_home = match key {
                            Key::Home => true,
                            _ => false,
                        };
                        let len = options.len();
                        let idx2: Option<usize> = if is_home {
                            Some(0)
                        } else if len == 0 {
                            Some(0)
                        } else {
                            Some(len - 1)
                        };
                        let input2: String = if default_mode_active {
                            String::new()
                        } else {
                            input
                        };
                        self.state = AppState::SelectingType {
                            input: input2,
                            options,
                            selected_index: idx2,
                            default_mode_active: false,
                        };
                    },
                    Key::Char(c) => {
                        let mut input2: String = if default_mode_active {
                            String::new()
                        } else {
                            input
                        };
                        push_char(&mut input2, c);
                        let arch_opt = self.get_selected_architecture();
                        let all_types = self.get_instance_types(
                            match &arch_opt {
                                Some(a) => Some(a.as_str()),
                                None => None,
                            },
                        );
                        let options2 = apply_type_filter(
                            &all_types,
                            input2.as_str(),
                            &self.type_prices,
                        );
                        let idx2: Option<usize> = if options2.len() == 0 {
                            None
                        } else {
                            Some(0)
                        };
                        self.state = AppState::SelectingType {
                            input: input2,
                            options: options2,
                            selected_index: idx2,
                            default_mode_active: false,
                        };
                    },
                    Key::Backspace => {
                        if default_mode_active {
                            self.state = AppState::SelectingType {
                                input,
                                options,
                                selected_index,
                                default_mode_active,
                            };
                        } else {
                            let input2 = drop_last_char(&input);
                            if input2.as_str().unicode_len() == 0 {
                                let arch_opt = self.get_selected_architecture();
                                let mut all_types = self.get_instance_types(
                                    match &arch_opt {
                                        Some(a) => Some(a.as_str()),
                                        None => None,
                                    },
                                );
                                sort_types_alpha(&mut all_types);
                                let d: String = match &self.config.default_instance_type {
                                    Some(x) => x.clone(),
                                    None => String::new(),
                                };
                                self.state = AppState::SelectingType {
                                    input: d,
                                    options: all_types,
                                    selected_index: None,
                                    default_mode_active: true,
                                };
                            } else {
                                let arch_opt = self.get_selected_architecture();
                                let all_types = self.get_instance_types(
                                    match &arch_opt {
                                        Some(a) => Some(a.as_str()),
                                        None => None,
                                    },
                                );
                                let options2 = apply_type_filter(
                                    &all_types,
                                    input2.as_str(),
                                    &self.type_prices,
                                );
                                let idx2: Option<usize> = if options2.len() == 0 {
                                    None
                                } else {
                                    Some(0)
                                };
                                self.state = AppState::SelectingType {
                                    input: input2,
                                    options: options2,
                                    selected_index: idx2,
                                    default_mode_active: false,
                                };
                            }
                        }
                    },
                    Key::Enter => {
                        let chosen: Option<String> = if options.len() == 1 {
                            Some(options[0].clone())
                        } else {
                            match selected_index {
                                Some(i) => if i < options.len() {
                                    Some(options[i].clone())
                                } else {
                                    None
                                },
                                None => if contains_string(&options, &input) {
                                    Some(input.clone())
                                } else {
                                    None
                                },
                            }
                        };
                        match chosen {
                            Some(t) => match self.selected {
                                Some(si) => {
                                    if str_eq(
                                        t.as_str(),
                                        self.filtered_instances[si].instance_type.as_str(),
                                    ) {
                                        self.state = AppState::List;
                                    } else {
                                        let id = self.filtered_instances[si].id.clone();
                                        self.state = AppState::Processing(
                                            msg3("Stopping ", id.as_str(), "..."),
                                        );
                                        let credit: String = match &self.config.t_family_credit {
                                            Some(x) => x.clone(),
                                            None => "standard".to_owned(),
                                        };
                                        cmds.push(
                                            Command::Resize {
                                                instance_id: id,
                                                new_type: t,
                                                credit_spec: credit,
                                            },
                                        );
                                    }
                                },
                                None => {
                                    self.state = AppState::SelectingType {
                                        input,
                                        options,
                                        selected_index,
                                        default_mode_active,
                                    };
                                },
                            },
                            None => {
                                self.state = AppState::SelectingType {
                                    input,
                                    options,
                                    selected_index,
                                    default_mode_active,
                                };
                            },
                        }
                    },
                    _ => {
                        self.state = AppState::SelectingType {
                            input,
                            options,
                            selected_index,
                            default_mode_active,
                        };
                    },
                }
            },
            other => {
                self.state = other;
            },
        }
        cmds
    }
}

// ---------------------------------------------------------------------------
// Key handling: dispatch
// ---------------------------------------------------------------------------
/// The whole key-press state machine: Ctrl-C force-quits from any mode;
/// every other key acts according to the active state.
pub open spec fn key_transition(pre: App, key: Key, post: App, cmds: Seq<Command>) -> bool {
    if key is CtrlC {
        post == (App { should_quit: true, ..pre }) && cmds.len() == 0
    } else {
        match pre.state {
            AppState::List => list_transition(pre, key, post, cmds),
            AppState::FilterInput => filter_input_transition(pre, key, post, cmds),
            AppState::SelectingType { .. } => selecting_transition(pre, key, post, cmds),
            AppState::ConfirmReboot(id) => confirm_transition(pre, id@, key, post, cmds),
            AppState::Processing(_) => processing_transition(pre, key, post, cmds),
        }
    }
}

impl App {
    /// Applies one key press to the state machine and returns the
    /// commands the loop must launch in the background.
    pub fn handle_key(&mut self, key: Key) -> (cmds: Vec<Command>)
        requires
            old(self).wf(),
        ensures
            final(self).wf(),
            key_transition(*old(self), key, *final(self), cmds@),
    {
        match key {
            Key::CtrlC => {
                self.should_quit = true;
                return Vec::new();
            },
            _ => {},
        }
        let kind: u8 = match &self.state {
            AppState::List => 0,
            AppState::FilterInput => 1,
            AppState::SelectingType { .. } => 2,
            AppState::ConfirmReboot(_) => 3,
            AppState::Processing(_) => 4,
        };
        if kind == 0 {
            self.key_list(key)
        } else if kind == 1 {
            self.key_filter_input(key)
        } else if kind == 2 {
            self.key_selecting_type(key)
        } else if kind == 3 {
            self.key_confirm_reboot(key)
        } else {
            self.key_processing(key)
        }
    }
}

// ---------------------------------------------------------------------------
// Laws of the picker's default mode
// ---------------------------------------------------------------------------
/// While default mode is active, any navigation key, Home, End or typed
/// character ends it in that very transition: nothing else is needed,
/// and afterwards it is off.
pub proof fn lemma_default_mode_cleared_once(pre: App, key: Key, post: App, cmds: Seq<Command>)
    requires
        pre.state matches AppState::SelectingType { default_mode_active: true, .. },
        selecting_transition(pre, key, post, cmds),
        key matches (Key::Up | Key::Down | Key::PageUp | Key::PageDown | Key::Home | Key::End
            | Key::Char(_)),
    ensures
        post.state matches AppState::SelectingType { default_mode_active: false, .. },
{
}

/// Inside the picker, default mode turns back on only through Backspace
/// on an input of at most one character (the edit that empties it); no
/// other key re-activates it.
pub proof fn lemma_default_mode_reentered_only_by_backspace(
    pre: App,
    key: Key,
    post: App,
    cmds: Seq<Command>,
)
    requires
        pre.state matches AppState::SelectingType { default_mode_active: false, .. },
        selecting_transition(pre, key, post, cmds),
        post.state matches AppState::SelectingType { default_mode_active: true, .. },
    ensures
        key is Backspace,
        pre.state->SelectingType_input@.len() <= 1,
{
}

} // verus!
