//! The order in which one plugin instance is brought up and taken down, and
//! what each failure on the way means.
//!
//! The calls across the plugin interface are made by the surrounding
//! program; which call comes next, which failure ends a load, and what has
//! then to be released, is decided here.

use crate::engine::{first_index, PluginError};
use vstd::prelude::*;

verus! {

/// A class that a plugin's factory offers.
#[derive(Debug)]
pub struct ClassInfo {
    /// The class identifier.
    pub cid: [i8; 16],
    /// The kind of class, as text.
    pub category: String,
    /// The display name.
    pub name: String,
}

/// The category of classes that are audio effects.
pub open spec fn effect_category() -> Seq<char> {
    "Audio Module Class"@
}

/// The categories of a list of classes.
pub open spec fn categories(classes: Seq<ClassInfo>) -> Seq<Seq<char>> {
    classes.map_values(|c: ClassInfo| c.category@)
}

/// Chooses the class to instantiate: the first audio effect.
pub fn select_effect_class(classes: &Vec<ClassInfo>) -> (r: Option<usize>)
    ensures
        match r {
            Some(i) => first_index(categories(classes@), effect_category()) == Some(i as int)
                && i < classes@.len(),
            None => first_index(categories(classes@), effect_category()) is None,
        },
{
    let wanted: String = String::from_str("Audio Module Class");
    let ghost names = categories(classes@);
    let mut i: usize = 0;
    assert(names.skip(0) =~= names);
    while i < classes.len()
        invariant
            0 <= i <= classes.len(),
            wanted@ == effect_category(),
            names == categories(classes@),
            first_index(names, effect_category()) == match first_index(
                names.skip(i as int),
                effect_category(),
            ) {
                Some(k) => Some(k + i),
                None => None,
            },
        decreases classes.len() - i,
    {
        assert(names.skip(i as int)[0] == classes@[i as int].category@);
        assert(names.skip(i as int).skip(1) =~= names.skip(i + 1));
        if classes[i].category == wanted {
            return Some(i);
        }
        i = i + 1;
    }
    assert(names.skip(i as int).len() == 0);
    None
}

/// One step of bringing a plugin up, in the order the steps are taken.
#[derive(Clone, Copy, Debug, PartialEq, Eq, Hash, Structural)]
pub enum HostStep {
    /// Map the shared library and run its initialization entry.
    LoadModule,
    /// Ask the library for its factory.
    GetFactory,
    /// List the factory's classes and choose the effect.
    SelectClass,
    /// Create the component of the chosen class.
    CreateComponent,
    /// Initialize the component with the host context.
    Initialize,
    /// Ask the component for its audio processor.
    QueryProcessor,
    /// Ask the component for its edit controller; a plugin may have none.
    QueryController,
    /// Connect component and controller where both can be connected.
    Connect,
    /// Ask for one stereo input and one stereo output.
    SetBusArrangements,
    /// Switch the input bus on.
    ActivateInputBus,
    /// Switch the output bus on.
    ActivateOutputBus,
    /// Announce sample size, block size, sample rate and mode.
    SetupProcessing,
    /// Activate the component.
    SetActive,
    /// Start processing.
    SetProcessing,
}

/// What the host holds of a plugin and owes a release.
#[derive(Clone, Copy, Debug, PartialEq, Eq, Hash, Structural)]
pub enum Resource {
    Module,
    Factory,
    Component,
    Processor,
    Controller,
    View,
}

impl HostStep {
    /// The position of the step in the order of bringing a plugin up.
    pub open spec fn index(self) -> int {
        match self {
            HostStep::LoadModule => 0,
            HostStep::GetFactory => 1,
            HostStep::SelectClass => 2,
            HostStep::CreateComponent => 3,
            HostStep::Initialize => 4,
            HostStep::QueryProcessor => 5,
            HostStep::QueryController => 6,
            HostStep::Connect => 7,
            HostStep::SetBusArrangements => 8,
            HostStep::ActivateInputBus => 9,
            HostStep::ActivateOutputBus => 10,
            HostStep::SetupProcessing => 11,
            HostStep::SetActive => 12,
            HostStep::SetProcessing => 13,
        }
    }

    /// Whether a failure of the step ends the load.  A plugin need not have
    /// an edit controller nor be connectable, and what it answers to the
    /// start of processing is not looked at.
    pub open spec fn spec_required(self) -> bool {
        self != HostStep::QueryController && self != HostStep::Connect && self
            != HostStep::SetProcessing
    }

    /// What the host holds once the step has succeeded, if anything.
    pub open spec fn spec_acquires(self) -> Option<Resource> {
        match self {
            HostStep::LoadModule => Some(Resource::Module),
            HostStep::GetFactory => Some(Resource::Factory),
            HostStep::CreateComponent => Some(Resource::Component),
            HostStep::QueryProcessor => Some(Resource::Processor),
            HostStep::QueryController => Some(Resource::Controller),
            _ => None,
        }
    }

    /// The name of the step, as it is reported in errors.
    pub open spec fn spec_name(self) -> Seq<char> {
        match self {
            HostStep::LoadModule => "load_module"@,
            HostStep::GetFactory => "get_factory"@,
            HostStep::SelectClass => "select_class"@,
            HostStep::CreateComponent => "create_component"@,
            HostStep::Initialize => "initialize"@,
            HostStep::QueryProcessor => "query_processor"@,
            HostStep::QueryController => "query_controller"@,
            HostStep::Connect => "connect"@,
            HostStep::SetBusArrangements => "set_bus_arrangements"@,
            HostStep::ActivateInputBus => "activate_input_bus"@,
            HostStep::ActivateOutputBus => "activate_output_bus"@,
            HostStep::SetupProcessing => "setup_processing"@,
            HostStep::SetActive => "set_active"@,
            HostStep::SetProcessing => "set_processing"@,
        }
    }

    /// The first step.
    pub fn first() -> (r: HostStep)
        ensures
            r.index() == 0,
    {
        HostStep::LoadModule
    }

    /// The step after this one, if this is not the last.
    pub fn next(self) -> (r: Option<HostStep>)
        ensures
            match r {
                Some(n) => n.index() == self.index() + 1,
                None => self.index() == 13,
            },
    {
        match self {
            HostStep::LoadModule => Some(HostStep::GetFactory),
            HostStep::GetFactory => Some(HostStep::SelectClass),
            HostStep::SelectClass => Some(HostStep::CreateComponent),
            HostStep::CreateComponent => Some(HostStep::Initialize),
            HostStep::Initialize => Some(HostStep::QueryProcessor),
            HostStep::QueryProcessor => Some(HostStep::QueryController),
            HostStep::QueryController => Some(HostStep::Connect),
            HostStep::Connect => Some(HostStep::SetBusArrangements),
            HostStep::SetBusArrangements => Some(HostStep::ActivateInputBus),
            HostStep::ActivateInputBus => Some(HostStep::ActivateOutputBus),
            HostStep::ActivateOutputBus => Some(HostStep::SetupProcessing),
            HostStep::SetupProcessing => Some(HostStep::SetActive),
            HostStep::SetActive => Some(HostStep::SetProcessing),
            HostStep::SetProcessing => None,
        }
    }

    /// Whether a failure of the step ends the load.
    pub fn required(self) -> (r: bool)
        ensures
            r == self.spec_required(),
    {
        match self {
            HostStep::QueryController => false,
            HostStep::Connect => false,
            HostStep::SetProcessing => false,
            _ => true,
        }
    }

    /// What the host holds once the step has succeeded, if anything.
    pub fn acquires(self) -> (r: Option<Resource>)
        ensures
            r == self.spec_acquires(),
    {
        match self {
            HostStep::LoadModule => Some(Resource::Module),
            HostStep::GetFactory => Some(Resource::Factory),
            HostStep::CreateComponent => Some(Resource::Component),
            HostStep::QueryProcessor => Some(Resource::Processor),
            HostStep::QueryController => Some(Resource::Controller),
            _ => None,
        }
    }

    /// The name of the step, as it is reported in errors.
    pub fn name(self) -> (r: String)
        ensures
            r@ == self.spec_name(),
    {
        match self {
            HostStep::LoadModule => String::from_str("load_module"),
            HostStep::GetFactory => String::from_str("get_factory"),
            HostStep::SelectClass => String::from_str("select_class"),
            HostStep::CreateComponent => String::from_str("create_component"),
            HostStep::Initialize => String::from_str("initialize"),
            HostStep::QueryProcessor => String::from_str("query_processor"),
            HostStep::QueryController => String::from_str("query_controller"),
            HostStep::Connect => String::from_str("connect"),
            HostStep::SetBusArrangements => String::from_str("set_bus_arrangements"),
            HostStep::ActivateInputBus => String::from_str("activate_input_bus"),
            HostStep::ActivateOutputBus => String::from_str("activate_output_bus"),
            HostStep::SetupProcessing => String::from_str("setup_processing"),
            HostStep::SetActive => String::from_str("set_active"),
            HostStep::SetProcessing => String::from_str("set_processing"),
        }
    }

    /// The error that a failure of the step amounts to.  `detail` is the
    /// loader's message where the library or its factory could not be had,
    /// and the identifier of the interface where one is missing.
    pub fn failure(self, detail: String) -> (r: PluginError)
        ensures
            is_failure_of(self, detail, r),
    {
        match self {
            HostStep::LoadModule => PluginError::LoadFailed(detail),
            HostStep::GetFactory => PluginError::LoadFailed(detail),
            HostStep::SelectClass => PluginError::LoadFailed(detail),
            HostStep::CreateComponent => PluginError::InterfaceMissing(detail),
            HostStep::QueryProcessor => PluginError::InterfaceMissing(detail),
            HostStep::QueryController => PluginError::InterfaceMissing(detail),
            _ => PluginError::ActivationFailed(self.name()),
        }
    }
}

/// Whether `error` is what a failure of `step` amounts to: a library or
/// factory that cannot be had fails the load, an interface that cannot be
/// had is missing, and every other step is part of activation and is
/// reported by its name.
pub open spec fn is_failure_of(step: HostStep, detail: String, error: PluginError) -> bool {
    match error {
        PluginError::LoadFailed(d) => step.index() <= 2 && d == detail,
        PluginError::InterfaceMissing(d) => (step == HostStep::CreateComponent || step
            == HostStep::QueryProcessor || step == HostStep::QueryController) && d == detail,
        PluginError::ActivationFailed(n) => (step == HostStep::Initialize || step.index() >= 7)
            && n@ == step.spec_name(),
        PluginError::EditorFailed => false,
    }
}

/// What the host holds when `step` is about to be taken, in the order it
/// was acquired.  The edit controller counts only where the plugin has one.
pub open spec fn held_before(step: HostStep, controller_held: bool) -> Seq<Resource> {
    let i = step.index();
    (if i > 0 {
        seq![Resource::Module]
    } else {
        Seq::empty()
    }) + (if i > 1 {
        seq![Resource::Factory]
    } else {
        Seq::empty()
    }) + (if i > 3 {
        seq![Resource::Component]
    } else {
        Seq::empty()
    }) + (if i > 5 {
        seq![Resource::Processor]
    } else {
        Seq::empty()
    }) + (if i > 6 && controller_held {
        seq![Resource::Controller]
    } else {
        Seq::empty()
    })
}

/// What the host holds of a plugin that is up, in the order it was
/// acquired; the editor view comes last, as it is created on demand.
pub open spec fn held_when_up(controller_held: bool, view_held: bool) -> Seq<Resource> {
    seq![Resource::Module, Resource::Factory, Resource::Component, Resource::Processor] + (
    if controller_held {
        seq![Resource::Controller]
    } else {
        Seq::empty()
    }) + (if view_held {
        seq![Resource::View]
    } else {
        Seq::empty()
    })
}

/// What to release, and in which order, when `failed` has failed: all that
/// was acquired before it, the latest first.
pub fn rollback(failed: HostStep, controller_held: bool) -> (r: Vec<Resource>)
    ensures
        r@ == held_before(failed, controller_held).reverse(),
{
    let mut out: Vec<Resource> = Vec::new();
    let at_controller: bool = match failed {
        HostStep::LoadModule => false,
        HostStep::GetFactory => false,
        HostStep::SelectClass => false,
        HostStep::CreateComponent => false,
        HostStep::Initialize => false,
        HostStep::QueryProcessor => false,
        HostStep::QueryController => false,
        _ => true,
    };
    let at_processor: bool = at_controller || failed == HostStep::QueryController;
    let at_component: bool = at_processor || failed == HostStep::QueryProcessor || failed
        == HostStep::Initialize;
    let at_factory: bool = at_component || failed == HostStep::CreateComponent || failed
        == HostStep::SelectClass;
    let at_module: bool = at_factory || failed == HostStep::GetFactory;
    if at_controller && controller_held {
        out.push(Resource::Controller);
    }
    if at_processor {
        out.push(Resource::Processor);
    }
    if at_component {
        out.push(Resource::Component);
    }
    if at_factory {
        out.push(Resource::Factory);
    }
    if at_module {
        out.push(Resource::Module);
    }
    assert(out@ =~= held_before(failed, controller_held).reverse());
    out
}

/// What to release, and in which order, when a plugin that is up is taken
/// down, after processing was stopped and the component deactivated: all
/// that is held, the latest first, the library last.
pub fn teardown(controller_held: bool, view_held: bool) -> (r: Vec<Resource>)
    ensures
        r@ == held_when_up(controller_held, view_held).reverse(),
{
    let mut out: Vec<Resource> = Vec::new();
    if view_held {
        out.push(Resource::View);
    }
    if controller_held {
        out.push(Resource::Controller);
    }
    out.push(Resource::Processor);
    out.push(Resource::Component);
    out.push(Resource::Factory);
    out.push(Resource::Module);
    assert(out@ =~= held_when_up(controller_held, view_held).reverse());
    out
}

/// The steps are taken in one fixed order: two steps at the same position
/// are the same step.
pub proof fn lemma_step_order(a: HostStep, b: HostStep)
    ensures
        0 <= a.index() <= 13,
        a.index() == b.index() <==> a == b,
{
}

/// Whatever is released after a failure or at teardown, the library goes
/// last: its code stays mapped while everything else is released.  And what
/// is held grows step by step, so a later failure releases all that an
/// earlier one would.
pub proof fn lemma_module_released_last(step: HostStep, controller_held: bool, view_held: bool)
    ensures
        step.index() > 0 ==> held_before(step, controller_held).reverse().last()
            == Resource::Module,
        held_when_up(controller_held, view_held).reverse().last() == Resource::Module,
        forall|later: HostStep|
            step.index() <= later.index() ==> held_before(step, controller_held).is_prefix_of(
                #[trigger] held_before(later, controller_held),
            ),
{
    assert(held_before(step, controller_held).len() > 0 ==> held_before(
        step,
        controller_held,
    )[0] == Resource::Module);
    assert(held_when_up(controller_held, view_held)[0] == Resource::Module);
}

/// Every resource is acquired by exactly the step that precedes its being
/// held: what is held before the step after `step` is what was held before
/// `step`, and what `step` acquires.
pub proof fn lemma_held_grows_by_acquisition(step: HostStep, next: HostStep, controller_held: bool)
    requires
        next.index() == step.index() + 1,
    ensures
        held_before(next, controller_held) == match step.spec_acquires() {
            Some(Resource::Controller) => if controller_held {
                held_before(step, controller_held).push(Resource::Controller)
            } else {
                held_before(step, controller_held)
            },
            Some(r) => held_before(step, controller_held).push(r),
            None => held_before(step, controller_held),
        },
{
    assert(held_before(next, controller_held) =~= match step.spec_acquires() {
        Some(Resource::Controller) => if controller_held {
            held_before(step, controller_held).push(Resource::Controller)
        } else {
            held_before(step, controller_held)
        },
        Some(r) => held_before(step, controller_held).push(r),
        None => held_before(step, controller_held),
    });
}

/// The number of 16-bit units of the buffer in which a plugin receives the
/// host's name.
pub const NAME_UNITS: usize = 128;

/// The UTF-16 units of one character: itself below the supplementary
/// planes, a surrogate pair above.
pub open spec fn units_of(c: char) -> Seq<u16> {
    let v = c as u32 as int;
    if v < 0x10000 {
        seq![v as u16]
    } else {
        seq![(0xD800 + (v - 0x10000) / 0x400) as u16, (0xDC00 + (v - 0x10000) % 0x400) as u16]
    }
}

/// The UTF-16 units of a text.
pub open spec fn utf16(s: Seq<char>) -> Seq<u16>
    decreases s.len(),
{
    if s.len() == 0 {
        Seq::empty()
    } else {
        utf16(s.drop_last()) + units_of(s.last())
    }
}

/// The name buffer for a text: its leading UTF-16 units, as many as leave
/// room for a terminating zero, and zeros after them.
pub open spec fn name_buffer(name: Seq<char>) -> Seq<u16> {
    Seq::new(
        NAME_UNITS as nat,
        |i: int|
            if i < NAME_UNITS - 1 && i < utf16(name).len() {
                utf16(name)[i]
            } else {
                0u16
            },
    )
}

/// Fills the buffer in which a plugin receives the host's name.
pub fn host_name_buffer(name: &str) -> (r: Vec<u16>)
    ensures
        r@ == name_buffer(name@),
{
    let n: usize = name.unicode_len();
    let mut units: Vec<u16> = Vec::new();
    let mut i: usize = 0;
    assert(name@.take(0) =~= Seq::<char>::empty());
    while i < n && units.len() < NAME_UNITS
        invariant
            0 <= i <= n,
            n == name@.len(),
            units@ == utf16(name@.take(i as int)),
        decreases n - i,
    {
        let c: char = name.get_char(i);
        let v: u32 = c as u32;
        proof {
            assert(name@.take(i + 1).drop_last() =~= name@.take(i as int));
            assert(name@.take(i + 1).last() == c);
        }
        let ghost before = units@;
        if v < 0x10000 {
            units.push(v as u16);
            assert(units@ =~= before + units_of(c));
        } else {
            let high: u32 = 0xD800 + (v - 0x10000) / 0x400;
            let low: u32 = 0xDC00 + (v - 0x10000) % 0x400;
            units.push(high as u16);
            units.push(low as u16);
            assert(units@ =~= before + units_of(c));
        }
        i = i + 1;
    }
    proof {
        lemma_utf16_prefix(name@, i as int);
    }
    let mut out: Vec<u16> = Vec::new();
    let mut k: usize = 0;
    while k < NAME_UNITS
        invariant
            0 <= k <= NAME_UNITS,
            out@.len() == k,
            units@.is_prefix_of(utf16(name@)),
            units@.len() >= NAME_UNITS || units@ == utf16(name@),
            forall|j: int| 0 <= j < k ==> out@[j] == name_buffer(name@)[j],
        decreases NAME_UNITS - k,
    {
        let unit: u16 = if k < NAME_UNITS - 1 && k < units.len() {
            units[k]
        } else {
            0
        };
        out.push(unit);
        k = k + 1;
    }
    assert(out@ =~= name_buffer(name@));
    out
}

/// The units of a leading part of a text lead the units of the text.
pub proof fn lemma_utf16_prefix(s: Seq<char>, n: int)
    requires
        0 <= n <= s.len(),
    ensures
        utf16(s.take(n)).is_prefix_of(utf16(s)),
        n == s.len() ==> utf16(s.take(n)) == utf16(s),
    decreases s.len() - n,
{
    if n == s.len() {
        assert(s.take(n) =~= s);
    } else {
        lemma_utf16_prefix(s, n + 1);
        assert(s.take(n + 1).drop_last() =~= s.take(n));
    }
}

} // verus!
