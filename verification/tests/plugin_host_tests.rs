use lyre_audio::engine::PluginError;
use lyre_audio::plugin_host::{
    host_name_buffer, rollback, select_effect_class, teardown, ClassInfo, HostStep, Resource,
};

fn class(category: &str, name: &str) -> ClassInfo {
    ClassInfo { cid: [0; 16], category: category.to_string(), name: name.to_string() }
}

fn all_steps() -> Vec<HostStep> {
    let mut steps = Vec::new();
    let mut step = Some(HostStep::first());
    while let Some(s) = step {
        steps.push(s);
        step = s.next();
    }
    steps
}

#[test]
fn first_audio_effect_class_is_chosen() {
    let classes = vec![
        class("Component Controller Class", "Controller"),
        class("Audio Module Class", "Reverb"),
        class("Audio Module Class", "Delay"),
    ];
    assert_eq!(select_effect_class(&classes), Some(1));
    let none = vec![class("Component Controller Class", "Controller"), class("audio module class", "x")];
    assert_eq!(select_effect_class(&none), None);
    assert_eq!(select_effect_class(&Vec::new()), None);
}

#[test]
fn steps_come_in_one_fixed_order() {
    assert_eq!(
        all_steps(),
        vec![
            HostStep::LoadModule,
            HostStep::GetFactory,
            HostStep::SelectClass,
            HostStep::CreateComponent,
            HostStep::Initialize,
            HostStep::QueryProcessor,
            HostStep::QueryController,
            HostStep::Connect,
            HostStep::SetBusArrangements,
            HostStep::ActivateInputBus,
            HostStep::ActivateOutputBus,
            HostStep::SetupProcessing,
            HostStep::SetActive,
            HostStep::SetProcessing,
        ]
    );
}

#[test]
fn optional_steps_do_not_end_a_load() {
    for step in all_steps() {
        let optional = step == HostStep::QueryController
            || step == HostStep::Connect
            || step == HostStep::SetProcessing;
        assert_eq!(step.required(), !optional);
    }
}

#[test]
fn failures_map_to_error_kinds() {
    let d = || "why".to_string();
    assert_eq!(HostStep::LoadModule.failure(d()), PluginError::LoadFailed(d()));
    assert_eq!(HostStep::GetFactory.failure(d()), PluginError::LoadFailed(d()));
    assert_eq!(HostStep::SelectClass.failure(d()), PluginError::LoadFailed(d()));
    assert_eq!(HostStep::CreateComponent.failure(d()), PluginError::InterfaceMissing(d()));
    assert_eq!(HostStep::QueryProcessor.failure(d()), PluginError::InterfaceMissing(d()));
    assert_eq!(
        HostStep::Initialize.failure(d()),
        PluginError::ActivationFailed("initialize".to_string())
    );
    assert_eq!(
        HostStep::SetBusArrangements.failure(d()),
        PluginError::ActivationFailed("set_bus_arrangements".to_string())
    );
    assert_eq!(
        HostStep::ActivateOutputBus.failure(d()),
        PluginError::ActivationFailed("activate_output_bus".to_string())
    );
    assert_eq!(
        HostStep::SetupProcessing.failure(d()),
        PluginError::ActivationFailed("setup_processing".to_string())
    );
    assert_eq!(
        HostStep::SetActive.failure(d()),
        PluginError::ActivationFailed("set_active".to_string())
    );
}

#[test]
fn rollback_releases_in_reverse_order_of_acquisition() {
    assert_eq!(rollback(HostStep::LoadModule, false), vec![]);
    assert_eq!(rollback(HostStep::GetFactory, false), vec![Resource::Module]);
    assert_eq!(rollback(HostStep::CreateComponent, false), vec![Resource::Factory, Resource::Module]);
    assert_eq!(
        rollback(HostStep::QueryProcessor, true),
        vec![Resource::Component, Resource::Factory, Resource::Module]
    );
    assert_eq!(
        rollback(HostStep::SetupProcessing, true),
        vec![
            Resource::Controller,
            Resource::Processor,
            Resource::Component,
            Resource::Factory,
            Resource::Module
        ]
    );
    assert_eq!(
        rollback(HostStep::SetupProcessing, false),
        vec![Resource::Processor, Resource::Component, Resource::Factory, Resource::Module]
    );
    let mut held: Vec<Resource> = Vec::new();
    for step in all_steps() {
        let mut expected = held.clone();
        expected.reverse();
        assert_eq!(rollback(step, true), expected);
        if let Some(r) = step.acquires() {
            held.push(r);
        }
    }
}

#[test]
fn teardown_releases_the_library_last() {
    assert_eq!(
        teardown(true, true),
        vec![
            Resource::View,
            Resource::Controller,
            Resource::Processor,
            Resource::Component,
            Resource::Factory,
            Resource::Module
        ]
    );
    assert_eq!(
        teardown(false, false),
        vec![Resource::Processor, Resource::Component, Resource::Factory, Resource::Module]
    );
    assert_eq!(teardown(true, false).first(), Some(&Resource::Controller));
    assert_eq!(teardown(false, true).last(), Some(&Resource::Module));
}

#[test]
fn step_names() {
    assert_eq!(HostStep::LoadModule.name(), "load_module");
    assert_eq!(HostStep::Connect.name(), "connect");
    assert_eq!(HostStep::SetProcessing.name(), "set_processing");
}

#[test]
fn host_name_fills_a_zero_terminated_buffer() {
    let buffer = host_name_buffer("Lyre");
    assert_eq!(buffer.len(), 128);
    assert_eq!(&buffer[..5], &[76u16, 121, 114, 101, 0]);
    assert!(buffer[5..].iter().all(|u| *u == 0));
    let empty = host_name_buffer("");
    assert_eq!(empty, vec![0u16; 128]);
}

#[test]
fn host_name_uses_surrogate_pairs_and_is_cut_to_fit() {
    let buffer = host_name_buffer("a\u{1F3B5}\u{e9}");
    assert_eq!(&buffer[..5], &[0x61u16, 0xD83C, 0xDFB5, 0xE9, 0]);
    let long: String = "x".repeat(200);
    let buffer = host_name_buffer(&long);
    assert_eq!(buffer.len(), 128);
    assert!(buffer[..127].iter().all(|u| *u == 0x78));
    assert_eq!(buffer[127], 0);
    let mut odd: String = "y".repeat(126);
    odd.push('\u{1F3B5}');
    let buffer = host_name_buffer(&odd);
    assert_eq!(buffer[125], 0x79);
    assert_eq!(buffer[126], 0xD83C);
    assert_eq!(buffer[127], 0);
    let expected: Vec<u16> = "caf\u{e9} \u{1F3B5}".encode_utf16().collect();
    let buffer = host_name_buffer("caf\u{e9} \u{1F3B5}");
    assert_eq!(&buffer[..expected.len()], &expected[..]);
}
