use cargo_embassy::components::{required_components, vendor_to_crate, EmbassyCrates, Vendor};

#[test]
fn vendor_components() {
    assert_eq!(vendor_to_crate(Vendor::St), "embassy-stm32");
    assert_eq!(vendor_to_crate(Vendor::Nrf), "embassy-nrf");
    assert_eq!(vendor_to_crate(Vendor::Rp), "embassy-rp");
}

#[test]
fn vendor_names() {
    assert_eq!(Vendor::St.name(), "ST");
    assert_eq!(Vendor::Nrf.name(), "Nordic");
    assert_eq!(Vendor::Rp.name(), "Raspberry");
}

#[test]
fn component_names() {
    assert_eq!(EmbassyCrates::Executor.name(), "embassy-executor");
    assert_eq!(EmbassyCrates::Futures.name(), "embassy-futures");
    assert_eq!(EmbassyCrates::Lora.name(), "embassy-lora");
    assert_eq!(EmbassyCrates::Stm32Wpan.name(), "embassy-stm32-wpan");
    assert_eq!(EmbassyCrates::Time.name(), "embassy-time");
}

#[test]
fn default_and_required_components() {
    assert_eq!(
        EmbassyCrates::default_crates(),
        vec![EmbassyCrates::Executor, EmbassyCrates::Time, EmbassyCrates::Sync, EmbassyCrates::Futures]
    );
    assert_eq!(
        required_components(Vendor::Nrf),
        vec![
            EmbassyCrates::Executor,
            EmbassyCrates::Time,
            EmbassyCrates::Sync,
            EmbassyCrates::Futures,
            EmbassyCrates::Nrf
        ]
    );
}
