//! Hardware vendors and the framework components that a generated project depends on.

use vstd::prelude::*;

verus! {

/// A hardware vendor that generated projects can target.
#[derive(Clone, Copy, Debug, PartialEq, Eq, Hash, Structural)]
pub enum Vendor {
    St,
    Nrf,
    Rp,
}

/// The framework components that generated projects may depend on.
#[derive(Clone, Copy, Debug, PartialEq, Eq, Hash, Structural)]
pub enum EmbassyCrates {
    Executor,
    Futures,
    Lora,
    Nrf,
    Rp,
    Stm32Wpan,
    Stm32,
    Sync,
    Time,
}

/// The name under which a vendor is listed in the supported-hardware table.
pub open spec fn vendor_name(v: Vendor) -> Seq<char> {
    match v {
        Vendor::St => "ST"@,
        Vendor::Nrf => "Nordic"@,
        Vendor::Rp => "Raspberry"@,
    }
}

/// The package name of a component.
pub open spec fn component_name(c: EmbassyCrates) -> Seq<char> {
    match c {
        EmbassyCrates::Executor => "embassy-executor"@,
        EmbassyCrates::Futures => "embassy-futures"@,
        EmbassyCrates::Lora => "embassy-lora"@,
        EmbassyCrates::Nrf => "embassy-nrf"@,
        EmbassyCrates::Rp => "embassy-rp"@,
        EmbassyCrates::Stm32Wpan => "embassy-stm32-wpan"@,
        EmbassyCrates::Stm32 => "embassy-stm32"@,
        EmbassyCrates::Sync => "embassy-sync"@,
        EmbassyCrates::Time => "embassy-time"@,
    }
}

/// The hardware-support component for a vendor.
pub open spec fn vendor_component(v: Vendor) -> EmbassyCrates {
    match v {
        Vendor::St => EmbassyCrates::Stm32,
        Vendor::Nrf => EmbassyCrates::Nrf,
        Vendor::Rp => EmbassyCrates::Rp,
    }
}

/// The components every generated project depends on, whatever its vendor.
pub open spec fn default_components() -> Seq<EmbassyCrates> {
    seq![EmbassyCrates::Executor, EmbassyCrates::Time, EmbassyCrates::Sync, EmbassyCrates::Futures]
}

/// All components a project for vendor `v` depends on: the defaults, then the
/// vendor's own.
pub open spec fn required_components_of(v: Vendor) -> Seq<EmbassyCrates> {
    default_components().push(vendor_component(v))
}

impl Vendor {
    /// The name under which this vendor is listed in the supported-hardware table.
    pub fn name(&self) -> (r: &'static str)
        ensures
            r@ == vendor_name(*self),
    {
        match self {
            Vendor::St => "ST",
            Vendor::Nrf => "Nordic",
            Vendor::Rp => "Raspberry",
        }
    }
}

impl EmbassyCrates {
    /// The package name of this component.
    pub fn name(&self) -> (r: &'static str)
        ensures
            r@ == component_name(*self),
    {
        match self {
            EmbassyCrates::Executor => "embassy-executor",
            EmbassyCrates::Futures => "embassy-futures",
            EmbassyCrates::Lora => "embassy-lora",
            EmbassyCrates::Nrf => "embassy-nrf",
            EmbassyCrates::Rp => "embassy-rp",
            EmbassyCrates::Stm32Wpan => "embassy-stm32-wpan",
            EmbassyCrates::Stm32 => "embassy-stm32",
            EmbassyCrates::Sync => "embassy-sync",
            EmbassyCrates::Time => "embassy-time",
        }
    }

    /// The components every generated project depends on.
    pub fn default_crates() -> (r: Vec<Self>)
        ensures
            r@ == default_components(),
    {
        vec![EmbassyCrates::Executor, EmbassyCrates::Time, EmbassyCrates::Sync, EmbassyCrates::Futures]
    }
}

/// The package name of the hardware-support component for a vendor.
pub fn vendor_to_crate(vendor: Vendor) -> (r: &'static str)
    ensures
        r@ == component_name(vendor_component(vendor)),
{
    match vendor {
        Vendor::St => "embassy-stm32",
        Vendor::Nrf => "embassy-nrf",
        Vendor::Rp => "embassy-rp",
    }
}

/// The components whose versions a project for `vendor` needs, in the order
/// they are resolved: the defaults, then the vendor's own.
pub fn required_components(vendor: Vendor) -> (r: Vec<EmbassyCrates>)
    ensures
        r@ == required_components_of(vendor),
{
    let mut r = EmbassyCrates::default_crates();
    let own = match vendor {
        Vendor::St => EmbassyCrates::Stm32,
        Vendor::Nrf => EmbassyCrates::Nrf,
        Vendor::Rp => EmbassyCrates::Rp,
    };
    r.push(own);
    r
}

} // verus!
