use cargo_embassy::data::{Data, DataError, Flavor, Vendor};

fn table() -> Data {
    Data {
        vendors: vec![
            Vendor { name: "ST".to_string(), mcu_list: vec!["stm32f429zi".to_string(), "stm32g071rb".to_string()] },
            Vendor { name: "Nordic".to_string(), mcu_list: vec!["nrf52840".to_string()] },
        ],
        flavors: vec![
            Flavor { regex: "^stm32f4".to_string(), target: "thumbv7em-none-eabi".to_string() },
            Flavor { regex: "^stm32g0".to_string(), target: "thumbv6m-none-eabi".to_string() },
            Flavor { regex: "^nrf52".to_string(), target: "thumbv7em-none-eabihf".to_string() },
        ],
    }
}

#[test]
fn vendor_list_in_order() {
    assert_eq!(table().vendor_list(), vec!["ST".to_string(), "Nordic".to_string()]);
}

#[test]
fn mcu_list_of_vendor() {
    assert_eq!(table().mcu_list("Nordic"), Ok(vec!["nrf52840".to_string()]));
    assert_eq!(table().mcu_list("Raspberry"), Err(DataError::UnknownVendor));
}

#[test]
fn target_of_first_matching_family() {
    let d = table();
    assert_eq!(d.target("stm32g071rb"), Ok("thumbv6m-none-eabi".to_string()));
    assert_eq!(d.target("nrf52840"), Ok("thumbv7em-none-eabihf".to_string()));
    assert_eq!(d.target("rp2040"), Err(DataError::NoTarget));
}

#[test]
fn target_with_invalid_pattern() {
    let d = Data {
        vendors: vec![],
        flavors: vec![Flavor { regex: "(".to_string(), target: "t".to_string() }],
    };
    assert_eq!(d.target("x"), Err(DataError::InvalidPattern));
}

#[test]
fn validate_vendor_and_mcu() {
    let d = table();
    assert_eq!(d.validate("ST", "stm32f429zi"), Ok(()));
    assert_eq!(d.validate("Raspberry", "rp2040"), Err(DataError::InvalidVendor));
    assert_eq!(d.validate("ST", "nrf52840"), Err(DataError::InvalidMcu));
}
