use amd_smi_lib::discovery::ProcessorClass;
use amd_smi_lib::discovery::ProcessorType;
use amd_smi_lib::discovery::SocketInfo;
use amd_smi_lib::discovery::VirtualizationMode;
use amd_smi_lib::discovery::BDF;
use amd_smi_lib::error::AmdSmiError;

#[test]
fn bdf_fields_of_a_packed_value() {
    // domain 0x0001, bus 0x03, device 0x1f, function 0x7
    let bdf = BDF::from_raw(0x0000_0000_0001_03ff);
    assert_eq!(bdf.function_number, 7);
    assert_eq!(bdf.device_number, 31);
    assert_eq!(bdf.bus_number, 3);
    assert_eq!(bdf.domain_number, 1);

    let bdf = BDF::from_raw(0x0000_0000_0000_c100);
    assert_eq!(
        bdf,
        BDF { function_number: 0, device_number: 0, bus_number: 0xc1, domain_number: 0 }
    );

    let bdf = BDF::from_raw(0b1010_1010_0101_1011);
    assert_eq!(bdf.function_number, 0b011);
    assert_eq!(bdf.device_number, 0b01011);
    assert_eq!(bdf.bus_number, 0b1010_1010);
    assert_eq!(bdf.domain_number, 0);
}

#[test]
fn bdf_of_zero_and_of_all_ones() {
    assert_eq!(
        BDF::from_raw(0),
        BDF { function_number: 0, device_number: 0, bus_number: 0, domain_number: 0 }
    );
    assert_eq!(
        BDF::from_raw(u64::MAX),
        BDF {
            function_number: 7,
            device_number: 31,
            bus_number: 255,
            domain_number: 0xFFFF_FFFF_FFFF,
        }
    );
}

#[test]
fn bdf_round_trip() {
    let mut v: u64 = 0x9E37_79B9_7F4A_7C15;
    for _ in 0..10_000 {
        v = v.wrapping_mul(6364136223846793005).wrapping_add(1442695040888963407);
        let bdf = BDF::from_raw(v);
        let rebuilt = (bdf.domain_number << 16)
            | (bdf.bus_number << 8)
            | (bdf.device_number << 3)
            | bdf.function_number;
        assert_eq!(rebuilt, v);
        assert_eq!(bdf.to_raw(), v);
        assert_eq!(BDF::from_raw(bdf.to_raw()), bdf);
    }
}

#[test]
fn bdf_fields_fit_their_widths() {
    for v in [0u64, 1, 7, 8, 0xff, 0x100, 0xffff, 0x10000, u64::MAX, 0x8000_0000_0000_0000] {
        let bdf = BDF::from_raw(v);
        assert!(bdf.function_number < 8);
        assert!(bdf.device_number < 32);
        assert!(bdf.bus_number < 256);
        assert!(bdf.domain_number < (1u64 << 48));
    }
}

#[test]
fn bdf_packs_its_fields() {
    let bdf = BDF { function_number: 1, device_number: 2, bus_number: 3, domain_number: 4 };
    assert_eq!(bdf.to_raw(), (4 << 16) | (3 << 8) | (2 << 3) | 1);
}

#[test]
fn tags_zero_to_six_name_a_class() {
    assert_eq!(ProcessorClass::from_tag(0), Ok(ProcessorClass::Unknown));
    assert_eq!(ProcessorClass::from_tag(1), Ok(ProcessorClass::AmdGpu));
    assert_eq!(ProcessorClass::from_tag(2), Ok(ProcessorClass::AmdCpu));
    assert_eq!(ProcessorClass::from_tag(3), Ok(ProcessorClass::NonAmdGpu));
    assert_eq!(ProcessorClass::from_tag(4), Ok(ProcessorClass::NonAmdCpu));
    assert_eq!(ProcessorClass::from_tag(5), Ok(ProcessorClass::AmdCpuCore));
    assert_eq!(ProcessorClass::from_tag(6), Ok(ProcessorClass::AmdApu));
    for tag in 0u32..=6 {
        assert_eq!(ProcessorClass::from_tag(tag).unwrap().tag(), tag);
    }
}

#[test]
fn tag_seven_is_unexpected_data() {
    assert_eq!(ProcessorClass::from_tag(7), Err(AmdSmiError::AmdsmiStatusUnexpectedData));
    assert_ne!(ProcessorClass::from_tag(7), Ok(ProcessorClass::Unknown));
    assert_eq!(ProcessorClass::from_tag(8), Err(AmdSmiError::AmdsmiStatusUnexpectedData));
    assert_eq!(ProcessorClass::from_tag(u32::MAX), Err(AmdSmiError::AmdsmiStatusUnexpectedData));
}

#[test]
fn virtualization_mode_tags() {
    assert_eq!(VirtualizationMode::from_tag(0), Some(VirtualizationMode::Unknown));
    assert_eq!(VirtualizationMode::from_tag(1), Some(VirtualizationMode::BareMetal));
    assert_eq!(VirtualizationMode::from_tag(2), Some(VirtualizationMode::Host));
    assert_eq!(VirtualizationMode::from_tag(3), Some(VirtualizationMode::Guest));
    assert_eq!(VirtualizationMode::from_tag(4), Some(VirtualizationMode::PassThrough));
    assert_eq!(VirtualizationMode::from_tag(5), None);
    assert_eq!(VirtualizationMode::from_tag(u32::MAX), None);
    assert_eq!(VirtualizationMode::PassThrough.tag(), 4);
    assert_eq!(VirtualizationMode::Unknown.tag(), 0);
}

#[test]
fn class_of_a_processor() {
    let gpu = ProcessorType::AmdGpu {
        bdf: BDF::from_raw(0x0300),
        uuid: String::from("u"),
        id: 1,
        revision: 2,
        vendor_name: String::from("v"),
        subsystem_id: 3,
        subsystem_name: String::from("s"),
    };
    assert_eq!(gpu.class(), ProcessorClass::AmdGpu);
    assert_eq!(ProcessorType::AmdCpu { name: String::from("c") }.class(), ProcessorClass::AmdCpu);
    assert_eq!(ProcessorType::Unknown.class(), ProcessorClass::Unknown);
    assert_eq!(ProcessorType::NonAmdGpu.class(), ProcessorClass::NonAmdGpu);
    assert_eq!(ProcessorType::NonAmdCpu.class(), ProcessorClass::NonAmdCpu);
    assert_eq!(ProcessorType::AmdCpuCore.class(), ProcessorClass::AmdCpuCore);
    assert_eq!(ProcessorType::AmdApu.class(), ProcessorClass::AmdApu);
}

#[test]
fn socket_info_is_cloned_and_compared() {
    let socket = SocketInfo {
        name: String::from("socket"),
        processors: vec![ProcessorType::AmdApu, ProcessorType::Unknown],
    };
    let copy = socket.clone();
    assert_eq!(socket, copy);
    assert_eq!(copy.processors.len(), 2);
    assert_eq!(copy.name, "socket");
}
