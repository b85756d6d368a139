use amd_smi_lib::discovery::ProcessorType;
use amd_smi_lib::discovery::SocketInfo;
use amd_smi_lib::discovery::BDF;
use amd_smi_lib::enumerator::Enumerator;
use amd_smi_lib::enumerator::Payload;
use amd_smi_lib::enumerator::ProcessorQuery;
use amd_smi_lib::enumerator::Reply;
use amd_smi_lib::enumerator::Request;
use amd_smi_lib::enumerator::SocketQuery;
use amd_smi_lib::enumerator::Step;
use amd_smi_lib::enumerator::NAME_CAPACITY;
use amd_smi_lib::enumerator::UUID_CAPACITY;
use amd_smi_lib::error::AmdSmiError;
use amd_smi_lib::handles::ProcessorHandle;
use amd_smi_lib::handles::SocketHandle;
use amd_smi_lib::AmdSmi;
use amd_smi_lib::InitFlags;

#[derive(Clone)]
enum Device {
    Gpu {
        bdf: u64,
        uuid: &'static str,
        id: u16,
        revision: u16,
        vendor: &'static str,
        subsystem_id: u16,
        subsystem: &'static str,
    },
    Cpu { name: &'static str },
    Other(u32),
}

#[derive(Clone)]
struct Socket {
    name: &'static str,
    devices: Vec<Device>,
}

fn socket_handle(i: usize) -> SocketHandle {
    SocketHandle(0x1000 + i)
}

fn processor_handle(i: usize, j: usize) -> ProcessorHandle {
    ProcessorHandle(0x10_0000 + 0x100 * i + j)
}

fn buffer(text: &str, capacity: usize) -> Payload {
    let mut bytes = text.as_bytes().to_vec();
    bytes.resize(capacity, 0);
    Payload::Text(bytes)
}

fn ok(payload: Payload) -> Reply {
    Reply { status: 0, payload }
}

fn failure(status: u32) -> Reply {
    Reply { status, payload: Payload::Nothing }
}

/// What a well-behaved management library answers on a machine with these
/// sockets.
fn answer(sockets: &[Socket], request: Request) -> Reply {
    match request {
        Request::SocketCount => ok(Payload::Count(sockets.len() as u32)),
        Request::SocketHandles { count } => ok(Payload::Sockets {
            count,
            handles: (0..count as usize).map(socket_handle).collect(),
        }),
        Request::Socket { socket, query } => {
            let i = socket.0 - 0x1000;
            match query {
                SocketQuery::Name => ok(buffer(sockets[i].name, NAME_CAPACITY)),
                SocketQuery::ProcessorCount => ok(Payload::Count(sockets[i].devices.len() as u32)),
                SocketQuery::ProcessorHandles { count } => ok(Payload::Processors {
                    count,
                    handles: (0..count as usize).map(|j| processor_handle(i, j)).collect(),
                }),
            }
        }
        Request::Processor { processor, query } => {
            let i = (processor.0 - 0x10_0000) / 0x100;
            let j = (processor.0 - 0x10_0000) % 0x100;
            match (&sockets[i].devices[j], query) {
                (Device::Gpu { .. }, ProcessorQuery::Tag) => ok(Payload::Tag(1)),
                (Device::Cpu { .. }, ProcessorQuery::Tag) => ok(Payload::Tag(2)),
                (Device::Other(tag), ProcessorQuery::Tag) => ok(Payload::Tag(*tag)),
                (Device::Gpu { bdf, .. }, ProcessorQuery::GpuBdf) => ok(Payload::Address(*bdf)),
                (Device::Gpu { uuid, .. }, ProcessorQuery::GpuUuid) => {
                    ok(buffer(uuid, UUID_CAPACITY))
                }
                (Device::Gpu { id, .. }, ProcessorQuery::GpuId) => ok(Payload::Identifier(*id)),
                (Device::Gpu { revision, .. }, ProcessorQuery::GpuRevision) => {
                    ok(Payload::Identifier(*revision))
                }
                (Device::Gpu { vendor, .. }, ProcessorQuery::GpuVendorName) => {
                    ok(buffer(vendor, 64))
                }
                (Device::Gpu { subsystem_id, .. }, ProcessorQuery::GpuSubsystemId) => {
                    ok(Payload::Identifier(*subsystem_id))
                }
                (Device::Gpu { subsystem, .. }, ProcessorQuery::GpuSubsystemName) => {
                    ok(buffer(subsystem, 64))
                }
                (Device::Cpu { name }, ProcessorQuery::CpuName) => ok(buffer(name, NAME_CAPACITY)),
                _ => failure(2),
            }
        }
    }
}

/// Runs an enumeration against `host` and returns how it ended, with the
/// requests that were made.
fn enumerate_from(
    mut enumerator: Enumerator,
    host: &dyn Fn(Request) -> Reply,
) -> (Result<Vec<SocketInfo>, AmdSmiError>, Vec<Request>) {
    let mut asked = Vec::new();
    loop {
        let request = enumerator.request();
        asked.push(request);
        assert!(asked.len() < 10_000);
        match enumerator.advance(host(request)) {
            Step::Ask(next) => enumerator = next,
            Step::Done(sockets) => return (Ok(sockets), asked),
            Step::Failed(e) => return (Err(e), asked),
        }
    }
}

/// An enumeration at its start, out of a session for GPUs.
fn fresh() -> Enumerator {
    AmdSmi::init_gpu(0).ok().unwrap().get_sockets_info()
}

fn enumerate(
    host: &dyn Fn(Request) -> Reply,
) -> (Result<Vec<SocketInfo>, AmdSmiError>, Vec<Request>) {
    enumerate_from(fresh(), host)
}

fn gpu_a() -> Device {
    Device::Gpu {
        bdf: 0x0000_0000_0000_c100,
        uuid: "c0ff74a0-0000-1000-80fd-5d7ab1a3d1f8",
        id: 0x74a0,
        revision: 0x00c1,
        vendor: "Advanced Micro Devices Inc. [AMD/ATI]",
        subsystem_id: 0x74a0,
        subsystem: " Instinct MI300A ",
    }
}

fn gpu_b() -> Device {
    Device::Gpu {
        bdf: 0x0000_0000_0001_03ff,
        uuid: "a1ff740f-0000-1000-80e9-b9a7ab3f5d4c",
        id: 0x740f,
        revision: 2,
        vendor: "AMD",
        subsystem_id: 0x0c34,
        subsystem: "",
    }
}

fn expected_gpu_a() -> ProcessorType {
    ProcessorType::AmdGpu {
        bdf: BDF { function_number: 0, device_number: 0, bus_number: 0xc1, domain_number: 0 },
        uuid: String::from("c0ff74a0-0000-1000-80fd-5d7ab1a3d1f8"),
        id: 0x74a0,
        revision: 0x00c1,
        vendor_name: String::from("Advanced Micro Devices Inc. [AMD/ATI]"),
        subsystem_id: 0x74a0,
        subsystem_name: String::from("Instinct MI300A"),
    }
}

fn expected_gpu_b() -> ProcessorType {
    ProcessorType::AmdGpu {
        bdf: BDF { function_number: 7, device_number: 31, bus_number: 3, domain_number: 1 },
        uuid: String::from("a1ff740f-0000-1000-80e9-b9a7ab3f5d4c"),
        id: 0x740f,
        revision: 2,
        vendor_name: String::from("AMD"),
        subsystem_id: 0x0c34,
        subsystem_name: String::new(),
    }
}

fn machine() -> Vec<Socket> {
    vec![
        Socket { name: "0000:c1:00", devices: vec![gpu_a()] },
        Socket { name: "", devices: vec![] },
        Socket {
            name: " cpu0 ",
            devices: vec![
                Device::Cpu { name: "AMD EPYC 9654" },
                Device::Other(5),
                Device::Other(5),
                Device::Other(0),
            ],
        },
        Socket {
            name: "mixed",
            devices: vec![Device::Other(3), gpu_b(), Device::Other(4), Device::Other(6), gpu_a()],
        },
    ]
}

#[test]
fn enumeration_of_a_machine() {
    let sockets = machine();
    let (result, _) = enumerate(&|request| answer(&sockets, request));
    let expected = vec![
        SocketInfo { name: String::from("0000:c1:00"), processors: vec![expected_gpu_a()] },
        SocketInfo { name: String::new(), processors: vec![] },
        SocketInfo {
            name: String::from("cpu0"),
            processors: vec![
                ProcessorType::AmdCpu { name: String::from("AMD EPYC 9654") },
                ProcessorType::AmdCpuCore,
                ProcessorType::AmdCpuCore,
                ProcessorType::Unknown,
            ],
        },
        SocketInfo {
            name: String::from("mixed"),
            processors: vec![
                ProcessorType::NonAmdGpu,
                expected_gpu_b(),
                ProcessorType::NonAmdCpu,
                ProcessorType::AmdApu,
                expected_gpu_a(),
            ],
        },
    ];
    assert_eq!(result, Ok(expected));
}

#[test]
fn requests_come_in_the_order_of_discovery() {
    let sockets = vec![
        Socket { name: "s0", devices: vec![gpu_b(), Device::Cpu { name: "c" }] },
        Socket { name: "s1", devices: vec![Device::Other(6)] },
    ];
    let (result, asked) = enumerate(&|request| answer(&sockets, request));
    assert!(result.is_ok());
    let s0 = socket_handle(0);
    let s1 = socket_handle(1);
    let p00 = processor_handle(0, 0);
    let p01 = processor_handle(0, 1);
    let p10 = processor_handle(1, 0);
    let expected = vec![
        Request::SocketCount,
        Request::SocketHandles { count: 2 },
        Request::Socket { socket: s0, query: SocketQuery::Name },
        Request::Socket { socket: s0, query: SocketQuery::ProcessorCount },
        Request::Socket { socket: s0, query: SocketQuery::ProcessorHandles { count: 2 } },
        Request::Processor { processor: p00, query: ProcessorQuery::Tag },
        Request::Processor { processor: p00, query: ProcessorQuery::GpuBdf },
        Request::Processor { processor: p00, query: ProcessorQuery::GpuUuid },
        Request::Processor { processor: p00, query: ProcessorQuery::GpuId },
        Request::Processor { processor: p00, query: ProcessorQuery::GpuRevision },
        Request::Processor { processor: p00, query: ProcessorQuery::GpuVendorName },
        Request::Processor { processor: p00, query: ProcessorQuery::GpuSubsystemId },
        Request::Processor { processor: p00, query: ProcessorQuery::GpuSubsystemName },
        Request::Processor { processor: p01, query: ProcessorQuery::Tag },
        Request::Processor { processor: p01, query: ProcessorQuery::CpuName },
        Request::Socket { socket: s1, query: SocketQuery::Name },
        Request::Socket { socket: s1, query: SocketQuery::ProcessorCount },
        Request::Socket { socket: s1, query: SocketQuery::ProcessorHandles { count: 1 } },
        Request::Processor { processor: p10, query: ProcessorQuery::Tag },
    ];
    assert_eq!(asked, expected);
}

#[test]
fn no_sockets_give_an_empty_list() {
    let (result, asked) = enumerate(&|request| answer(&[], request));
    assert_eq!(result, Ok(vec![]));
    assert_eq!(asked, vec![Request::SocketCount, Request::SocketHandles { count: 0 }]);
}

#[test]
fn the_reported_count_sizes_the_second_call() {
    for n in [0u32, 1, 2, 7, 300] {
        let step = fresh().advance(ok(Payload::Count(n)));
        match step {
            Step::Ask(next) => assert_eq!(next.request(), Request::SocketHandles { count: n }),
            _ => panic!("the enumeration ended after the count"),
        }
    }
    let sockets: Vec<Socket> = (0..7).map(|_| Socket { name: "s", devices: vec![] }).collect();
    let (result, _) = enumerate(&|request| answer(&sockets, request));
    assert_eq!(result.unwrap().len(), 7);
}

#[test]
fn more_or_fewer_handles_than_reported_are_refused() {
    let sockets = vec![Socket { name: "s", devices: vec![] }; 2];
    let more = |request: Request| match request {
        Request::SocketHandles { count } => ok(Payload::Sockets {
            count: count + 1,
            handles: (0..count as usize).map(socket_handle).collect(),
        }),
        other => answer(&sockets, other),
    };
    assert_eq!(enumerate(&more).0, Err(AmdSmiError::AmdsmiStatusUnexpectedSize));
    let fewer = |request: Request| match request {
        Request::SocketHandles { count } => ok(Payload::Sockets {
            count: count - 1,
            handles: (0..count as usize).map(socket_handle).collect(),
        }),
        other => answer(&sockets, other),
    };
    assert_eq!(enumerate(&fewer).0, Err(AmdSmiError::AmdsmiStatusUnexpectedSize));
    let longer = |request: Request| match request {
        Request::SocketHandles { count } => ok(Payload::Sockets {
            count,
            handles: (0..count as usize + 1).map(socket_handle).collect(),
        }),
        other => answer(&sockets, other),
    };
    assert_eq!(enumerate(&longer).0, Err(AmdSmiError::AmdsmiStatusUnexpectedSize));
    let shorter = |request: Request| match request {
        Request::SocketHandles { count } => ok(Payload::Sockets {
            count,
            handles: (0..count as usize - 1).map(socket_handle).collect(),
        }),
        other => answer(&sockets, other),
    };
    assert_eq!(enumerate(&shorter).0, Err(AmdSmiError::AmdsmiStatusUnexpectedSize));
}

#[test]
fn more_processors_than_reported_are_refused() {
    let sockets = vec![Socket { name: "s", devices: vec![Device::Other(0), Device::Other(3)] }];
    let host = |request: Request| match request {
        Request::Socket { query: SocketQuery::ProcessorHandles { count }, .. } => {
            ok(Payload::Processors {
                count: count + 3,
                handles: (0..count as usize).map(|j| processor_handle(0, j)).collect(),
            })
        }
        other => answer(&sockets, other),
    };
    let (result, asked) = enumerate(&host);
    assert_eq!(result, Err(AmdSmiError::AmdsmiStatusUnexpectedSize));
    assert_eq!(
        asked.last(),
        Some(&Request::Socket {
            socket: socket_handle(0),
            query: SocketQuery::ProcessorHandles { count: 2 }
        })
    );
}

#[test]
fn a_socket_without_processors() {
    let sockets = vec![Socket { name: "bare", devices: vec![] }];
    let (result, asked) = enumerate(&|request| answer(&sockets, request));
    assert_eq!(result, Ok(vec![SocketInfo { name: String::from("bare"), processors: vec![] }]));
    assert_eq!(asked.len(), 5);
}

#[test]
fn tag_seven_ends_the_enumeration() {
    let sockets = vec![Socket { name: "s", devices: vec![Device::Other(0), Device::Other(7)] }];
    let (result, asked) = enumerate(&|request| answer(&sockets, request));
    assert_eq!(result, Err(AmdSmiError::AmdsmiStatusUnexpectedData));
    assert_eq!(
        asked.last(),
        Some(&Request::Processor { processor: processor_handle(0, 1), query: ProcessorQuery::Tag })
    );
}

#[test]
fn every_failure_ends_the_enumeration_at_once() {
    let sockets = machine();
    let (_, all) = enumerate(&|request| answer(&sockets, request));
    assert_eq!(all.len(), 2 + 4 * 3 + 8 + 5 + 19);
    for (k, failing) in all.iter().enumerate() {
        if all[..k].contains(failing) {
            continue;
        }
        let host = |request: Request| {
            if request == *failing {
                failure(12)
            } else {
                answer(&sockets, request)
            }
        };
        let (result, asked) = enumerate(&host);
        assert_eq!(result, Err(AmdSmiError::AmdsmiStatusIo), "request {}", k);
        assert_eq!(asked, all[..=k].to_vec(), "request {}", k);
    }
}

#[test]
fn a_failing_uuid_abandons_the_processor() {
    let sockets = vec![Socket { name: "s", devices: vec![gpu_a()] }];
    let host = |request: Request| match request {
        Request::Processor { query: ProcessorQuery::GpuUuid, .. } => failure(2),
        other => answer(&sockets, other),
    };
    let (result, asked) = enumerate(&host);
    assert_eq!(result, Err(AmdSmiError::AmdsmiStatusNotSupported));
    assert_eq!(
        asked[asked.len() - 2..],
        [
            Request::Processor { processor: processor_handle(0, 0), query: ProcessorQuery::GpuBdf },
            Request::Processor { processor: processor_handle(0, 0), query: ProcessorQuery::GpuUuid },
        ]
    );
}

#[test]
fn a_failing_tag_ends_the_enumeration() {
    let sockets = vec![Socket { name: "s", devices: vec![Device::Other(0)] }];
    let host = |request: Request| match request {
        Request::Processor { query: ProcessorQuery::Tag, .. } => {
            Reply { status: 31, payload: Payload::Tag(0) }
        }
        other => answer(&sockets, other),
    };
    assert_eq!(enumerate(&host).0, Err(AmdSmiError::AmdsmiStatusNotFound));
}

#[test]
fn the_status_counts_whatever_was_written() {
    let step = fresh().advance(Reply { status: 32, payload: Payload::Count(3) });
    assert!(matches!(step, Step::Failed(AmdSmiError::AmdsmiStatusNotInit)));
    let step = fresh().advance(Reply { status: 99, payload: Payload::Count(3) });
    assert!(matches!(step, Step::Failed(AmdSmiError::AmdsmiStatusUnknownError)));
}

#[test]
fn an_answer_of_another_shape_is_unexpected_data() {
    let step = fresh().advance(ok(Payload::Tag(1)));
    assert!(matches!(step, Step::Failed(AmdSmiError::AmdsmiStatusUnexpectedData)));
    let step = fresh().advance(ok(Payload::Nothing));
    assert!(matches!(step, Step::Failed(AmdSmiError::AmdsmiStatusUnexpectedData)));

    let sockets = machine();
    let (_, all) = enumerate(&|request| answer(&sockets, request));
    for (k, odd) in all.iter().enumerate() {
        if all[..k].contains(odd) {
            continue;
        }
        let host = |request: Request| {
            if request == *odd {
                match request {
                    Request::SocketCount => ok(Payload::Identifier(1)),
                    Request::Socket { query: SocketQuery::ProcessorCount, .. } => {
                        ok(Payload::Tag(1))
                    }
                    _ => ok(Payload::Count(1)),
                }
            } else {
                answer(&sockets, request)
            }
        };
        let (result, asked) = enumerate(&host);
        assert_eq!(result, Err(AmdSmiError::AmdsmiStatusUnexpectedData), "request {}", k);
        assert_eq!(asked.len(), k + 1);
    }
}

#[test]
fn an_identifier_where_a_text_is_asked_is_unexpected_data() {
    let sockets = vec![Socket { name: "s", devices: vec![gpu_a()] }];
    let host = |request: Request| match request {
        Request::Processor { query: ProcessorQuery::GpuVendorName, .. } => {
            ok(Payload::Identifier(7))
        }
        other => answer(&sockets, other),
    };
    assert_eq!(enumerate(&host).0, Err(AmdSmiError::AmdsmiStatusUnexpectedData));
    let host = |request: Request| match request {
        Request::Processor { query: ProcessorQuery::GpuRevision, .. } => ok(buffer("x", 8)),
        other => answer(&sockets, other),
    };
    assert_eq!(enumerate(&host).0, Err(AmdSmiError::AmdsmiStatusUnexpectedData));
}

#[test]
fn a_name_that_is_not_text_ends_the_enumeration() {
    let sockets = machine();
    let host = |request: Request| match request {
        Request::Socket { query: SocketQuery::Name, socket } if socket == socket_handle(1) => {
            ok(Payload::Text(vec![b'a', 0xff, 0, 0]))
        }
        other => answer(&sockets, other),
    };
    let (result, asked) = enumerate(&host);
    assert_eq!(result, Err(AmdSmiError::AmdsmiStatusUnexpectedData));
    assert_eq!(
        asked.last(),
        Some(&Request::Socket { socket: socket_handle(1), query: SocketQuery::Name })
    );
    let host = |request: Request| match request {
        Request::Processor { query: ProcessorQuery::GpuSubsystemName, .. } => {
            ok(Payload::Text(vec![0xc3, 0x28]))
        }
        other => answer(&sockets, other),
    };
    assert_eq!(enumerate(&host).0, Err(AmdSmiError::AmdsmiStatusUnexpectedData));
}

#[test]
fn gpu_addresses_fit_their_fields() {
    let session = AmdSmi::init_gpu(0);
    let mut session = session.ok().unwrap();
    let sockets: Vec<Socket> = [0u64, u64::MAX, 0x1234_5678_9abc_def0, 0xffff, 0x8000_0000_0000_0007]
        .iter()
        .map(|raw| Socket {
            name: "gpu",
            devices: vec![Device::Gpu {
                bdf: *raw,
                uuid: "u",
                id: 0,
                revision: 0,
                vendor: "v",
                subsystem_id: 0,
                subsystem: "s",
            }],
        })
        .collect();
    let (result, _) =
        enumerate_from(session.get_sockets_info(), &|request| answer(&sockets, request));
    let found = result.unwrap();
    assert_eq!(found.len(), 5);
    for socket in found {
        for processor in socket.processors {
            match processor {
                ProcessorType::AmdGpu { bdf, .. } => {
                    assert!(bdf.function_number < 8);
                    assert!(bdf.device_number < 32);
                    assert!(bdf.bus_number < 256);
                }
                _ => panic!("a GPU was expected"),
            }
        }
    }
    assert_eq!(session.mode(), InitFlags::gpu());
}

#[test]
fn gpu_identifiers_are_kept_apart() {
    let sockets = vec![Socket {
        name: "s",
        devices: vec![Device::Gpu {
            bdf: (5 << 16) | (4 << 8) | (3 << 3) | 2,
            uuid: "uuid",
            id: 11,
            revision: 22,
            vendor: "vendor",
            subsystem_id: 33,
            subsystem: "subsystem",
        }],
    }];
    let (result, _) = enumerate(&|request| answer(&sockets, request));
    assert_eq!(
        result.unwrap()[0].processors,
        vec![ProcessorType::AmdGpu {
            bdf: BDF { function_number: 2, device_number: 3, bus_number: 4, domain_number: 5 },
            uuid: String::from("uuid"),
            id: 11,
            revision: 22,
            vendor_name: String::from("vendor"),
            subsystem_id: 33,
            subsystem_name: String::from("subsystem"),
        }]
    );
}

/// The sockets that a session opened for `flags` sees on a machine.
fn visible(sockets: &[Socket], flags: InitFlags) -> Vec<Socket> {
    sockets
        .iter()
        .filter(|socket| match socket.devices.first() {
            Some(Device::Gpu { .. }) => flags.contains(InitFlags::gpu()),
            Some(Device::Cpu { .. }) => flags.contains(InitFlags::cpu()),
            _ => false,
        })
        .cloned()
        .collect()
}

fn open(flags: InitFlags) -> Result<(AmdSmi, Vec<Socket>), AmdSmiError> {
    let sockets = vec![
        Socket { name: "gpu0", devices: vec![gpu_a()] },
        Socket { name: "cpu0", devices: vec![Device::Cpu { name: "c0" }, Device::Other(5)] },
        Socket { name: "gpu1", devices: vec![gpu_b()] },
    ];
    let session = AmdSmi::with_flags(flags, 0)?;
    let seen = visible(&sockets, session.mode());
    Ok((session, seen))
}

fn sockets_info(session: &mut AmdSmi, seen: &[Socket]) -> Result<Vec<SocketInfo>, AmdSmiError> {
    enumerate_from(session.get_sockets_info(), &|request| answer(seen, request)).0
}

#[test]
fn test_discovery() -> Result<(), AmdSmiError> {
    let cpu_count = {
        let (mut amdsmi, seen) = open(InitFlags::cpu())?;
        sockets_info(&mut amdsmi, &seen)?.len()
    };

    let gpu_count = {
        let (mut amdsmi, seen) = open(InitFlags::gpu())?;
        sockets_info(&mut amdsmi, &seen)?.len()
    };

    let total = {
        let (mut amdsmi, seen) = open(InitFlags::all())?;
        sockets_info(&mut amdsmi, &seen)?
    };

    println!("{:?}", total);

    assert_eq!(total.len(), cpu_count + gpu_count);
    Ok(())
}
