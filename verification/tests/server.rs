//! A plugin against a kubelet that only exists in the test: the machines are driven as the
//! program drives them, over files and streams held in memory.
use std::collections::BTreeMap;

use kata_device_plugin::cdi::{cdi_spec, write_cdi_spec, WriteAction, WriteNumbers};
use kata_device_plugin::dp::{
    AllocateRequest, ContainerAllocateRequest, Device, RegisterRequest,
};
use kata_device_plugin::lifecycle::{RunAction, RunEvent, RunOutcome, ServerEnd};
use kata_device_plugin::plugin::{advertise, register_request, socket_name, DeviceServer};
use kata_device_plugin::plugin::{CDI_DIR, POLL_INTERVAL_SECS, SOCKET_DIR};
use kata_device_plugin::vfio::{resources, IommufdDev, Resource, SYSFS_DIR, VFIO_DIR};
use kata_device_plugin::watch::{Watch, WatchAction, WatchEvent};

fn resource(name: &str) -> Resource {
    *resources().iter().find(|r| r.name == name).unwrap()
}

fn dev(num: u32, vendor: u16, class: u32) -> IommufdDev {
    IommufdDev {
        path: format!("/dev/vfio/devices/vfio{num}"),
        num,
        vendor,
        class_prefix: (class >> 8) as u16,
    }
}

/// n GPU cdevs (vfio0..vfio(n-1)).
fn fake_vfio(n: u32) -> Vec<IommufdDev> {
    (0..n).map(|i| dev(i, 0x10de, 0x030200)).collect()
}

/// One server with its stream, and the files of the registry.
struct Node {
    server: DeviceServer,
    watch: Watch,
    cdi: BTreeMap<String, String>,
    numbers: WriteNumbers,
}

impl Node {
    fn start(name: &str) -> Node {
        Node {
            server: DeviceServer::new(resource(name), VFIO_DIR, SYSFS_DIR, SOCKET_DIR, "/cdi"),
            watch: Watch::new(),
            cdi: BTreeMap::new(),
            numbers: WriteNumbers::new(1),
        }
    }

    fn write(&mut self, devices: &[IommufdDev]) {
        let name = self.server.resource().name;
        let mut writer =
            write_cdi_spec(name, devices, self.server.cdi_dir(), &mut self.numbers)
                .unwrap()
                .unwrap();
        loop {
            match writer.action() {
                WriteAction::CreateDirAll { .. } => {}
                WriteAction::Write { path, contents } => {
                    self.cdi.insert(path, contents);
                }
                WriteAction::Rename { from, to } => {
                    let contents = self.cdi.remove(&from).unwrap();
                    self.cdi.insert(to, contents);
                }
                WriteAction::Remove { path } => {
                    self.cdi.remove(&path);
                }
                WriteAction::Finish(_) => return,
            }
            writer.advance(true);
        }
    }

    /// One round of the stream with this scan: the list that was sent, if one was.
    fn round(&mut self, scan: &[IommufdDev]) -> Option<Vec<Device>> {
        let mut sent = None;
        let mut event = WatchEvent::Slept;
        loop {
            event = match self.server.list_and_watch(&mut self.watch, event) {
                WatchAction::CheckStream => WatchEvent::StreamOpen,
                WatchAction::Scan => WatchEvent::Scanned(scan.to_vec()),
                WatchAction::RemoveSpec { path } => {
                    self.cdi.remove(&path);
                    WatchEvent::SpecHandled
                }
                WatchAction::WriteSpec { devices } => {
                    self.write(&devices);
                    WatchEvent::SpecHandled
                }
                WatchAction::Send { devices } => {
                    sent = Some(devices);
                    WatchEvent::Sent
                }
                WatchAction::Sleep { seconds } => {
                    assert_eq!(seconds, POLL_INTERVAL_SECS);
                    return sent;
                }
                WatchAction::Stop => panic!("the stream is open"),
            };
        }
    }

    fn spec(&self, file: &str) -> Option<&String> {
        self.cdi.get(&format!("/cdi/{file}"))
    }
}

fn registered(server: &DeviceServer) -> (String, RegisterRequest) {
    match server.run(RunEvent::Serving) {
        RunAction::Register { kubelet, request } => (kubelet, request),
        other => panic!("{other:?}"),
    }
}

#[test]
fn registers_with_kubelet_and_lists_devices() {
    let mut node = Node::start("nvidia.com/gpu");

    let (kubelet, reg) = registered(&node.server);
    assert_eq!(kubelet, "/var/lib/kubelet/device-plugins/kubelet.sock");
    assert_eq!(reg.resource_name, "nvidia.com/gpu");
    assert_eq!(reg.endpoint, "kata-gpu.sock");
    assert_eq!(reg.version, "v1beta1");

    let devices = node.round(&fake_vfio(4)).unwrap();
    assert_eq!(devices.len(), 4);

    // The stream stays open after the snapshot, and says nothing more.
    assert!(node.round(&fake_vfio(4)).is_none());

    // IDs are positions in the sorted enumeration — the same indices the CDI
    // spec maps to cdev paths.
    let mut ids: Vec<u32> = devices.iter().map(|d| d.id.parse().unwrap()).collect();
    ids.sort();
    assert_eq!(ids, vec![0, 1, 2, 3]);
    for d in &devices {
        assert_eq!(d.health, "Healthy");
    }
    assert!(
        node.spec("kata.nvidia.com-gpu.yaml").is_some(),
        "CDI spec not written"
    );
}

#[test]
fn allocate_returns_cdi_device_names() {
    let node = Node::start("nvidia.com/gpu");
    let resp = node.server.allocate(&AllocateRequest {
        container_requests: vec![ContainerAllocateRequest {
            devices_i_ds: vec!["0".to_owned(), "1".to_owned()],
        }],
    });

    assert_eq!(resp.container_responses.len(), 1);
    let cdi_names: Vec<&str> = resp.container_responses[0]
        .cdi_devices
        .iter()
        .map(|d| d.name.as_str())
        .collect();
    assert_eq!(cdi_names, vec!["nvidia.com/gpu=0", "nvidia.com/gpu=1"]);
    // No DeviceSpec — device injection is the Kata shim's job, resolving CDI
    // names against the host spec, not the kubelet's via device paths.
    assert!(resp.container_responses[0].devices.is_empty());
}

#[test]
fn allocate_answers_container_by_container() {
    let node = Node::start("nvidia.com/nvswitch");
    let resp = node.server.allocate(&AllocateRequest {
        container_requests: vec![
            ContainerAllocateRequest {
                devices_i_ds: vec!["2".to_owned()],
            },
            ContainerAllocateRequest {
                devices_i_ds: Vec::new(),
            },
        ],
    });
    assert_eq!(resp.container_responses.len(), 2);
    assert_eq!(
        resp.container_responses[0].cdi_devices[0].name,
        "nvidia.com/nvswitch=2"
    );
    assert!(resp.container_responses[1].cdi_devices.is_empty());
    let none = AllocateRequest {
        container_requests: Vec::new(),
    };
    assert!(node.server.allocate(&none).container_responses.is_empty());
}

#[test]
fn empty_vfio_dir_advertises_no_devices() {
    let mut node = Node::start("nvidia.com/gpu");
    let devices = node.round(&fake_vfio(0)).unwrap();
    assert_eq!(devices.len(), 0);
    assert!(node.spec("kata.nvidia.com-gpu.yaml").is_none());
}

#[test]
fn gpu_and_nvswitch_filtered_by_pci_class() {
    // A mixed node: 2 GPUs, 3 NVSwitches, and a VFIO-bound NIC that matches
    // no row of the table and must not be advertised anywhere.
    let mut scan = fake_vfio(2);
    for i in 2..5 {
        scan.push(dev(i, 0x10de, 0x068000));
    }
    scan.push(dev(5, 0x15b3, 0x020000));

    let mut gpus = Node::start("nvidia.com/gpu");
    let mut switches = Node::start("nvidia.com/nvswitch");
    assert_eq!(registered(&gpus.server).1.endpoint, "kata-gpu.sock");
    assert_eq!(registered(&switches.server).1.endpoint, "kata-nvswitch.sock");
    assert_eq!(gpus.round(&scan).unwrap().len(), 2);
    assert_eq!(switches.round(&scan).unwrap().len(), 3);

    // Each resource's CDI spec holds only its own devices.
    let gpu = gpus.spec("kata.nvidia.com-gpu.yaml").unwrap();
    let sw = switches.spec("kata.nvidia.com-nvswitch.yaml").unwrap();
    assert!(gpu.contains("devices/vfio0") && gpu.contains("devices/vfio1"));
    assert!(sw.contains("devices/vfio2") && sw.contains("devices/vfio4"));
    assert!(!gpu.contains("devices/vfio2") && !sw.contains("devices/vfio0"));
    // The NIC appears in neither.
    assert!(!gpu.contains("devices/vfio5") && !sw.contains("devices/vfio5"));
}

#[test]
fn a_swap_of_devices_rewrites_the_spec() {
    let mut node = Node::start("nvidia.com/gpu");
    node.round(&[dev(7, 0x10de, 0x030200)]).unwrap();
    assert!(node.spec("kata.nvidia.com-gpu.yaml").unwrap().contains("vfio7"));
    let devices = node.round(&[dev(9, 0x10de, 0x030200)]).unwrap();
    assert_eq!(devices.len(), 1);
    let spec = node.spec("kata.nvidia.com-gpu.yaml").unwrap();
    assert!(spec.contains("vfio9") && !spec.contains("vfio7"));
}

#[test]
fn the_last_device_takes_the_spec_with_it() {
    let mut node = Node::start("nvidia.com/gpu");
    node.round(&fake_vfio(1)).unwrap();
    assert_eq!(node.round(&[]), Some(Vec::new()));
    assert!(node.cdi.is_empty());
    assert_eq!(node.round(&[]), None);
}

#[test]
fn streams_end_when_the_kubelet_leaves() {
    let node = Node::start("nvidia.com/gpu");
    let mut watch = Watch::new();
    let started = node.server.list_and_watch(&mut watch, WatchEvent::Started);
    assert!(matches!(started, WatchAction::CheckStream));
    let closed = node.server.list_and_watch(&mut watch, WatchEvent::StreamClosed);
    assert!(matches!(closed, WatchAction::Stop));
    let failed = node.server.list_and_watch(&mut watch, WatchEvent::SendFailed);
    assert!(matches!(failed, WatchAction::Stop));
}

#[test]
fn a_run_to_its_shutdown() {
    let server = DeviceServer::new(resource("nvidia.com/gpu"), "/v", "/s", "/sock/", CDI_DIR);
    match server.run(RunEvent::Started) {
        RunAction::RemoveSocket { path } => assert_eq!(path, "/sock/kata-gpu.sock"),
        other => panic!("{other:?}"),
    }
    match server.run(RunEvent::SocketRemoved) {
        RunAction::Bind { path } => assert_eq!(path, "/sock/kata-gpu.sock"),
        other => panic!("{other:?}"),
    }
    assert!(matches!(server.run(RunEvent::Bound), RunAction::Serve));
    assert_eq!(registered(&server).0, "/sock/kubelet.sock");
    assert!(matches!(server.run(RunEvent::Registered), RunAction::Wait));
    assert!(matches!(server.run(RunEvent::RegisterFailed), RunAction::Wait));
    assert!(matches!(server.run(RunEvent::Cancelled), RunAction::Abort));
    for event in [
        RunEvent::Aborted,
        RunEvent::ServerEnded(ServerEnd::Finished),
    ] {
        match server.run(event) {
            RunAction::RemoveSpec { path } => {
                assert_eq!(path, "/var/run/cdi/kata.nvidia.com-gpu.yaml")
            }
            other => panic!("{other:?}"),
        }
    }
    assert!(matches!(
        server.run(RunEvent::SpecRemoved),
        RunAction::Finish(RunOutcome::Stopped)
    ));
}

#[test]
fn failures_end_a_run() {
    let server = Node::start("nvidia.com/gpu").server;
    assert!(matches!(
        server.run(RunEvent::BindFailed),
        RunAction::Finish(RunOutcome::NotBound)
    ));
    assert!(matches!(
        server.run(RunEvent::ServerEnded(ServerEnd::Failed)),
        RunAction::Finish(RunOutcome::ServerFailed)
    ));
    assert!(matches!(
        server.run(RunEvent::ServerEnded(ServerEnd::TaskFailed)),
        RunAction::Finish(RunOutcome::TaskFailed)
    ));
}

#[test]
fn sockets_and_requests() {
    assert_eq!(socket_name("nvidia.com/gpu"), "kata-gpu.sock");
    assert_eq!(socket_name("nvidia.com/nvswitch"), "kata-nvswitch.sock");
    assert_eq!(socket_name("plain"), "kata-plain.sock");
    assert_eq!(socket_name("a/b/"), "kata-.sock");
    let req = register_request("r", "e");
    assert_eq!((req.resource_name, req.endpoint), ("r".to_owned(), "e".to_owned()));
}

#[test]
fn advertised_lists() {
    assert!(advertise(0).is_empty());
    let list = advertise(11);
    assert_eq!(list.len(), 11);
    assert_eq!(list[10].id, "10");
    assert_eq!(list[0].health, "Healthy");
}

#[test]
fn no_extra_calls_are_asked_for() {
    let options = Node::start("nvidia.com/gpu").server.get_device_plugin_options();
    assert!(!options.pre_start_required);
    assert!(!options.get_preferred_allocation_available);
}

#[test]
fn servers_keep_what_they_were_made_with() {
    let server = DeviceServer::new(resource("nvidia.com/gpu"), "/v", "/s", "/k", "/c");
    assert_eq!(server.resource().name, "nvidia.com/gpu");
    assert_eq!(server.device_dir(), "/v");
    assert_eq!(server.sysfs_dir(), "/s");
    assert_eq!(server.cdi_dir(), "/c");
    assert_eq!(server.socket_path("x"), "/k/x");
}

#[test]
fn allocated_names_resolve_to_the_advertised_devices() {
    let devs = vec![dev(7, 0x10de, 0x030200), dev(42, 0x10de, 0x030200)];
    let server = Node::start("nvidia.com/gpu").server;
    let spec = cdi_spec("nvidia.com/gpu", &devs);
    let ids: Vec<String> = advertise(devs.len()).into_iter().map(|d| d.id).collect();
    let resp = server.allocate(&AllocateRequest {
        container_requests: vec![ContainerAllocateRequest { devices_i_ds: ids }],
    });
    for (i, asked) in resp.container_responses[0].cdi_devices.iter().enumerate() {
        let found: Vec<_> = spec
            .devices
            .iter()
            .filter(|d| format!("{}={}", spec.kind, d.name) == asked.name)
            .collect();
        assert_eq!(found.len(), 1);
        assert_eq!(found[0].device_nodes.len(), 1);
        assert_eq!(found[0].device_nodes[0].path, devs[i].path);
    }
}

/// The actions of a run in which the world answers `replies`, by their names.
fn trace(server: &DeviceServer, replies: &[RunEvent]) -> Vec<&'static str> {
    replies
        .iter()
        .map(|event| match server.run(*event) {
            RunAction::RemoveSocket { .. } => "remove socket",
            RunAction::Bind { .. } => "bind",
            RunAction::Serve => "serve",
            RunAction::Register { .. } => "register",
            RunAction::Wait => "wait",
            RunAction::Abort => "abort",
            RunAction::RemoveSpec { .. } => "remove spec",
            RunAction::Finish(RunOutcome::Stopped) => "stopped",
            RunAction::Finish(_) => "failed",
        })
        .collect()
}

#[test]
fn a_plugin_serves_before_it_registers() {
    let server = Node::start("nvidia.com/gpu").server;
    let run = trace(
        &server,
        &[
            RunEvent::Started,
            RunEvent::SocketRemoved,
            RunEvent::Bound,
            RunEvent::Serving,
            RunEvent::RegisterFailed,
            RunEvent::Cancelled,
            RunEvent::Aborted,
            RunEvent::SpecRemoved,
        ],
    );
    assert_eq!(
        run,
        [
            "remove socket",
            "bind",
            "serve",
            "register",
            "wait",
            "abort",
            "remove spec",
            "stopped"
        ]
    );
}

#[test]
fn a_failed_server_leaves_its_spec() {
    let server = Node::start("nvidia.com/gpu").server;
    let run = trace(
        &server,
        &[
            RunEvent::Started,
            RunEvent::SocketRemoved,
            RunEvent::Bound,
            RunEvent::Serving,
            RunEvent::Registered,
            RunEvent::ServerEnded(ServerEnd::Failed),
        ],
    );
    assert_eq!(
        run,
        ["remove socket", "bind", "serve", "register", "wait", "failed"]
    );
}
