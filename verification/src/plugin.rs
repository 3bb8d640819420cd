//! The device plugin of one resource: its sockets, what it advertises, what it answers.
use vstd::prelude::*;

use crate::dp::{
    AllocateRequest, AllocateResponse, CdiDevice, ContainerAllocateRequest,
    ContainerAllocateResponse, ContainerAllocateResponseView, Device, DevicePluginOptions,
    DeviceSpec, DeviceView, RegisterRequest, RegisterRequestView,
};
use crate::text::{self, base_name, decimal_string, join_path};
use crate::vfio::Resource;

verus! {

/// Where the kubelet serves its registration socket and scans for plugin sockets. The device
/// plugin API decides.
pub const SOCKET_DIR: &'static str = "/var/lib/kubelet/device-plugins";

/// Where the host CDI registry lives; the Kata shim reads it when a sandbox is created.
pub const CDI_DIR: &'static str = "/var/run/cdi";

/// How many seconds pass between two scans of the device directory.
pub const POLL_INTERVAL_SECS: u64 = 5;

/// The name of the socket that serves a resource in the kubelet's plugin directory.
pub open spec fn socket_name_of(resource_name: Seq<char>) -> Seq<char> {
    "kata-"@ + text::after_last(resource_name, '/') + ".sock"@
}

/// The fully qualified CDI name of the device `id` of a resource.
pub open spec fn cdi_name(resource_name: Seq<char>, id: Seq<char>) -> Seq<char> {
    resource_name + "="@ + id
}

/// The list that advertises `count` devices: their IDs are the positions, and all are healthy.
pub open spec fn advertised(count: nat) -> Seq<DeviceView> {
    Seq::new(
        count,
        |i: int| DeviceView { id: text::decimal(i as nat), health: "Healthy"@ },
    )
}

/// What one container gets for the device IDs `ids`: their CDI names, and nothing else.
pub open spec fn allocated(
    resource_name: Seq<char>,
    ids: Seq<Seq<char>>,
) -> ContainerAllocateResponseView {
    ContainerAllocateResponseView {
        devices: Seq::empty(),
        cdi_devices: ids.map_values(|id: Seq<char>| cdi_name(resource_name, id)),
    }
}

/// Whether `response` is what a container gets for `request`: for each of the IDs in it, in their
/// order, the device of that name within the kind `resource_name`, and nothing else.
pub open spec fn answers(
    resource_name: Seq<char>,
    request: ContainerAllocateRequest,
    response: ContainerAllocateResponse,
) -> bool {
    &&& response.devices.len() == 0
    &&& response.cdi_devices.len() == request.devices_i_ds.len()
    &&& forall|k: int|
        0 <= k < response.cdi_devices.len() ==> (#[trigger] response.cdi_devices[k]).name@
            == resource_name + "="@ + request.devices_i_ds[k]@
}

/// Every resource needs its own socket in the kubelet's shared plugin directory:
/// "nvidia.com/gpu" gives "kata-gpu.sock".
pub fn socket_name(resource_name: &str) -> (r: String)
    ensures
        r@ == socket_name_of(resource_name@),
{
    let mut name = "kata-".to_owned();
    name.append(base_name(resource_name, '/'));
    name.append(".sock");
    name
}

/// What registers a plugin with the kubelet: the resource that it serves at the socket
/// `endpoint`.
pub fn register_request(resource_name: &str, endpoint: &str) -> (r: RegisterRequest)
    ensures
        r@ == (RegisterRequestView {
            version: "v1beta1"@,
            endpoint: endpoint@,
            resource_name: resource_name@,
        }),
        r.version@ == "v1beta1"@,
        r.endpoint@ == endpoint@,
        r.resource_name@ == resource_name@,
{
    RegisterRequest {
        version: "v1beta1".to_owned(),
        endpoint: endpoint.to_owned(),
        resource_name: resource_name.to_owned(),
    }
}

/// The list that advertises `count` devices.
pub fn advertise(count: usize) -> (r: Vec<Device>)
    ensures
        r@.map_values(|d: Device| d@) == advertised(count as nat),
        r@.len() == count,
        forall|i: int|
            0 <= i < count ==> (#[trigger] r@[i]).id@ == text::decimal(i as nat) && r@[i].health@
                == "Healthy"@,
{
    let mut out: Vec<Device> = Vec::new();
    let mut i: usize = 0;
    while i < count
        invariant
            i <= count,
            out.len() == i,
            forall|k: int|
                0 <= k < i ==> (#[trigger] out@[k])@ == advertised(count as nat)[k],
        decreases count - i,
    {
        out.push(Device { id: decimal_string(i as u64), health: "Healthy".to_owned() });
        i = i + 1;
    }
    assert(out@.map_values(|d: Device| d@) =~= advertised(count as nat));
    out
}

/// The device plugin of one resource.
#[derive(Clone, Debug)]
pub struct DeviceServer {
    resource: Resource,
    device_dir: String,
    sysfs_dir: String,
    socket_dir: String,
    cdi_dir: String,
}

/// What a `DeviceServer` was made with.
pub struct ServerView {
    pub resource: Resource,
    pub device_dir: Seq<char>,
    pub sysfs_dir: Seq<char>,
    pub socket_dir: Seq<char>,
    pub cdi_dir: Seq<char>,
}

impl View for DeviceServer {
    type V = ServerView;

    closed spec fn view(&self) -> ServerView {
        ServerView {
            resource: self.resource,
            device_dir: self.device_dir@,
            sysfs_dir: self.sysfs_dir@,
            socket_dir: self.socket_dir@,
            cdi_dir: self.cdi_dir@,
        }
    }
}

impl DeviceServer {
    /// The plugin of `resource`, with the directories that it reads and writes.
    pub fn new(
        resource: Resource,
        device_dir: &str,
        sysfs_dir: &str,
        socket_dir: &str,
        cdi_dir: &str,
    ) -> (r: Self)
        ensures
            r@ == (ServerView {
                resource,
                device_dir: device_dir@,
                sysfs_dir: sysfs_dir@,
                socket_dir: socket_dir@,
                cdi_dir: cdi_dir@,
            }),
    {
        DeviceServer {
            resource,
            device_dir: device_dir.to_owned(),
            sysfs_dir: sysfs_dir.to_owned(),
            socket_dir: socket_dir.to_owned(),
            cdi_dir: cdi_dir.to_owned(),
        }
    }

    /// The resource that is served.
    pub fn resource(&self) -> (r: &Resource)
        ensures
            *r == self@.resource,
    {
        &self.resource
    }

    /// The directory of the VFIO character devices.
    pub fn device_dir(&self) -> (r: &str)
        ensures
            r@ == self@.device_dir,
    {
        self.device_dir.as_str()
    }

    /// The directory that shows the PCI identity of each device.
    pub fn sysfs_dir(&self) -> (r: &str)
        ensures
            r@ == self@.sysfs_dir,
    {
        self.sysfs_dir.as_str()
    }

    /// The directory of the CDI registry.
    pub fn cdi_dir(&self) -> (r: &str)
        ensures
            r@ == self@.cdi_dir,
    {
        self.cdi_dir.as_str()
    }

    /// The path of a socket in the kubelet's plugin directory.
    pub fn socket_path(&self, name: &str) -> (r: String)
        ensures
            r@ == text::joined(self@.socket_dir, name@),
    {
        join_path(self.socket_dir.as_str(), name)
    }

    /// The plugin asks for no calls beyond those that every plugin answers.
    pub fn get_device_plugin_options(&self) -> (r: DevicePluginOptions)
        ensures
            r == (DevicePluginOptions {
                pre_start_required: false,
                get_preferred_allocation_available: false,
            }),
    {
        DevicePluginOptions { pre_start_required: false, get_preferred_allocation_available: false }
    }

    /// Only CDI names go back to the kubelet: actual device injection is the Kata shim's job,
    /// resolving them against the host CDI spec.
    pub fn allocate(&self, req: &AllocateRequest) -> (r: AllocateResponse)
        ensures
            r@ == req@.map_values(|ids: Seq<Seq<char>>| allocated(self@.resource.name@, ids)),
            r.container_responses.len() == req.container_requests.len(),
            forall|i: int|
                0 <= i < r.container_responses.len() ==> answers(
                    self@.resource.name@,
                    req.container_requests[i],
                    #[trigger] r.container_responses[i],
                ),
    {
        let ghost wanted = req@.map_values(
            |ids: Seq<Seq<char>>| allocated(self@.resource.name@, ids),
        );
        let mut out: Vec<ContainerAllocateResponse> = Vec::new();
        let mut i: usize = 0;
        while i < req.container_requests.len()
            invariant
                wanted == req@.map_values(
                    |ids: Seq<Seq<char>>| allocated(self@.resource.name@, ids),
                ),
                i <= req.container_requests.len(),
                out.len() == i,
                forall|k: int| 0 <= k < i ==> (#[trigger] out@[k])@ == wanted[k],
                forall|k: int|
                    0 <= k < i ==> answers(
                        self@.resource.name@,
                        req.container_requests[k],
                        #[trigger] out@[k],
                    ),
            decreases req.container_requests.len() - i,
        {
            let response = self.allocate_container(&req.container_requests[i]);
            out.push(response);
            i = i + 1;
        }
        let response = AllocateResponse { container_responses: out };
        assert(response@ =~= wanted);
        response
    }

    fn allocate_container(&self, req: &ContainerAllocateRequest) -> (r: ContainerAllocateResponse)
        ensures
            r@ == allocated(self@.resource.name@, req@),
            answers(self@.resource.name@, *req, r),
    {
        let devices: Vec<DeviceSpec> = Vec::new();
        let mut names: Vec<CdiDevice> = Vec::new();
        let mut i: usize = 0;
        while i < req.devices_i_ds.len()
            invariant
                i <= req.devices_i_ds.len(),
                names.len() == i,
                forall|k: int|
                    0 <= k < i ==> (#[trigger] names@[k]).name@ == cdi_name(
                        self@.resource.name@,
                        req@[k],
                    ),
            decreases req.devices_i_ds.len() - i,
        {
            let mut name = self.resource.name.to_owned();
            name.append("=");
            name.append(req.devices_i_ds[i].as_str());
            names.push(CdiDevice { name });
            i = i + 1;
        }
        let response = ContainerAllocateResponse { devices, cdi_devices: names };
        assert(response@.cdi_devices =~= allocated(self@.resource.name@, req@).cdi_devices);
        assert(response@.devices =~= Seq::empty());
        response
    }
}

/// The answer to a container has exactly one CDI name for each ID that the kubelet picked, at the
/// ID's place: the resource name, `=` and the ID. It hands over no device nodes.
pub proof fn law_allocated_by_ids(resource_name: Seq<char>, ids: Seq<Seq<char>>)
    ensures
        allocated(resource_name, ids).devices.len() == 0,
        allocated(resource_name, ids).cdi_devices.len() == ids.len(),
        forall|k: int|
            0 <= k < ids.len() ==> #[trigger] allocated(resource_name, ids).cdi_devices[k]
                == resource_name + "="@ + ids[k],
{
}

/// Devices that were picked for different containers stay apart: a name that two answers hold
/// stands for an ID that both requests hold.
pub proof fn law_allocated_apart(
    resource_name: Seq<char>,
    ids1: Seq<Seq<char>>,
    ids2: Seq<Seq<char>>,
    name: Seq<char>,
) -> (id: Seq<char>)
    requires
        allocated(resource_name, ids1).cdi_devices.contains(name),
        allocated(resource_name, ids2).cdi_devices.contains(name),
    ensures
        ids1.contains(id),
        ids2.contains(id),
        name == resource_name + "="@ + id,
{
    let names1 = allocated(resource_name, ids1).cdi_devices;
    let names2 = allocated(resource_name, ids2).cdi_devices;
    let (i, j) = (names1.index_of(name), names2.index_of(name));
    let n = (resource_name.len() + "="@.len()) as int;
    law_allocated_by_ids(resource_name, ids1);
    law_allocated_by_ids(resource_name, ids2);
    assert(name == names1[i] && name == names2[j]);
    assert(name.skip(n) =~= ids1[i]);
    assert(name.skip(n) =~= ids2[j]);
    assert(ids1.contains(ids1[i]) && ids2.contains(ids2[j]));
    ids1[i]
}

/// The list that advertises devices has one entry for each: its ID is its position, in decimal,
/// and it is healthy. No two entries share an ID.
pub proof fn law_advertised_by_position(count: nat)
    ensures
        advertised(count).len() == count,
        forall|i: int|
            0 <= i < count ==> (#[trigger] advertised(count)[i]).id == text::decimal(i as nat)
                && advertised(count)[i].health == "Healthy"@,
        forall|i: int, j: int|
            0 <= i < count && 0 <= j < count && (#[trigger] advertised(count)[i]).id == (
            #[trigger] advertised(count)[j]).id ==> i == j,
{
    assert forall|i: int, j: int|
        0 <= i < count && 0 <= j < count && (#[trigger] advertised(count)[i]).id == (
        #[trigger] advertised(count)[j]).id implies i == j by {
        text::law_decimal_injective(i as nat, j as nat);
    }
}

/// The socket of a resource goes by what follows the last slash of the resource's name, or by
/// the whole name where it has no slash.
pub proof fn law_socket_name_by_base(head: Seq<char>, base: Seq<char>)
    requires
        !base.contains('/'),
    ensures
        socket_name_of(head + "/"@ + base) == "kata-"@ + base + ".sock"@,
        socket_name_of(base) == "kata-"@ + base + ".sock"@,
{
    reveal_strlit("/");
    assert(head + "/"@ + base =~= head.push('/') + base);
    text::lemma_after_last(head, '/', base);
    text::law_after_last_is_the_end(base, '/');
    let end = text::after_last(base, '/');
    if end.len() < base.len() {
        assert(base.contains(base[base.len() - end.len() - 1]));
    }
    assert(end =~= base);
}

/// In the directory that the kubelet watches, every resource's socket stands right under
/// `/var/lib/kubelet/device-plugins`.
pub proof fn law_sockets_in_kubelet_dir(resource_name: Seq<char>)
    ensures
        text::joined(SOCKET_DIR@, socket_name_of(resource_name))
            == "/var/lib/kubelet/device-plugins/"@ + socket_name_of(resource_name),
{
    reveal_strlit("/var/lib/kubelet/device-plugins/");
    reveal_strlit("/var/lib/kubelet/device-plugins");
    reveal_strlit("kata-");
    assert("/var/lib/kubelet/device-plugins"@.push('/') =~= "/var/lib/kubelet/device-plugins/"@);
}

/// In the registry of the host, every resource's CDI spec stands right under `/var/run/cdi`.
pub proof fn law_specs_in_host_registry(resource_name: Seq<char>)
    ensures
        crate::cdi::path_of_spec(CDI_DIR@, resource_name) == "/var/run/cdi/kata."@ + text::dashed(
            resource_name,
        ) + ".yaml"@,
{
    reveal_strlit("/var/run/cdi/kata.");
    reveal_strlit("/var/run/cdi");
    reveal_strlit("/kata.");
    crate::cdi::law_spec_path_by_parts(CDI_DIR@, resource_name, text::dashed(resource_name));
    assert("/var/run/cdi"@ + "/kata."@ =~= "/var/run/cdi/kata."@);
}

} // verus!
