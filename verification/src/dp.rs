//! The messages of the kubelet's device plugin API, as far as this plugin reads or fills them.
use vstd::prelude::*;

verus! {

/// What a plugin tells the kubelet to be registered; it asks for no options.
#[derive(Clone, Debug, PartialEq, Eq)]
pub struct RegisterRequest {
    /// The version of the API.
    pub version: String,
    /// The name of the plugin's socket in the kubelet's plugin directory.
    pub endpoint: String,
    /// The extended resource that the plugin serves.
    pub resource_name: String,
}

/// What a plugin asks of the kubelet beyond the calls that every plugin answers.
#[derive(Clone, Copy, Debug, PartialEq, Eq, Structural)]
pub struct DevicePluginOptions {
    /// Whether `PreStartContainer` is to be called.
    pub pre_start_required: bool,
    /// Whether `GetPreferredAllocation` can be called.
    pub get_preferred_allocation_available: bool,
}

/// One advertised device; it states no topology.
#[derive(Clone, Debug, PartialEq, Eq)]
pub struct Device {
    pub id: String,
    pub health: String,
}

/// The devices that the kubelet picked for one container.
#[derive(Clone, Debug, PartialEq, Eq)]
pub struct ContainerAllocateRequest {
    pub devices_i_ds: Vec<String>,
}

/// The devices that the kubelet picked, container by container.
#[derive(Clone, Debug, PartialEq, Eq)]
pub struct AllocateRequest {
    pub container_requests: Vec<ContainerAllocateRequest>,
}

/// A device that the container runtime is to look up in the CDI registry.
#[derive(Clone, Debug, PartialEq, Eq)]
pub struct CdiDevice {
    /// The fully qualified name: kind, `=`, and name within the kind.
    pub name: String,
}

/// A device node that the kubelet is to pass on by its path.
#[derive(Clone, Debug, PartialEq, Eq)]
pub struct DeviceSpec {
    pub container_path: String,
    pub host_path: String,
    pub permissions: String,
}

/// What one container gets.
#[derive(Clone, Debug, PartialEq, Eq)]
pub struct ContainerAllocateResponse {
    pub devices: Vec<DeviceSpec>,
    pub cdi_devices: Vec<CdiDevice>,
}

/// What the containers get, one by one.
#[derive(Clone, Debug, PartialEq, Eq)]
pub struct AllocateResponse {
    pub container_responses: Vec<ContainerAllocateResponse>,
}

/// What a `RegisterRequest` says.
pub struct RegisterRequestView {
    pub version: Seq<char>,
    pub endpoint: Seq<char>,
    pub resource_name: Seq<char>,
}

/// What a `Device` says.
pub struct DeviceView {
    pub id: Seq<char>,
    pub health: Seq<char>,
}

/// What a `ContainerAllocateResponse` says: device nodes, and the names of CDI devices.
pub struct ContainerAllocateResponseView {
    pub devices: Seq<DeviceSpec>,
    pub cdi_devices: Seq<Seq<char>>,
}

impl View for RegisterRequest {
    type V = RegisterRequestView;

    open spec fn view(&self) -> RegisterRequestView {
        RegisterRequestView {
            version: self.version@,
            endpoint: self.endpoint@,
            resource_name: self.resource_name@,
        }
    }
}

impl View for Device {
    type V = DeviceView;

    open spec fn view(&self) -> DeviceView {
        DeviceView { id: self.id@, health: self.health@ }
    }
}

impl View for ContainerAllocateRequest {
    type V = Seq<Seq<char>>;

    /// The IDs of the devices.
    open spec fn view(&self) -> Seq<Seq<char>> {
        self.devices_i_ds@.map_values(|id: String| id@)
    }
}

impl View for AllocateRequest {
    type V = Seq<Seq<Seq<char>>>;

    /// The IDs of the devices, container by container.
    open spec fn view(&self) -> Seq<Seq<Seq<char>>> {
        self.container_requests@.map_values(|c: ContainerAllocateRequest| c@)
    }
}

impl View for ContainerAllocateResponse {
    type V = ContainerAllocateResponseView;

    open spec fn view(&self) -> ContainerAllocateResponseView {
        ContainerAllocateResponseView {
            devices: self.devices@,
            cdi_devices: self.cdi_devices@.map_values(|d: CdiDevice| d.name@),
        }
    }
}

impl View for AllocateResponse {
    type V = Seq<ContainerAllocateResponseView>;

    open spec fn view(&self) -> Seq<ContainerAllocateResponseView> {
        self.container_responses@.map_values(|c: ContainerAllocateResponse| c@)
    }
}

} // verus!
