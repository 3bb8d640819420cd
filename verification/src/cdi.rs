//! The host CDI spec of a resource: what it says, where it lies, and how it is put there.
use std::collections::BTreeMap;

use container_device_interface::spec::validate_spec;
use container_device_interface::specs::config::Spec;
use container_device_interface::specs::config::CURRENT_VERSION;
use serde_yaml::to_value;
use vstd::prelude::*;

use crate::text::{self, decimal_string, join_path, slashes_to_dashes};
use crate::vfio::IommufdDev;

verus! {

/// A device node that a CDI device brings into a container.
#[derive(Debug, PartialEq, Eq)]
pub struct DeviceNode {
    pub path: String,
    pub node_type: String,
    pub permissions: String,
}

/// One device of a CDI spec: its name within the spec's kind, and the nodes it stands for.
#[derive(Debug, PartialEq, Eq)]
pub struct CdiDevice {
    pub name: String,
    pub device_nodes: Vec<DeviceNode>,
}

/// A CDI spec, as far as this plugin fills one in.
#[derive(Debug, PartialEq, Eq)]
pub struct CdiSpec {
    pub version: String,
    pub kind: String,
    pub devices: Vec<CdiDevice>,
}

/// What a `DeviceNode` says.
pub struct DeviceNodeView {
    pub path: Seq<char>,
    pub node_type: Seq<char>,
    pub permissions: Seq<char>,
}

/// What a `CdiDevice` says.
pub struct CdiDeviceView {
    pub name: Seq<char>,
    pub device_nodes: Seq<DeviceNodeView>,
}

/// What a `CdiSpec` says.
pub struct CdiSpecView {
    pub version: Seq<char>,
    pub kind: Seq<char>,
    pub devices: Seq<CdiDeviceView>,
}

impl View for DeviceNode {
    type V = DeviceNodeView;

    open spec fn view(&self) -> DeviceNodeView {
        DeviceNodeView {
            path: self.path@,
            node_type: self.node_type@,
            permissions: self.permissions@,
        }
    }
}

impl View for CdiDevice {
    type V = CdiDeviceView;

    open spec fn view(&self) -> CdiDeviceView {
        CdiDeviceView {
            name: self.name@,
            device_nodes: self.device_nodes@.map_values(|n: DeviceNode| n@),
        }
    }
}

impl View for CdiSpec {
    type V = CdiSpecView;

    open spec fn view(&self) -> CdiSpecView {
        CdiSpecView {
            version: self.version@,
            kind: self.kind@,
            devices: self.devices@.map_values(|d: CdiDevice| d@),
        }
    }
}

/// The CDI device for the device node `path` at position `i`: named by the position, it stands
/// for that one character device, readable and writable, and nothing else.
pub open spec fn device_for(i: nat, path: Seq<char>) -> CdiDeviceView {
    CdiDeviceView {
        name: text::decimal(i),
        device_nodes: seq![DeviceNodeView { path, node_type: "c"@, permissions: "rw"@ }],
    }
}

/// The CDI spec of the kind `kind` that maps each position of `devs` to the device there.
pub open spec fn spec_for(kind: Seq<char>, devs: Seq<IommufdDev>) -> CdiSpecView {
    CdiSpecView {
        version: "1.1.0"@,
        kind,
        devices: Seq::new(devs.len(), |i: int| device_for(i as nat, devs[i].path@)),
    }
}

/// The file name of the CDI spec for a resource.
pub open spec fn spec_file_name(resource_name: Seq<char>) -> Seq<char> {
    "kata."@ + text::dashed(resource_name) + ".yaml"@
}

/// The path of the CDI spec for a resource inside `cdi_dir`.
pub open spec fn path_of_spec(cdi_dir: Seq<char>, resource_name: Seq<char>) -> Seq<char> {
    text::joined(cdi_dir, spec_file_name(resource_name))
}

/// Where the write number `seq` of the process `pid` puts the bytes for `path` before they take
/// their place.
pub open spec fn path_of_tmp(path: Seq<char>, pid: u32, seq: u64) -> Seq<char> {
    path + "."@ + text::decimal(pid as nat) + "."@ + text::decimal(seq as nat)
        + ".tmp"@
}

/// The YAML that `serde_yaml` writes for a CDI spec; `None` where it writes none.
pub uninterp spec fn cdi_yaml(spec: CdiSpecView) -> Option<Seq<char>>;

/// Whether `validate_spec` accepts the CDI spec that a YAML text holds.
pub uninterp spec fn cdi_accepts(yaml: Seq<char>) -> bool;

/// The YAML of the CDI spec for `devs`, if it can be written and is accepted.
pub open spec fn rendered(kind: Seq<char>, devs: Seq<IommufdDev>) -> Option<Seq<char>> {
    match cdi_yaml(spec_for(kind, devs)) {
        Some(yaml) if cdi_accepts(yaml) => Some(yaml),
        _ => None,
    }
}

/// Declares `anyhow::Error`, which carries the cause of a refused spec.
#[verifier::external_type_specification]
#[verifier::external_body]
pub struct ExAnyhowError(anyhow::Error);

/// Why a CDI spec is not written.
#[derive(Debug)]
pub enum CdiError {
    /// The spec is not one that CDI accepts.
    Validate(anyhow::Error),
}

/// Reads `container_device_interface::specs::config::CURRENT_VERSION`, the version of CDI that
/// specs are written for, and claims its value.
#[verifier::external_body]
fn current_version() -> (r: String)
    ensures
        r@ == "1.1.0"@,
{
    CURRENT_VERSION.to_owned()
}

/// Calls `serde_yaml::to_string` on the CDI crate's own `Spec` with the fields of `spec`, and
/// claims no more of the text than that it depends on those fields alone. The CDI crate keeps the
/// fields of its `Spec` to itself, so the value is made by `serde_yaml::from_value`.
#[verifier::external_body]
fn spec_yaml(spec: &CdiSpec) -> (r: Result<String, anyhow::Error>)
    ensures
        match r {
            Ok(text) => cdi_yaml(spec@) == Some(text@),
            Err(_) => cdi_yaml(spec@) is None,
        },
{
    let mut devices = Vec::new();
    for d in &spec.devices {
        let nodes: Vec<_> = d.device_nodes.iter().map(|n| {
            BTreeMap::from([("path", &n.path), ("type", &n.node_type), ("permissions", &n.permissions)])
        }).collect();
        let edits = to_value(BTreeMap::from([("deviceNodes", nodes)]))?;
        devices.push(BTreeMap::from([("name", to_value(&d.name)?), ("containerEdits", edits)]));
    }
    let fields = BTreeMap::from([
        ("cdiVersion", to_value(&spec.version)?),
        ("kind", to_value(&spec.kind)?),
        ("devices", to_value(devices)?),
    ]);
    let raw: Spec = serde_yaml::from_value(to_value(fields)?)?;
    Ok(serde_yaml::to_string(&raw)?)
}

/// Calls `container_device_interface::spec::validate_spec` on the `Spec` that
/// `serde_yaml::from_str` reads from `yaml`, and claims no more of the answer than that it
/// depends on the text alone.
#[verifier::external_body]
fn validate_yaml(yaml: &str) -> (r: Result<(), anyhow::Error>)
    ensures
        r is Ok <==> cdi_accepts(yaml@),
{
    validate_spec(&serde_yaml::from_str(yaml)?)
}

/// Path of the CDI spec file for `resource_name` inside `cdi_dir`: "nvidia.com/gpu" gives
/// `<cdi_dir>/kata.nvidia.com-gpu.yaml`. The `kata.` prefix marks the specs this plugin owns in
/// the shared host registry.
pub fn spec_path(cdi_dir: &str, resource_name: &str) -> (r: String)
    ensures
        r@ == path_of_spec(cdi_dir@, resource_name@),
{
    let mut name = "kata.".to_owned();
    name.append(slashes_to_dashes(resource_name).as_str());
    name.append(".yaml");
    join_path(cdi_dir, name.as_str())
}

/// The CDI spec of the kind `resource_name` that maps index `i` to `devices[i]`.
pub fn cdi_spec(resource_name: &str, devices: &[IommufdDev]) -> (r: CdiSpec)
    ensures
        r@ == spec_for(resource_name@, devices@),
        r.kind@ == resource_name@,
        r.devices.len() == devices@.len(),
        forall|i: int|
            0 <= i < r.devices.len() ==> {
                &&& (#[trigger] r.devices[i]).name@ == text::decimal(i as nat)
                &&& r.devices[i].device_nodes.len() == 1
                &&& r.devices[i].device_nodes[0].path@ == devices@[i].path@
                &&& r.devices[i].device_nodes[0].node_type@ == "c"@
                &&& r.devices[i].device_nodes[0].permissions@ == "rw"@
            },
{
    let mut out: Vec<CdiDevice> = Vec::new();
    let mut i: usize = 0;
    while i < devices.len()
        invariant
            i <= devices.len(),
            out.len() == i,
            forall|k: int|
                0 <= k < i ==> (#[trigger] out@[k])@ == device_for(k as nat, devices@[k].path@),
            forall|k: int|
                0 <= k < i ==> {
                    &&& (#[trigger] out@[k]).name@ == text::decimal(k as nat)
                    &&& out@[k].device_nodes.len() == 1
                    &&& out@[k].device_nodes[0].path@ == devices@[k].path@
                    &&& out@[k].device_nodes[0].node_type@ == "c"@
                    &&& out@[k].device_nodes[0].permissions@ == "rw"@
                },
        decreases devices.len() - i,
    {
        let node = DeviceNode {
            path: devices[i].path.clone(),
            node_type: "c".to_owned(),
            permissions: "rw".to_owned(),
        };
        let mut nodes: Vec<DeviceNode> = Vec::new();
        nodes.push(node);
        let device = CdiDevice { name: decimal_string(i as u64), device_nodes: nodes };
        assert(device@.device_nodes =~= device_for(i as nat, devices@[i as int].path@).device_nodes);
        out.push(device);
        i = i + 1;
    }
    let spec = CdiSpec {
        version: current_version(),
        kind: resource_name.to_owned(),
        devices: out,
    };
    assert(spec@.devices =~= spec_for(resource_name@, devices@).devices);
    spec
}

/// What putting a CDI spec in place came to.
#[derive(Clone, Copy, Debug, PartialEq, Eq, Structural)]
pub enum WriteOutcome {
    /// The spec is in place.
    Written,
    /// The directory could not be made.
    NoDirectory,
    /// The bytes could not be written.
    NotWritten,
    /// The bytes were written, but could not take their place.
    NotRenamed,
}

/// How far the write of a CDI spec has come: what is to be done next, or what it came to.
#[derive(Clone, Copy, Debug, PartialEq, Eq, Structural)]
pub enum WriteStep {
    CreateDir,
    WriteTmp,
    Rename,
    RemoveTmp,
    Done(WriteOutcome),
}

/// One operation on the file system, for the caller to perform.
#[derive(Debug, PartialEq, Eq)]
pub enum WriteAction {
    /// Make the directory and its parents, if they are not there.
    CreateDirAll { dir: String },
    /// Write the file.
    Write { path: String, contents: String },
    /// Move the file, over any that is there.
    Rename { from: String, to: String },
    /// Remove the file.
    Remove { path: String },
    /// Nothing is left to do.
    Finish(WriteOutcome),
}

/// What a `WriteAction` says.
pub enum WriteActionView {
    CreateDirAll { dir: Seq<char> },
    Write { path: Seq<char>, contents: Seq<char> },
    Rename { from: Seq<char>, to: Seq<char> },
    Remove { path: Seq<char> },
    Finish(WriteOutcome),
}

impl View for WriteAction {
    type V = WriteActionView;

    open spec fn view(&self) -> WriteActionView {
        match *self {
            WriteAction::CreateDirAll { dir } => WriteActionView::CreateDirAll { dir: dir@ },
            WriteAction::Write { path, contents } => WriteActionView::Write {
                path: path@,
                contents: contents@,
            },
            WriteAction::Rename { from, to } => WriteActionView::Rename { from: from@, to: to@ },
            WriteAction::Remove { path } => WriteActionView::Remove { path: path@ },
            WriteAction::Finish(outcome) => WriteActionView::Finish(outcome),
        }
    }
}

/// The write of one CDI spec: the bytes go to a file of their own, which then takes the place of
/// the spec in one move.
#[derive(Debug)]
pub struct SpecWriter {
    /// The directory of the registry.
    pub dir: String,
    /// Where the spec belongs.
    pub path: String,
    /// Where its bytes are written first.
    pub tmp_path: String,
    /// The bytes.
    pub contents: String,
    /// How far the write has come.
    pub step: WriteStep,
}

/// What a `SpecWriter` says.
pub struct WriterView {
    pub dir: Seq<char>,
    pub path: Seq<char>,
    pub tmp_path: Seq<char>,
    pub contents: Seq<char>,
    pub step: WriteStep,
}

impl View for SpecWriter {
    type V = WriterView;

    open spec fn view(&self) -> WriterView {
        WriterView {
            dir: self.dir@,
            path: self.path@,
            tmp_path: self.tmp_path@,
            contents: self.contents@,
            step: self.step,
        }
    }
}

impl WriterView {
    /// The write of `contents` as the spec of a resource, before anything was done.
    pub open spec fn start(
        cdi_dir: Seq<char>,
        resource_name: Seq<char>,
        contents: Seq<char>,
        pid: u32,
        seq: u64,
    ) -> WriterView {
        let path = path_of_spec(cdi_dir, resource_name);
        WriterView {
            dir: cdi_dir,
            path,
            tmp_path: path_of_tmp(path, pid, seq),
            contents,
            step: WriteStep::CreateDir,
        }
    }

    /// What is to be done next.
    pub open spec fn action(self) -> WriteActionView {
        match self.step {
            WriteStep::CreateDir => WriteActionView::CreateDirAll { dir: self.dir },
            WriteStep::WriteTmp => WriteActionView::Write {
                path: self.tmp_path,
                contents: self.contents,
            },
            WriteStep::Rename => WriteActionView::Rename { from: self.tmp_path, to: self.path },
            WriteStep::RemoveTmp => WriteActionView::Remove { path: self.tmp_path },
            WriteStep::Done(outcome) => WriteActionView::Finish(outcome),
        }
    }

    /// The write after its next action was tried. A move that failed leaves the bytes to be
    /// removed, whether or not that succeeds; any other failure ends the write at once.
    pub open spec fn after(self, succeeded: bool) -> WriterView {
        let step = match self.step {
            WriteStep::CreateDir => if succeeded {
                WriteStep::WriteTmp
            } else {
                WriteStep::Done(WriteOutcome::NoDirectory)
            },
            WriteStep::WriteTmp => if succeeded {
                WriteStep::Rename
            } else {
                WriteStep::Done(WriteOutcome::NotWritten)
            },
            WriteStep::Rename => if succeeded {
                WriteStep::Done(WriteOutcome::Written)
            } else {
                WriteStep::RemoveTmp
            },
            WriteStep::RemoveTmp => WriteStep::Done(WriteOutcome::NotRenamed),
            WriteStep::Done(outcome) => WriteStep::Done(outcome),
        };
        WriterView { step, ..self }
    }
}

impl SpecWriter {
    /// The write of `contents` as the spec of `resource_name` in `cdi_dir`. The pair of `pid` and
    /// `seq` tells this write from every other one that may be under way.
    pub fn new(
        cdi_dir: &str,
        resource_name: &str,
        contents: String,
        pid: u32,
        seq: u64,
    ) -> (r: SpecWriter)
        ensures
            r@ == WriterView::start(cdi_dir@, resource_name@, contents@, pid, seq),
            r.dir@ == cdi_dir@,
            r.path@ == path_of_spec(cdi_dir@, resource_name@),
            r.tmp_path@ == path_of_tmp(r.path@, pid, seq),
            r.contents@ == contents@,
            r.step is CreateDir,
    {
        let path = spec_path(cdi_dir, resource_name);
        let mut tmp_path = path.clone();
        tmp_path.append(".");
        tmp_path.append(decimal_string(pid as u64).as_str());
        tmp_path.append(".");
        tmp_path.append(decimal_string(seq).as_str());
        tmp_path.append(".tmp");
        SpecWriter { dir: cdi_dir.to_owned(), path, tmp_path, contents, step: WriteStep::CreateDir }
    }

    /// What is to be done next.
    pub fn action(&self) -> (r: WriteAction)
        ensures
            r@ == self@.action(),
            match r {
                WriteAction::CreateDirAll { dir } => self.step is CreateDir && dir@ == self.dir@,
                WriteAction::Write { path, contents } => self.step is WriteTmp && path@
                    == self.tmp_path@ && contents@ == self.contents@,
                WriteAction::Rename { from, to } => self.step is Rename && from@ == self.tmp_path@
                    && to@ == self.path@,
                WriteAction::Remove { path } => self.step is RemoveTmp && path@ == self.tmp_path@,
                WriteAction::Finish(outcome) => self.step == WriteStep::Done(outcome),
            },
    {
        match self.step {
            WriteStep::CreateDir => WriteAction::CreateDirAll { dir: self.dir.clone() },
            WriteStep::WriteTmp => WriteAction::Write {
                path: self.tmp_path.clone(),
                contents: self.contents.clone(),
            },
            WriteStep::Rename => WriteAction::Rename {
                from: self.tmp_path.clone(),
                to: self.path.clone(),
            },
            WriteStep::RemoveTmp => WriteAction::Remove { path: self.tmp_path.clone() },
            WriteStep::Done(outcome) => WriteAction::Finish(outcome),
        }
    }

    /// Takes note of whether the next action succeeded.
    pub fn advance(&mut self, succeeded: bool)
        ensures
            final(self)@ == old(self)@.after(succeeded),
    {
        self.step = match self.step {
            WriteStep::CreateDir => if succeeded {
                WriteStep::WriteTmp
            } else {
                WriteStep::Done(WriteOutcome::NoDirectory)
            },
            WriteStep::WriteTmp => if succeeded {
                WriteStep::Rename
            } else {
                WriteStep::Done(WriteOutcome::NotWritten)
            },
            WriteStep::Rename => if succeeded {
                WriteStep::Done(WriteOutcome::Written)
            } else {
                WriteStep::RemoveTmp
            },
            WriteStep::RemoveTmp => WriteStep::Done(WriteOutcome::NotRenamed),
            WriteStep::Done(outcome) => WriteStep::Done(outcome),
        };
    }
}

/// The YAML of the CDI spec that maps index `i` to `devices[i]`, once CDI accepts it. A spec that
/// has no YAML is no valid one.
pub fn render_spec(resource_name: &str, devices: &[IommufdDev]) -> (r: Result<
    String,
    anyhow::Error,
>)
    ensures
        match r {
            Ok(yaml) => rendered(resource_name@, devices@) == Some(yaml@),
            Err(_) => rendered(resource_name@, devices@) is None,
        },
{
    let spec = cdi_spec(resource_name, devices);
    match spec_yaml(&spec) {
        Ok(yaml) => match validate_yaml(yaml.as_str()) {
            Ok(()) => Ok(yaml),
            Err(e) => Err(e),
        },
        Err(e) => Err(e),
    }
}

/// The numbers by which the writes of one process go: the number of the process, and a count of
/// the writes that it started.
#[derive(Debug)]
pub struct WriteNumbers {
    /// The number of the process.
    pub pid: u32,
    /// The count that the next write gets.
    pub next: u64,
}

impl WriteNumbers {
    /// The numbers of a process that has started no write yet.
    pub fn new(pid: u32) -> (r: Self)
        ensures
            r == (WriteNumbers { pid, next: 0 }),
    {
        WriteNumbers { pid, next: 0 }
    }

    /// The numbers when `starts` more writes have been started; the count wraps around.
    pub open spec fn after(self, starts: nat) -> Self {
        WriteNumbers {
            pid: self.pid,
            next: ((self.next + starts) % 0x1_0000_0000_0000_0000) as u64,
        }
    }

    /// The count for a write that is started now.
    pub fn take(&mut self) -> (seq: u64)
        ensures
            seq == old(self).next,
            *final(self) == old(self).after(1),
    {
        let seq: u64 = self.next;
        self.next = seq.wrapping_add(1);
        seq
    }
}

/// The write of a spec whose YAML is `yaml`, or the error where there is none to write. Only a
/// write that is started takes a number.
pub fn prepare_write(
    resource_name: &str,
    yaml: Result<String, anyhow::Error>,
    cdi_dir: &str,
    numbers: &mut WriteNumbers,
) -> (r: Result<SpecWriter, CdiError>)
    ensures
        match yaml {
            Ok(text) => {
                &&& r is Ok
                &&& r->Ok_0@ == WriterView::start(
                    cdi_dir@,
                    resource_name@,
                    text@,
                    old(numbers).pid,
                    old(numbers).next,
                )
                &&& *final(numbers) == old(numbers).after(1)
            },
            Err(e) => {
                &&& r == Err::<SpecWriter, CdiError>(CdiError::Validate(e))
                &&& *final(numbers) == *old(numbers)
            },
        },
{
    match yaml {
        Ok(text) => {
            let pid: u32 = numbers.pid;
            let seq: u64 = numbers.take();
            Ok(SpecWriter::new(cdi_dir, resource_name, text, pid, seq))
        },
        Err(e) => Err(CdiError::Validate(e)),
    }
}

/// Starts the write of the host CDI spec that maps index `i` to `devices[i]`: the same IDs that
/// the plugin advertises. The CDI kind is the extended-resource name itself. With no devices
/// there is nothing to write. Each write that is started takes the next of `numbers`, so that no
/// two of a process share a path on the way.
pub fn write_cdi_spec(
    resource_name: &str,
    devices: &[IommufdDev],
    cdi_dir: &str,
    numbers: &mut WriteNumbers,
) -> (r: Result<Option<SpecWriter>, CdiError>)
    ensures
        r == Ok::<Option<SpecWriter>, CdiError>(None) <==> devices@.len() == 0,
        r is Ok && r->Ok_0 is Some <==> devices@.len() > 0 && rendered(
            resource_name@,
            devices@,
        ) is Some,
        r matches Ok(Some(writer)) ==> writer@ == WriterView::start(
            cdi_dir@,
            resource_name@,
            rendered(resource_name@, devices@)->0,
            old(numbers).pid,
            old(numbers).next,
        ),
        r is Err <==> devices@.len() > 0 && rendered(resource_name@, devices@) is None,
        *final(numbers) == if r is Ok && r->Ok_0 is Some {
            old(numbers).after(1)
        } else {
            *old(numbers)
        },
{
    if devices.len() == 0 {
        return Ok(None);
    }
    let yaml = render_spec(resource_name, devices);
    match prepare_write(resource_name, yaml, cdi_dir, numbers) {
        Ok(writer) => Ok(Some(writer)),
        Err(e) => Err(e),
    }
}

/// Whether `spec` is the CDI spec of the kind `kind` for `devs`: device by device, the name is the
/// position in decimal, and the one node is that device's, a character device that can be read
/// and written.
pub open spec fn maps_positions(
    spec: CdiSpecView,
    kind: Seq<char>,
    devs: Seq<IommufdDev>,
) -> bool {
    &&& spec.version == "1.1.0"@
    &&& spec.kind == kind
    &&& spec.devices.len() == devs.len()
    &&& forall|i: int|
        0 <= i < devs.len() ==> {
            &&& (#[trigger] spec.devices[i]).name == text::decimal(i as nat)
            &&& spec.devices[i].device_nodes.len() == 1
            &&& spec.devices[i].device_nodes[0].path == devs[i].path@
            &&& spec.devices[i].device_nodes[0].node_type == "c"@
            &&& spec.devices[i].device_nodes[0].permissions == "rw"@
        }
}

/// The CDI spec for devices names each by its position and brings in exactly one node for it:
/// the one at the path of the device there, of the type `c`, with the permissions `rw`.
pub proof fn law_spec_by_position(kind: Seq<char>, devs: Seq<IommufdDev>, i: int)
    requires
        0 <= i < devs.len(),
    ensures
        spec_for(kind, devs).version == "1.1.0"@,
        spec_for(kind, devs).kind == kind,
        spec_for(kind, devs).devices.len() == devs.len(),
        spec_for(kind, devs).devices[i].name == text::decimal(i as nat),
        spec_for(kind, devs).devices[i].device_nodes.len() == 1,
        spec_for(kind, devs).devices[i].device_nodes[0].path == devs[i].path@,
        spec_for(kind, devs).devices[i].device_nodes[0].node_type == "c"@,
        spec_for(kind, devs).devices[i].device_nodes[0].permissions == "rw"@,
        maps_positions(spec_for(kind, devs), kind, devs),
{
}

/// No two names of a CDI spec are the same, so each resolves to one device.
pub proof fn law_spec_names_distinct(kind: Seq<char>, devs: Seq<IommufdDev>, i: int, j: int)
    requires
        0 <= i < devs.len(),
        0 <= j < devs.len(),
        spec_for(kind, devs).devices[i].name == spec_for(kind, devs).devices[j].name,
    ensures
        i == j,
{
    text::law_decimal_injective(i as nat, j as nat);
}

/// What is written for devices is the YAML of the one spec that maps their positions, and only
/// where CDI accepts it; and it is written wherever there is such YAML and CDI accepts it.
pub proof fn law_rendered_is_accepted(spec: CdiSpecView, kind: Seq<char>, devs: Seq<IommufdDev>)
    requires
        maps_positions(spec, kind, devs),
    ensures
        rendered(kind, devs) is Some <==> cdi_yaml(spec) is Some && cdi_accepts(cdi_yaml(spec)->0),
        rendered(kind, devs) is Some ==> rendered(kind, devs) == cdi_yaml(spec) && cdi_accepts(
            rendered(kind, devs)->0,
        ),
{
    let made = spec_for(kind, devs);
    assert forall|i: int| 0 <= i < devs.len() implies spec.devices[i] == made.devices[i] by {
        assert(spec.devices[i].device_nodes =~= made.devices[i].device_nodes);
    }
    assert(spec.devices =~= made.devices);
}

/// The CDI spec of a resource lies right in the registry, under `kata.`, the resource name with
/// dashes for slashes, and `.yaml`.
pub proof fn law_spec_path_by_parts(
    cdi_dir: Seq<char>,
    resource_name: Seq<char>,
    dashes: Seq<char>,
)
    requires
        dashes.len() == resource_name.len(),
        forall|i: int|
            0 <= i < dashes.len() ==> #[trigger] dashes[i] == if resource_name[i] == '/' {
                '-'
            } else {
                resource_name[i]
            },
    ensures
        cdi_dir.len() > 0 && cdi_dir[cdi_dir.len() - 1] != '/' ==> path_of_spec(
            cdi_dir,
            resource_name,
        ) == cdi_dir + "/kata."@ + dashes + ".yaml"@,
        cdi_dir.len() == 0 || cdi_dir[cdi_dir.len() - 1] == '/' ==> path_of_spec(
            cdi_dir,
            resource_name,
        ) == cdi_dir + "kata."@ + dashes + ".yaml"@,
{
    reveal_strlit("/kata.");
    reveal_strlit("kata.");
    assert(text::dashed(resource_name) =~= dashes);
    let path = path_of_spec(cdi_dir, resource_name);
    if cdi_dir.len() > 0 && cdi_dir.last() != '/' {
        assert(path =~= cdi_dir + "/kata."@ + dashes + ".yaml"@);
    } else {
        assert(path =~= cdi_dir + "kata."@ + dashes + ".yaml"@);
    }
}

/// The bytes of a write go to the spec's own path with the two numbers and `.tmp` behind it.
pub proof fn law_tmp_path_by_parts(path: Seq<char>, pid: u32, seq: u64)
    ensures
        path_of_tmp(path, pid, seq) == path + ("."@ + text::decimal(pid as nat)) + ("."@
            + text::decimal(seq as nat)) + ".tmp"@,
{
    assert(path_of_tmp(path, pid, seq) =~= path + ("."@ + text::decimal(pid as nat)) + ("."@
        + text::decimal(seq as nat)) + ".tmp"@);
}

/// What a write does, action by action, as long as all goes well: it makes the registry, writes
/// the whole text beside the spec's place, and moves it there. Where the move fails it removes
/// what it wrote. It does nothing to any other path.
pub proof fn law_write_by_actions(
    cdi_dir: Seq<char>,
    resource_name: Seq<char>,
    contents: Seq<char>,
    pid: u32,
    seq: u64,
    removed: bool,
)
    ensures
        ({
            let path = path_of_spec(cdi_dir, resource_name);
            let tmp_path = path_of_tmp(path, pid, seq);
            let started = WriterView::start(cdi_dir, resource_name, contents, pid, seq);
            let made = started.after(true);
            let written = made.after(true);
            let moved = written.after(true);
            let left = written.after(false);
            &&& started.action() == (WriteActionView::CreateDirAll { dir: cdi_dir })
            &&& made.action() == (WriteActionView::Write { path: tmp_path, contents })
            &&& written.action() == (WriteActionView::Rename { from: tmp_path, to: path })
            &&& moved.action() == WriteActionView::Finish(WriteOutcome::Written)
            &&& left.action() == (WriteActionView::Remove { path: tmp_path })
            &&& left.after(removed).action() == WriteActionView::Finish(WriteOutcome::NotRenamed)
            &&& started.after(false).action() == WriteActionView::Finish(WriteOutcome::NoDirectory)
            &&& made.after(false).action() == WriteActionView::Finish(WriteOutcome::NotWritten)
        }),
{
}

/// A write that is done stays done, and no write forgets what it is to write, or where.
pub proof fn law_write_keeps(writer: WriterView, succeeded: bool)
    ensures
        writer.after(succeeded).dir == writer.dir,
        writer.after(succeeded).path == writer.path,
        writer.after(succeeded).tmp_path == writer.tmp_path,
        writer.after(succeeded).contents == writer.contents,
        writer.action() is Finish ==> writer.after(succeeded) == writer,
{
}

} // verus!
