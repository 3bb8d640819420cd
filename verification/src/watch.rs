//! One ListAndWatch stream: what the plugin does as the set of bound devices changes.
use vstd::prelude::*;

use crate::cdi::{self, spec_path, CdiSpecView};
use crate::dp::{Device, DeviceView};
use crate::plugin::{self, advertise, DeviceServer, ServerView, POLL_INTERVAL_SECS};
use crate::text;
use crate::vfio::{self, enumerate, IommufdDev};

verus! {

/// What a stream remembers: the numbers of the devices that it last reported.
#[derive(Debug)]
pub struct Watch {
    last: Option<Vec<u32>>,
}

/// What happened since the last action of a stream.
#[derive(Debug)]
pub enum WatchEvent {
    /// The kubelet opened the stream.
    Started,
    /// The kubelet still listens.
    StreamOpen,
    /// The kubelet dropped the stream.
    StreamClosed,
    /// The device directory was scanned, with this result.
    Scanned(Vec<IommufdDev>),
    /// The CDI spec was written or removed, or that failed.
    SpecHandled,
    /// The device list went out.
    Sent,
    /// The device list could not be sent.
    SendFailed,
    /// The time between two scans has passed.
    Slept,
}

/// What a stream does next.
#[derive(Debug)]
pub enum WatchAction {
    /// See whether the kubelet still listens.
    CheckStream,
    /// Scan the device directory.
    Scan,
    /// Remove the CDI spec, if there is one.
    RemoveSpec { path: String },
    /// Write the CDI spec of these devices.
    WriteSpec { devices: Vec<IommufdDev> },
    /// Send the device list.
    Send { devices: Vec<Device> },
    /// Let the time between two scans pass.
    Sleep { seconds: u64 },
    /// End the stream.
    Stop,
}

/// What a `WatchAction` says.
pub enum WatchActionView {
    CheckStream,
    Scan,
    RemoveSpec { path: Seq<char> },
    WriteSpec { devices: Seq<IommufdDev> },
    Send { devices: Seq<DeviceView> },
    Sleep { seconds: u64 },
    Stop,
}

impl View for Watch {
    type V = Option<Seq<u32>>;

    /// The numbers of the devices that were last reported, if any were.
    closed spec fn view(&self) -> Option<Seq<u32>> {
        match self.last {
            Some(nums) => Some(nums@),
            None => None,
        }
    }
}

impl View for WatchAction {
    type V = WatchActionView;

    open spec fn view(&self) -> WatchActionView {
        match *self {
            WatchAction::CheckStream => WatchActionView::CheckStream,
            WatchAction::Scan => WatchActionView::Scan,
            WatchAction::RemoveSpec { path } => WatchActionView::RemoveSpec { path: path@ },
            WatchAction::WriteSpec { devices } => WatchActionView::WriteSpec { devices: devices@ },
            WatchAction::Send { devices } => WatchActionView::Send {
                devices: devices@.map_values(|d: Device| d@),
            },
            WatchAction::Sleep { seconds } => WatchActionView::Sleep { seconds },
            WatchAction::Stop => WatchActionView::Stop,
        }
    }
}

/// The numbers of devices, in their order.
pub open spec fn nums(devs: Seq<IommufdDev>) -> Seq<u32> {
    devs.map_values(|d: IommufdDev| d.num)
}

/// What a stream does about a scan whose devices are `found`, and what it remembers then: nothing
/// where their numbers are those that it last reported; else it brings the CDI spec into line.
pub open spec fn scanned(
    server: ServerView,
    last: Option<Seq<u32>>,
    found: Seq<IommufdDev>,
) -> (Option<Seq<u32>>, WatchActionView) {
    if last == Some(nums(found)) {
        (last, WatchActionView::Sleep { seconds: POLL_INTERVAL_SECS })
    } else if found.len() == 0 {
        (
            Some(nums(found)),
            WatchActionView::RemoveSpec {
                path: cdi::path_of_spec(server.cdi_dir, server.resource.name@),
            },
        )
    } else {
        (Some(nums(found)), WatchActionView::WriteSpec { devices: found })
    }
}

/// What a stream does upon an event, and what it remembers then.
pub open spec fn step(
    server: ServerView,
    last: Option<Seq<u32>>,
    event: WatchEvent,
) -> (Option<Seq<u32>>, WatchActionView) {
    match event {
        WatchEvent::Started => (last, WatchActionView::CheckStream),
        WatchEvent::StreamOpen => (last, WatchActionView::Scan),
        WatchEvent::StreamClosed => (last, WatchActionView::Stop),
        WatchEvent::Scanned(devs) => scanned(
            server,
            last,
            vfio::enumeration(devs@, server.resource),
        ),
        WatchEvent::SpecHandled => (last, WatchActionView::Send { devices: reported(last) }),
        WatchEvent::Sent => (last, WatchActionView::Sleep { seconds: POLL_INTERVAL_SECS }),
        WatchEvent::SendFailed => (last, WatchActionView::Stop),
        WatchEvent::Slept => (last, WatchActionView::CheckStream),
    }
}

/// The device list that reports as many devices as there are numbers.
pub open spec fn reported(last: Option<Seq<u32>>) -> Seq<DeviceView> {
    match last {
        Some(nums) => plugin::advertised(nums.len()),
        None => plugin::advertised(0),
    }
}

/// Whether the numbers are the same, in the same order.
fn same_nums(a: &Vec<u32>, b: &Vec<u32>) -> (r: bool)
    ensures
        r == (a@ == b@),
{
    if a.len() != b.len() {
        return false;
    }
    let mut i: usize = 0;
    while i < a.len()
        invariant
            a.len() == b.len(),
            i <= a.len(),
            forall|k: int| 0 <= k < i ==> a[k] == b[k],
        decreases a.len() - i,
    {
        if a[i] != b[i] {
            return false;
        }
        i = i + 1;
    }
    assert(a@ =~= b@);
    true
}

fn nums_of(devs: &Vec<IommufdDev>) -> (r: Vec<u32>)
    ensures
        r@ == nums(devs@),
{
    let mut out: Vec<u32> = Vec::new();
    let mut i: usize = 0;
    while i < devs.len()
        invariant
            i <= devs.len(),
            out@ == nums(devs@).take(i as int),
        decreases devs.len() - i,
    {
        out.push(devs[i].num);
        assert(out@ =~= nums(devs@).take(i + 1));
        i = i + 1;
    }
    assert(out@ =~= nums(devs@));
    out
}

impl Watch {
    /// A stream that has reported nothing yet.
    pub fn new() -> (r: Self)
        ensures
            r@ is None,
    {
        Watch { last: None }
    }
}

impl DeviceServer {
    /// The next action of a ListAndWatch stream. The stream exits when the kubelet drops it, even
    /// if the device set never changes again. It compares the numbers of the devices behind the
    /// advertised IDs, not the IDs: those are just indices, so a swap of one device for another
    /// would look the same to the kubelet while the CDI spec's mapping went stale.
    pub fn list_and_watch(&self, watch: &mut Watch, event: WatchEvent) -> (r: WatchAction)
        ensures
            final(watch)@ == step(self@, old(watch)@, event).0,
            r@ == step(self@, old(watch)@, event).1,
            r matches WatchAction::WriteSpec { devices } ==> event is Scanned && devices@
                == vfio::enumeration(event->Scanned_0@, self@.resource),
            r matches WatchAction::RemoveSpec { path } ==> event is Scanned && vfio::enumeration(
                event->Scanned_0@,
                self@.resource,
            ).len() == 0 && path@ == cdi::path_of_spec(self@.cdi_dir, self@.resource.name@),
            r matches WatchAction::Send { devices } ==> event is SpecHandled && devices@.len()
                == reported(old(watch)@).len() && forall|i: int|
                0 <= i < devices@.len() ==> (#[trigger] devices@[i]).id@ == text::decimal(i as nat)
                    && devices@[i].health@ == "Healthy"@,
            r matches WatchAction::Sleep { seconds } ==> seconds == 5,
    {
        match event {
            WatchEvent::Started => WatchAction::CheckStream,
            WatchEvent::StreamOpen => WatchAction::Scan,
            WatchEvent::StreamClosed => WatchAction::Stop,
            WatchEvent::Scanned(devs) => {
                let found = enumerate(devs, self.resource());
                let nums = nums_of(&found);
                let unchanged = match &watch.last {
                    Some(last) => same_nums(last, &nums),
                    None => false,
                };
                if unchanged {
                    return WatchAction::Sleep { seconds: POLL_INTERVAL_SECS };
                }
                watch.last = Some(nums);
                if found.len() == 0 {
                    let path = spec_path(self.cdi_dir(), self.resource().name);
                    WatchAction::RemoveSpec { path }
                } else {
                    WatchAction::WriteSpec { devices: found }
                }
            },
            WatchEvent::SpecHandled => {
                let count: usize = match &watch.last {
                    Some(last) => last.len(),
                    None => 0,
                };
                WatchAction::Send { devices: advertise(count) }
            },
            WatchEvent::Sent => WatchAction::Sleep { seconds: POLL_INTERVAL_SECS },
            WatchEvent::SendFailed => WatchAction::Stop,
            WatchEvent::Slept => WatchAction::CheckStream,
        }
    }
}

/// Whether `event` can be what comes of `action`.
pub open spec fn answers(action: WatchActionView, event: WatchEvent) -> bool {
    match action {
        WatchActionView::CheckStream => event is StreamOpen || event is StreamClosed,
        WatchActionView::Scan => event is Scanned,
        WatchActionView::RemoveSpec { .. } => event is SpecHandled,
        WatchActionView::WriteSpec { .. } => event is SpecHandled,
        WatchActionView::Send { .. } => event is Sent || event is SendFailed,
        WatchActionView::Sleep { .. } => event is Slept,
        WatchActionView::Stop => false,
    }
}

/// Whether `events` can be what happens to a stream of `server`, from its start on.
pub open spec fn happens(server: ServerView, events: Seq<WatchEvent>) -> bool {
    &&& events.len() > 0
    &&& events[0] is Started
    &&& forall|k: int|
        0 < k < events.len() ==> answers(action_at(server, events, k - 1), #[trigger] events[k])
}

/// What a stream of `server` remembers before the event `k` of `events`.
pub open spec fn last_at(server: ServerView, events: Seq<WatchEvent>, k: int) -> Option<Seq<u32>>
    decreases k,
{
    if k <= 0 {
        None
    } else {
        step(server, last_at(server, events, k - 1), events[k - 1]).0
    }
}

/// What a stream of `server` does upon the event `k` of `events`.
pub open spec fn action_at(server: ServerView, events: Seq<WatchEvent>, k: int) -> WatchActionView {
    step(server, last_at(server, events, k), events[k]).1
}

/// The device list that the kubelet got last in the events before `k`, if it got one.
pub open spec fn told(server: ServerView, events: Seq<WatchEvent>, k: int) -> Option<
    Seq<DeviceView>,
>
    decreases k,
{
    if k <= 1 {
        None
    } else if events[k - 1] is Sent {
        match action_at(server, events, k - 2) {
            WatchActionView::Send { devices } => Some(devices),
            _ => None,
        }
    } else {
        told(server, events, k - 1)
    }
}

/// Where in its round a stream stands when it does `action`, and what the kubelet knows by then:
/// outside the steps that report a change, it was told of the devices last found.
spec fn told_in_order(
    last: Option<Seq<u32>>,
    told: Option<Seq<DeviceView>>,
    action: WatchActionView,
) -> bool {
    match action {
        WatchActionView::RemoveSpec { .. } => last is Some,
        WatchActionView::WriteSpec { .. } => last is Some,
        WatchActionView::Send { devices } => last is Some && devices == reported(last),
        WatchActionView::Stop => true,
        _ => last is Some ==> told == Some(reported(last)),
    }
}

proof fn lemma_told_in_order(server: ServerView, events: Seq<WatchEvent>, k: int)
    requires
        happens(server, events),
        0 <= k < events.len(),
    ensures
        told_in_order(
            last_at(server, events, k + 1),
            told(server, events, k + 1),
            action_at(server, events, k),
        ),
    decreases k,
{
    reveal_with_fuel(last_at, 2);
    reveal_with_fuel(told, 2);
    if k > 0 {
        lemma_told_in_order(server, events, k - 1);
        assert(answers(action_at(server, events, k - 1), events[k]));
    }
}

/// Whenever a stream rests between two scans, the kubelet was told of exactly the devices that
/// the last scan found: as many as were bound, with their positions as IDs.
pub proof fn law_told_what_is_bound(
    server: ServerView,
    events: Seq<WatchEvent>,
    scan: int,
    rest: int,
)
    requires
        happens(server, events),
        0 <= scan <= rest < events.len(),
        events[scan] is Scanned,
        forall|k: int| scan < k <= rest ==> !(#[trigger] events[k] is Scanned),
        action_at(server, events, rest) is Sleep,
    ensures
        told(server, events, rest + 1) == Some(
            plugin::advertised(
                vfio::enumeration(events[scan]->Scanned_0@, server.resource).len(),
            ),
        ),
{
    lemma_told_in_order(server, events, rest);
    lemma_last_since_scan(server, events, scan, rest);
}

proof fn lemma_last_since_scan(server: ServerView, events: Seq<WatchEvent>, scan: int, k: int)
    requires
        0 <= scan <= k < events.len(),
        events[scan] is Scanned,
        forall|i: int| scan < i <= k ==> !(#[trigger] events[i] is Scanned),
    ensures
        last_at(server, events, k + 1) == Some(
            nums(vfio::enumeration(events[scan]->Scanned_0@, server.resource)),
        ),
    decreases k,
{
    reveal_with_fuel(last_at, 2);
    if k > scan {
        lemma_last_since_scan(server, events, scan, k - 1);
        assert(!(events[k] is Scanned));
    }
}

/// The CDI spec is brought into line before the kubelet is told: a device list goes out only
/// right after the spec of the devices that it counts was written, or removed where there are
/// none.
pub proof fn law_spec_before_list(server: ServerView, events: Seq<WatchEvent>, k: int)
    requires
        happens(server, events),
        0 <= k < events.len(),
        action_at(server, events, k) is Send,
    ensures
        k > 0,
        action_at(server, events, k)->Send_devices == match action_at(server, events, k - 1) {
            WatchActionView::WriteSpec { devices } => plugin::advertised(devices.len()),
            _ => plugin::advertised(0),
        },
        action_at(server, events, k - 1) == (WatchActionView::RemoveSpec {
            path: cdi::path_of_spec(server.cdi_dir, server.resource.name@),
        }) || action_at(server, events, k - 1) is WriteSpec,
{
    reveal_with_fuel(last_at, 3);
    assert(events[k] is SpecHandled);
    assert(answers(action_at(server, events, k - 1), events[k]));
}

/// A scan that finds the devices last reported changes nothing and reports nothing.
pub proof fn law_unchanged_is_quiet(
    server: ServerView,
    last: Option<Seq<u32>>,
    found: Seq<IommufdDev>,
)
    ensures
        scanned(server, scanned(server, last, found).0, found) == (
            scanned(server, last, found).0,
            WatchActionView::Sleep { seconds: POLL_INTERVAL_SECS },
        ),
{
}

/// A change of the devices is noticed even where their count stays: the next scan brings the CDI
/// spec into line, and the stream remembers the new devices.
pub proof fn law_swap_is_noticed(
    server: ServerView,
    last: Option<Seq<u32>>,
    found1: Seq<IommufdDev>,
    found2: Seq<IommufdDev>,
)
    requires
        nums(found1) != nums(found2),
    ensures
        scanned(server, scanned(server, last, found1).0, found2).0 == Some(nums(found2)),
        scanned(server, scanned(server, last, found1).0, found2).1 == if found2.len() == 0 {
            WatchActionView::RemoveSpec {
                path: cdi::path_of_spec(server.cdi_dir, server.resource.name@),
            }
        } else {
            WatchActionView::WriteSpec { devices: found2 }
        },
{
}

/// A resource is advertised iff matching devices are bound: the reported list is empty exactly
/// where the scan holds no device that the resource stands for.
pub proof fn law_advertised_iff_bound(server: ServerView, devs: Seq<IommufdDev>)
    ensures
        reported(Some(nums(vfio::enumeration(devs, server.resource)))).len() > 0 <==> exists|
            d: IommufdDev,
        | #[trigger] devs.contains(d) && server.resource.selects(d),
        reported(Some(nums(vfio::enumeration(devs, server.resource)))).len() == vfio::matching(
            devs,
            server.resource,
        ).len(),
{
    let found = vfio::enumeration(devs, server.resource);
    vfio::law_enumeration(devs, server.resource);
    if found.len() > 0 {
        assert(found.contains(found[0]));
        vfio::law_enumerated_iff_matching(found, devs, server.resource, found[0]);
    }
    if exists|d: IommufdDev| #[trigger] devs.contains(d) && server.resource.selects(d) {
        let d = choose|d: IommufdDev| #[trigger] devs.contains(d) && server.resource.selects(d);
        vfio::law_enumerated_iff_matching(found, devs, server.resource, d);
    }
}

/// Whether the fully qualified CDI name `name` is that of the device at `i` in `spec`.
pub open spec fn resolves(spec: CdiSpecView, name: Seq<char>, i: int) -> bool {
    0 <= i < spec.devices.len() && name == plugin::cdi_name(spec.kind, spec.devices[i].name)
}

/// What `Allocate` answers for an advertised ID is resolved by the CDI spec of the same devices,
/// to the device node at that ID's position and to nothing else.
pub proof fn law_allocated_name_resolves(
    resource_name: Seq<char>,
    found: Seq<IommufdDev>,
    ids: Seq<Seq<char>>,
    k: int,
    i: int,
    j: int,
)
    requires
        0 <= i < found.len(),
        0 <= k < ids.len(),
        ids[k] == reported(Some(nums(found)))[i].id,
    ensures
        reported(Some(nums(found))).len() == cdi::spec_for(resource_name, found).devices.len(),
        resolves(
            cdi::spec_for(resource_name, found),
            plugin::allocated(resource_name, ids).cdi_devices[k],
            j,
        ) <==> j == i,
        cdi::spec_for(resource_name, found).devices[i].device_nodes.len() == 1,
        cdi::spec_for(resource_name, found).devices[i].device_nodes[0].path == found[i].path@,
{
    let name = plugin::cdi_name(resource_name, ids[k]);
    if 0 <= j < found.len() && name == plugin::cdi_name(resource_name, text::decimal(j as nat)) {
        let n = resource_name.len() + "="@.len();
        assert(name.skip(n as int) =~= ids[k]);
        assert(name.skip(n as int) =~= text::decimal(j as nat));
        text::law_decimal_injective(i as nat, j as nat);
    }
}

/// The CDI spec of a scan holds the devices that the resource stands for and no others, each
/// once for every time it was found, and in the order of their numbers.
pub proof fn law_spec_holds_the_matching(devs: Seq<IommufdDev>, res: vfio::Resource, i: int, j: int)
    requires
        0 <= i <= j < vfio::enumeration(devs, res).len(),
    ensures
        cdi::spec_for(res.name@, vfio::enumeration(devs, res)).kind == res.name@,
        cdi::spec_for(res.name@, vfio::enumeration(devs, res)).devices.len() == vfio::matching(
            devs,
            res,
        ).len(),
        cdi::spec_for(res.name@, vfio::enumeration(devs, res)).devices[i] == cdi::device_for(
            i as nat,
            vfio::enumeration(devs, res)[i].path@,
        ),
        devs.contains(vfio::enumeration(devs, res)[i]),
        res.selects(vfio::enumeration(devs, res)[i]),
        vfio::enumeration(devs, res)[i].num <= vfio::enumeration(devs, res)[j].num,
{
    let found = vfio::enumeration(devs, res);
    vfio::law_enumeration(devs, res);
    assert(found.contains(found[i]));
    vfio::law_enumerated_iff_matching(found, devs, res, found[i]);
}

/// What a stream does, event by event: it looks whether the kubelet listens when it starts and
/// after each rest, scans iff the kubelet does, and ends iff the kubelet does not or takes no
/// list. Only a scan leads to a change of the CDI spec or of what the stream remembers; every
/// change of the spec is followed by a list, and every list that went out by a rest of five
/// seconds.
pub proof fn law_round_by_events(server: ServerView, last: Option<Seq<u32>>, event: WatchEvent)
    ensures
        step(server, last, event).1 is CheckStream <==> event is Started || event is Slept,
        step(server, last, event).1 is Scan <==> event is StreamOpen,
        step(server, last, event).1 is Stop <==> event is StreamClosed || event is SendFailed,
        step(server, last, event).1 is Send <==> event is SpecHandled,
        event is Sent ==> step(server, last, event).1 is Sleep,
        step(server, last, event).1 is Sleep ==> event is Sent || event is Scanned,
        step(server, last, event).1 matches WatchActionView::Sleep { seconds } ==> seconds == 5,
        step(server, last, event).0 != last ==> event is Scanned,
{
}

proof fn lemma_nothing_before_first_scan(server: ServerView, events: Seq<WatchEvent>, k: int)
    requires
        0 <= k < events.len(),
        forall|i: int| 0 <= i < k ==> !(#[trigger] events[i] is Scanned),
    ensures
        last_at(server, events, k) is None,
    decreases k,
{
    if k > 0 {
        lemma_nothing_before_first_scan(server, events, k - 1);
        assert(!(events[k - 1] is Scanned));
    }
}

/// What a stream does upon a scan, the first one included, depends on what this scan and the one
/// before it found, and on nothing else. Where the devices behind the positions are the same it
/// rests; else, where there are devices, it writes the spec of exactly those, one by one, and
/// where there are none it removes the spec. `before` is the scan before, if there is one, else
/// a negative number.
pub proof fn law_scan_decides(server: ServerView, events: Seq<WatchEvent>, before: int, k: int)
    requires
        before < k < events.len(),
        0 <= k,
        events[k] is Scanned,
        before >= 0 ==> events[before] is Scanned,
        forall|i: int| before < i < k && 0 <= i ==> !(#[trigger] events[i] is Scanned),
    ensures
        ({
            let found = vfio::enumeration(events[k]->Scanned_0@, server.resource);
            let known = vfio::enumeration(events[before]->Scanned_0@, server.resource);
            let same = before >= 0 && known.len() == found.len() && forall|i: int|
                0 <= i < found.len() ==> (#[trigger] known[i]).num == found[i].num;
            match action_at(server, events, k) {
                WatchActionView::Sleep { seconds } => same && seconds == 5,
                WatchActionView::RemoveSpec { path } => !same && found.len() == 0 && path
                    == cdi::path_of_spec(server.cdi_dir, server.resource.name@),
                WatchActionView::WriteSpec { devices } => {
                    &&& !same
                    &&& found.len() > 0
                    &&& devices.len() == found.len()
                    &&& forall|i: int|
                        0 <= i < found.len() ==> #[trigger] devices[i] == found[i]
                },
                _ => false,
            }
        }),
{
    let found = vfio::enumeration(events[k]->Scanned_0@, server.resource);
    let known = vfio::enumeration(events[before]->Scanned_0@, server.resource);
    if before >= 0 {
        if k - 1 >= before {
            lemma_last_since_scan(server, events, before, k - 1);
        }
        assert(last_at(server, events, k) == Some(nums(known)));
        if nums(known) == nums(found) {
            assert(known.len() == nums(known).len());
            assert forall|i: int| 0 <= i < found.len() implies (#[trigger] known[i]).num
                == found[i].num by {
                assert(nums(known)[i] == nums(found)[i]);
            }
        }
        if known.len() == found.len() && forall|i: int|
            0 <= i < found.len() ==> (#[trigger] known[i]).num == found[i].num {
            assert(nums(known) =~= nums(found));
        }
    } else {
        lemma_nothing_before_first_scan(server, events, k);
    }
}

/// The devices whose spec a stream writes are those of the scan that it just made, of the
/// server's vendor and class and no other, each place of the scan exactly once, in the order of
/// their numbers. The result gives each one's place in the scan.
pub proof fn law_written_devices_by_places(
    server: ServerView,
    events: Seq<WatchEvent>,
    k: int,
) -> (places: Seq<int>)
    requires
        0 <= k < events.len(),
        action_at(server, events, k) is WriteSpec,
    ensures
        events[k] is Scanned,
        ({
            let devs = events[k]->Scanned_0@;
            let written = action_at(server, events, k)->WriteSpec_devices;
            &&& places.len() == written.len()
            &&& places.no_duplicates()
            &&& forall|i: int|
                0 <= i < places.len() ==> 0 <= #[trigger] places[i] < devs.len()
                    && devs[places[i]] == written[i]
            &&& forall|p: int|
                0 <= p < devs.len() ==> places.contains(p) == ((#[trigger] devs[p]).vendor
                    == server.resource.vendor && devs[p].class_prefix
                    == server.resource.class_prefix)
            &&& forall|i: int, j: int|
                0 <= i < j < written.len() ==> (#[trigger] written[i]).num <= (
                #[trigger] written[j]).num
        }),
{
    let places = vfio::law_enumeration_by_places(events[k]->Scanned_0@, server.resource);
    let written = action_at(server, events, k)->WriteSpec_devices;
    assert forall|i: int, j: int| 0 <= i < j < written.len() implies (#[trigger] written[i]).num
        <= (#[trigger] written[j]).num by {
        assert(events[k]->Scanned_0@[places[i]] == written[i]);
        assert(events[k]->Scanned_0@[places[j]] == written[j]);
    }
    places
}

/// A device list goes out only for the scan that came right before the spec was brought into
/// line. It has one healthy entry for each device found, whose ID is the position; the CDI spec
/// that was written for the same devices has that ID at that position, and resolves it to the
/// node of the device found there.
pub proof fn law_list_by_positions(server: ServerView, events: Seq<WatchEvent>, k: int)
    requires
        happens(server, events),
        0 <= k < events.len(),
        action_at(server, events, k) is Send,
    ensures
        k > 0,
        events[k - 1] is Scanned,
        ({
            let found = vfio::enumeration(events[k - 1]->Scanned_0@, server.resource);
            let list = action_at(server, events, k)->Send_devices;
            &&& list.len() == found.len()
            &&& forall|i: int|
                0 <= i < found.len() ==> {
                    &&& (#[trigger] list[i]).id == text::decimal(i as nat)
                    &&& list[i].health == "Healthy"@
                }
            &&& found.len() == 0 ==> action_at(server, events, k - 1) == (
            WatchActionView::RemoveSpec {
                path: cdi::path_of_spec(server.cdi_dir, server.resource.name@),
            })
            &&& found.len() > 0 ==> {
                let written = action_at(server, events, k - 1)->WriteSpec_devices;
                let spec = cdi::spec_for(server.resource.name@, written);
                &&& action_at(server, events, k - 1) is WriteSpec
                &&& spec.devices.len() == list.len()
                &&& forall|i: int|
                    0 <= i < found.len() ==> {
                        &&& spec.devices[i].name == (#[trigger] list[i]).id
                        &&& spec.devices[i].device_nodes.len() == 1
                        &&& spec.devices[i].device_nodes[0].path == found[i].path@
                    }
            }
        }),
{
    reveal_with_fuel(last_at, 3);
    assert(events[k] is SpecHandled);
    assert(answers(action_at(server, events, k - 1), events[k]));
    plugin::law_advertised_by_position(
        vfio::enumeration(events[k - 1]->Scanned_0@, server.resource).len(),
    );
}

} // verus!
