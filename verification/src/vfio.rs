//! VFIO-bound devices and the resources they are declared as.
use vstd::prelude::*;

verus! {

/// Where the kernel puts the VFIO character devices; the IOMMUFD ones are under `devices/`.
pub const VFIO_DIR: &'static str = "/dev/vfio";

/// Where the kernel shows the PCI identity behind each IOMMUFD character device.
pub const SYSFS_DIR: &'static str = "/sys/class/vfio-dev";

/// One IOMMUFD character device and the PCI identity behind it.
#[derive(Clone, Debug, PartialEq, Eq)]
pub struct IommufdDev {
    /// The device node, such as `/dev/vfio/devices/vfio7`.
    pub path: String,
    /// The number in the node's name.
    pub num: u32,
    /// PCI vendor ID.
    pub vendor: u16,
    /// Upper 16 bits of the 24-bit PCI class.
    pub class_prefix: u16,
}

/// One advertised Kubernetes resource: an extended-resource name bound to a (PCI vendor, PCI
/// class) pair. A resource is advertised iff matching IOMMUFD devices are present.
///
/// Supporting a new device type is one row of the table: in `resources`, along with the length of
/// its result, and in `table`. What is stated of the rows speaks of the new one too:
/// `law_table_by_identity`, and the proofs of `law_one_spec_per_resource`,
/// `law_one_socket_per_resource` and `law_rows_register_apart`, which reveal the names.
/// Nothing else changes.
#[derive(Clone, Copy, Debug, PartialEq)]
pub struct Resource {
    /// Kubernetes extended-resource name; also the CDI kind.
    pub name: &'static str,
    /// PCI vendor ID, such as `0x10de` for NVIDIA.
    pub vendor: u16,
    /// Upper 16 bits of the 24-bit PCI class (class byte, then subclass byte), such as `0x0302`
    /// for a 3D controller.
    pub class_prefix: u16,
}

impl Resource {
    /// Whether the PCI identity of `d` is the one that this resource stands for.
    pub open spec fn selects(self, d: IommufdDev) -> bool {
        d.vendor == self.vendor && d.class_prefix == self.class_prefix
    }

    /// Whether the PCI identity of `d` is the one that this resource stands for.
    pub fn matches(&self, d: &IommufdDev) -> (r: bool)
        ensures
            r == self.selects(*d),
            r == (d.vendor == self.vendor && d.class_prefix == self.class_prefix),
    {
        d.vendor == self.vendor && d.class_prefix == self.class_prefix
    }
}

/// The devices among `devs` that `res` stands for, in the order of `devs`.
pub open spec fn matching(devs: Seq<IommufdDev>, res: Resource) -> Seq<IommufdDev> {
    devs.filter(|d: IommufdDev| res.selects(d))
}

/// The devices among `devs` with the number `n`, in the order of `devs`.
pub open spec fn numbered(devs: Seq<IommufdDev>, n: u32) -> Seq<IommufdDev> {
    devs.filter(|d: IommufdDev| d.num == n)
}

/// Whether the device numbers never fall from one device to the next.
pub open spec fn sorted_by_num(devs: Seq<IommufdDev>) -> bool {
    forall|i: int, j: int| 0 <= i <= j < devs.len() ==> devs[i].num <= devs[j].num
}

/// Whether `found` is what `devs` holds for `res`: the matching devices, each as often as it is
/// there, in the order of their numbers; devices with one number keep the order of `devs`.
pub open spec fn enumerates(
    found: Seq<IommufdDev>,
    devs: Seq<IommufdDev>,
    res: Resource,
) -> bool {
    &&& sorted_by_num(found)
    &&& forall|n: u32| #[trigger] numbered(found, n) == numbered(matching(devs, res), n)
}

/// What `devs` holds for `res`; see `law_enumeration`.
pub open spec fn enumeration(devs: Seq<IommufdDev>, res: Resource) -> Seq<IommufdDev> {
    choose|found: Seq<IommufdDev>| enumerates(found, devs, res)
}

/// Everything this plugin can advertise.
pub fn resources() -> (r: [Resource; 2])
    ensures
        r@ == table(),
        r[0].name@ == "nvidia.com/gpu"@ && r[0].vendor == 0x10de && r[0].class_prefix == 0x0302,
        r[1].name@ == "nvidia.com/nvswitch"@ && r[1].vendor == 0x10de && r[1].class_prefix
            == 0x0680,
{
    [
        Resource {
            name: "nvidia.com/gpu",
            vendor: 0x10de,
            class_prefix: 0x0302,  // 3D controller
        },
        Resource {
            name: "nvidia.com/nvswitch",
            vendor: 0x10de,
            class_prefix: 0x0680,  // bridge: other
        },
    ]
}

/// The rows of the resource table.
pub open spec fn table() -> Seq<Resource> {
    seq![
        Resource { name: "nvidia.com/gpu", vendor: 0x10de, class_prefix: 0x0302 },
        Resource { name: "nvidia.com/nvswitch", vendor: 0x10de, class_prefix: 0x0680 },
    ]
}

proof fn lemma_filter_front(d: IommufdDev, rest: Seq<IommufdDev>, pred: spec_fn(IommufdDev) -> bool)
    ensures
        (seq![d] + rest).filter(pred) == if pred(d) {
            seq![d] + rest.filter(pred)
        } else {
            rest.filter(pred)
        },
{
    Seq::filter_distributes_over_add(seq![d], rest, pred);
    reveal_with_fuel(Seq::filter, 2);
    assert(seq![d].drop_last() =~= Seq::<IommufdDev>::empty());
    assert(seq![d].filter(pred) =~= if pred(d) {
        seq![d]
    } else {
        Seq::empty()
    });
    assert(Seq::<IommufdDev>::empty() + rest.filter(pred) =~= rest.filter(pred));
}

/// Putting `d` before the devices of `out` that do not come before it puts it first among those
/// with its number.
proof fn lemma_numbered_insert(out: Seq<IommufdDev>, at: int, d: IommufdDev, n: u32)
    requires
        0 <= at <= out.len(),
        forall|i: int| 0 <= i < at ==> out[i].num < d.num,
    ensures
        numbered(out.insert(at, d), n) == numbered(seq![d] + out, n),
{
    let pred = |x: IommufdDev| x.num == n;
    let head = out.take(at);
    let tail = out.skip(at);
    assert(out =~= head + tail);
    assert(out.insert(at, d) =~= head + (seq![d] + tail));
    Seq::filter_distributes_over_add(head, tail, pred);
    Seq::filter_distributes_over_add(head, seq![d] + tail, pred);
    lemma_filter_front(d, tail, pred);
    lemma_filter_front(d, out, pred);
    if n == d.num {
        assert forall|x: IommufdDev| head.contains(x) implies !pred(x) by {}
        head.lemma_all_neg_filter_empty(pred);
        assert(head.filter(pred) =~= Seq::empty());
    }
    assert(numbered(out.insert(at, d), n) =~= numbered(seq![d] + out, n));
}

/// The IOMMUFD devices among `devs` whose PCI identity matches `res`, sorted numerically. `devs`
/// is a scan of the device directory; a scan that is sorted already keeps its order.
pub fn enumerate(devs: Vec<IommufdDev>, res: &Resource) -> (r: Vec<IommufdDev>)
    ensures
        enumerates(r@, devs@, *res),
        r@ == enumeration(devs@, *res),
        r@.len() == matching(devs@, *res).len(),
        sorted_by_num(devs@) ==> r@ == matching(devs@, *res),
        forall|i: int, j: int| 0 <= i <= j < r@.len() ==> r@[i].num <= r@[j].num,
        forall|d: IommufdDev| #[trigger]
            r@.contains(d) <==> devs@.contains(d) && d.vendor == res.vendor && d.class_prefix
                == res.class_prefix,
{
    let ghost all = devs@;
    let ghost pred = |d: IommufdDev| res.selects(d);
    let mut rest = devs;
    let mut out: Vec<IommufdDev> = Vec::new();
    proof {
        reveal(Seq::filter);
        assert(all.skip(all.len() as int) =~= Seq::empty());
        assert(matching(all.skip(all.len() as int), *res) =~= Seq::empty());
    }
    while rest.len() > 0
        invariant
            pred == |d: IommufdDev| res.selects(d),
            rest.len() <= all.len(),
            rest@ == all.take(rest.len() as int),
            enumerates(out@, all.skip(rest.len() as int), *res),
            out@.len() == matching(all.skip(rest.len() as int), *res).len(),
            sorted_by_num(all) ==> out@ == matching(all.skip(rest.len() as int), *res),
        decreases rest.len(),
    {
        let ghost k = rest.len() as int;
        let ghost tail = all.skip(k);
        let ghost before = out@;
        if let Some(d) = rest.pop() {
            assert(d == all[k - 1]);
            assert(all.skip(k - 1) =~= seq![d] + tail);
            proof {
                lemma_filter_front(d, tail, pred);
            }
            if res.matches(&d) {
                let mut at: usize = 0;
                while at < out.len() && out[at].num < d.num
                    invariant
                        at <= out.len(),
                        forall|i: int| 0 <= i < at ==> out[i].num < d.num,
                    decreases out.len() - at,
                {
                    at = at + 1;
                }
                out.insert(at, d);
                proof {
                    let wanted = matching(all.skip(k - 1), *res);
                    assert(wanted == seq![d] + matching(tail, *res));
                    assert forall|n: u32| #[trigger] numbered(out@, n) == numbered(wanted, n) by {
                        lemma_numbered_insert(before, at as int, d, n);
                        lemma_filter_front(d, before, |x: IommufdDev| x.num == n);
                        lemma_filter_front(
                            d,
                            matching(tail, *res),
                            |x: IommufdDev| x.num == n,
                        );
                        assert(numbered(before, n) == numbered(matching(tail, *res), n));
                    }
                    if sorted_by_num(all) && at > 0 {
                        matching(tail, *res).lemma_index_contains(0);
                        tail.lemma_filter_contains_rev(pred, before[0]);
                        let j = tail.index_of(before[0]);
                        assert(all[k + j] == before[0]);
                        assert(false);
                    }
                    if sorted_by_num(all) {
                        assert(before.insert(0, d) =~= seq![d] + before);
                    }
                }
            }
        }
        assert(rest@ =~= all.take(k - 1));
    }
    assert(all.skip(0) =~= all);
    proof {
        law_enumeration(all, *res);
        law_enumeration_unique(out@, enumeration(all, *res), all, *res);
        assert forall|d: IommufdDev| #[trigger]
            out@.contains(d) <==> all.contains(d) && d.vendor == res.vendor && d.class_prefix
                == res.class_prefix by {
            law_enumerated_by_identity(all, *res, d);
        }
    }
    out
}

proof fn lemma_position(devs: Seq<IommufdDev>, n: u32) -> (at: int)
    requires
        sorted_by_num(devs),
    ensures
        0 <= at <= devs.len(),
        forall|i: int| 0 <= i < at ==> devs[i].num < n,
        forall|i: int| at <= i < devs.len() ==> n <= devs[i].num,
    decreases devs.len(),
{
    if devs.len() == 0 || devs.last().num < n {
        devs.len() as int
    } else {
        let front = devs.drop_last();
        let at = lemma_position(front, n);
        assert(forall|i: int| 0 <= i < front.len() ==> devs[i] == #[trigger] front[i]);
        assert forall|i: int| 0 <= i < at implies devs[i].num < n by {
            assert(front[i].num < n);
        }
        assert forall|i: int| at <= i < devs.len() implies n <= devs[i].num by {
            if i < front.len() {
                assert(n <= front[i].num);
            }
        }
        at
    }
}

proof fn lemma_arranged(devs: Seq<IommufdDev>) -> (r: Seq<IommufdDev>)
    ensures
        sorted_by_num(r),
        forall|n: u32| #[trigger] numbered(r, n) == numbered(devs, n),
        r.len() == devs.len(),
    decreases devs.len(),
{
    if devs.len() == 0 {
        devs
    } else {
        let d = devs[0];
        let tail = devs.drop_first();
        let rest = lemma_arranged(tail);
        let at = lemma_position(rest, d.num);
        let r = rest.insert(at, d);
        assert(devs =~= seq![d] + tail);
        assert forall|n: u32| #[trigger] numbered(r, n) == numbered(devs, n) by {
            lemma_numbered_insert(rest, at, d, n);
            lemma_filter_front(d, rest, |x: IommufdDev| x.num == n);
            lemma_filter_front(d, tail, |x: IommufdDev| x.num == n);
            assert(numbered(rest, n) == numbered(tail, n));
        }
        r
    }
}

/// Every scan has an enumeration for every resource: one device for each that matches.
pub proof fn law_enumeration(devs: Seq<IommufdDev>, res: Resource)
    ensures
        enumerates(enumeration(devs, res), devs, res),
        enumeration(devs, res).len() == matching(devs, res).len(),
{
    let found = lemma_arranged(matching(devs, res));
    assert(enumerates(found, devs, res));
    law_enumeration_unique(found, enumeration(devs, res), devs, res);
}

/// A device is enumerated for a resource iff the scan holds it and its PCI identity matches.
pub proof fn law_enumerated_iff_matching(
    found: Seq<IommufdDev>,
    devs: Seq<IommufdDev>,
    res: Resource,
    d: IommufdDev,
)
    requires
        enumerates(found, devs, res),
    ensures
        found.contains(d) <==> devs.contains(d) && res.selects(d),
{
    broadcast use Seq::lemma_filter_contains, Seq::lemma_filter_contains_rev, Seq::lemma_filter_pred;

    let wanted = matching(devs, res);
    let same_num = |x: IommufdDev| x.num == d.num;
    assert(numbered(found, d.num) == numbered(wanted, d.num));
    if found.contains(d) {
        let i = found.index_of(d);
        assert(found.filter(same_num).contains(found[i]));
        assert(wanted.filter(same_num).contains(d));
        assert(wanted.contains(d));
        let j = wanted.index_of(d);
        assert(res.selects(wanted[j]));
    }
    if devs.contains(d) && res.selects(d) {
        let i = devs.index_of(d);
        assert(wanted.contains(devs[i]));
        let j = wanted.index_of(d);
        assert(wanted.filter(same_num).contains(wanted[j]));
        assert(found.filter(same_num).contains(d));
    }
}

/// One scan has one enumeration for a resource: no other list has the properties that
/// `enumerate` promises.
pub proof fn law_enumeration_unique(
    a: Seq<IommufdDev>,
    b: Seq<IommufdDev>,
    devs: Seq<IommufdDev>,
    res: Resource,
)
    requires
        enumerates(a, devs, res),
        enumerates(b, devs, res),
    ensures
        a == b,
{
    assert forall|n: u32| #[trigger] numbered(a, n) == numbered(b, n) by {
        assert(numbered(a, n) == numbered(matching(devs, res), n));
        assert(numbered(b, n) == numbered(matching(devs, res), n));
    }
    lemma_sorted_determined(a, b);
}

proof fn lemma_sorted_determined(a: Seq<IommufdDev>, b: Seq<IommufdDev>)
    requires
        sorted_by_num(a),
        sorted_by_num(b),
        forall|n: u32| #[trigger] numbered(a, n) == numbered(b, n),
    ensures
        a == b,
    decreases a.len(),
{
    if a.len() == 0 && b.len() == 0 {
        assert(a =~= b);
    } else {
        if a.len() > 0 {
            lemma_first_in_other(a, b);
        }
        if b.len() > 0 {
            lemma_first_in_other(b, a);
        }
        let n = a[0].num;
        let (a1, b1) = (a.drop_first(), b.drop_first());
        assert(a =~= seq![a[0]] + a1);
        assert(b =~= seq![b[0]] + b1);
        lemma_filter_front(a[0], a1, |x: IommufdDev| x.num == n);
        lemma_filter_front(b[0], b1, |x: IommufdDev| x.num == n);
        assert(numbered(a, n) == numbered(b, n));
        assert(numbered(a, n)[0] == a[0]);
        assert(numbered(b, n)[0] == b[0]);
        assert forall|m: u32| #[trigger] numbered(a1, m) == numbered(b1, m) by {
            lemma_filter_front(a[0], a1, |x: IommufdDev| x.num == m);
            lemma_filter_front(b[0], b1, |x: IommufdDev| x.num == m);
            assert(numbered(a, m) == numbered(b, m));
            if m == n {
                assert(numbered(a1, m) =~= numbered(a, m).drop_first());
                assert(numbered(b1, m) =~= numbered(b, m).drop_first());
            }
        }
        lemma_sorted_determined(a1, b1);
    }
}

proof fn lemma_first_in_other(a: Seq<IommufdDev>, b: Seq<IommufdDev>)
    requires
        a.len() > 0,
        sorted_by_num(b),
        numbered(a, a[0].num) == numbered(b, a[0].num),
    ensures
        b.len() > 0,
        b[0].num <= a[0].num,
{
    broadcast use Seq::lemma_filter_contains, Seq::lemma_filter_contains_rev;

    let pred = |x: IommufdDev| x.num == a[0].num;
    assert(a.filter(pred).contains(a[0]));
    assert(b.filter(pred).contains(a[0]));
    assert(b.contains(a[0]));
    let i = b.index_of(a[0]);
    assert(b[i].num == a[0].num);
}

/// No device is advertised under two resources: the rows of the table exclude each other.
pub proof fn law_rows_exclusive(i: int, j: int, d: IommufdDev)
    requires
        0 <= i < table().len(),
        0 <= j < table().len(),
        table()[i].selects(d),
        table()[j].selects(d),
    ensures
        i == j,
{
}

/// A device is enumerated for a resource iff the scan holds it, its vendor is the resource's
/// vendor and its class is the resource's class. No other vendor's device ever is.
pub proof fn law_enumerated_by_identity(devs: Seq<IommufdDev>, res: Resource, d: IommufdDev)
    ensures
        enumeration(devs, res).contains(d) <==> devs.contains(d) && d.vendor == res.vendor
            && d.class_prefix == res.class_prefix,
        d.vendor != res.vendor ==> !enumeration(devs, res).contains(d),
        d.class_prefix != res.class_prefix ==> !enumeration(devs, res).contains(d),
{
    law_enumeration(devs, res);
    law_enumerated_iff_matching(enumeration(devs, res), devs, res, d);
}

/// The places `rest`, moved on by one, with `0` put in at `at` where `with` says so.
spec fn placed_after(rest: Seq<int>, with: bool, at: int) -> Seq<int> {
    let moved = Seq::new(rest.len(), |i: int| rest[i] + 1);
    if with {
        moved.insert(at, 0)
    } else {
        moved
    }
}

proof fn lemma_placed_after(rest: Seq<int>, with: bool, at: int, p: int)
    requires
        0 <= at <= rest.len(),
        0 <= p,
        !rest.contains(-1),
    ensures
        placed_after(rest, with, at).contains(p) == if p == 0 {
            with
        } else {
            rest.contains(p - 1)
        },
{
    let places = placed_after(rest, with, at);
    if with {
        assert(places[at] == 0);
    }
    if rest.contains(p - 1) {
        let i = rest.index_of(p - 1);
        assert(places[if with && at <= i { i + 1 } else { i }] == p);
    }
    if places.contains(p) && !(with && p == 0) {
        let i = places.index_of(p);
        let j = if with && at < i { i - 1 } else { i };
        assert(rest[j] == p - 1);
        assert(rest.contains(p - 1));
    }
}

proof fn lemma_enumerates_none(res: Resource)
    ensures
        enumerates(Seq::empty(), Seq::empty(), res),
{
    reveal(Seq::filter);
    assert(matching(Seq::empty(), res) =~= Seq::empty());
}

proof fn lemma_enumerates_front(
    d: IommufdDev,
    rest: Seq<IommufdDev>,
    tail: Seq<IommufdDev>,
    res: Resource,
    at: int,
)
    requires
        enumerates(rest, tail, res),
        0 <= at <= rest.len(),
        forall|i: int| 0 <= i < at ==> rest[i].num < d.num,
        forall|i: int| at <= i < rest.len() ==> d.num <= rest[i].num,
    ensures
        enumerates(
            if res.selects(d) {
                rest.insert(at, d)
            } else {
                rest
            },
            seq![d] + tail,
            res,
        ),
{
    let wanted = matching(seq![d] + tail, res);
    lemma_filter_front(d, tail, |x: IommufdDev| res.selects(x));
    if res.selects(d) {
        let found = rest.insert(at, d);
        assert forall|n: u32| #[trigger] numbered(found, n) == numbered(wanted, n) by {
            lemma_numbered_insert(rest, at, d, n);
            lemma_filter_front(d, rest, |x: IommufdDev| x.num == n);
            lemma_filter_front(d, matching(tail, res), |x: IommufdDev| x.num == n);
            assert(numbered(rest, n) == numbered(matching(tail, res), n));
        }
    }
}

/// The enumeration with the places that its devices have in the scan.
proof fn lemma_placed(devs: Seq<IommufdDev>, res: Resource) -> (r: (Seq<IommufdDev>, Seq<int>))
    ensures
        enumerates(r.0, devs, res),
        r.1.len() == r.0.len(),
        forall|i: int|
            0 <= i < r.1.len() ==> 0 <= #[trigger] r.1[i] < devs.len() && devs[r.1[i]] == r.0[i],
        forall|i: int, j: int|
            #![trigger r.1[i], r.1[j]]
            0 <= i < j < r.1.len() ==> r.0[i].num < r.0[j].num || r.0[i].num == r.0[j].num
                && r.1[i] < r.1[j],
        forall|p: int|
            0 <= p < devs.len() ==> r.1.contains(p) == res.selects(#[trigger] devs[p]),
    decreases devs.len(),
{
    if devs.len() == 0 {
        lemma_enumerates_none(res);
        assert(devs =~= Seq::empty());
        (devs, Seq::<int>::empty())
    } else {
        let d = devs[0];
        let tail = devs.drop_first();
        let (rest, rest_at) = lemma_placed(tail, res);
        let at = lemma_position(rest, d.num);
        lemma_enumerates_front(d, rest, tail, res, at);
        assert(devs =~= seq![d] + tail);
        let places = placed_after(rest_at, res.selects(d), at);
        assert forall|p: int| 0 <= p < devs.len() implies places.contains(p) == res.selects(
            #[trigger] devs[p],
        ) by {
            lemma_placed_after(rest_at, res.selects(d), at, p);
            if p > 0 {
                assert(tail[p - 1] == devs[p]);
            }
        }
        (
            if res.selects(d) {
                rest.insert(at, d)
            } else {
                rest
            },
            places,
        )
    }
}

/// The enumeration is the scan's devices of the right vendor and class, each place of the scan
/// exactly once, in the order of their numbers; devices with one number stand in the order of
/// the scan. The result gives, for each enumerated device, its place in the scan.
pub proof fn law_enumeration_by_places(devs: Seq<IommufdDev>, res: Resource) -> (places: Seq<int>)
    ensures
        places.len() == enumeration(devs, res).len(),
        places.no_duplicates(),
        forall|i: int|
            0 <= i < places.len() ==> 0 <= #[trigger] places[i] < devs.len() && devs[places[i]]
                == enumeration(devs, res)[i],
        forall|p: int|
            0 <= p < devs.len() ==> places.contains(p) == ((#[trigger] devs[p]).vendor
                == res.vendor && devs[p].class_prefix == res.class_prefix),
        forall|i: int, j: int|
            #![trigger places[i], places[j]]
            0 <= i < j < places.len() ==> devs[places[i]].num < devs[places[j]].num
                || devs[places[i]].num == devs[places[j]].num && places[i] < places[j],
{
    let (found, places) = lemma_placed(devs, res);
    law_enumeration(devs, res);
    law_enumeration_unique(found, enumeration(devs, res), devs, res);
    assert forall|i: int, j: int|
        0 <= i < places.len() && 0 <= j < places.len() && i != j implies places[i]
        != places[j] by {
        if i < j {
            assert(devs[places[i]] == found[i] && devs[places[j]] == found[j]);
        } else {
            assert(devs[places[j]] == found[j] && devs[places[i]] == found[i]);
        }
    }
    places
}

/// The table declares NVIDIA's 3D controllers as GPUs and NVIDIA's other bridges as NVSwitches,
/// each device under one resource, and no other device under any.
pub proof fn law_table_by_identity(d: IommufdDev, name: Seq<char>)
    ensures
        (exists|i: int|
            0 <= i < table().len() && (#[trigger] table()[i]).name@ == name && table()[i].vendor
                == d.vendor && table()[i].class_prefix == d.class_prefix) <==> {
            ||| name == "nvidia.com/gpu"@ && d.vendor == 0x10de && d.class_prefix == 0x0302
            ||| name == "nvidia.com/nvswitch"@ && d.vendor == 0x10de && d.class_prefix == 0x0680
        },
{
    assert(table()[0].name@ == "nvidia.com/gpu"@);
    assert(table()[1].name@ == "nvidia.com/nvswitch"@);
}

} // verus!
