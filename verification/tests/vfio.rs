use kata_device_plugin::vfio::{enumerate, resources, IommufdDev, Resource};

fn by_name(name: &str) -> Resource {
    *resources().iter().find(|r| r.name == name).unwrap()
}

fn dev(num: u32, vendor: u16, class: u32) -> IommufdDev {
    IommufdDev {
        path: format!("/dev/vfio/devices/vfio{num}"),
        num,
        vendor,
        class_prefix: (class >> 8) as u16,
    }
}

fn gpu(num: u32) -> IommufdDev {
    dev(num, 0x10de, 0x030200)
}

fn nvswitch(num: u32) -> IommufdDev {
    dev(num, 0x10de, 0x068000)
}

fn nums(devs: &[IommufdDev]) -> Vec<u32> {
    devs.iter().map(|d| d.num).collect()
}

#[test]
fn classifies_and_sorts() {
    // A VFIO-bound NIC must not be advertised under any resource.
    let scan = || vec![gpu(42), gpu(7), nvswitch(9), dev(3, 0x15b3, 0x020000)];

    let gpus = enumerate(scan(), &by_name("nvidia.com/gpu"));
    assert_eq!(nums(&gpus), vec![7, 42]);
    assert!(gpus[0].path.ends_with("devices/vfio7"));

    let switches = enumerate(scan(), &by_name("nvidia.com/nvswitch"));
    assert_eq!(nums(&switches), vec![9]);
}

#[test]
fn missing_devices_dir_is_empty() {
    for res in resources() {
        assert!(enumerate(Vec::new(), &res).is_empty());
    }
}

#[test]
fn sorted_scan_keeps_its_order() {
    let mut second = gpu(5);
    second.path = "/other".to_owned();
    let scan = vec![gpu(1), gpu(5), second, nvswitch(6), gpu(10)];
    let found = enumerate(scan.clone(), &by_name("nvidia.com/gpu"));
    assert_eq!(
        found,
        vec![
            scan[0].clone(),
            scan[1].clone(),
            scan[2].clone(),
            scan[4].clone()
        ]
    );
}

#[test]
fn equal_numbers_keep_the_order_of_the_scan() {
    let mut first = gpu(5);
    first.path = "/first".to_owned();
    let found = enumerate(vec![gpu(9), first, gpu(5)], &by_name("nvidia.com/gpu"));
    assert_eq!(nums(&found), vec![5, 5, 9]);
    assert_eq!(found[0].path, "/first");
}

#[test]
fn no_device_is_in_two_resources() {
    let scan = || vec![gpu(1), nvswitch(2), dev(3, 0x10de, 0x030000)];
    let gpus = enumerate(scan(), &by_name("nvidia.com/gpu"));
    let switches = enumerate(scan(), &by_name("nvidia.com/nvswitch"));
    assert_eq!(nums(&gpus), vec![1]);
    assert_eq!(nums(&switches), vec![2]);
}

#[test]
fn resource_table() {
    let table = resources();
    assert_eq!(table[0].name, "nvidia.com/gpu");
    assert_eq!((table[0].vendor, table[0].class_prefix), (0x10de, 0x0302));
    assert_eq!(table[1].name, "nvidia.com/nvswitch");
    assert_eq!((table[1].vendor, table[1].class_prefix), (0x10de, 0x0680));
}
