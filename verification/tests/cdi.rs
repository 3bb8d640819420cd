use std::collections::BTreeMap;

use kata_device_plugin::cdi::{
    cdi_spec, prepare_write, render_spec, spec_path, write_cdi_spec, CdiError, SpecWriter,
    WriteAction, WriteNumbers, WriteOutcome,
};
use kata_device_plugin::vfio::{enumerate, resources, IommufdDev, Resource};

type Files = BTreeMap<String, String>;

fn by_name(name: &str) -> Resource {
    *resources().iter().find(|r| r.name == name).unwrap()
}

fn dev(num: u32, class_prefix: u16) -> IommufdDev {
    IommufdDev {
        path: format!("/dev/vfio/devices/vfio{num}"),
        num,
        vendor: 0x10de,
        class_prefix,
    }
}

fn gpu_devs(nums: &[u32]) -> Vec<IommufdDev> {
    let scan = nums.iter().map(|n| dev(*n, 0x0302)).collect();
    enumerate(scan, &by_name("nvidia.com/gpu"))
}

/// Performs the next action of a write on `files`; gives its outcome once it has come to its end.
fn turn(writer: &mut SpecWriter, files: &mut Files) -> Option<WriteOutcome> {
    match writer.action() {
        WriteAction::CreateDirAll { .. } => {}
        WriteAction::Write { path, contents } => {
            files.insert(path, contents);
        }
        WriteAction::Rename { from, to } => {
            let contents = files.remove(&from).unwrap();
            files.insert(to, contents);
        }
        WriteAction::Remove { path } => {
            files.remove(&path);
        }
        WriteAction::Finish(outcome) => return Some(outcome),
    }
    writer.advance(true);
    None
}

/// Performs a write on `files`.
fn perform(mut writer: SpecWriter, files: &mut Files) -> WriteOutcome {
    loop {
        if let Some(outcome) = turn(&mut writer, files) {
            return outcome;
        }
    }
}

/// Writes the spec of `devices` to the registry `cdi_dir` in `files`.
fn write(resource_name: &str, devices: &[IommufdDev], cdi_dir: &str, files: &mut Files) {
    let mut numbers = WriteNumbers::new(77);
    if let Some(writer) = write_cdi_spec(resource_name, devices, cdi_dir, &mut numbers).unwrap() {
        assert_eq!(perform(writer, files), WriteOutcome::Written);
    }
}

fn writer() -> SpecWriter {
    SpecWriter::new("/run/cdi", "nvidia.com/gpu", "text".to_owned(), 12, 34)
}

const TMP: &str = "/run/cdi/kata.nvidia.com-gpu.yaml.12.34.tmp";

#[test]
fn writes_valid_yaml_for_two_devices() {
    let mut files = Files::new();
    write("nvidia.com/gpu", &gpu_devs(&[8, 9]), "/run/cdi", &mut files);

    let out = "/run/cdi/kata.nvidia.com-gpu.yaml";
    assert!(files.contains_key(out), "CDI spec file not written");
    assert_eq!(files.len(), 1);

    let contents = &files[out];
    assert!(contents.contains("kind: nvidia.com/gpu"));
    // serde_yaml quotes numeric-looking strings with single quotes.
    assert!(contents.contains("name: '0'"));
    assert!(contents.contains("name: '1'"));
    assert!(contents.contains("vfio8"));
    assert!(contents.contains("vfio9"));
    // Only the passthrough cdevs are edited in — nothing else.
    assert!(!contents.contains("/dev/iommu"));
}

#[test]
fn the_whole_text_of_a_spec() {
    let mut files = Files::new();
    write("nvidia.com/gpu", &gpu_devs(&[8]), "/run/cdi", &mut files);
    assert_eq!(
        files["/run/cdi/kata.nvidia.com-gpu.yaml"],
        "cdiVersion: 1.1.0\n\
         kind: nvidia.com/gpu\n\
         devices:\n\
         - name: '0'\n\
         \u{20}\u{20}containerEdits:\n\
         \u{20}\u{20}\u{20}\u{20}deviceNodes:\n\
         \u{20}\u{20}\u{20}\u{20}- path: /dev/vfio/devices/vfio8\n\
         \u{20}\u{20}\u{20}\u{20}\u{20}\u{20}type: c\n\
         \u{20}\u{20}\u{20}\u{20}\u{20}\u{20}permissions: rw\n"
    );
}

#[test]
fn indices_are_sequential_regardless_of_vfio_numbers() {
    // vfio numbers can be sparse; CDI indices must be 0, 1, 2, ...
    let mut files = Files::new();
    write(
        "nvidia.com/gpu",
        &gpu_devs(&[42, 7, 100]),
        "/run/cdi",
        &mut files,
    );

    let contents = &files["/run/cdi/kata.nvidia.com-gpu.yaml"];
    // Sorted numerically: vfio7, vfio42, vfio100 → indices 0, 1, 2
    assert!(contents.contains("name: '0'"));
    assert!(contents.contains("name: '1'"));
    assert!(contents.contains("name: '2'"));
    // vfio7 must map to index 0 (it's the lowest)
    let idx0 = contents.find("name: '0'").unwrap();
    let vfio7_pos = contents.find("vfio7").unwrap();
    assert!(vfio7_pos > idx0, "vfio7 should appear after index 0 entry");
}

#[test]
fn no_devices_skips_write() {
    let mut files = Files::new();
    let mut numbers = WriteNumbers::new(1);
    assert!(write_cdi_spec("nvidia.com/gpu", &[], "/run/cdi", &mut numbers)
        .unwrap()
        .is_none());
    assert_eq!(numbers.next, 0);
    write("nvidia.com/gpu", &[], "/run/cdi", &mut files);
    assert!(
        !files.contains_key("/run/cdi/kata.nvidia.com-gpu.yaml"),
        "should not write spec when no devices"
    );
}

#[test]
fn nvswitch_resource_name() {
    let scan = vec![dev(3, 0x0680), dev(4, 0x0680)];
    let devs = enumerate(scan, &by_name("nvidia.com/nvswitch"));
    let mut files = Files::new();
    write("nvidia.com/nvswitch", &devs, "/run/cdi", &mut files);
    assert!(files.contains_key("/run/cdi/kata.nvidia.com-nvswitch.yaml"));
}

#[test]
fn spec_paths() {
    assert_eq!(
        spec_path("/var/run/cdi", "nvidia.com/gpu"),
        "/var/run/cdi/kata.nvidia.com-gpu.yaml"
    );
    assert_eq!(spec_path("/cdi/", "a/b/c"), "/cdi/kata.a-b-c.yaml");
    assert_eq!(spec_path("", "gpu"), "kata.gpu.yaml");
    assert_ne!(
        spec_path("/c", "nvidia.com/gpu"),
        spec_path("/c", "nvidia.com/nvswitch")
    );
}

#[test]
fn spec_maps_indices_to_nodes() {
    let spec = cdi_spec("nvidia.com/gpu", &gpu_devs(&[9, 8]));
    assert_eq!(spec.version, "1.1.0");
    assert_eq!(
        spec.version,
        container_device_interface::specs::config::CURRENT_VERSION
    );
    assert_eq!(spec.kind, "nvidia.com/gpu");
    assert_eq!(spec.devices.len(), 2);
    assert_eq!(spec.devices[0].name, "0");
    assert_eq!(spec.devices[1].name, "1");
    assert_eq!(spec.devices[0].device_nodes.len(), 1);
    let node = &spec.devices[0].device_nodes[0];
    assert_eq!(node.path, "/dev/vfio/devices/vfio8");
    assert_eq!(node.node_type, "c");
    assert_eq!(node.permissions, "rw");
}

#[test]
fn written_specs_are_what_the_cdi_crate_reads() {
    let mut files = Files::new();
    let devs = gpu_devs(&[1, 2]);
    write("nvidia.com/gpu", &devs, "/run/cdi", &mut files);
    let text = &files["/run/cdi/kata.nvidia.com-gpu.yaml"];
    let read: container_device_interface::specs::config::Spec =
        serde_yaml::from_str(text).unwrap();
    assert!(container_device_interface::spec::validate_spec(&read).is_ok());
    assert_eq!(&serde_yaml::to_string(&read).unwrap(), text);
}

#[test]
fn odd_paths_survive() {
    let mut devs = gpu_devs(&[1]);
    devs[0].path = "/dev/o'dd: \"x\"\n#\t\u{1}é".to_owned();
    let mut files = Files::new();
    write("nvidia.com/gpu", &devs, "/run/cdi", &mut files);
    let text = &files["/run/cdi/kata.nvidia.com-gpu.yaml"];
    let read: serde_yaml::Value = serde_yaml::from_str(text).unwrap();
    assert_eq!(
        read["devices"][0]["containerEdits"]["deviceNodes"][0]["path"].as_str(),
        Some(devs[0].path.as_str())
    );
}

#[test]
fn a_write_goes_through_a_file_of_its_own() {
    let mut w = writer();
    assert_eq!(
        w.action(),
        WriteAction::CreateDirAll {
            dir: "/run/cdi".to_owned()
        }
    );
    w.advance(true);
    assert_eq!(
        w.action(),
        WriteAction::Write {
            path: TMP.to_owned(),
            contents: "text".to_owned()
        }
    );
    w.advance(true);
    assert_eq!(
        w.action(),
        WriteAction::Rename {
            from: TMP.to_owned(),
            to: "/run/cdi/kata.nvidia.com-gpu.yaml".to_owned()
        }
    );
    w.advance(true);
    assert_eq!(w.action(), WriteAction::Finish(WriteOutcome::Written));
    w.advance(false);
    assert_eq!(w.action(), WriteAction::Finish(WriteOutcome::Written));
}

#[test]
fn tmp_paths_are_those_of_std() {
    let expected = std::path::Path::new("/run/cdi/kata.nvidia.com-gpu.yaml")
        .with_extension(format!("yaml.{}.{}.tmp", 12, 34));
    assert_eq!(writer().tmp_path, expected.to_str().unwrap());
}

#[test]
fn failures_end_a_write() {
    let mut w = writer();
    w.advance(false);
    assert_eq!(w.action(), WriteAction::Finish(WriteOutcome::NoDirectory));

    let mut w = writer();
    w.advance(true);
    w.advance(false);
    assert_eq!(w.action(), WriteAction::Finish(WriteOutcome::NotWritten));

    for removed in [true, false] {
        let mut w = writer();
        w.advance(true);
        w.advance(true);
        w.advance(false);
        assert_eq!(
            w.action(),
            WriteAction::Remove {
                path: TMP.to_owned()
            }
        );
        w.advance(removed);
        assert_eq!(w.action(), WriteAction::Finish(WriteOutcome::NotRenamed));
    }
}

#[test]
fn concurrent_writes_do_not_meet() {
    let a = SpecWriter::new("/c", "x/y", "a".to_owned(), 1, 12);
    let b = SpecWriter::new("/c", "x/y", "b".to_owned(), 1, 13);
    let c = SpecWriter::new("/c", "x/y", "c".to_owned(), 11, 2);
    let d = SpecWriter::new("/c", "x/y.1", "d".to_owned(), 1, 2);
    let paths = [&a.tmp_path, &b.tmp_path, &c.tmp_path, &d.tmp_path];
    for i in 0..4 {
        for j in 0..i {
            assert_ne!(paths[i], paths[j]);
        }
    }
    assert_eq!(a.path, b.path);
    assert_ne!(a.tmp_path, a.path);
}

#[test]
fn a_refused_spec_is_not_written() {
    let refused = Err(anyhow::Error::msg("no such version"));
    let mut numbers = WriteNumbers { pid: 1, next: 2 };
    match prepare_write("nvidia.com/gpu", refused, "/run/cdi", &mut numbers) {
        Err(CdiError::Validate(e)) => assert_eq!(e.to_string(), "no such version"),
        Ok(writer) => panic!("{writer:?}"),
    }
    assert_eq!(numbers.next, 2);
}

#[test]
fn an_accepted_spec_is_written_as_it_is() {
    let yaml = render_spec("nvidia.com/gpu", &gpu_devs(&[8])).unwrap();
    let mut numbers = WriteNumbers { pid: 1, next: 2 };
    let prepared =
        prepare_write("nvidia.com/gpu", Ok(yaml.clone()), "/run/cdi", &mut numbers).unwrap();
    assert_eq!(prepared.contents, yaml);
    assert_eq!(prepared.tmp_path, "/run/cdi/kata.nvidia.com-gpu.yaml.1.2.tmp");
    let started = write_cdi_spec("nvidia.com/gpu", &gpu_devs(&[8]), "/run/cdi", &mut numbers)
        .unwrap()
        .unwrap();
    assert_eq!(started.contents, yaml);
    assert_eq!(started.tmp_path, "/run/cdi/kata.nvidia.com-gpu.yaml.1.3.tmp");
    assert_eq!(numbers.next, 4);
}

#[test]
fn a_spec_without_devices_is_refused() {
    assert!(render_spec("nvidia.com/gpu", &[]).is_err());
}

#[test]
fn readers_see_the_old_spec_until_the_new_one_is_whole() {
    let path = "/run/cdi/kata.nvidia.com-gpu.yaml";
    let mut files = Files::new();
    files.insert(path.to_owned(), "old".to_owned());
    let mut w = writer();
    w.advance(true);
    // The bytes arrive piece by piece, somewhere else.
    for piece in ["", "te", "text"] {
        match w.action() {
            WriteAction::Write { path, .. } => files.insert(path, piece.to_owned()),
            other => panic!("{other:?}"),
        };
        assert_eq!(files[path], "old");
    }
    w.advance(true);
    assert_eq!(perform(w, &mut files), WriteOutcome::Written);
    assert_eq!(files[path], "text");
    assert_eq!(files.len(), 1);
}

#[test]
fn concurrent_writes_leave_one_whole_spec() {
    let path = "/run/cdi/kata.nvidia.com-gpu.yaml";
    let mut processes = [WriteNumbers::new(77), WriteNumbers::new(78)];
    let started: Vec<SpecWriter> = [(0, vec![1]), (0, vec![1, 2]), (1, vec![3, 4, 5])]
        .iter()
        .map(|(process, nums)| {
            let numbers = &mut processes[*process];
            write_cdi_spec("nvidia.com/gpu", &gpu_devs(nums), "/run/cdi", numbers)
                .unwrap()
                .unwrap()
        })
        .collect();
    for (w, suffix) in started.iter().zip(["77.0", "77.1", "78.0"]) {
        assert_eq!(w.tmp_path, format!("{path}.{suffix}.tmp"));
    }
    let mut orders = 0;
    for code in 0..3usize.pow(9) {
        // The nine digits of the code say whose turn it is; each write takes three turns.
        let order: Vec<usize> = (0..9).map(|i| code / 3usize.pow(i) % 3).collect();
        if (0..3).any(|w| order.iter().filter(|turn| **turn == w).count() != 3) {
            continue;
        }
        orders += 1;
        let mut writers: Vec<SpecWriter> = started
            .iter()
            .zip([(77, 0), (77, 1), (78, 0)])
            .map(|(w, (pid, seq))| {
                SpecWriter::new("/run/cdi", "nvidia.com/gpu", w.contents.clone(), pid, seq)
            })
            .collect();
        let mut files = Files::new();
        files.insert(path.to_owned(), "old".to_owned());
        let mut last = None;
        for w in order {
            let moves = matches!(writers[w].action(), WriteAction::Rename { .. });
            assert_eq!(turn(&mut writers[w], &mut files), None);
            if moves {
                last = Some(w);
            }
            match last {
                None => assert_eq!(files[path], "old"),
                Some(w) => assert_eq!(files[path], started[w].contents),
            }
        }
        for w in &writers {
            assert_eq!(w.action(), WriteAction::Finish(WriteOutcome::Written));
        }
        assert_eq!(files.len(), 1);
    }
    assert_eq!(orders, 1680);
}

#[test]
fn a_failed_write_leaves_the_other_alone() {
    let path = "/run/cdi/kata.nvidia.com-gpu.yaml";
    let mut files = Files::new();
    files.insert(path.to_owned(), "old".to_owned());
    let mut one = SpecWriter::new("/run/cdi", "nvidia.com/gpu", "one".to_owned(), 12, 34);
    let mut other = SpecWriter::new("/run/cdi", "nvidia.com/gpu", "other".to_owned(), 12, 35);
    turn(&mut one, &mut files);
    turn(&mut other, &mut files);
    turn(&mut other, &mut files);
    // The disk is full after a few bytes of the first.
    match one.action() {
        WriteAction::Write { path, .. } => files.insert(path, "o".to_owned()),
        action => panic!("{action:?}"),
    };
    one.advance(false);
    assert_eq!(files[path], "old");
    assert_eq!(perform(other, &mut files), WriteOutcome::Written);
    assert_eq!(perform(one, &mut files), WriteOutcome::NotWritten);
    assert_eq!(files[path], "other");
}

#[test]
fn numbers_count_up_and_wrap() {
    let mut numbers = WriteNumbers::new(5);
    assert_eq!(numbers.pid, 5);
    assert_eq!([numbers.take(), numbers.take(), numbers.take()], [0, 1, 2]);
    let mut numbers = WriteNumbers { pid: 5, next: u64::MAX };
    assert_eq!([numbers.take(), numbers.take()], [u64::MAX, 0]);
    assert_eq!(numbers.pid, 5);
}

#[test]
fn removals_leave_writes_alone() {
    let path = "/run/cdi/kata.nvidia.com-gpu.yaml";
    // The spec may be removed before any turn of two writes, and after the last.
    for order in [[0, 0, 0, 1, 1, 1], [0, 1, 0, 1, 0, 1], [1, 0, 0, 1, 1, 0], [1, 1, 0, 0, 0, 1]] {
        for removals in 0..1u32 << 7 {
            let mut files = Files::new();
            files.insert(path.to_owned(), "old".to_owned());
            let mut expected = Some("old");
            let mut writers = [
                SpecWriter::new("/run/cdi", "nvidia.com/gpu", "one".to_owned(), 12, 34),
                SpecWriter::new("/run/cdi", "nvidia.com/gpu", "other".to_owned(), 12, 35),
            ];
            for k in 0..7 {
                if removals >> k & 1 == 1 {
                    files.remove(&spec_path("/run/cdi", "nvidia.com/gpu"));
                    expected = None;
                }
                assert_eq!(files.get(path).map(|s| s.as_str()), expected);
                if k < 6 {
                    let w: usize = order[k];
                    if matches!(writers[w].action(), WriteAction::Rename { .. }) {
                        expected = Some(["one", "other"][w]);
                    }
                    assert_eq!(turn(&mut writers[w], &mut files), None);
                }
                assert_eq!(files.get(path).map(|s| s.as_str()), expected);
            }
            for w in &writers {
                assert_eq!(w.action(), WriteAction::Finish(WriteOutcome::Written));
                assert!(!files.contains_key(&w.tmp_path));
            }
        }
    }
}
