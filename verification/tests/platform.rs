use kata_device_plugin::platform::Platform;

#[test]
fn known_product_names() {
    let cases = [
        ("NVIDIA HGX H100 80GB SXM5", Platform::HgxH100),
        ("NVIDIA HGX B200", Platform::HgxB200),
        ("NVIDIA HGX B300", Platform::HgxB300),
        ("NVIDIA GB200 NVL72", Platform::Gb200Nvl72),
        ("NVIDIA GB200NVL72", Platform::Gb200Nvl72),
        ("NVIDIA GB300", Platform::Gb300),
        ("NVIDIA Vera Rubin", Platform::VeraRubin),
    ];
    for (name, expected) in cases {
        assert_eq!(Platform::from_product_name(name), expected, "input: {name}");
    }
}

#[test]
fn unknown_falls_through() {
    assert_eq!(
        Platform::from_product_name("Dell PowerEdge R750"),
        Platform::Unknown("Dell PowerEdge R750".to_owned()),
    );
}

#[test]
fn marks_are_tried_in_order() {
    assert_eq!(
        Platform::from_product_name("GB300 beside HGX B200"),
        Platform::HgxB200
    );
    assert_eq!(Platform::from_product_name("VR200"), Platform::VeraRubin);
    assert_eq!(
        Platform::from_product_name(""),
        Platform::Unknown(String::new())
    );
}

#[test]
fn detection_trims_the_file() {
    assert_eq!(
        Platform::detect(Some("\u{2003}NVIDIA GB300\r\n")),
        Platform::Gb300
    );
    assert_eq!(
        Platform::detect(Some("\t Some Box \n")),
        Platform::Unknown("Some Box".to_owned())
    );
    assert_eq!(
        Platform::detect(Some(" \n ")),
        Platform::Unknown(String::new())
    );
    assert_eq!(Platform::detect(None), Platform::Unknown(String::new()));
}

#[test]
fn names_detect_themselves() {
    for p in [
        Platform::HgxH100,
        Platform::HgxB200,
        Platform::HgxB300,
        Platform::Gb200Nvl72,
        Platform::Gb300,
        Platform::VeraRubin,
        Platform::Unknown("Some Box".to_owned()),
    ] {
        assert_eq!(Platform::from_product_name(p.name()), p);
    }
    assert_eq!(Platform::Gb200Nvl72.name(), "GB200 NVL72");
}

#[test]
fn partitions_of_known_platforms() {
    assert_eq!(Platform::VeraRubin.nvlink_partitions(), Some(1));
    assert_eq!(Platform::HgxH100.nvlink_partitions(), Some(1));
    assert_eq!(
        Platform::Unknown("x".to_owned()).nvlink_partitions(),
        None
    );
}
