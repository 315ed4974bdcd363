use gpu_sand::device::{
    choose_present_mode, first_fitting_family, first_graphics_family, select_device, DeviceCandidate, DeviceKind,
    PresentModeKind, QueueFamilyInfo,
};

fn fam(graphics: bool, presents: bool) -> QueueFamilyInfo {
    QueueFamilyInfo { graphics, presents }
}

fn dev(kind: DeviceKind, swapchain_support: bool, queue_families: Vec<QueueFamilyInfo>) -> DeviceCandidate {
    DeviceCandidate { kind, swapchain_support, queue_families }
}

#[test]
fn prefers_discrete_gpu() {
    let cs = vec![
        dev(DeviceKind::Cpu, true, vec![fam(true, true)]),
        dev(DeviceKind::IntegratedGpu, true, vec![fam(false, true), fam(true, true)]),
        dev(DeviceKind::DiscreteGpu, true, vec![fam(true, false), fam(true, true)]),
    ];
    assert_eq!(select_device(&cs), Some((2, 1)));
}

#[test]
fn first_of_equal_kind_wins() {
    let cs = vec![
        dev(DeviceKind::IntegratedGpu, true, vec![fam(true, true)]),
        dev(DeviceKind::IntegratedGpu, true, vec![fam(true, true)]),
    ];
    assert_eq!(select_device(&cs), Some((0, 0)));
}

#[test]
fn skips_unusable_devices() {
    let cs = vec![
        dev(DeviceKind::DiscreteGpu, false, vec![fam(true, true)]),
        dev(DeviceKind::DiscreteGpu, true, vec![fam(true, false), fam(false, true)]),
        dev(DeviceKind::Other, true, vec![fam(true, true)]),
    ];
    assert_eq!(select_device(&cs), Some((2, 0)));
}

#[test]
fn no_device_available() {
    assert_eq!(select_device(&Vec::new()), None);
    let cs = vec![dev(DeviceKind::DiscreteGpu, true, vec![fam(false, true)])];
    assert_eq!(select_device(&cs), None);
}

#[test]
fn family_searches() {
    let fams = vec![fam(false, true), fam(true, false), fam(true, true)];
    assert_eq!(first_fitting_family(&fams), Some(2));
    assert_eq!(first_graphics_family(&fams), Some(1));
    assert_eq!(first_graphics_family(&vec![fam(false, true)]), None);
    assert_eq!(first_fitting_family(&vec![]), None);
}

#[test]
fn present_mode_preference() {
    assert_eq!(
        choose_present_mode(&vec![PresentModeKind::Fifo, PresentModeKind::Mailbox]),
        PresentModeKind::Mailbox
    );
    assert_eq!(
        choose_present_mode(&vec![PresentModeKind::Immediate, PresentModeKind::Fifo]),
        PresentModeKind::Fifo
    );
    assert_eq!(choose_present_mode(&vec![]), PresentModeKind::Fifo);
}
