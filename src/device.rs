//! Choices made from what the device and the surface report: which physical
//! device and queue family to use, and which present mode to ask for.
use vstd::prelude::*;

verus! {

/// The kind of a physical device, in order of preference.
#[derive(Clone, Copy, Debug, PartialEq, Eq, Structural)]
pub enum DeviceKind {
    DiscreteGpu,
    IntegratedGpu,
    VirtualGpu,
    Cpu,
    Other,
}

pub open spec fn kind_rank(k: DeviceKind) -> nat {
    match k {
        DeviceKind::DiscreteGpu => 0,
        DeviceKind::IntegratedGpu => 1,
        DeviceKind::VirtualGpu => 2,
        DeviceKind::Cpu => 3,
        DeviceKind::Other => 4,
    }
}

/// What a queue family offers.
#[derive(Clone, Copy, Debug, PartialEq, Eq, Structural)]
pub struct QueueFamilyInfo {
    pub graphics: bool,
    /// Whether it can present to the window's surface.
    pub presents: bool,
}

/// What a physical device reports.
pub struct DeviceCandidate {
    pub kind: DeviceKind,
    /// Whether it supports the swap chain extension.
    pub swapchain_support: bool,
    pub queue_families: Vec<QueueFamilyInfo>,
}

pub open spec fn family_fits(f: QueueFamilyInfo) -> bool {
    f.graphics && f.presents
}

/// `q` is the first family that draws and presents.
pub open spec fn is_first_fitting_family(fams: Seq<QueueFamilyInfo>, q: int) -> bool {
    &&& 0 <= q < fams.len()
    &&& family_fits(fams[q])
    &&& forall|j: int| 0 <= j < q ==> !family_fits(fams[j])
}

pub open spec fn usable(c: DeviceCandidate) -> bool {
    c.swapchain_support && exists|q: int| 0 <= q < c.queue_families@.len() && family_fits(
        c.queue_families@[q],
    )
}

/// `d` is the first usable device of the most preferred kind among the usable.
pub open spec fn is_best_device(cs: Seq<DeviceCandidate>, d: int) -> bool {
    &&& 0 <= d < cs.len()
    &&& usable(cs[d])
    &&& forall|j: int|
        0 <= j < cs.len() && usable(cs[j]) ==> kind_rank(cs[d].kind) <= kind_rank(cs[j].kind)
    &&& forall|j: int|
        0 <= j < d && usable(cs[j]) ==> kind_rank(cs[d].kind) < kind_rank(cs[j].kind)
}

fn rank(k: DeviceKind) -> (r: u8)
    ensures
        r == kind_rank(k),
{
    match k {
        DeviceKind::DiscreteGpu => 0,
        DeviceKind::IntegratedGpu => 1,
        DeviceKind::VirtualGpu => 2,
        DeviceKind::Cpu => 3,
        DeviceKind::Other => 4,
    }
}

/// The first queue family that can both draw and present, if any.
pub fn first_fitting_family(fams: &Vec<QueueFamilyInfo>) -> (r: Option<usize>)
    ensures
        r matches Some(q) ==> is_first_fitting_family(fams@, q as int),
        r is None ==> forall|j: int| 0 <= j < fams@.len() ==> !family_fits(fams@[j]),
{
    let mut i: usize = 0;
    while i < fams.len()
        invariant
            i <= fams@.len(),
            forall|j: int| 0 <= j < i ==> !family_fits(fams@[j]),
        decreases fams@.len() - i,
    {
        if fams[i].graphics && fams[i].presents {
            return Some(i);
        }
        i = i + 1;
    }
    None
}

/// The first queue family that can draw, if any.
pub fn first_graphics_family(fams: &Vec<QueueFamilyInfo>) -> (r: Option<usize>)
    ensures
        r matches Some(q) ==> 0 <= q < fams@.len() && fams@[q as int].graphics && forall|j: int|
            0 <= j < q ==> !fams@[j].graphics,
        r is None ==> forall|j: int| 0 <= j < fams@.len() ==> !fams@[j].graphics,
{
    let mut i: usize = 0;
    while i < fams.len()
        invariant
            i <= fams@.len(),
            forall|j: int| 0 <= j < i ==> !fams@[j].graphics,
        decreases fams@.len() - i,
    {
        if fams[i].graphics {
            return Some(i);
        }
        i = i + 1;
    }
    None
}

/// The device to use and its first family that draws and presents: among the
/// devices with swap chain support and such a family, the first of the most
/// preferred kind. `None` when no device qualifies.
pub fn select_device(cs: &Vec<DeviceCandidate>) -> (r: Option<(usize, usize)>)
    ensures
        r matches Some((d, q)) ==> is_best_device(cs@, d as int) && is_first_fitting_family(
            cs@[d as int].queue_families@,
            q as int,
        ),
        r is None <==> forall|j: int| 0 <= j < cs@.len() ==> !usable(cs@[j]),
{
    let mut best: Option<(usize, usize)> = None;
    let mut i: usize = 0;
    while i < cs.len()
        invariant
            i <= cs@.len(),
            best matches Some((d, q)) ==> {
                &&& d < i
                &&& usable(cs@[d as int])
                &&& is_first_fitting_family(cs@[d as int].queue_families@, q as int)
                &&& forall|j: int|
                    0 <= j < i && usable(cs@[j]) ==> kind_rank(cs@[d as int].kind) <= kind_rank(
                        cs@[j].kind,
                    )
                &&& forall|j: int|
                    0 <= j < d && usable(cs@[j]) ==> kind_rank(cs@[d as int].kind) < kind_rank(
                        cs@[j].kind,
                    )
            },
            best is None ==> forall|j: int| 0 <= j < i ==> !usable(cs@[j]),
        decreases cs@.len() - i,
    {
        let c = &cs[i];
        if c.swapchain_support {
            match first_fitting_family(&c.queue_families) {
                Some(q) => {
                    let better = match best {
                        None => true,
                        Some((d, _)) => rank(c.kind) < rank(cs[d].kind),
                    };
                    if better {
                        best = Some((i, q));
                    }
                },
                None => {
                    assert(!usable(cs@[i as int]));
                },
            }
        }
        i = i + 1;
    }
    best
}

/// How the swap chain hands images to the display.
#[derive(Clone, Copy, Debug, PartialEq, Eq, Structural)]
pub enum PresentModeKind {
    Immediate,
    Mailbox,
    Fifo,
    FifoRelaxed,
}

/// The low-latency, non-blocking mailbox mode where the surface offers it,
/// else FIFO, which every surface supports.
pub fn choose_present_mode(supported: &Vec<PresentModeKind>) -> (m: PresentModeKind)
    ensures
        m == if supported@.contains(PresentModeKind::Mailbox) {
            PresentModeKind::Mailbox
        } else {
            PresentModeKind::Fifo
        },
{
    let mut i: usize = 0;
    while i < supported.len()
        invariant
            i <= supported@.len(),
            forall|j: int| 0 <= j < i ==> supported@[j] != PresentModeKind::Mailbox,
        decreases supported@.len() - i,
    {
        if supported[i] == PresentModeKind::Mailbox {
            return PresentModeKind::Mailbox;
        }
        i = i + 1;
    }
    PresentModeKind::Fifo
}

} // verus!
