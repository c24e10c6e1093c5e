//! Which serial ports a Z-Wave controller is looked for on.
use vstd::prelude::*;

verus! {

/// A serial port on the USB bus.
#[derive(Clone, Debug)]
pub struct ListPortInfo {
    pub device: String,
    pub vid: u16,
    pub pid: u16,
}

/// The vendor and product are those of a known Z-Wave controller.
pub open spec fn known_controller(vid: u16, pid: u16) -> bool {
    ||| (vid == 0x0658 && pid == 0x0200)
    ||| (vid == 0x0658 && pid == 0x0280)
    ||| (vid == 0x10c4 && pid == 0xea60)
}

pub fn is_usb_zwave_device(port: &ListPortInfo) -> (r: bool)
    ensures
        r == known_controller(port.vid, port.pid),
{
    (port.vid == 0x0658 && port.pid == 0x0200) || (port.vid == 0x0658 && port.pid == 0x0280) || (
    port.vid == 0x10c4 && port.pid == 0xea60)
}

/// The devices of the known controllers among the ports, in order.
pub open spec fn controller_devices(ports: Seq<ListPortInfo>) -> Seq<Seq<char>>
    decreases ports.len(),
{
    if ports.len() == 0 {
        Seq::empty()
    } else if known_controller(ports.last().vid, ports.last().pid) {
        controller_devices(ports.drop_last()).push(ports.last().device@)
    } else {
        controller_devices(ports.drop_last())
    }
}

/// What texts hold, in order.
pub open spec fn text_views(texts: Seq<String>) -> Seq<Seq<char>> {
    texts.map_values(|t: String| t@)
}

/// The devices to open where the configuration names none: those of
/// the known controllers among the ports; without any, the customary
/// device that was found, if one was.
pub fn get_default_devices(ports: &Vec<ListPortInfo>, customary: Option<String>) -> (r: Vec<String>)
    ensures
        text_views(r@) == if controller_devices(ports@).len() > 0 {
            controller_devices(ports@)
        } else {
            match customary {
                Some(d) => seq![d@],
                None => Seq::empty(),
            }
        },
{
    let mut out: Vec<String> = Vec::new();
    let mut i: usize = 0;
    assert(text_views(out@) =~= controller_devices(ports@.take(0)));
    while i < ports.len()
        invariant
            i <= ports.len(),
            text_views(out@) == controller_devices(ports@.take(i as int)),
        decreases ports.len() - i,
    {
        let ghost before = out@;
        proof {
            assert(ports@.take(i + 1).drop_last() =~= ports@.take(i as int));
            assert(ports@.take(i + 1).last() == ports@[i as int]);
        }
        if is_usb_zwave_device(&ports[i]) {
            out.push(ports[i].device.clone());
            assert(text_views(out@) =~= text_views(before).push(ports@[i as int].device@));
        }
        i += 1;
    }
    assert(ports@.take(ports.len() as int) =~= ports@);
    if out.len() == 0 {
        match customary {
            Some(d) => {
                out.push(d);
                assert(text_views(out@) =~= seq![d@]);
            },
            None => {
                assert(text_views(out@) =~= Seq::empty());
            },
        }
    }
    out
}

/// The customary devices of Z-Wave controllers, in the order in which
/// they are tried.
pub fn customary_devices() -> (r: Vec<&'static str>)
    ensures
        r@.len() == 6,
        r@[0]@ == "/dev/cu.usbserial"@,
        r@[1]@ == "/dev/cu.SLAB_USBtoUART"@,
        r@[2]@ == "/dev/cu.usbmodem14211"@,
        r@[3]@ == "/dev/cu.usbmodem1421"@,
        r@[4]@ == "/dev/ttyUSB0"@,
        r@[5]@ == "/dev/ttyACM0"@,
{
    let mut out: Vec<&'static str> = Vec::new();
    out.push("/dev/cu.usbserial");
    out.push("/dev/cu.SLAB_USBtoUART");
    out.push("/dev/cu.usbmodem14211");
    out.push("/dev/cu.usbmodem1421");
    out.push("/dev/ttyUSB0");
    out.push("/dev/ttyACM0");
    out
}

} // verus!
