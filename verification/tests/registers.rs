use mushix::xhci::context::{
    DeviceContext, DeviceContextBaseAddressArray, EndpointContext, EndpointType, InputContext,
    InputControlContext, ScratchpadBuffers,
};
use mushix::xhci::event::EventRing;
use mushix::xhci::port::{PortReset, PortSc, PortScEntry, UsbMode};
use mushix::xhci::registers::{
    CapabilityRegisters, ControllerReset, ControllerStart, Doorbell, OperationalRegisters,
    RuntimeRegisters,
};
use mushix::xhci::ring::CommandRing;
use mushix::xhci::store::Store;

fn op() -> OperationalRegisters {
    OperationalRegisters {
        usbcmd: 0,
        usbsts: 0,
        pagesize: 1,
        dnctrl: 0,
        crcr: 0,
        dcbaap: 0,
        config: 0,
    }
}

#[test]
fn capabilities_are_read() {
    let cap = CapabilityRegisters::from_words([
        0x0100_0040,
        0x0800_1040,
        0xf820_0000 | 2 << 21,
        0,
        0,
        0x2000,
        0x1000,
        0,
    ]);
    assert_eq!(cap.caplength(), 0x40);
    assert_eq!(cap.version, 0x0100);
    assert_eq!(cap.num_of_device_slots(), 0x40);
    assert_eq!(cap.num_of_ports(), 8);
    assert_eq!(cap.num_scratchpad_bufs(), 3 << 5 | 31);
    assert_eq!(cap.dboff(), 0x2000);
    assert_eq!(cap.rtsoff(), 0x1000);
}

#[test]
fn page_sizes_have_one_bit() {
    let mut regs = op();
    assert_eq!(regs.page_size(), Ok(4096));
    regs.pagesize = 0xffff_0008;
    assert_eq!(regs.page_size(), Ok(0x8000));
    regs.pagesize = 0x8000;
    assert_eq!(regs.page_size(), Ok(0x800_0000));
    regs.pagesize = 0;
    assert_eq!(regs.page_size(), Err("Invalid page size bits"));
    regs.pagesize = 3;
    assert_eq!(regs.page_size(), Err("Invalid page size bits"));
}

#[test]
fn a_controller_is_reset_and_started() {
    let mut regs = op();
    regs.usbcmd = 0x5;
    let mut phase = regs.reset_xhc(ControllerReset::Start);
    assert_eq!((regs.usbcmd, phase), (0x4, ControllerReset::Stopping));
    phase = regs.reset_xhc(phase);
    assert_eq!((regs.usbcmd, phase), (0x4, ControllerReset::Stopping));
    regs.usbsts = 1;
    phase = regs.reset_xhc(phase);
    assert_eq!((regs.usbcmd, phase), (0x6, ControllerReset::Resetting));
    regs.usbsts = 2;
    phase = regs.reset_xhc(phase);
    assert_eq!(phase, ControllerReset::Resetting);
    regs.usbsts = 1;
    assert_eq!(regs.reset_xhc(phase), ControllerReset::Done);
    assert_eq!(regs.usbsts(), 1);

    let phase = regs.start_xhc(ControllerStart::Start);
    assert_eq!((regs.usbcmd, phase), (0x7, ControllerStart::Starting));
    assert_eq!(regs.start_xhc(phase), ControllerStart::Starting);
    regs.usbsts = 0;
    assert_eq!(regs.start_xhc(phase), ControllerStart::Done);
}

#[test]
fn operational_registers_are_filled() {
    let mut regs = op();
    regs.set_cmd_ring_ctrl(&CommandRing::new(0x9000));
    assert_eq!(regs.crcr, 0x9001);
    assert_eq!(regs.set_dcbaa_ptr(0xa000), Ok(()));
    assert_eq!(regs.dcbaap, 0xa000);
    regs.config = 0x3ff;
    assert_eq!(regs.set_num_device_slots(0x40), Ok(()));
    assert_eq!(regs.config, 0x340);
    regs.set_command_bits(4);
    regs.set_command_bits(8);
    regs.clear_command_bits(4);
    assert_eq!(regs.usbcmd, 8);
}

#[test]
fn an_interrupter_is_set_up() {
    let rt = RuntimeRegisters { base: 0x1_0000 };
    let mut events = EventRing::new(0x4000, 0x5000).unwrap();
    let mut stores: Vec<Store> = Vec::new();
    assert_eq!(rt.init_irs(1024, &mut events, &mut stores), Err("Index out of range"));
    assert!(stores.is_empty());
    assert_eq!(rt.init_irs(0, &mut events, &mut stores), Ok(()));
    assert_eq!(
        stores,
        vec![
            Store::Word { addr: 0x1_0028, value: 1 },
            Store::Long { addr: 0x1_0030, value: 0x5000 },
            Store::Long { addr: 0x1_0038, value: 0x4000 },
            Store::Word { addr: 0x1_0024, value: 0 },
            Store::Word { addr: 0x1_0020, value: 1 },
        ]
    );
    assert_eq!(events.erdp(), Some(0x1_0038));
    stores.clear();
    assert_eq!(rt.init_irs(1023, &mut events, &mut stores), Ok(()));
    assert_eq!(stores[0], Store::Word { addr: 0x1_8008, value: 1 });
    assert_eq!(events.erdp(), Some(0x1_8018));
    assert_eq!(rt.irs(1), 0x1_0040);
}

#[test]
fn a_doorbell_names_its_target() {
    let bell = Doorbell::new(0x2004);
    assert_eq!(bell.notify(3, 0), Store::Word { addr: 0x2004, value: 3 });
    assert_eq!(bell.notify(255, 0xffff), Store::Word { addr: 0x2004, value: 0xffff_00ff });
}

#[test]
fn ports_have_their_registers() {
    let ports = PortSc::new(0x1_0040, 3);
    assert_eq!(ports.port_range(), 1..4);
    assert_eq!(ports.get(1).unwrap().ptr, 0x1_0440);
    assert_eq!(ports.get(3).unwrap().ptr, 0x1_0460);
    assert!(ports.get(0).is_none());
    assert!(ports.get(4).is_none());
}

#[test]
fn a_port_is_reset_step_by_step() {
    let port = PortScEntry::new(0x440);
    let (phase, store) = port.read(0xffff_ffff).reset_port(PortReset::Start);
    assert_eq!(phase, PortReset::PowerUp);
    assert_eq!(store, Some(Store::Word { addr: 0x440, value: 0x4f01_ffe9 | 0x200 }));
    let (phase, store) = port.read(0x1).reset_port(phase);
    assert_eq!((phase, store), (PortReset::PowerUp, None));
    let (phase, store) = port.read(0x203).reset_port(phase);
    assert_eq!(phase, PortReset::Resetting);
    assert_eq!(store, Some(Store::Word { addr: 0x440, value: 0x211 }));
    let (phase, store) = port.read(0x211).reset_port(phase);
    assert_eq!((phase, store), (PortReset::Resetting, None));
    let (phase, store) = port.read(0x203).reset_port(phase);
    assert_eq!((phase, store), (PortReset::Done, None));
}

#[test]
fn port_bits_are_read() {
    let port = PortScEntry::new(0).read(0x203);
    assert_eq!(port.value(), 0x203);
    assert!(port.ccs() && port.ped() && port.pp() && !port.pr());
    assert!(port.is_enabled());
    assert!(port.bit(9) && !port.bit(31));
    for off in [0x202, 0x201, 0x003, 0x213] {
        assert!(!PortScEntry::new(0).read(off).is_enabled());
    }
}

#[test]
fn stores_to_ports_clear_nothing_by_accident() {
    let port = PortScEntry::new(8).read(0xffff_ffff);
    for store in [port.assert_pp(), port.assert_pr(), port.assert_bit(9)] {
        if let Store::Word { value, .. } = store {
            assert_eq!(value & 0x00fe_0002, 0);
        } else {
            unreachable!();
        }
    }
}

#[test]
fn speeds_go_there_and_back() {
    let modes = [
        (1, UsbMode::FullSpeed, Ok(8)),
        (2, UsbMode::LowSpeed, Ok(8)),
        (3, UsbMode::HighSpeed, Ok(64)),
        (4, UsbMode::SuperSpeed, Ok(512)),
        (5, UsbMode::Unknown(5), Err("unknown Protocol Speed ID")),
        (0, UsbMode::Unknown(0), Err("unknown Protocol Speed ID")),
    ];
    for (id, mode, packet) in modes {
        let port = PortScEntry::new(0).read(id << 10);
        assert_eq!(port.port_speed(), mode);
        assert_eq!(mode.psi(), id);
        assert_eq!(port.max_packet_size(), packet);
    }
}

#[test]
fn endpoint_contexts_have_their_words() {
    let control = EndpointContext::new_control_endpoint(64, 0x7000).unwrap();
    assert_eq!(control.info, 0);
    assert_eq!(control.info2, 64 << 16 | 4 << 3 | 3 << 1);
    assert_eq!(control.tr_deque_ptr, 0x7001);
    assert_eq!(control.average_trb_length, 8);
    let bulk = EndpointContext::new_bulk_endpoint(512, 0x8000, EndpointType::BulkIn).unwrap();
    assert_eq!(bulk.info2, 512 << 16 | 6 << 3 | 3 << 1);
    assert_eq!(bulk.tr_deque_ptr, 0x8001);
    assert_eq!(bulk.average_trb_length, 512);
}

#[test]
fn endpoint_fields_are_checked_and_kept_apart() {
    let mut ep = EndpointContext::new();
    assert_eq!(ep.set_max_burst_size(16), Err("Invalid max burst size"));
    assert_eq!(ep.set_max_burst_size(15), Ok(()));
    assert_eq!(ep.info2, 15 << 8);
    assert_eq!(ep.set_error_count(4), Err("Invalid error count"));
    assert_eq!(ep.set_error_count(2), Ok(()));
    ep.set_max_packet_size(0x1234);
    assert_eq!(ep.set_ep_type(EndpointType::InterruptIn), Ok(()));
    assert_eq!(ep.info2, 0x1234 << 16 | 15 << 8 | 7 << 3 | 2 << 1);
    assert_eq!(ep.set_max_burst_size(0), Ok(()));
    assert_eq!(ep.info2, 0x1234 << 16 | 7 << 3 | 2 << 1);
    assert_eq!(ep.set_ring_deque_pointer(0xabcd_ef10), Ok(()));
    assert_eq!(ep.set_dequeue_cycle_state(true), Ok(()));
    assert_eq!(ep.tr_deque_ptr, 0xabcd_ef11);
}

#[test]
fn slot_fields_are_checked_and_kept_apart() {
    let mut dev = DeviceContext::default();
    assert_eq!(dev.set_port_speed(UsbMode::Unknown(16)), Err("Invalid port speed"));
    assert_eq!(dev.set_port_speed(UsbMode::SuperSpeed), Ok(()));
    assert_eq!(dev.set_last_valid_dci(32), Err("num_ep_ctx out of range"));
    assert_eq!(dev.set_last_valid_dci(31), Ok(()));
    assert_eq!(dev.slot_ctx[0], 31 << 27 | 4 << 20);
    assert_eq!(dev.set_last_valid_dci(1), Ok(()));
    assert_eq!(dev.slot_ctx[0], 1 << 27 | 4 << 20);
    assert_eq!(dev.set_root_hub_port_number(0), Err("Port out of range"));
    assert_eq!(dev.set_root_hub_port_number(256), Err("Port out of range"));
    assert_eq!(dev.set_root_hub_port_number(5), Ok(()));
    assert_eq!(dev.slot_ctx[1], 5 << 16);
}

#[test]
fn contexts_are_added() {
    let mut ctx = InputControlContext::default();
    assert_eq!(ctx.add_context(0), Ok(()));
    assert_eq!(ctx.add_context(31), Ok(()));
    assert_eq!(ctx.add_context(32), Err("Input context index out of range"));
    assert_eq!(ctx.add_context_bitmap, 0x8000_0001);
    assert_eq!(ctx.drop_context_bitmap, 0);
}

#[test]
fn an_input_context_lies_in_memory() {
    let mut ctx = InputContext::default();
    let mut control = InputControlContext::default();
    control.add_context(0).unwrap();
    control.add_context(1).unwrap();
    assert_eq!(ctx.set_input_ctrl_ctx(control), Ok(()));
    assert_eq!(ctx.set_port_speed(UsbMode::HighSpeed), Ok(()));
    assert_eq!(ctx.set_root_hub_port_number(2), Ok(()));
    assert_eq!(ctx.set_last_valid_dci(1), Ok(()));
    let ep = EndpointContext::new_control_endpoint(64, 0x1_0000_7000).unwrap();
    assert_eq!(ctx.set_ep_ctx(1, ep), Ok(()));
    let words = ctx.to_words();
    assert_eq!(words.len(), 264);
    assert_eq!(&words[0..3], &[0, 3, 0]);
    assert_eq!(&words[8..11], &[1 << 27 | 3 << 20, 2 << 16, 0]);
    assert_eq!(&words[16..21], &[0, 64 << 16 | 0x26, 0x7001, 1, 8]);
    assert!(words[21..].iter().all(|w| *w == 0));
}

#[test]
fn the_context_array_starts_with_the_scratchpads() {
    let cap = CapabilityRegisters::from_words([0, 0, 0, 0, 0, 0, 0, 0]);
    assert_eq!(ScratchpadBuffers::demand(&cap, &op()), Ok((4096, 1)));
    let cap = CapabilityRegisters::from_words([0, 0, 4 << 27, 0, 0, 0, 0, 0]);
    assert_eq!(ScratchpadBuffers::demand(&cap, &op()), Ok((4096, 4)));
    let cap = CapabilityRegisters::from_words([0, 0, 2 << 27, 0, 0, 0, 0, 0]);
    assert_eq!(ScratchpadBuffers::demand(&cap, &op()), Ok((4096, 2)));
    let mut stores: Vec<Store> = Vec::new();
    let bufs = ScratchpadBuffers::allocated(&cap, 0x100, vec![0xa000, 0xb000], &mut stores);
    assert_eq!(
        stores,
        vec![
            Store::Long { addr: 0x100, value: 0xa000 },
            Store::Long { addr: 0x108, value: 0xb000 },
        ]
    );
    let mut array = DeviceContextBaseAddressArray::new(&bufs, 0x2000);
    assert_eq!(array.inner_mut_ptr(), 0x2000);
    assert_eq!(array.entry(0), 0x100);
    assert_eq!(array.entry(1), 0);
    array.set_output_context(255, 0xc000);
    assert_eq!(array.entry(255), 0xc000);
    assert_eq!(array.entry(0), 0x100);
}
