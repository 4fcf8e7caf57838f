use mushix::xhci::controller::{Controller, ControllerMemory, EndpointMemory, InitPort};
use mushix::xhci::descriptor::{EndpointDescriptor, UsbDescriptorType};
use mushix::xhci::driver::PciXhciDriver;
use mushix::xhci::endpoints::EndpointRings;
use mushix::xhci::entry::{GenericTrbEntry, TrbType};
use mushix::xhci::op::{Endpoint, Op, ScsiCommand};
use mushix::xhci::port::PortReset;
use mushix::xhci::registers::{
    CapabilityRegisters, ControllerReset, ControllerStart, OperationalRegisters, XhcRegisters,
};
use mushix::xhci::ring::CommandRing;
use mushix::xhci::stages::DmaBuffer;
use mushix::xhci::startup::{StartStage, StartUp};
use mushix::xhci::store::Store;

const BAR0: u64 = 0xfe00_0000;

fn op(pagesize: u32) -> OperationalRegisters {
    OperationalRegisters {
        usbcmd: 0,
        usbsts: 1,
        pagesize,
        dnctrl: 0,
        crcr: 0,
        dcbaap: 0,
        config: 0x100,
    }
}

fn registers() -> XhcRegisters {
    let cap = CapabilityRegisters::from_words([0x40, 0x0200_0008, 0, 0, 0, 0x2000, 0x1000, 0]);
    PciXhciDriver::setup_xhc_registers(BAR0, cap)
}

fn memory() -> ControllerMemory {
    ControllerMemory {
        scratchpad_table: 0x1_0000,
        scratchpad_bufs: vec![0x1_1000],
        dcbaa: 0x1_2000,
        event_ring: 0x1_3000,
        erst: 0x1_4000,
        command_ring: 0x1_5000,
    }
}

fn set_up(pagesize: u32, stores: &mut Vec<Store>) -> Result<Controller, &'static str> {
    Controller::new(registers(), &mut op(pagesize), memory(), stores)
}

fn controller() -> Controller {
    set_up(1, &mut Vec::new()).unwrap()
}

fn event(kind: TrbType, data: u64, slot: u8) -> GenericTrbEntry {
    let mut trb = GenericTrbEntry { data, option: 1 << 24, control: 1 };
    trb.set_trb_type(kind);
    trb.set_slot_id(slot);
    trb
}

fn blocks(ring: &CommandRing, n: usize) -> Vec<(u64, u32, u32)> {
    (0..n).map(|i| (ring.block(i).data, ring.block(i).option, ring.block(i).control)).collect()
}

fn rung(stores: &[Store], slot: u64, dci: u32) {
    let n = stores.len();
    assert_eq!(stores[n - 2], Store::Word { addr: BAR0 + 0x2000 + 4 * slot, value: dci });
    assert_eq!(stores[n - 1], Store::SetBits { addr: BAR0 + 0x44, mask: 0x1c });
}

#[test]
fn setting_up_stores_everything_once() {
    let mut stores: Vec<Store> = Vec::new();
    let xhc = set_up(1, &mut stores).unwrap();
    let link = |base: u64| Store::Trb { addr: base + 240, trb: GenericTrbEntry::trb_link(base) };
    assert_eq!(
        stores,
        vec![
            Store::Long { addr: 0x1_0000, value: 0x1_1000 },
            Store::Long { addr: 0x1_2000, value: 0x1_0000 },
            link(0x1_3000),
            Store::Long { addr: 0x1_4000, value: 0x1_3000 },
            Store::Word { addr: 0x1_4008, value: 16 },
            link(0x1_5000),
            Store::Word { addr: BAR0 + 0x1028, value: 1 },
            Store::Long { addr: BAR0 + 0x1030, value: 0x1_4000 },
            Store::Long { addr: BAR0 + 0x1038, value: 0x1_3000 },
            Store::Word { addr: BAR0 + 0x1024, value: 0 },
            Store::Word { addr: BAR0 + 0x1020, value: 1 },
            Store::Long { addr: BAR0 + 0x40 + 0x38, value: 0x108 },
            Store::Long { addr: BAR0 + 0x40 + 0x30, value: 0x1_2000 },
            Store::Long { addr: BAR0 + 0x40 + 0x18, value: 0x1_5001 },
        ]
    );
    assert_eq!(xhc.primary_event_ring.current_ptr(), 0x1_3000);
    assert_eq!(xhc.command_ring.ring_phys_addr(), 0x1_5000);
    assert_eq!(xhc.device_context_base_array.entry(0), 0x1_0000);
}

#[test]
fn a_controller_without_a_page_size_is_refused() {
    let mut stores: Vec<Store> = Vec::new();
    assert!(matches!(set_up(0, &mut stores), Err("Invalid page size bits")));
    assert!(stores.is_empty());
}

#[test]
fn a_command_is_sent_and_completes() {
    let mut xhc = controller();
    let mut stores: Vec<Store> = Vec::new();
    let future = xhc.send_command(GenericTrbEntry::cmd_enable_slot(), &mut stores).unwrap();
    assert_eq!(stores.len(), 4);
    assert_eq!(stores[3], Store::Word { addr: BAR0 + 0x2000, value: 0 });
    assert_eq!(future.poll(&mut xhc.primary_event_ring), None);

    stores.clear();
    let nothing = GenericTrbEntry::default();
    assert_eq!(xhc.take_event(nothing, 0x1_3008, &mut stores), Ok(()));
    assert!(stores.is_empty());
    let done = event(TrbType::CommandCompletionEvent, 0x1_5000, 4);
    assert_eq!(xhc.take_event(done, 0x1_3008, &mut stores), Ok(()));
    assert_eq!(stores, vec![Store::Long { addr: BAR0 + 0x1038, value: 0x1_3008 }]);
    let got = future.poll(&mut xhc.primary_event_ring).unwrap();
    assert_eq!(got.slot_id(), 4);
    assert_eq!(got.cmd_result_ok(), Ok(()));
    future.release(&mut xhc.primary_event_ring);
}

#[test]
fn doorbells_are_rung() {
    let xhc = controller();
    let mut stores: Vec<Store> = Vec::new();
    assert_eq!(xhc.notify_ep(3, 1, &mut stores), Err("Invalid slot"));
    assert_eq!(xhc.notify_ep(2, 256, &mut stores), Err("dci out of range"));
    assert!(stores.is_empty());
    assert_eq!(xhc.notify_ep(2, 255, &mut stores), Ok(()));
    assert_eq!(stores.len(), 2);
    rung(&stores, 2, 255);
    assert_eq!(stores[0].word(7), Some(255));
    assert_eq!(stores[1].word(0x0000_0009), Some(0x0000_001d));
    assert_eq!(stores[1].word(0xffff_0000), Some(0xffff_001c));
    assert_eq!(Store::Long { addr: 0, value: 1 }.word(0), None);
}

#[test]
fn a_configuration_is_selected() {
    let mut xhc = controller();
    let mut ring = CommandRing::new(0x2_0000);
    let mut stores: Vec<Store> = Vec::new();
    let future = xhc.request_set_config(1, &mut ring, 7, &mut stores).unwrap();
    assert_eq!(stores.len(), 8);
    rung(&stores, 1, 1);
    assert_eq!(
        blocks(&ring, 2),
        vec![(0x0007_0900, 8, 2 << 10 | 0x41), (0, 0, 0x1_1025)]
    );
    let done = event(TrbType::TransferEvent, 0x2_0010, 1);
    assert_eq!(xhc.take_event(done, 0, &mut stores), Ok(()));
    assert_eq!(future.poll(&mut xhc.primary_event_ring), Some(done));
}

#[test]
fn a_descriptor_is_asked_for() {
    let mut xhc = controller();
    let mut ring = CommandRing::new(0x2_0000);
    let mut stores: Vec<Store> = Vec::new();
    let buf = DmaBuffer { addr: 0x3_0000, len: 18 };
    let future = xhc
        .request_descriptor(1, &mut ring, UsbDescriptorType::String, 2, 0x0409, buf, &mut stores)
        .unwrap();
    rung(&stores, 1, 1);
    assert_eq!(
        blocks(&ring, 3),
        vec![
            (0x0012_0409_0302_0680, 8, 2 << 16 | 2 << 10 | 0x41),
            (0x3_0000, 18, 0x1_0c25),
            (0, 0, 0x1001),
        ]
    );
    let data_stage = event(TrbType::TransferEvent, 0x2_0010, 1);
    assert_eq!(xhc.take_event(data_stage, 0, &mut stores), Ok(()));
    assert_eq!(future.poll(&mut xhc.primary_event_ring), Some(data_stage));
    let bad = xhc.request_descriptor(9, &mut ring, UsbDescriptorType::Device, 0, 0, buf, &mut stores);
    assert!(matches!(bad, Err("Invalid slot")));
}

#[test]
fn halts_and_resets_are_requested() {
    let mut xhc = controller();
    let mut ring = CommandRing::new(0x2_0000);
    let mut stores: Vec<Store> = Vec::new();
    assert!(xhc.clear_endpoint_halt(2, &mut ring, 0x81, &mut stores).is_ok());
    rung(&stores, 2, 1);
    assert!(xhc.bulk_only_mass_storage_reset(2, &mut ring, &mut stores).is_ok());
    assert_eq!(
        blocks(&ring, 4),
        vec![
            (0x0081_0000_0102, 8, 2 << 10 | 0x41),
            (0, 0, 0x1_1025),
            (0xff21, 8, 2 << 10 | 0x41),
            (0, 0, 0x1_1025),
        ]
    );
}

#[test]
fn bulk_transfers_go_both_ways() {
    let mut xhc = controller();
    let mut ring = CommandRing::new(0x2_0000);
    let mut stores: Vec<Store> = Vec::new();
    let buf = DmaBuffer { addr: 0x3_0000, len: 31 };
    assert!(xhc.bulk_out(1, &mut ring, 4, buf, &mut stores).is_ok());
    rung(&stores, 1, 4);
    assert!(xhc.bulk_in(1, &mut ring, 3, buf, &mut stores).is_ok());
    rung(&stores, 1, 3);
    assert_eq!(blocks(&ring, 2), vec![(0x3_0000, 31, 0x425), (0x3_0000, 31, 0x1_0425)]);
}

#[test]
fn a_port_gets_its_slot() {
    let mut xhc = controller();
    let mut stores: Vec<Store> = Vec::new();
    assert!(matches!(
        xhc.init_port(3, PortReset::Start, 0, &mut stores),
        Err("Port not found")
    ));
    assert!(matches!(
        xhc.init_port(2, PortReset::Start, 0x2a1, &mut stores),
        Ok(InitPort::Waiting(PortReset::PowerUp))
    ));
    assert_eq!(stores, vec![Store::Word { addr: BAR0 + 0x450, value: 0x2a1 }]);
    assert!(matches!(
        xhc.init_port(2, PortReset::PowerUp, 0x201, &mut stores),
        Ok(InitPort::Waiting(PortReset::Resetting))
    ));
    assert!(matches!(
        xhc.init_port(2, PortReset::Resetting, 0x211, &mut stores),
        Ok(InitPort::Waiting(PortReset::Resetting))
    ));
    assert!(matches!(
        xhc.init_port(2, PortReset::Resetting, 0x201, &mut stores),
        Err("Port is not enabled")
    ));
    stores.clear();
    assert!(matches!(
        xhc.init_port(2, PortReset::Resetting, 0x203, &mut stores),
        Ok(InitPort::Enabling(_))
    ));
    assert_eq!(xhc.command_ring.block(0).trb_type(), TrbType::EnableSlotCommand.number());
    assert_eq!(stores[3], Store::Word { addr: BAR0 + 0x2000, value: 0 });
}

#[test]
fn a_device_gets_its_address() {
    let mut xhc = controller();
    let mut stores: Vec<Store> = Vec::new();
    let mem = EndpointMemory { input_context: 0x4_0000, ring: 0x4_2000 };
    let setup = xhc.address_device(2, 1, 3 << 10, 0x4_1000, mem, &mut stores).unwrap();
    assert_eq!(stores[0], Store::Long { addr: 0x1_2008, value: 0x4_1000 });
    assert_eq!(
        stores[1],
        Store::Trb { addr: 0x4_20f0, trb: GenericTrbEntry::trb_link(0x4_2000) }
    );
    assert_eq!(xhc.device_context_base_array.entry(1), 0x4_1000);
    assert_eq!(
        xhc.command_ring.block(0),
        GenericTrbEntry { data: 0x4_0000, option: 0, control: 1 << 24 | 11 << 10 | 1 }
    );
    assert_eq!(setup.ring.ring_phys_addr(), 0x4_2000);
    let words = setup.input_context.to_words();
    assert_eq!(words[1], 3);
    assert_eq!(&words[8..10], &[1 << 27 | 3 << 20, 2 << 16]);
    assert_eq!(&words[16..21], &[0, 64 << 16 | 0x26, 0x4_2001, 0, 8]);
}

#[test]
fn a_device_that_cannot_be_addressed() {
    let mut xhc = controller();
    let mut stores: Vec<Store> = Vec::new();
    let mem = EndpointMemory { input_context: 0x4_0000, ring: 0x4_2000 };
    let mut fails = |port: usize, value: u32| {
        xhc.address_device(port, 1, value, 0x4_1000, mem, &mut stores).err()
    };
    assert_eq!(fails(0, 0), Some("Port out of range"));
    assert_eq!(fails(256, 0), Some("Port out of range"));
    assert_eq!(fails(3, 0), Some("PORTSC was invalid"));
    assert_eq!(fails(2, 7 << 10), Some("unknown Protocol Speed ID"));
}

#[test]
fn a_bulk_endpoint_is_configured() {
    let mut xhc = controller();
    let mut stores: Vec<Store> = Vec::new();
    let mem = EndpointMemory { input_context: 0x4_0000, ring: 0x4_2000 };
    let ep = EndpointDescriptor::read_at(&[7, 5, 0x81, 2, 0, 2, 0], 0).unwrap();
    let setup = xhc.configure_bulk_endpoint(1, &ep, 3, mem, &mut stores).unwrap();
    assert_eq!(
        xhc.command_ring.block(0),
        GenericTrbEntry { data: 0x4_0000, option: 0, control: 1 << 24 | 12 << 10 | 1 }
    );
    let words = setup.input_context.to_words();
    assert_eq!(words[1], 1 | 1 << 3);
    assert_eq!(&words[8..10], &[3 << 27, 0]);
    assert_eq!(&words[32..37], &[0, 512 << 16 | 0x36, 0x4_2001, 0, 512]);
    stores.clear();
    let bad = xhc.configure_bulk_endpoint(1, &ep, 32, mem, &mut stores);
    assert!(matches!(bad, Err("Input context index out of range")));
    assert!(stores.is_empty());
}

#[test]
fn output_contexts_are_made_known() {
    let mut xhc = controller();
    let mut stores: Vec<Store> = Vec::new();
    xhc.set_output_context_for_slot(255, 0x5_0000, &mut stores);
    assert_eq!(stores, vec![Store::Long { addr: 0x1_2000 + 8 * 255, value: 0x5_0000 }]);
    assert_eq!(xhc.device_context_base_array.entry(255), 0x5_0000);
}

#[test]
fn operations_are_settled_by_their_events() {
    let port = Op::InitPort { port: 1 };
    let address = Op::AddressDevice { port: 1, slot: 4 };
    let reset = Op::StorageReset { slot: 4 };
    let command = event(TrbType::CommandCompletionEvent, 0, 4);
    let transfer = event(TrbType::TransferEvent, 0, 4);
    assert_eq!(port.settle(&command), Ok(4));
    assert_eq!(address.settle(&command), Ok(0));
    assert_eq!(reset.settle(&transfer), Ok(0));
    assert_eq!(address.settle(&transfer), Err("Not a Command Completion Event"));
    assert_eq!(reset.settle(&command), Err("Not a TransferEvent"));
    let mut failed = command;
    failed.option = 5 << 24;
    assert_eq!(port.settle(&failed), Ok(4));
    assert_eq!(address.settle(&failed), Err("Command Completion Event with error code"));
    let mut stalled = transfer;
    stalled.option = 6 << 24;
    assert_eq!(reset.settle(&stalled), Err("Transfer Event with error code"));
}

#[test]
fn blocks_come_before_the_doorbell() {
    let mut xhc = controller();
    let mut ring = CommandRing::new(0x2_0000);
    let buf = DmaBuffer { addr: 0x3_0000, len: 512 };
    for _ in 0..40 {
        let mut stores: Vec<Store> = Vec::new();
        assert!(xhc.bulk_in(1, &mut ring, 3, buf, &mut stores).is_ok());
        rung(&stores, 1, 3);
        for store in &stores[..stores.len() - 2] {
            assert!(matches!(store, Store::Trb { .. }));
        }
    }
}

#[test]
fn operations_become_transfers() {
    let mut xhc = controller();
    let mut ring = CommandRing::new(0x2_0000);
    let mut stores: Vec<Store> = Vec::new();
    let buf = DmaBuffer { addr: 0x3_0000, len: 9 };
    let ask = Op::Descriptor {
        slot: 1,
        desc_type: UsbDescriptorType::Config,
        index: 0,
        lang_id: 0,
        len: 9,
    };
    assert_eq!(ask.endpoint(), Some(Endpoint::Control { slot: 1 }));
    assert_eq!(ask.received_len(), 9);
    assert!(ask.sent_bytes().is_empty());
    let future = xhc.begin(&ask, &mut ring, buf, &mut stores).unwrap();
    rung(&stores, 1, 1);
    let done = event(TrbType::TransferEvent, 0x2_0010, 1);
    assert_eq!(xhc.take_event(done, 0, &mut stores), Ok(()));
    assert_eq!(future.poll(&mut xhc.primary_event_ring), Some(done));

    for op in [
        Op::SetConfig { slot: 2, value: 7 },
        Op::StorageReset { slot: 2 },
        Op::ClearHalt { slot: 2, address: 0x81 },
    ] {
        assert_eq!(op.endpoint(), Some(Endpoint::Control { slot: 2 }));
        assert_eq!(op.received_len(), 0);
        assert!(xhc.begin(&op, &mut ring, buf, &mut stores).is_ok());
        rung(&stores, 2, 1);
    }
    assert_eq!(
        blocks(&ring, 9)[3..],
        [
            (0x0007_0900, 8, 2 << 10 | 0x41),
            (0, 0, 0x1_1025),
            (0xff21, 8, 2 << 10 | 0x41),
            (0, 0, 0x1_1025),
            (0x0081_0000_0102, 8, 2 << 10 | 0x41),
            (0, 0, 0x1_1025),
        ]
    );

    let send = Op::BulkOut { slot: 1, dci: 4, command: ScsiCommand::Inquiry };
    assert_eq!(send.endpoint(), Some(Endpoint::Bulk { slot: 1, dci: 4 }));
    assert_eq!(send.sent_bytes(), ScsiCommand::Inquiry.to_bytes());
    let mut bulk = CommandRing::new(0x5_0000);
    assert!(xhc.begin(&send, &mut bulk, buf, &mut stores).is_ok());
    rung(&stores, 1, 4);
    let receive = Op::BulkIn { slot: 1, dci: 3, len: 13 };
    assert_eq!(receive.received_len(), 13);
    assert!(xhc.begin(&receive, &mut bulk, buf, &mut stores).is_ok());
    rung(&stores, 1, 3);
    assert_eq!(blocks(&bulk, 2), vec![(0x3_0000, 9, 0x425), (0x3_0000, 9, 0x1_0425)]);
    assert_eq!(Op::InitPort { port: 1 }.endpoint(), None);
    assert_eq!(Op::Done(Ok(())).endpoint(), None);
}

fn command(value: u32) -> Vec<Store> {
    vec![Store::Word { addr: BAR0 + 0x40, value }]
}

#[test]
fn a_controller_is_brought_up_in_order() {
    let mut regs = op(1);
    regs.usbcmd = 1;
    regs.usbsts = 0;
    let mut stores: Vec<Store> = Vec::new();
    let up = StartUp::new(registers()).look(regs, &mut stores);
    assert_eq!(up.stage(), StartStage::Resetting(ControllerReset::Stopping));
    assert_eq!(stores, command(0));
    stores.clear();
    regs.usbcmd = 0;
    let up = up.look(regs, &mut stores);
    assert_eq!(up.stage(), StartStage::Resetting(ControllerReset::Stopping));
    assert!(stores.is_empty());
    regs.usbsts = 1;
    let up = up.look(regs, &mut stores);
    assert_eq!(up.stage(), StartStage::Resetting(ControllerReset::Resetting));
    assert_eq!(stores, command(2));
    stores.clear();
    let up = up.look(regs, &mut stores);
    assert_eq!(up.stage(), StartStage::SettingUp);
    assert!(stores.is_empty());
    let up = up.set_up(regs, memory(), &mut stores);
    assert_eq!(up.stage(), StartStage::Starting(ControllerStart::Start));
    assert_eq!(stores.len(), 14);
    stores.clear();
    let up = up.look(regs, &mut stores);
    assert_eq!(up.stage(), StartStage::Starting(ControllerStart::Starting));
    assert_eq!(stores, command(1));
    stores.clear();
    let up = up.look(regs, &mut stores);
    assert_eq!(up.stage(), StartStage::Starting(ControllerStart::Starting));
    regs.usbsts = 0;
    let up = up.look(regs, &mut stores);
    assert_eq!(up.stage(), StartStage::Running);
    assert!(stores.is_empty());
    assert!(matches!(up, StartUp::Running { .. }));
}

#[test]
fn a_controller_that_cannot_be_set_up_is_not_started() {
    let regs = op(0);
    let mut stores: Vec<Store> = Vec::new();
    let up = StartUp::SettingUp { regs: registers() }.set_up(regs, memory(), &mut stores);
    assert_eq!(up.stage(), StartStage::Failed("Invalid page size bits"));
    let up = up.look(regs, &mut stores);
    assert_eq!(up.stage(), StartStage::Failed("Invalid page size bits"));
    assert!(stores.is_empty());
}

#[test]
fn transfers_go_through_the_ring_of_their_endpoint() {
    let mut xhc = controller();
    let mut rings = EndpointRings::new();
    let mut stores: Vec<Store> = Vec::new();
    let buf = DmaBuffer { addr: 0x3_0000, len: 13 };
    let ep = EndpointDescriptor::read_at(&[7, 5, 0x81, 2, 0, 2, 0], 0).unwrap();
    let address = Op::AddressDevice { port: 1, slot: 1 };
    let configure = Op::ConfigureBulk { slot: 1, ep, dci: 3 };
    let done = event(TrbType::CommandCompletionEvent, 0, 1);
    let mut failed = done;
    failed.option = 5 << 24;
    assert_eq!(address.prepared_endpoint(), Some(Endpoint::Control { slot: 1 }));
    assert_eq!(
        rings.settle(&address, CommandRing::new(0x6_0000), &failed),
        Err("Command Completion Event with error code")
    );
    assert!(!rings.contains(Endpoint::Control { slot: 1 }));
    assert_eq!(rings.settle(&address, CommandRing::new(0x6_1000), &done), Ok(0));
    assert_eq!(rings.settle(&configure, CommandRing::new(0x6_2000), &done), Ok(0));
    assert!(rings.contains(Endpoint::Control { slot: 1 }));
    assert!(rings.contains(Endpoint::Bulk { slot: 1, dci: 3 }));
    assert!(!rings.contains(Endpoint::Bulk { slot: 1, dci: 4 }));

    let ask = Op::SetConfig { slot: 1, value: 7 };
    let receive = Op::BulkIn { slot: 1, dci: 3, len: 13 };
    for (op, first) in [(ask, 0x6_1000), (receive, 0x6_2000), (ask, 0x6_1020), (receive, 0x6_2010)] {
        stores.clear();
        assert!(rings.begin(&mut xhc, &op, buf, &mut stores).is_ok());
        assert!(matches!(stores[0], Store::Trb { addr, .. } if addr == first));
    }
    rings.insert(Endpoint::Bulk { slot: 1, dci: 3 }, CommandRing::new(0x6_3000));
    stores.clear();
    assert!(rings.begin(&mut xhc, &receive, buf, &mut stores).is_ok());
    assert!(matches!(stores[0], Store::Trb { addr: 0x6_3000, .. }));
}
