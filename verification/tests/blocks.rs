use mushix::trb;
use mushix::xhci::entry::{GenericTrbEntry, TrbType};
use mushix::xhci::event::{
    EventFuture, EventRing, EventRingSegmentTableEntry, EventWaitCond, EventWaitInfo,
};
use mushix::xhci::ring::{CommandRing, TrbRing};
use mushix::xhci::stages::{DataStageTrb, DmaBuffer, NormalTrb, SetupStageTrb, StatusStageTrb};
use mushix::xhci::store::{link_store, submit, Store};
use std::collections::HashMap;

fn event(kind: TrbType, data: u64, code: u32, slot: u8, cycle: bool) -> GenericTrbEntry {
    let mut trb = GenericTrbEntry { data, option: code << 24, control: 0 };
    trb.set_trb_type(kind);
    trb.set_slot_id(slot);
    trb.set_cycle_state(cycle);
    trb
}

#[test]
fn fields_of_a_block_do_not_disturb_each_other() {
    let mut trb = GenericTrbEntry { data: 5, option: 6, control: 0xffff_ffff };
    trb.set_trb_type(TrbType::Link);
    assert_eq!(trb.control, 0xffff_1bff);
    assert_eq!(trb.trb_type(), 6);
    trb.set_cycle_state(false);
    assert!(!trb.cycle_state());
    trb.set_toggle_cycle(false);
    trb.set_slot_id(3);
    assert_eq!(trb.control, 0x03ff_1bfc);
    assert_eq!(trb.slot_id(), 3);
    assert_eq!(trb.trb_type(), 6);
    assert_eq!(trb.data(), 5);
    assert_eq!(GenericTrbEntry::default(), GenericTrbEntry { data: 0, option: 0, control: 0 });
}

#[test]
fn commands_and_links_have_their_bits() {
    assert_eq!(
        GenericTrbEntry::trb_link(0x1000),
        GenericTrbEntry { data: 0x1000, option: 0, control: 6 << 10 | 2 }
    );
    assert_eq!(GenericTrbEntry::cmd_enable_slot().control, 9 << 10);
    assert_eq!(
        GenericTrbEntry::cmd_address_device(0x5000, 2),
        GenericTrbEntry { data: 0x5000, option: 0, control: 2 << 24 | 11 << 10 }
    );
    assert_eq!(
        GenericTrbEntry::cmd_configure_endpoint(0x6000, 255),
        GenericTrbEntry { data: 0x6000, option: 0, control: 255 << 24 | 12 << 10 }
    );
}

#[test]
fn kinds_of_block_have_their_numbers() {
    let kinds = [
        (TrbType::Normal, 1),
        (TrbType::SetupStage, 2),
        (TrbType::DataStage, 3),
        (TrbType::StatusStage, 4),
        (TrbType::Link, 6),
        (TrbType::EnableSlotCommand, 9),
        (TrbType::AddressDeviceCommand, 11),
        (TrbType::ConfigureEndpointCommand, 12),
        (TrbType::EvaluateContextCommand, 13),
        (TrbType::NoOpCommand, 23),
        (TrbType::TransferEvent, 32),
        (TrbType::CommandCompletionEvent, 33),
        (TrbType::PortStatusChangeEvent, 34),
        (TrbType::HostControllerEvent, 37),
    ];
    for (kind, number) in kinds {
        assert_eq!(kind.number(), number);
    }
}

#[test]
fn results_of_commands_and_transfers() {
    let done = event(TrbType::CommandCompletionEvent, 0, 1, 0, true);
    assert_eq!(done.completion_code(), 1);
    assert_eq!(done.cmd_result_ok(), Ok(()));
    assert_eq!(done.transfer_result_ok(), Err("Not a TransferEvent"));
    assert_eq!(
        event(TrbType::CommandCompletionEvent, 0, 13, 0, true).cmd_result_ok(),
        Err("Command Completion Event with error code")
    );
    let moved = event(TrbType::TransferEvent, 0, 1, 0, true);
    assert_eq!(moved.transfer_result_ok(), Ok(()));
    assert_eq!(moved.cmd_result_ok(), Err("Not a Command Completion Event"));
    assert_eq!(event(TrbType::TransferEvent, 0, 13, 0, true).transfer_result_ok(), Ok(()));
    assert_eq!(
        event(TrbType::TransferEvent, 0, 6, 0, true).transfer_result_ok(),
        Err("Transfer Event with error code")
    );
}

#[test]
fn requests_say_whether_data_follows() {
    let none = SetupStageTrb::new(0, 9, 1, 0, 0);
    assert_eq!(none.option, 8);
    assert_eq!(none.control, 2 << 10 | 0x40);
    let some = SetupStageTrb::new(0x80, 6, 0x0100, 0, 18);
    assert_eq!(some.control, 2 << 16 | 2 << 10 | 0x40);
    let back = SetupStageTrb::new(0x21, 0xff, 0, 0, 1);
    assert_eq!(back.control, 3 << 16 | 2 << 10 | 0x40);
    let trb: GenericTrbEntry = some.into();
    assert_eq!(trb.data, 0x0012_0000_0100_0680);
    assert_eq!(trb.option, 8);
    assert_eq!(trb.control, some.control);
}

#[test]
fn stages_have_their_bits() {
    let buf = DmaBuffer { addr: 0xabcd_0000, len: 0x1_0000_0200 };
    let data: GenericTrbEntry = DataStageTrb::new_in(buf).into();
    assert_eq!(data, GenericTrbEntry { data: 0xabcd_0000, option: 0x200, control: 0x1_0c24 });
    assert_eq!(DataStageTrb::new_out(buf).buf, 0xabcd_0000);
    let status: GenericTrbEntry = StatusStageTrb::new_in().into();
    assert_eq!(status, GenericTrbEntry { data: 0, option: 0, control: 0x1_1024 });
    let status: GenericTrbEntry = StatusStageTrb::new_out().into();
    assert_eq!(status, GenericTrbEntry { data: 0, option: 0, control: 0x1000 });
    let bulk: GenericTrbEntry = NormalTrb::new_in(buf).into();
    assert_eq!(bulk, GenericTrbEntry { data: 0xabcd_0000, option: 0x200, control: 0x1_0424 });
    let bulk: GenericTrbEntry = NormalTrb::new_out(buf).into();
    assert_eq!(bulk, GenericTrbEntry { data: 0xabcd_0000, option: 0x200, control: 0x424 });
    let plain: GenericTrbEntry = trb::NormalTrb::new_out(buf).into();
    assert_eq!(plain, GenericTrbEntry { data: 0xabcd_0000, option: 0x200, control: 0x420 });
}

#[test]
fn a_ring_goes_round() {
    let mut ring = TrbRing::new(0x3000);
    assert_eq!(ring.num_trbs(), 16);
    assert_eq!(ring.phys_addr(), 0x3000);
    for i in 0..16u64 {
        assert_eq!(ring.current_index() as u64, i);
        assert_eq!(ring.current_ptr(), 0x3000 + 16 * i);
        assert_eq!(ring.advance_index(false), Err("cycle state mismatch"));
        assert_eq!(ring.advance_index_notoggle(true), Err("cycle state mismatch"));
        ring.write_current(GenericTrbEntry { data: i, option: 0, control: 0 });
        assert_eq!(ring.advance_index(true), Ok(()));
        assert!(ring.trb(i as usize).cycle_state());
        assert_eq!(ring.trb(i as usize).data, i);
    }
    assert_eq!(ring.current_index(), 0);
    assert_eq!(ring.advance_index_notoggle(true), Ok(()));
    assert_eq!(ring.current_index(), 1);
    assert_eq!(ring.current().data, 1);
    assert_eq!(ring.write(15, GenericTrbEntry::default()), Ok(()));
    assert_eq!(ring.write(16, GenericTrbEntry::default()), Err("TrbRing out of range"));
}

#[test]
fn a_command_ring_hands_blocks_over_in_order() {
    let mut ring = CommandRing::new(0x2000);
    assert_eq!(ring.ring_phys_addr(), 0x2000);
    assert_eq!(ring.block(15), GenericTrbEntry::trb_link(0x2000));
    for round in 0..3u64 {
        let handed_over = round % 2 == 0;
        for i in 0..15u64 {
            assert_eq!(ring.position() as u64, i);
            let trb = GenericTrbEntry { data: 100 * round + i, option: 0, control: 1 << 10 };
            assert_eq!(ring.push(trb), Ok(0x2000 + 16 * i));
            assert_eq!(ring.block(i as usize).data, 100 * round + i);
            assert_eq!(ring.block(i as usize).cycle_state(), handed_over);
        }
        assert_eq!(ring.block(15).trb_type(), 6);
        assert_eq!(ring.block(15).data, 0x2000);
        assert_eq!(ring.block(15).control & 2, 2);
        assert_eq!(ring.block(15).cycle_state(), handed_over);
        assert_eq!(ring.free_cycle(), handed_over);
    }
}

#[test]
fn the_block_before_the_link_is_followed_by_the_first() {
    let mut ring = CommandRing::new(0);
    for _ in 0..14 {
        assert!(ring.push(GenericTrbEntry::cmd_enable_slot()).is_ok());
    }
    assert_eq!(ring.position(), 14);
    assert_eq!(ring.push(GenericTrbEntry::cmd_enable_slot()), Ok(14 * 16));
    assert_eq!(ring.position(), 0);
}

#[test]
fn a_push_is_stored_cycle_bit_last() {
    let mut ring = CommandRing::new(0x2000);
    let mut stores: Vec<Store> = Vec::new();
    let cmd = GenericTrbEntry::cmd_enable_slot();
    assert_eq!(submit(&mut ring, cmd, &mut stores), Ok(0x2000));
    let mut handed = cmd;
    handed.set_cycle_state(true);
    assert_eq!(
        stores,
        vec![
            Store::Trb { addr: 0x2000, trb: GenericTrbEntry::default() },
            Store::Trb { addr: 0x2000, trb: cmd },
            Store::Trb { addr: 0x2000, trb: handed },
        ]
    );
    for _ in 0..13 {
        assert!(submit(&mut ring, cmd, &mut stores).is_ok());
    }
    stores.clear();
    assert_eq!(submit(&mut ring, cmd, &mut stores), Ok(0x20e0));
    let mut link = GenericTrbEntry::trb_link(0x2000);
    link.set_cycle_state(true);
    assert_eq!(stores.len(), 4);
    assert_eq!(stores[3], Store::Trb { addr: 0x20f0, trb: link });
}

#[test]
fn a_waiter_takes_what_it_waits_for() {
    let cond = EventWaitCond {
        trb_type: Some(TrbType::TransferEvent),
        trb_addr: Some(0x40),
        slot: Some(2),
    };
    let mut waiter = EventWaitInfo::new(cond);
    assert!(waiter.matches(&event(TrbType::TransferEvent, 0x40, 1, 2, true)));
    assert!(!waiter.matches(&event(TrbType::TransferEvent, 0x50, 1, 2, true)));
    assert!(!waiter.matches(&event(TrbType::CommandCompletionEvent, 0x40, 1, 2, true)));
    assert!(!waiter.matches(&event(TrbType::TransferEvent, 0x40, 1, 3, true)));
    assert_eq!(waiter.resolve(&event(TrbType::TransferEvent, 0x40, 1, 2, true)), Ok(()));
    let all = EventWaitInfo::new(EventWaitCond::default());
    assert!(all.matches(&GenericTrbEntry::default()));
}

#[test]
fn an_event_reaches_the_first_who_waits_for_it() {
    let mut events = EventRing::new(0x4000, 0x5000).unwrap();
    assert_eq!(events.ring_phys_addr(), 0x4000);
    assert_eq!(events.erst_phys_addr(), 0x5000);
    assert_eq!(
        events.segment(),
        EventRingSegmentTableEntry { ring_segment_base_address: 0x4000, ring_segment_size: 16 }
    );
    events.set_erdp(0x9038);
    assert_eq!(events.erdp(), Some(0x9038));
    let mut stores: Vec<Store> = Vec::new();
    let other = EventFuture::new_for_trb(&mut events, 0x10);
    let first = EventFuture::new_for_trb(&mut events, 0x20);
    let second = EventFuture::new_for_trb(&mut events, 0x20);
    let command = EventFuture::new_for_command(&mut events, 0x20);

    assert!(!events.has_next_event());
    assert_eq!(events.poll(0x4008, &mut stores), Ok(()));
    assert!(stores.is_empty());
    assert_eq!(events.current_ptr(), 0x4000);

    let e = event(TrbType::TransferEvent, 0x20, 1, 1, true);
    events.observe(e);
    assert!(events.has_next_event());
    assert_eq!(events.poll(0x4008, &mut stores), Ok(()));
    assert_eq!(stores, vec![Store::Long { addr: 0x9038, value: 0x4008 }]);
    assert_eq!(events.current_ptr(), 0x4010);
    assert_eq!(other.poll(&mut events), None);
    assert_eq!(second.poll(&mut events), None);
    assert_eq!(command.poll(&mut events), None);
    assert_eq!(first.poll(&mut events), Some(e));
    assert_eq!(first.poll(&mut events), None);

    first.release(&mut events);
    events.observe(e);
    stores.clear();
    assert_eq!(events.poll(0x4008, &mut stores), Ok(()));
    assert_eq!(stores, vec![Store::Long { addr: 0x9038, value: 0x4018 }]);
    assert_eq!(second.poll(&mut events), Some(e));

    let c = event(TrbType::CommandCompletionEvent, 0x20, 1, 1, true);
    events.observe(c);
    assert_eq!(events.poll(0, &mut stores), Ok(()));
    assert_eq!(command.poll(&mut events), Some(c));
    other.release(&mut events);
    second.release(&mut events);
    command.release(&mut events);
}

#[test]
fn a_waiter_that_is_registered_twice_gets_an_event_once() {
    let mut events = EventRing::new(0x4000, 0x5000).unwrap();
    events.set_erdp(0x9038);
    let mut stores: Vec<Store> = Vec::new();
    let first = EventFuture::new_for_trb(&mut events, 0x20);
    for name in 0..4 {
        events.register_waiter(name);
        events.register_waiter(name);
    }
    let second = EventFuture::new_for_trb(&mut events, 0x20);
    let e = event(TrbType::TransferEvent, 0x20, 1, 1, true);
    events.observe(e);
    assert_eq!(events.poll(0, &mut stores), Ok(()));
    assert_eq!(first.poll(&mut events), Some(e));
    assert_eq!(first.poll(&mut events), None);
    assert_eq!(second.poll(&mut events), None);
    first.release(&mut events);
    events.observe(e);
    assert_eq!(events.poll(0, &mut stores), Ok(()));
    assert_eq!(second.poll(&mut events), Some(e));
    second.release(&mut events);
}

#[test]
fn events_come_out_in_order_round_the_ring() {
    let mut events = EventRing::new(0x4000, 0x5000).unwrap();
    events.set_erdp(0x9038);
    for i in 0..40u64 {
        let mut stores: Vec<Store> = Vec::new();
        let cycle = (i / 16) % 2 == 0;
        assert_eq!(events.current_ptr(), 0x4000 + 16 * (i % 16));
        assert_eq!(events.pop(0, &mut stores), Ok(None));
        assert!(stores.is_empty());
        let e = event(TrbType::PortStatusChangeEvent, i, 1, 0, cycle);
        events.observe(e);
        assert_eq!(events.pop(0, &mut stores), Ok(Some(e)));
        assert_eq!(stores, vec![Store::Long { addr: 0x9038, value: 0x4000 + 16 * (i % 16) }]);
    }
}

#[test]
fn memory_follows_the_ring() {
    let mut ring = CommandRing::new(0x2000);
    let mut memory: HashMap<u64, GenericTrbEntry> = HashMap::new();
    if let Store::Trb { addr, trb } = link_store(&ring) {
        memory.insert(addr, trb);
    }
    for n in 0..50u64 {
        let cmd = GenericTrbEntry { data: n, option: 1, control: 1 << 10 };
        let mut stores: Vec<Store> = Vec::new();
        assert_eq!(submit(&mut ring, cmd, &mut stores), Ok(0x2000 + 16 * (n % 15)));
        for store in stores {
            if let Store::Trb { addr, trb } = store {
                assert!((0x2000..0x2100).contains(&addr));
                memory.insert(addr, trb);
            } else {
                unreachable!();
            }
        }
        for i in 0..16usize {
            let found = memory.get(&(0x2000 + 16 * i as u64)).copied().unwrap_or_default();
            assert_eq!(found, ring.block(i));
        }
    }
}
