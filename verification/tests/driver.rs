use mushix::scsi::{inquiry_cbw, read_10_cbw};
use mushix::xhci::descriptor::{
    collect_descriptors, ConfigDescriptor, DescriptorIterator, EndpointDescriptor,
    InterfaceDescriptor, UsbDescriptor, UsbDescriptorType, UsbDeviceDescriptor,
};
use mushix::xhci::driver::{
    connected_ports, string_zero, Attach, PciXhciDriver, RunStage, RunTask, VendorDeviceId,
};
use mushix::xhci::op::{Op, Reply, ScsiCommand};
use mushix::xhci::registers::CapabilityRegisters;
use mushix::xhci::storage::{choose_transport, ScsiTask, StorageTask};

const CONFIG: [u8; 9] = [9, 2, 32, 0, 1, 7, 0, 0x80, 50];
const INTERFACE: [u8; 9] = [9, 4, 0, 0, 2, 8, 6, 0x50, 0];
const BULK_IN: [u8; 7] = [7, 5, 0x81, 2, 0, 2, 0];
const BULK_OUT: [u8; 7] = [7, 5, 0x02, 2, 0, 2, 0];
const INTERRUPT_IN: [u8; 7] = [7, 5, 0x83, 3, 8, 0, 10];

fn device(vendor: u8, product: u8, serial: u8) -> Vec<u8> {
    vec![
        18, 1, 0x00, 0x02, 0, 0, 0, 64, 0xf4, 0x46, 0x01, 0x00, 0x00, 0x00, vendor, product,
        serial, 1,
    ]
}

fn whole_config() -> Vec<u8> {
    let mut data: Vec<u8> = Vec::new();
    data.extend_from_slice(&CONFIG);
    data.extend_from_slice(&INTERFACE);
    data.extend_from_slice(&BULK_IN);
    data.extend_from_slice(&BULK_OUT);
    data
}

fn string(text: &str) -> Vec<u8> {
    let mut data = vec![0u8; 128];
    data[0] = (2 + 2 * text.len()) as u8;
    data[1] = 3;
    for (i, b) in text.bytes().enumerate() {
        data[2 + 2 * i] = b;
    }
    data
}

fn good_csw() -> Vec<u8> {
    let mut data = b"USBS".to_vec();
    data.resize(13, 0);
    data
}

fn ok(task: &mut RunTask, data: &[u8]) -> Op {
    task.step(Reply { result: Ok(0), data })
}

fn err(task: &mut RunTask, e: &'static str) -> Op {
    task.step(Reply { result: Err(e), data: &[] })
}

#[test]
fn a_device_descriptor_is_read() {
    let d = UsbDeviceDescriptor::copy_from_slice(&device(1, 2, 3)).unwrap();
    assert_eq!(d.desc_length, 18);
    assert_eq!(d.desc_type, 1);
    assert_eq!(d.version, 0x0200);
    assert_eq!(d.max_packet_size, 64);
    assert_eq!(d.vendor_id, 0x46f4);
    assert_eq!(d.product_id, 1);
    assert_eq!((d.manufacturer_index, d.product_index, d.serial_idx), (1, 2, 3));
    assert_eq!(d.num_of_config, 1);
    assert_eq!(UsbDeviceDescriptor::copy_from_slice(&[0; 17]), Err("data is too short"));
    assert_eq!(UsbDeviceDescriptor::default().vendor_id, 0);
}

#[test]
fn descriptors_are_walked() {
    let mut data = whole_config();
    data.extend_from_slice(&[3, 0x24, 9]);
    data.extend_from_slice(&INTERRUPT_IN);
    let all = collect_descriptors(&data).unwrap();
    assert_eq!(all.len(), 6);
    let config = ConfigDescriptor::copy_from_slice(&CONFIG).unwrap();
    assert_eq!(config.total_length(), 32);
    assert_eq!(config.config_value(), 7);
    assert_eq!(all[0], UsbDescriptor::Config(config));
    let interface = InterfaceDescriptor::read_at(&INTERFACE, 0).unwrap();
    assert!(interface.is_bulk_storage());
    assert_eq!(all[1], UsbDescriptor::Interface(interface));
    assert_eq!(all[2], UsbDescriptor::Endpoint(EndpointDescriptor::read_at(&BULK_IN, 0).unwrap()));
    assert_eq!(all[4], UsbDescriptor::Unknown { desc_len: 3, desc_type: 0x24 });

    let mut iter = DescriptorIterator::new(&data);
    for d in &all {
        assert_eq!(iter.next().as_ref(), Some(d));
    }
    assert_eq!(iter.next(), None);
}

#[test]
fn a_cut_off_descriptor_ends_the_walk() {
    let data = whole_config();
    assert_eq!(collect_descriptors(&data[..31]).unwrap().len(), 3);
    assert_eq!(collect_descriptors(&data[..17]).unwrap().len(), 1);
    assert_eq!(collect_descriptors(&[]).unwrap().len(), 0);
    assert_eq!(ConfigDescriptor::copy_from_slice(&CONFIG[..8]), Err("data is too short"));
    assert_eq!(InterfaceDescriptor::read_at(&INTERFACE, 1), Err("data is too short"));
    assert_eq!(EndpointDescriptor::read_at(&BULK_IN, 1), Err("data is too short"));
}

#[test]
fn a_walk_without_an_end_is_refused() {
    assert!(collect_descriptors(&[0, 0x24, 1]).is_none());
    assert!(collect_descriptors(&[2, 0x24, 1]).is_none());
    assert_eq!(collect_descriptors(&[200, 0x24]).unwrap().len(), 1);
}

#[test]
fn endpoints_have_context_indexes() {
    let bulk_in = EndpointDescriptor::read_at(&BULK_IN, 0).unwrap();
    assert!(bulk_in.is_bulk() && bulk_in.is_in());
    assert_eq!(bulk_in.context_index(), 3);
    assert_eq!(bulk_in.max_packet_size, 512);
    let bulk_out = EndpointDescriptor::read_at(&BULK_OUT, 0).unwrap();
    assert!(bulk_out.is_bulk() && !bulk_out.is_in());
    assert_eq!(bulk_out.context_index(), 4);
    let interrupt = EndpointDescriptor::read_at(&INTERRUPT_IN, 0).unwrap();
    assert!(!interrupt.is_bulk());
    assert_eq!(UsbDescriptorType::String.number(), 3);
}

#[test]
fn endpoints_are_chosen() {
    let all = collect_descriptors(&whole_config()).unwrap();
    let chosen = choose_transport(&all).unwrap();
    assert_eq!(chosen.config.config_value, 7);
    assert_eq!(chosen.bulk_in.endpoint_address, 0x81);
    assert_eq!(chosen.bulk_out.endpoint_address, 0x02);

    assert_eq!(choose_transport(&all[1..]), Err("Config descriptor not found"));
    assert_eq!(choose_transport(&all[..1]), Err("Interface descriptor not found"));
    assert_eq!(choose_transport(&all[..2]), Err("Bulk IN endpoint not found"));
    assert_eq!(choose_transport(&all[..3]), Err("Bulk OUT endpoint not found"));
}

#[test]
fn a_second_configuration_is_left_alone() {
    let mut data = whole_config();
    let mut second = whole_config();
    second[5] = 9;
    second[20] = 0x8f;
    data.extend_from_slice(&second);
    let all = collect_descriptors(&data).unwrap();
    let chosen = choose_transport(&all).unwrap();
    assert_eq!(chosen.config.config_value, 7);
    assert_eq!(chosen.bulk_in.endpoint_address, 0x81);
}

#[test]
fn an_inquiry_runs() {
    let mut task = ScsiTask::scsi_inquiry(1, 3, 4);
    let op = task.op();
    assert_eq!(op, Op::BulkOut { slot: 1, dci: 4, command: ScsiCommand::Inquiry });
    assert_eq!(ScsiCommand::Inquiry.to_bytes(), inquiry_cbw());
    let op = task.step(Reply { result: Ok(0), data: &[] });
    assert_eq!(op, Op::BulkIn { slot: 1, dci: 3, len: 36 });
    let op = task.step(Reply { result: Ok(0), data: &[5; 36] });
    assert_eq!(op, Op::BulkIn { slot: 1, dci: 3, len: 13 });
    let op = task.step(Reply { result: Ok(0), data: &[0; 13] });
    assert_eq!(op, Op::Done(Ok(())));
    assert_eq!(task.data(), &[5; 36]);
}

#[test]
fn a_read_runs_and_its_status_counts() {
    let command = ScsiCommand::Read10 { lba: 9, transfer_length: 2 };
    assert_eq!(command.to_bytes(), read_10_cbw(9, 2));
    assert_eq!(command.data_len(), 1024);
    for (csw, result) in [
        (good_csw(), Ok(())),
        (vec![0; 13], Err("Invalid CSW signature")),
    ] {
        let mut task = ScsiTask::scsi_read_10(1, 3, 4, 9, 2);
        assert_eq!(task.op(), Op::BulkOut { slot: 1, dci: 4, command });
        let op = task.step(Reply { result: Ok(0), data: &[] });
        assert_eq!(op, Op::BulkIn { slot: 1, dci: 3, len: 1024 });
        let op = task.step(Reply { result: Ok(0), data: &[1; 1024] });
        assert_eq!(op, Op::BulkIn { slot: 1, dci: 3, len: 13 });
        let op = task.step(Reply { result: Ok(0), data: &csw });
        assert_eq!(op, Op::Done(result));
    }
    let mut task = ScsiTask::scsi_read_10(1, 3, 4, 9, 2);
    let op = task.step(Reply { result: Err("Transfer Event with error code"), data: &[] });
    assert_eq!(op, Op::Done(Err("Transfer Event with error code")));
}

fn storage_ops(task: &mut StorageTask, fail_at: usize) -> Vec<Op> {
    let mut ops = vec![task.op()];
    while !matches!(ops[ops.len() - 1], Op::Done(_)) {
        let data = match ops[ops.len() - 1] {
            Op::BulkIn { len: 13, .. } => good_csw(),
            Op::BulkIn { len, .. } => vec![0; len],
            _ => Vec::new(),
        };
        let result = if ops.len() == fail_at + 1 { Err("broken") } else { Ok(0) };
        ops.push(task.step(Reply { result, data: &data }));
    }
    ops
}

#[test]
fn mass_storage_is_handled_in_order() {
    let all = collect_descriptors(&whole_config()).unwrap();
    let mut task = StorageTask::handle_mass_storage_device(5, &all).unwrap();
    let chosen = choose_transport(&all).unwrap();
    assert_eq!(
        storage_ops(&mut task, 99),
        vec![
            Op::SetConfig { slot: 5, value: 7 },
            Op::StorageReset { slot: 5 },
            Op::ConfigureBulk { slot: 5, ep: chosen.bulk_out, dci: 4 },
            Op::ConfigureBulk { slot: 5, ep: chosen.bulk_in, dci: 3 },
            Op::ClearHalt { slot: 5, address: 0x81 },
            Op::ClearHalt { slot: 5, address: 0x02 },
            Op::BulkOut {
                slot: 5,
                dci: 4,
                command: ScsiCommand::Read10 { lba: 0, transfer_length: 1 }
            },
            Op::BulkIn { slot: 5, dci: 3, len: 512 },
            Op::BulkIn { slot: 5, dci: 3, len: 13 },
            Op::Done(Ok(())),
        ]
    );
    assert_eq!(task.sector().len(), 512);
    assert!(matches!(
        StorageTask::handle_mass_storage_device(5, &all[..2]),
        Err("Bulk IN endpoint not found")
    ));
}

#[test]
fn only_a_halt_is_forgiven() {
    let all = collect_descriptors(&whole_config()).unwrap();
    for fail_at in 0..9 {
        let mut task = StorageTask::handle_mass_storage_device(5, &all).unwrap();
        let ops = storage_ops(&mut task, fail_at);
        if fail_at == 4 || fail_at == 5 {
            assert_eq!(ops.len(), 10);
            assert_eq!(ops[9], Op::Done(Ok(())));
        } else {
            assert_eq!(ops.len(), fail_at + 2);
            assert_eq!(ops[fail_at + 1], Op::Done(Err("broken")));
        }
    }
}

#[test]
fn known_controllers_are_taken() {
    let taken = |vendor: u16, device: u16| PciXhciDriver::supports(VendorDeviceId { vendor, device });
    assert!(taken(0x1b36, 0x000d));
    assert!(taken(0x8086, 0x31a8));
    assert!(taken(0x8086, 0x02ed));
    assert!(taken(0x8086, 0x9d2f));
    assert!(!taken(0x1b36, 0x31a8));
    assert!(!taken(0x8086, 0x000d));
    assert!(!taken(0, 0));
}

#[test]
fn registers_are_laid_out() {
    let cap = CapabilityRegisters::from_words([0x40, 0x0200_0008, 0, 0, 0, 0x2000, 0x1000, 0]);
    let regs = PciXhciDriver::setup_xhc_registers(0xfe00_0000, cap);
    assert_eq!(regs.cap_regs, cap);
    assert_eq!(regs.op_base, 0xfe00_0040);
    assert_eq!(regs.rt_regs.base, 0xfe00_1000);
    let bells: Vec<u64> = regs.doorbell_regs.iter().map(|d| d.ptr).collect();
    assert_eq!(bells, vec![0xfe00_2000, 0xfe00_2004, 0xfe00_2008]);
    assert_eq!(regs.portsc.entries.len(), 2);
    assert_eq!(regs.portsc.get(2).unwrap().ptr, 0xfe00_0450);
}

#[test]
fn a_controller_is_attached_in_order() {
    let mut phase = Attach::DisableInterrupt;
    let mut seen = vec![phase];
    while phase != Attach::Attached {
        phase = PciXhciDriver::attach(phase, Ok(()));
        seen.push(phase);
    }
    assert_eq!(
        seen,
        vec![
            Attach::DisableInterrupt,
            Attach::EnableBusMastering,
            Attach::FindBar0,
            Attach::DisableCache,
            Attach::SetUp,
            Attach::Spawn,
            Attach::Attached,
        ]
    );
    for phase in [
        Attach::DisableInterrupt,
        Attach::EnableBusMastering,
        Attach::FindBar0,
        Attach::SetUp,
    ] {
        assert_eq!(PciXhciDriver::attach(phase, Err("no")), Attach::Failed("no"));
    }
    assert_eq!(PciXhciDriver::attach(Attach::DisableCache, Err("no")), Attach::SetUp);
    assert_eq!(PciXhciDriver::attach(Attach::Failed("no"), Ok(())), Attach::Failed("no"));
}

#[test]
fn connected_ports_are_found() {
    assert_eq!(connected_ports(&[]), Vec::<usize>::new());
    assert_eq!(connected_ports(&[0x2a0, 0x203, 0x2a1, 0]), vec![2, 3]);
}

#[test]
fn languages_are_read() {
    assert_eq!(string_zero(&[4, 3, 9, 4]), vec![0x0304, 0x0409]);
    assert_eq!(string_zero(&[4, 3, 9]), vec![0x0304]);
}

fn descriptor_op(desc_type: UsbDescriptorType, index: u8, lang_id: u16, len: usize) -> Op {
    Op::Descriptor { slot: 3, desc_type, index, lang_id, len }
}

#[test]
fn a_disk_is_served_from_port_to_sector() {
    let mut task = PciXhciDriver::run(&[0x2a0, 0x203]);
    assert_eq!(task.op(), Op::InitPort { port: 2 });
    let op = task.step(Reply { result: Ok(3), data: &[] });
    assert_eq!(op, Op::AddressDevice { port: 2, slot: 3 });
    assert_eq!(ok(&mut task, &[]), descriptor_op(UsbDescriptorType::Device, 0, 0, 18));
    let op = ok(&mut task, &device(1, 2, 3));
    assert_eq!(op, descriptor_op(UsbDescriptorType::String, 0, 0, 16));
    assert_eq!(task.device().vendor_id, 0x46f4);
    let mut zero = vec![0u8; 16];
    zero[0..4].copy_from_slice(&[4, 3, 9, 4]);
    let op = ok(&mut task, &zero);
    assert_eq!(op, descriptor_op(UsbDescriptorType::String, 1, 0x0409, 128));
    let op = ok(&mut task, &string("QEMU"));
    assert_eq!(op, descriptor_op(UsbDescriptorType::String, 2, 0x0409, 128));
    let op = ok(&mut task, &string("DISK"));
    assert_eq!(op, descriptor_op(UsbDescriptorType::String, 3, 0x0409, 128));
    let op = ok(&mut task, &string("1-0"));
    assert_eq!(op, descriptor_op(UsbDescriptorType::Config, 0, 0, 9));
    assert_eq!(task.vendor().as_deref(), Some("QEMU"));
    assert_eq!(task.product().as_deref(), Some("DISK"));
    assert_eq!(task.serial().as_deref(), Some("1-0"));
    assert_eq!(ok(&mut task, &CONFIG), descriptor_op(UsbDescriptorType::Config, 0, 0, 32));
    assert_eq!(ok(&mut task, &whole_config()), Op::SetConfig { slot: 3, value: 7 });
    assert_eq!(task.stage(), RunStage::Storage);
    assert_eq!(ok(&mut task, &[]), Op::StorageReset { slot: 3 });
    assert!(matches!(ok(&mut task, &[]), Op::ConfigureBulk { slot: 3, dci: 4, .. }));
    assert!(matches!(ok(&mut task, &[]), Op::ConfigureBulk { slot: 3, dci: 3, .. }));
    assert_eq!(ok(&mut task, &[]), Op::ClearHalt { slot: 3, address: 0x81 });
    assert_eq!(err(&mut task, "stalled"), Op::ClearHalt { slot: 3, address: 0x02 });
    assert!(matches!(ok(&mut task, &[]), Op::BulkOut { slot: 3, dci: 4, .. }));
    assert_eq!(ok(&mut task, &[]), Op::BulkIn { slot: 3, dci: 3, len: 512 });
    let mut sector = vec![0u8; 512];
    sector[510..512].copy_from_slice(&[0x55, 0xaa]);
    assert_eq!(ok(&mut task, &sector), Op::BulkIn { slot: 3, dci: 3, len: 13 });
    assert!(task.report().is_none());
    assert_eq!(ok(&mut task, &good_csw()), Op::Done(Ok(())));
    assert!(task.report().unwrap().valid);
    assert_eq!(task.stage(), RunStage::Finished);
    assert_eq!(ok(&mut task, &[]), Op::Done(Ok(())));
    assert!(task.report().is_none());
}

#[test]
fn a_device_without_names_goes_straight_to_its_configuration() {
    let mut task = PciXhciDriver::run(&[1]);
    task.step(Reply { result: Ok(3), data: &[] });
    ok(&mut task, &[]);
    ok(&mut task, &device(0, 0, 0));
    let op = ok(&mut task, &[0; 16]);
    assert_eq!(op, descriptor_op(UsbDescriptorType::Config, 0, 0, 9));
    assert!(task.vendor().is_none());
    let mut other = CONFIG;
    other[2] = 18;
    assert_eq!(ok(&mut task, &other), descriptor_op(UsbDescriptorType::Config, 0, 0, 18));
    let mut rest = whole_config();
    rest.truncate(18);
    rest[14] = 3;
    assert_eq!(ok(&mut task, &rest), Op::Done(Ok(())));
}

#[test]
fn a_device_that_does_not_answer_is_passed_over() {
    for fail_at in 1..4 {
        let mut task = PciXhciDriver::run(&[1, 1]);
        let replies: [Vec<u8>; 3] = [Vec::new(), Vec::new(), device(0, 0, 0)];
        for data in &replies[..fail_at] {
            task.step(Reply { result: Ok(3), data });
        }
        assert_eq!(err(&mut task, "gone"), Op::InitPort { port: 2 });
        assert_eq!(err(&mut task, "gone"), Op::Done(Err("gone")));
    }
}

#[test]
fn other_failures_end_the_task() {
    let replies: [Vec<u8>; 9] = [
        Vec::new(),
        Vec::new(),
        device(1, 2, 3),
        vec![0; 16],
        string("a"),
        string("b"),
        string("c"),
        CONFIG.to_vec(),
        whole_config(),
    ];
    for fail_at in [0, 4, 5, 6, 7, 8, 9] {
        let mut task = PciXhciDriver::run(&[1, 1]);
        for data in &replies[..fail_at] {
            task.step(Reply { result: Ok(3), data });
        }
        assert_eq!(err(&mut task, "gone"), Op::Done(Err("gone")));
        assert_eq!(task.stage(), RunStage::Finished);
    }
}

#[test]
fn storage_without_endpoints_ends_the_task() {
    let mut task = PciXhciDriver::run(&[1]);
    task.step(Reply { result: Ok(3), data: &[] });
    ok(&mut task, &[]);
    ok(&mut task, &device(0, 0, 0));
    ok(&mut task, &[0; 16]);
    let mut config = CONFIG;
    config[2] = 18;
    ok(&mut task, &config);
    let mut rest = whole_config();
    rest.truncate(18);
    assert_eq!(ok(&mut task, &rest), Op::Done(Err("Bulk IN endpoint not found")));
}

#[test]
fn without_ports_there_is_nothing_to_do() {
    let task = PciXhciDriver::run(&[0x2a0, 0]);
    assert_eq!(task.op(), Op::Done(Ok(())));
}

#[test]
fn each_of_two_disks_in_one_device_is_reported() {
    let mut task = PciXhciDriver::run(&[1]);
    task.step(Reply { result: Ok(3), data: &[] });
    ok(&mut task, &[]);
    ok(&mut task, &device(0, 0, 0));
    ok(&mut task, &[0; 16]);
    let mut config = CONFIG;
    config[2] = 55;
    ok(&mut task, &config);
    let mut rest = whole_config();
    rest.extend_from_slice(&INTERFACE);
    rest.extend_from_slice(&BULK_IN);
    rest.extend_from_slice(&BULK_OUT);
    assert_eq!(rest.len(), 55);
    let mut op = ok(&mut task, &rest);
    let mut reported: Vec<u16> = Vec::new();
    let mut sectors: u8 = 0;
    while !matches!(op, Op::Done(_)) {
        let data = match op {
            Op::BulkIn { len: 13, .. } => good_csw(),
            Op::BulkIn { len, .. } => {
                sectors += 1;
                let mut sector = vec![0u8; len];
                sector[510] = sectors;
                sector
            }
            _ => Vec::new(),
        };
        op = ok(&mut task, &data);
        if let Some(sector) = task.report() {
            reported.push(sector.boot_signature);
        }
    }
    assert_eq!(op, Op::Done(Ok(())));
    assert_eq!(reported, vec![1, 2]);
}
