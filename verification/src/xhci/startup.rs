//! From a controller as it is found to one that runs: reset it, set it up, start it.
use crate::xhci::controller::Controller;
use crate::xhci::controller::ControllerMemory;
use crate::xhci::registers::ControllerReset;
use crate::xhci::registers::ControllerStart;
use crate::xhci::registers::OperationalRegisters;
use crate::xhci::registers::XhcRegisters;
use crate::xhci::store::Store;
use vstd::prelude::*;

verus! {

/// How far a controller has come.
#[derive(Debug, Copy, Clone, PartialEq, Eq)]
pub enum StartStage {
    /// It is being reset: its registers are to be read.
    Resetting(ControllerReset),
    /// It was reset: it is to be set up.
    SettingUp,
    /// It was set up and is being started: its registers are to be read.
    Starting(ControllerStart),
    /// It runs.
    Running,
    /// It could not be set up, and is left as it is.
    Failed(&'static str),
}

impl StartStage {
    /// What comes of reading the registers: how far the controller is then, and what is to be
    /// written to its command register, if anything is.
    pub open spec fn looked(self, op: OperationalRegisters) -> (Self, Option<u32>) {
        match self {
            StartStage::Resetting(phase) => {
                let (told, next) = op.next_reset(phase);
                if next == ControllerReset::Done {
                    (StartStage::SettingUp, None)
                } else if next == phase {
                    (self, None)
                } else {
                    (StartStage::Resetting(next), Some(told.usbcmd))
                }
            },
            StartStage::Starting(phase) => {
                let (told, next) = op.next_start(phase);
                if next == ControllerStart::Done {
                    (StartStage::Running, None)
                } else if next == phase {
                    (self, None)
                } else {
                    (StartStage::Starting(next), Some(told.usbcmd))
                }
            },
            _ => (self, None),
        }
    }

    /// How far a controller is once setting it up went well or failed.
    pub open spec fn prepared(self, result: Result<(), &'static str>) -> Self {
        if self is SettingUp {
            match result {
                Ok(_) => StartStage::Starting(ControllerStart::Start),
                Err(e) => StartStage::Failed(e),
            }
        } else {
            self
        }
    }
}

/// The store of a value into the command register.
pub open spec fn command_store(op_base: u64, value: u32) -> Store {
    Store::Word { addr: op_base, value }
}

/// The stores of what is written to the command register.
pub open spec fn command_stores(op_base: u64, written: Option<u32>) -> Seq<Store> {
    match written {
        Some(value) => seq![command_store(op_base, value)],
        None => seq![],
    }
}

/// A controller on its way.
#[allow(inconsistent_fields)]
#[derive(Debug)]
pub enum StartUp {
    Resetting { regs: XhcRegisters, phase: ControllerReset },
    SettingUp { regs: XhcRegisters },
    Starting { xhc: Controller, phase: ControllerStart },
    Running { xhc: Controller },
    Failed(&'static str),
}

impl StartUp {
    /// How far the controller has come.
    pub open spec fn at(&self) -> StartStage {
        match self {
            StartUp::Resetting { regs, phase } => StartStage::Resetting(*phase),
            StartUp::SettingUp { regs } => StartStage::SettingUp,
            StartUp::Starting { xhc, phase } => StartStage::Starting(*phase),
            StartUp::Running { xhc } => StartStage::Running,
            StartUp::Failed(e) => StartStage::Failed(*e),
        }
    }

    /// The registers of the controller, unless it failed.
    pub open spec fn registers(&self) -> Option<XhcRegisters> {
        match self {
            StartUp::Resetting { regs, phase } => Some(*regs),
            StartUp::SettingUp { regs } => Some(*regs),
            StartUp::Starting { xhc, phase } => Some(xhc.regs),
            StartUp::Running { xhc } => Some(xhc.regs),
            StartUp::Failed(_) => None,
        }
    }

    /// The controller, once it was set up.
    pub open spec fn controller(&self) -> Option<Controller> {
        match self {
            StartUp::Starting { xhc, phase } => Some(*xhc),
            StartUp::Running { xhc } => Some(*xhc),
            _ => None,
        }
    }

    /// The registers have addresses, and a controller that was set up is a controller.
    pub open spec fn wf(&self) -> bool {
        &&& self.registers() matches Some(regs) ==> regs.wf()
        &&& self.controller() matches Some(xhc) ==> xhc.wf()
    }

    /// A controller as it is found.
    pub fn new(regs: XhcRegisters) -> (r: Self)
        requires
            regs.wf(),
        ensures
            r.wf(),
            r.at() == StartStage::Resetting(ControllerReset::Start),
            r.registers() == Some(regs),
            r.controller() is None,
    {
        StartUp::Resetting { regs, phase: ControllerReset::Start }
    }

    /// How far the controller has come.
    pub fn stage(&self) -> (r: StartStage)
        ensures
            r == self.at(),
    {
        match self {
            StartUp::Resetting { phase, .. } => StartStage::Resetting(*phase),
            StartUp::SettingUp { .. } => StartStage::SettingUp,
            StartUp::Starting { phase, .. } => StartStage::Starting(*phase),
            StartUp::Running { .. } => StartStage::Running,
            StartUp::Failed(e) => StartStage::Failed(*e),
        }
    }

    /// Goes on after the operational registers were read.
    pub fn look(self, op: OperationalRegisters, stores: &mut Vec<Store>) -> (r: Self)
        requires
            self.wf(),
        ensures
            r.wf(),
            r.at() == self.at().looked(op).0,
            r.registers() == self.registers(),
            r.controller() == self.controller(),
            final(stores)@ == old(stores)@ + match self.registers() {
                Some(regs) => command_stores(regs.op_base, self.at().looked(op).1),
                None => seq![],
            },
    {
        let mut op = op;
        match self {
            StartUp::Resetting { regs, phase } => {
                let next = op.reset_xhc(phase);
                if next == ControllerReset::Done {
                    return StartUp::SettingUp { regs };
                }
                if next != phase {
                    stores.push(
                        Store::Word {
                            addr: regs.op_base + OperationalRegisters::USBCMD,
                            value: op.usbcmd,
                        },
                    );
                }
                StartUp::Resetting { regs, phase: next }
            },
            StartUp::Starting { xhc, phase } => {
                let next = op.start_xhc(phase);
                if next == ControllerStart::Done {
                    return StartUp::Running { xhc };
                }
                if next != phase {
                    stores.push(
                        Store::Word {
                            addr: xhc.regs.op_base + OperationalRegisters::USBCMD,
                            value: op.usbcmd,
                        },
                    );
                }
                StartUp::Starting { xhc, phase: next }
            },
            other => other,
        }
    }

    /// Sets the controller up, after the operational registers were read.
    pub fn set_up(
        self,
        op: OperationalRegisters,
        mem: ControllerMemory,
        stores: &mut Vec<Store>,
    ) -> (r: Self)
        requires
            self.wf(),
            mem.wf(),
            self.registers() matches Some(regs) ==> op.page_bytes() is Ok
                ==> mem.scratchpad_bufs@.len() == crate::xhci::context::ScratchpadBuffers::count(
                regs.cap_regs,
            ),
        ensures
            r.wf(),
            self.at() != StartStage::SettingUp ==> r == self && final(stores)@ == old(stores)@,
            self matches StartUp::SettingUp { regs } ==> match op.page_bytes() {
                Ok(_) => {
                    &&& r.at() == self.at().prepared(Ok(()))
                    &&& r.controller() matches Some(xhc) && xhc.is_set_up(regs, mem)
                    &&& final(stores)@ == old(stores)@ + crate::xhci::controller::setup_stores(
                        op,
                        regs,
                        mem,
                    )
                },
                Err(e) => {
                    &&& r.at() == self.at().prepared(Err(e))
                    &&& final(stores)@ == old(stores)@
                },
            },
    {
        let mut op = op;
        match self {
            StartUp::SettingUp { regs } => match Controller::new(regs, &mut op, mem, stores) {
                Ok(xhc) => StartUp::Starting { xhc, phase: ControllerStart::Start },
                Err(e) => StartUp::Failed(e),
            },
            other => other,
        }
    }
}

/// Something that happens to a controller on its way.
pub enum StartEvent {
    /// Its registers were read.
    Looked(OperationalRegisters),
    /// It was set up with these stores, or that failed.
    Prepared(Result<Seq<Store>, &'static str>),
}

/// How far a controller is after these events, and what was stored until then.
pub open spec fn brought_up(op_base: u64, events: Seq<StartEvent>) -> (StartStage, Seq<Store>)
    decreases events.len(),
{
    if events.len() == 0 {
        (StartStage::Resetting(ControllerReset::Start), seq![])
    } else {
        let (stage, stores) = brought_up(op_base, events.drop_last());
        match events.last() {
            StartEvent::Looked(op) => {
                let (next, written) = stage.looked(op);
                (next, stores + command_stores(op_base, written))
            },
            StartEvent::Prepared(result) => match (stage, result) {
                (StartStage::SettingUp, Ok(setup)) => (stage.prepared(Ok(())), stores + setup),
                (StartStage::SettingUp, Err(e)) => (stage.prepared(Err(e)), stores),
                _ => (stage, stores),
            },
        }
    }
}

/// What was stored until a stage: first the command to stop, with the run bit zero, then the
/// command to reset, then the stores of the set-up, then the command to run, with the run bit
/// one; of these as many as the stage says.
pub open spec fn in_order(
    op_base: u64,
    stage: StartStage,
    stop: u32,
    reset: u32,
    setup: Seq<Store>,
    run: u32,
    stores: Seq<Store>,
) -> bool {
    let stopped = seq![command_store(op_base, stop)];
    let was_reset = stopped.push(command_store(op_base, reset));
    &&& stop % 2 == 0
    &&& reset / 2 % 2 == 1
    &&& run % 2 == 1
    &&& match stage {
        StartStage::Resetting(ControllerReset::Start) => stores == Seq::<Store>::empty(),
        StartStage::Resetting(ControllerReset::Stopping) => stores == stopped,
        StartStage::Resetting(_) => stores == was_reset,
        StartStage::SettingUp => stores == was_reset,
        StartStage::Failed(_) => stores == was_reset,
        StartStage::Starting(ControllerStart::Start) => stores == was_reset + setup,
        StartStage::Starting(_) => stores == (was_reset + setup).push(command_store(op_base, run)),
        StartStage::Running => stores == (was_reset + setup).push(command_store(op_base, run)),
    }
}

/// A controller is set up after it was reset, and told to run after all stores of the set-up;
/// one that could not be set up is never told to run.
pub proof fn law_start_follows_set_up(op_base: u64, events: Seq<StartEvent>)
    ensures
        exists|stop: u32, reset: u32, setup: Seq<Store>, run: u32|
            in_order(
                op_base,
                brought_up(op_base, events).0,
                stop,
                reset,
                setup,
                run,
                brought_up(op_base, events).1,
            ),
        brought_up(op_base, events).0 != StartStage::Resetting(ControllerReset::Done),
        brought_up(op_base, events).0 != StartStage::Starting(ControllerStart::Done),
    decreases events.len(),
{
    if events.len() == 0 {
        assert(in_order(
            op_base,
            brought_up(op_base, events).0,
            0,
            2,
            seq![],
            1,
            brought_up(op_base, events).1,
        ));
    } else {
        let before = events.drop_last();
        law_start_follows_set_up(op_base, before);
        let (stage, stores) = brought_up(op_base, before);
        let (stop, reset, setup, run) = choose|stop: u32, reset: u32, setup: Seq<Store>, run: u32|
            in_order(op_base, stage, stop, reset, setup, run, stores);
        let (next, after) = brought_up(op_base, events);
        match events.last() {
            StartEvent::Looked(op) => {
                let cmd = op.usbcmd;
                assert((cmd & !1u32) % 2 == 0 && (cmd | 2) / 2 % 2 == 1 && (cmd | 1) % 2 == 1)
                    by (bit_vector);
                let written = stage.looked(op).1;
                match (stage, written) {
                    (StartStage::Resetting(ControllerReset::Start), Some(v)) => {
                        assert(in_order(op_base, next, v, reset, setup, run, after));
                    },
                    (StartStage::Resetting(_), Some(v)) => {
                        assert(after =~= stores.push(command_store(op_base, v)));
                        assert(in_order(op_base, next, stop, v, setup, run, after));
                    },
                    (StartStage::Starting(_), Some(v)) => {
                        assert(after =~= stores.push(command_store(op_base, v)));
                        assert(in_order(op_base, next, stop, reset, setup, v, after));
                    },
                    _ => {
                        assert(after =~= stores);
                        assert(in_order(op_base, next, stop, reset, setup, run, after));
                    },
                }
            },
            StartEvent::Prepared(result) => {
                match (stage, result) {
                    (StartStage::SettingUp, Ok(s)) => {
                        assert(in_order(op_base, next, stop, reset, s, run, after));
                    },
                    _ => {
                        assert(in_order(op_base, next, stop, reset, setup, run, after));
                    },
                }
            },
        }
    }
}

/// How a controller comes to run: it is told to stop; once it has halted it is told to reset; once
/// bit 1 of its status is gone it is to be set up; once that went well it is told to run; and once
/// it no longer shows that it has halted, it runs. Until then it is looked at again, and told
/// nothing. Each of what it is told is what its command register held, with one bit changed.
pub proof fn law_start_up_goes_on(op: OperationalRegisters, e: &'static str)
    ensures
        ({
            let halted = op.usbsts as int % 2 == 1;
            let busy = op.usbsts as int % 4 >= 2;
            let start = StartStage::Resetting(ControllerReset::Start);
            let stopping = StartStage::Resetting(ControllerReset::Stopping);
            let resetting = StartStage::Resetting(ControllerReset::Resetting);
            let told = StartStage::Starting(ControllerStart::Start);
            let starting = StartStage::Starting(ControllerStart::Starting);
            &&& start.looked(op) == (stopping, Some(op.usbcmd & !1u32))
            &&& stopping.looked(op) == if halted {
                (resetting, Some(op.usbcmd | 2))
            } else {
                (stopping, None::<u32>)
            }
            &&& resetting.looked(op) == if busy {
                (resetting, None::<u32>)
            } else {
                (StartStage::SettingUp, None::<u32>)
            }
            &&& StartStage::SettingUp.looked(op) == (StartStage::SettingUp, None::<u32>)
            &&& StartStage::SettingUp.prepared(Ok(())) == told
            &&& StartStage::SettingUp.prepared(Err(e)) == StartStage::Failed(e)
            &&& told.looked(op) == (starting, Some(op.usbcmd | 1))
            &&& starting.looked(op) == if halted {
                (starting, None::<u32>)
            } else {
                (StartStage::Running, None::<u32>)
            }
            &&& StartStage::Running.looked(op) == (StartStage::Running, None::<u32>)
            &&& StartStage::Failed(e).looked(op) == (StartStage::Failed(e), None::<u32>)
        }),
{
    crate::xhci::registers::law_controller_waits(
        op,
        ControllerReset::Stopping,
        ControllerStart::Starting,
    );
}

/// What the controller is told goes to the first of its operational registers, in one store; where
/// there is nothing to tell, there is none.
pub proof fn law_commands_go_to_the_first_register(op_base: u64, value: u32)
    ensures
        command_stores(op_base, Some(value)).len() == 1,
        command_stores(op_base, Some(value))[0] matches Store::Word { addr, value: v } && addr
            == op_base && v == value,
        command_stores(op_base, None).len() == 0,
{
}

} // verus!
