//! The contexts by which driver and controller tell each other about devices.
use crate::bits::write_bits;
use crate::bits::write_bits64;
use crate::xhci::port::UsbMode;
use crate::xhci::registers::CapabilityRegisters;
use crate::xhci::registers::OperationalRegisters;
use crate::xhci::store::Store;
use vstd::arithmetic::div_mod::*;
use vstd::arithmetic::power2::*;
use vstd::prelude::*;

verus! {

/// The kinds of endpoint.
#[derive(Debug, Clone, Copy, PartialEq, Eq, Structural)]
pub enum EndpointType {
    IsochOut,
    BulkOut,
    InterruptOut,
    Control,
    IsochIn,
    BulkIn,
    InterruptIn,
}

impl EndpointType {
    /// The number that stands for the kind in an endpoint context.
    pub open spec fn code(self) -> u32 {
        match self {
            EndpointType::IsochOut => 1,
            EndpointType::BulkOut => 2,
            EndpointType::InterruptOut => 3,
            EndpointType::Control => 4,
            EndpointType::IsochIn => 5,
            EndpointType::BulkIn => 6,
            EndpointType::InterruptIn => 7,
        }
    }

    /// The number that stands for the kind in an endpoint context.
    pub fn number(self) -> (r: u32)
        ensures
            r == self.code(),
    {
        match self {
            EndpointType::IsochOut => 1,
            EndpointType::BulkOut => 2,
            EndpointType::InterruptOut => 3,
            EndpointType::Control => 4,
            EndpointType::IsochIn => 5,
            EndpointType::BulkIn => 6,
            EndpointType::InterruptIn => 7,
        }
    }
}

/// What the controller knows of an endpoint: eight words.
#[derive(Debug, Clone, Copy, PartialEq, Eq, Structural)]
pub struct EndpointContext {
    /// The first word.
    pub info: u32,
    /// The second word: error count, endpoint type, burst and packet size.
    pub info2: u32,
    /// The third and fourth word: where the transfer ring is, and its cycle state.
    pub tr_deque_ptr: u64,
    /// The low half of the fifth word.
    pub average_trb_length: u16,
    /// The high half of the fifth word.
    pub max_esit_payload_low: u16,
}

impl EndpointContext {
    /// The context with one field of its second word replaced.
    pub open spec fn with_info2(self, lo: int, size: int, x: int) -> Self {
        EndpointContext {
            info2: crate::bits::with_field(self.info2 as int, lo, size, x) as u32,
            ..self
        }
    }

    /// The context with one field of its ring pointer replaced.
    pub open spec fn with_ptr(self, lo: int, size: int, x: int) -> Self {
        EndpointContext {
            tr_deque_ptr: crate::bits::with_field(self.tr_deque_ptr as int, lo, size, x) as u64,
            ..self
        }
    }

    /// The context of an endpoint of a kind, with a packet size, a ring, and an average
    /// block length: three tries on errors, and the ring's cycle state one.
    pub open spec fn endpoint(kind: EndpointType, max_packet: u16, ring: u64, average: u16) -> Self {
        EndpointContext {
            info: 0,
            info2: (0x1_0000 * max_packet + 8 * kind.code() + 6) as u32,
            tr_deque_ptr: (ring - ring % 16 + 1) as u64,
            average_trb_length: average,
            max_esit_payload_low: 0,
        }
    }

    /// The word `i` as it lies in memory.
    pub open spec fn word(self, i: int) -> u32 {
        if i == 0 {
            self.info
        } else if i == 1 {
            self.info2
        } else if i == 2 {
            (self.tr_deque_ptr % 0x1_0000_0000) as u32
        } else if i == 3 {
            (self.tr_deque_ptr / 0x1_0000_0000) as u32
        } else if i == 4 {
            (self.average_trb_length + 0x1_0000 * self.max_esit_payload_low) as u32
        } else {
            0
        }
    }

    /// A context of zeroes.
    pub fn new() -> (r: Self)
        ensures
            r == (EndpointContext {
                info: 0,
                info2: 0,
                tr_deque_ptr: 0,
                average_trb_length: 0,
                max_esit_payload_low: 0,
            }),
    {
        EndpointContext {
            info: 0,
            info2: 0,
            tr_deque_ptr: 0,
            average_trb_length: 0,
            max_esit_payload_low: 0,
        }
    }

    /// The context of a control endpoint.
    pub fn new_control_endpoint(max_packet_size: u16, tr_deque_ptr: u64) -> (r: Result<
        Self,
        &'static str,
    >)
        ensures
            r == Ok::<Self, &'static str>(
                Self::endpoint(EndpointType::Control, max_packet_size, tr_deque_ptr, 8),
            ),
    {
        let mut ep = Self::new();
        ep.set_ep_type(EndpointType::Control)?;
        ep.set_dequeue_cycle_state(true)?;
        ep.set_error_count(3)?;
        ep.set_max_packet_size(max_packet_size);
        ep.set_ring_deque_pointer(tr_deque_ptr)?;
        ep.average_trb_length = 8;
        Ok(ep)
    }

    /// The context of a bulk endpoint.
    pub fn new_bulk_endpoint(
        max_packet_size: u16,
        tr_deque_ptr: u64,
        ep_type: EndpointType,
    ) -> (r: Result<Self, &'static str>)
        ensures
            r == Ok::<Self, &'static str>(
                Self::endpoint(ep_type, max_packet_size, tr_deque_ptr, max_packet_size),
            ),
    {
        let mut ep = Self::new();
        ep.set_ep_type(ep_type)?;
        assert(ep.info2 == 8 * ep_type.code());
        ep.set_dequeue_cycle_state(true)?;
        assert(ep.tr_deque_ptr == 1);
        ep.set_error_count(3)?;
        assert(ep.info2 == 8 * ep_type.code() + 6);
        ep.set_max_packet_size(max_packet_size);
        assert(ep.info2 == 0x1_0000 * max_packet_size + 8 * ep_type.code() + 6);
        ep.set_ring_deque_pointer(tr_deque_ptr)?;
        assert(ep.tr_deque_ptr == tr_deque_ptr - tr_deque_ptr % 16 + 1);
        ep.average_trb_length = max_packet_size;
        ep.set_max_burst_size(0)?;
        ep.info = ep.info - ep.info % 4;
        Ok(ep)
    }

    /// Sets the burst size: bits 8 to 11 of the second word.
    pub fn set_max_burst_size(&mut self, burst_size: u8) -> (r: Result<(), &'static str>)
        ensures
            burst_size <= 15 ==> r == Ok::<(), &'static str>(()) && *final(self)
                == old(self).with_info2(0x100, 0x10, burst_size as int),
            burst_size <= 15 ==> final(self).info2 as int / 0x100 % 0x10 == burst_size
                && final(self).info2 as int % 0x100 == old(self).info2 as int % 0x100
                && final(self).info2 as int / 0x1000 == old(self).info2 as int / 0x1000,
            burst_size > 15 ==> r == Err::<(), &'static str>("Invalid max burst size")
                && *final(self) == *old(self),
    {
        proof {
            lemma2_to64();
            if burst_size <= 15 {
                crate::bits::lemma_with_field(
                    self.info2 as int,
                    0x100,
                    0x10,
                    burst_size as int,
                );
            }
        }
        if burst_size <= 15 {
            self.info2 = write_bits(self.info2, 8, 4, burst_size as u32);
            Ok(())
        } else {
            Err("Invalid max burst size")
        }
    }

    /// Sets where the transfer ring is; the low four bits are not part of it.
    pub fn set_ring_deque_pointer(&mut self, tr_deque_ptr: u64) -> (r: Result<(), &'static str>)
        ensures
            r == Ok::<(), &'static str>(()),
            *final(self) == old(self).with_ptr(16, 0x1000_0000_0000_0000, tr_deque_ptr as int / 16),
            final(self).tr_deque_ptr as int / 16 == tr_deque_ptr as int / 16,
            final(self).tr_deque_ptr as int % 16 == old(self).tr_deque_ptr as int % 16,
    {
        proof {
            lemma2_to64();
            lemma2_to64_rest();
        }
        self.tr_deque_ptr = write_bits64(self.tr_deque_ptr, 4, 60, tr_deque_ptr / 16);
        Ok(())
    }

    /// Sets the packet size: bits 16 to 31 of the second word.
    pub fn set_max_packet_size(&mut self, max_packet_size: u16)
        ensures
            *final(self) == old(self).with_info2(0x1_0000, 0x1_0000, max_packet_size as int),
            final(self).info2 as int / 0x1_0000 == max_packet_size,
            final(self).info2 as int % 0x1_0000 == old(self).info2 as int % 0x1_0000,
    {
        proof {
            lemma2_to64();
        }
        self.info2 = write_bits(self.info2, 16, 16, max_packet_size as u32);
    }

    /// Sets the error count: bits 1 and 2 of the second word.
    pub fn set_error_count(&mut self, error_count: u32) -> (r: Result<(), &'static str>)
        ensures
            error_count < 4 ==> r == Ok::<(), &'static str>(()) && *final(self)
                == old(self).with_info2(2, 4, error_count as int),
            error_count < 4 ==> final(self).info2 as int / 2 % 4 == error_count
                && final(self).info2 as int % 2 == old(self).info2 as int % 2
                && final(self).info2 as int / 8 == old(self).info2 as int / 8,
            error_count >= 4 ==> r == Err::<(), &'static str>("Invalid error count")
                && *final(self) == *old(self),
    {
        proof {
            lemma2_to64();
        }
        if error_count < 4 {
            self.info2 = write_bits(self.info2, 1, 2, error_count);
            Ok(())
        } else {
            Err("Invalid error count")
        }
    }

    /// Sets the ring's cycle state: bit 0 of the ring pointer.
    pub fn set_dequeue_cycle_state(&mut self, dcs: bool) -> (r: Result<(), &'static str>)
        ensures
            r == Ok::<(), &'static str>(()),
            *final(self) == old(self).with_ptr(
                1,
                2,
                if dcs {
                    1
                } else {
                    0
                },
            ),
    {
        proof {
            lemma2_to64();
        }
        self.tr_deque_ptr = write_bits64(
            self.tr_deque_ptr,
            0,
            1,
            if dcs {
                1
            } else {
                0
            },
        );
        Ok(())
    }

    /// Sets the kind of endpoint: bits 3 to 5 of the second word.
    pub fn set_ep_type(&mut self, ep_type: EndpointType) -> (r: Result<(), &'static str>)
        ensures
            r == Ok::<(), &'static str>(()),
            *final(self) == old(self).with_info2(8, 8, ep_type.code() as int),
            final(self).info2 as int / 8 % 8 == ep_type.code(),
            final(self).info2 as int % 8 == old(self).info2 as int % 8,
            final(self).info2 as int / 0x40 == old(self).info2 as int / 0x40,
    {
        proof {
            lemma2_to64();
        }
        let raw_ep_type: u32 = ep_type.number();
        if raw_ep_type < 8 {
            self.info2 = write_bits(self.info2, 3, 3, raw_ep_type);
            Ok(())
        } else {
            Err("Invalid endpoint type")
        }
    }
}

/// What the controller knows of a device: the slot and its endpoints.
#[derive(Debug, Clone, Copy)]
pub struct DeviceContext {
    pub slot_ctx: [u32; 8],
    pub ep_ctx: [EndpointContext; 31],
}

impl Default for DeviceContext {
    /// A context of zeroes.
    fn default() -> (r: Self)
        ensures
            r.slot_ctx@ == Seq::new(8, |i: int| 0u32),
            r.ep_ctx@ == Seq::new(
                31,
                |i: int|
                    EndpointContext {
                        info: 0,
                        info2: 0,
                        tr_deque_ptr: 0,
                        average_trb_length: 0,
                        max_esit_payload_low: 0,
                    },
            ),
    {
        let ep = EndpointContext::new();
        let r = DeviceContext { slot_ctx: [0; 8], ep_ctx: [ep; 31] };
        assert(r.slot_ctx@ =~= Seq::new(8, |i: int| 0u32));
        assert(r.ep_ctx@ =~= Seq::new(31, |i: int| ep));
        r
    }
}

impl DeviceContext {
    /// The slot's word `word` with one field replaced.
    pub open spec fn slot_with(self, word: int, lo: int, size: int, x: int) -> Seq<u32> {
        self.slot_ctx@.update(
            word,
            crate::bits::with_field(self.slot_ctx@[word] as int, lo, size, x) as u32,
        )
    }

    /// Sets the speed: bits 20 to 23 of the slot's first word.
    pub fn set_port_speed(&mut self, mode: UsbMode) -> (r: Result<(), &'static str>)
        ensures
            final(self).ep_ctx@ == old(self).ep_ctx@,
            mode.id() < 16 ==> r == Ok::<(), &'static str>(()) && final(self).slot_ctx@
                == old(self).slot_with(0, 0x10_0000, 0x10, mode.id() as int),
            mode.id() < 16 ==> final(self).slot_ctx@[0] as int / 0x10_0000 % 0x10 == mode.id()
                && final(self).slot_ctx@[0] as int % 0x10_0000 == old(self).slot_ctx@[0] as int
                % 0x10_0000 && final(self).slot_ctx@[0] as int / 0x100_0000 == old(self).slot_ctx@[0] as int / 0x100_0000,
            mode.id() >= 16 ==> r == Err::<(), &'static str>("Invalid port speed")
                && final(self).slot_ctx@ == old(self).slot_ctx@,
    {
        proof {
            lemma2_to64();
        }
        if mode.psi() < 16u32 {
            self.slot_ctx[0] = write_bits(self.slot_ctx[0], 20, 4, mode.psi());
            Ok(())
        } else {
            Err("Invalid port speed")
        }
    }

    /// Sets the last endpoint that is valid: bits 27 to 31 of the slot's first word.
    pub fn set_last_valid_dci(&mut self, dci: usize) -> (r: Result<(), &'static str>)
        ensures
            final(self).ep_ctx@ == old(self).ep_ctx@,
            dci <= 31 ==> r == Ok::<(), &'static str>(()) && final(self).slot_ctx@
                == old(self).slot_with(0, 0x800_0000, 0x20, dci as int),
            dci <= 31 ==> final(self).slot_ctx@[0] as int / 0x800_0000 == dci
                && final(self).slot_ctx@[0] as int % 0x800_0000 == old(self).slot_ctx@[0] as int
                % 0x800_0000,
            dci > 31 ==> r == Err::<(), &'static str>("num_ep_ctx out of range")
                && final(self).slot_ctx@ == old(self).slot_ctx@,
    {
        proof {
            lemma2_to64();
        }
        if dci <= 31 {
            self.slot_ctx[0] = write_bits(self.slot_ctx[0], 27, 5, dci as u32);
            Ok(())
        } else {
            Err("num_ep_ctx out of range")
        }
    }

    /// Sets the root hub port: bits 16 to 23 of the slot's second word.
    pub fn set_root_hub_port_number(&mut self, port: usize) -> (r: Result<(), &'static str>)
        ensures
            final(self).ep_ctx@ == old(self).ep_ctx@,
            0 < port < 256 ==> r == Ok::<(), &'static str>(()) && final(self).slot_ctx@
                == old(self).slot_with(1, 0x1_0000, 0x100, port as int),
            0 < port < 256 ==> final(self).slot_ctx@[1] as int / 0x1_0000 % 0x100 == port
                && final(self).slot_ctx@[1] as int % 0x1_0000 == old(self).slot_ctx@[1] as int
                % 0x1_0000 && final(self).slot_ctx@[1] as int / 0x100_0000 == old(self).slot_ctx@[1] as int / 0x100_0000,
            !(0 < port < 256) ==> r == Err::<(), &'static str>("Port out of range")
                && final(self).slot_ctx@ == old(self).slot_ctx@,
    {
        proof {
            lemma2_to64();
        }
        if 0 < port && port < 256 {
            self.slot_ctx[1] = write_bits(self.slot_ctx[1], 16, 8, port as u32);
            Ok(())
        } else {
            Err("Port out of range")
        }
    }

    /// The word `i` as it lies in memory: the slot's eight, then each endpoint's.
    pub open spec fn word(self, i: int) -> u32 {
        if i < 8 {
            self.slot_ctx@[i]
        } else {
            self.ep_ctx@[(i - 8) / 8].word((i - 8) % 8)
        }
    }
}

/// Speed, last endpoint and port can be set in any order: none disturbs another.
pub proof fn law_slot_fields_are_independent(ctx: DeviceContext, psi: int, dci: int)
    requires
        0 <= psi < 16,
        0 <= dci < 32,
    ensures
        ({
            let word = ctx.slot_ctx@[0] as int;
            let a = crate::bits::with_field(word, 0x10_0000, 0x10, psi);
            let b = crate::bits::with_field(word, 0x800_0000, 0x20, dci);
            &&& crate::bits::with_field(a, 0x800_0000, 0x20, dci) == crate::bits::with_field(
                b,
                0x10_0000,
                0x10,
                psi,
            )
            &&& crate::bits::field(
                crate::bits::with_field(a, 0x800_0000, 0x20, dci),
                0x10_0000,
                0x10,
            ) == psi
            &&& crate::bits::field(
                crate::bits::with_field(a, 0x800_0000, 0x20, dci),
                0x800_0000,
                0x20,
            ) == dci
        }),
{
    let word = ctx.slot_ctx@[0] as int;
    let a = crate::bits::with_field(word, 0x10_0000, 0x10, psi);
    let b = crate::bits::with_field(word, 0x800_0000, 0x20, dci);
    let both = crate::bits::with_field(a, 0x800_0000, 0x20, dci);
    crate::bits::lemma_with_field(word, 0x10_0000, 0x10, psi);
    crate::bits::lemma_with_field(word, 0x800_0000, 0x20, dci);
    crate::bits::lemma_with_field(a, 0x800_0000, 0x20, dci);
    lemma_below_bit_27(word, b);
    lemma_below_bit_27(a, both);
    lemma_div_denominator(a, 0x100_0000, 8);
    lemma_div_denominator(word, 0x100_0000, 8);
}

/// Bits 20 to 23 are those of what lies below bit 27.
proof fn lemma_below_bit_27(x: int, y: int)
    requires
        0 <= x,
        0 <= y,
        x % 0x800_0000 == y % 0x800_0000,
    ensures
        x / 0x10_0000 % 0x10 == y / 0x10_0000 % 0x10,
{
    let low = x % 0x800_0000;
    let p = x / 0x800_0000;
    let q = y / 0x800_0000;
    assert(x / 0x10_0000 == 0x80 * p + low / 0x10_0000);
    assert(y / 0x10_0000 == 0x80 * q + low / 0x10_0000);
}

/// Which contexts of an input context the controller is to look at.
#[derive(Debug, Clone, Copy, PartialEq, Eq, Structural)]
pub struct InputControlContext {
    pub drop_context_bitmap: u32,
    pub add_context_bitmap: u32,
}

impl Default for InputControlContext {
    /// No context.
    fn default() -> (r: Self)
        ensures
            r == (InputControlContext { drop_context_bitmap: 0, add_context_bitmap: 0 }),
    {
        InputControlContext { drop_context_bitmap: 0, add_context_bitmap: 0 }
    }
}

impl InputControlContext {
    /// Adds context `ici`: zero is the slot, the others are the endpoints.
    pub fn add_context(&mut self, ici: usize) -> (r: Result<(), &'static str>)
        ensures
            ici < 32 ==> r == Ok::<(), &'static str>(()) && *final(self) == (InputControlContext {
                add_context_bitmap: old(self).add_context_bitmap | (1u32 << ici),
                ..*old(self)
            }),
            ici >= 32 ==> r == Err::<(), &'static str>("Input context index out of range")
                && *final(self) == *old(self),
            ici < 32 ==> forall|j: usize|
                j < 32 ==> ((#[trigger] (final(self).add_context_bitmap >> j)) & 1 == 1 <==> j == ici
                    || (old(self).add_context_bitmap >> j) & 1 == 1),
    {
        if ici < 32 {
            let ghost before = self.add_context_bitmap;
            assert forall|j: usize| j < 32 implies ((#[trigger] ((before | (1u32 << ici)) >> j)) & 1
                == 1 <==> j == ici || (before >> j) & 1 == 1) by {
                assert(j < 32 && ici < 32 ==> (((before | (1u32 << ici)) >> j) & 1 == 1 <==> j == ici
                    || (before >> j) & 1 == 1)) by (bit_vector);
            }
            self.add_context_bitmap = self.add_context_bitmap | (1u32 << ici);
            Ok(())
        } else {
            Err("Input context index out of range")
        }
    }

    /// The word `i` as it lies in memory.
    pub open spec fn word(self, i: int) -> u32 {
        if i == 0 {
            self.drop_context_bitmap
        } else if i == 1 {
            self.add_context_bitmap
        } else {
            0
        }
    }
}

/// Adding a context sets its bit and no other.
pub proof fn law_add_context(ctx: InputControlContext, ici: u32, other: u32)
    requires
        ici < 32,
        other < 32,
    ensures
        ({
            let after = ctx.add_context_bitmap | (1u32 << ici);
            (after >> other) & 1 == 1 <==> (other == ici || (ctx.add_context_bitmap >> other) & 1
                == 1)
        }),
{
    let b = ctx.add_context_bitmap;
    assert(((b | (1u32 << ici)) >> other) & 1 == 1 <==> (other == ici || (b >> other) & 1 == 1))
        by (bit_vector)
        requires
            ici < 32,
            other < 32,
    ;
}

/// What the driver tells the controller about a device.
#[derive(Debug, Clone, Copy)]
pub struct InputContext {
    pub input_ctrl_ctx: InputControlContext,
    pub device_ctx: DeviceContext,
}

impl Default for InputContext {
    /// A context of zeroes.
    fn default() -> (r: Self)
        ensures
            r.input_ctrl_ctx == (InputControlContext {
                drop_context_bitmap: 0,
                add_context_bitmap: 0,
            }),
            r.device_ctx.slot_ctx@ == Seq::new(8, |i: int| 0u32),
            r.device_ctx.ep_ctx@ == Seq::new(
                31,
                |i: int|
                    EndpointContext {
                        info: 0,
                        info2: 0,
                        tr_deque_ptr: 0,
                        average_trb_length: 0,
                        max_esit_payload_low: 0,
                    },
            ),
    {
        InputContext {
            input_ctrl_ctx: InputControlContext::default(),
            device_ctx: DeviceContext::default(),
        }
    }
}

impl InputContext {
    /// Sets the context of endpoint `dci`.
    pub fn set_ep_ctx(&mut self, dci: usize, ep_ctx: EndpointContext) -> (r: Result<
        (),
        &'static str,
    >)
        requires
            1 <= dci <= 31,
        ensures
            r == Ok::<(), &'static str>(()),
            final(self).input_ctrl_ctx == old(self).input_ctrl_ctx,
            final(self).device_ctx.slot_ctx@ == old(self).device_ctx.slot_ctx@,
            final(self).device_ctx.ep_ctx@ == old(self).device_ctx.ep_ctx@.update(dci - 1, ep_ctx),
    {
        self.device_ctx.ep_ctx[dci - 1] = ep_ctx;
        Ok(())
    }

    /// Sets which contexts the controller is to look at.
    pub fn set_input_ctrl_ctx(&mut self, input_ctrl_ctx: InputControlContext) -> (r: Result<
        (),
        &'static str,
    >)
        ensures
            r == Ok::<(), &'static str>(()),
            final(self).input_ctrl_ctx == input_ctrl_ctx,
            final(self).device_ctx == old(self).device_ctx,
    {
        self.input_ctrl_ctx = input_ctrl_ctx;
        Ok(())
    }

    /// Sets the speed of the device.
    pub fn set_port_speed(&mut self, psi: UsbMode) -> (r: Result<(), &'static str>)
        ensures
            final(self).input_ctrl_ctx == old(self).input_ctrl_ctx,
            final(self).device_ctx.ep_ctx@ == old(self).device_ctx.ep_ctx@,
            psi.id() < 16 ==> r == Ok::<(), &'static str>(()) && final(self).device_ctx.slot_ctx@
                == old(self).device_ctx.slot_with(0, 0x10_0000, 0x10, psi.id() as int),
            psi.id() >= 16 ==> r == Err::<(), &'static str>("Invalid port speed")
                && final(self).device_ctx.slot_ctx@ == old(self).device_ctx.slot_ctx@,
    {
        self.device_ctx.set_port_speed(psi)
    }

    /// Sets the root hub port that the device is behind.
    pub fn set_root_hub_port_number(&mut self, port: usize) -> (r: Result<(), &'static str>)
        ensures
            final(self).input_ctrl_ctx == old(self).input_ctrl_ctx,
            final(self).device_ctx.ep_ctx@ == old(self).device_ctx.ep_ctx@,
            0 < port < 256 ==> r == Ok::<(), &'static str>(()) && final(self).device_ctx.slot_ctx@
                == old(self).device_ctx.slot_with(1, 0x1_0000, 0x100, port as int),
            !(0 < port < 256) ==> r == Err::<(), &'static str>("Port out of range") && final(self).device_ctx.slot_ctx@ == old(self).device_ctx.slot_ctx@,
    {
        self.device_ctx.set_root_hub_port_number(port)
    }

    /// Sets the last endpoint that is valid.
    pub fn set_last_valid_dci(&mut self, dci: usize) -> (r: Result<(), &'static str>)
        ensures
            final(self).input_ctrl_ctx == old(self).input_ctrl_ctx,
            final(self).device_ctx.ep_ctx@ == old(self).device_ctx.ep_ctx@,
            dci <= 31 ==> r == Ok::<(), &'static str>(()) && final(self).device_ctx.slot_ctx@
                == old(self).device_ctx.slot_with(0, 0x800_0000, 0x20, dci as int),
            dci > 31 ==> r == Err::<(), &'static str>("num_ep_ctx out of range") && final(self).device_ctx.slot_ctx@ == old(self).device_ctx.slot_ctx@,
    {
        self.device_ctx.set_last_valid_dci(dci)
    }

    /// The word `i` as it lies in memory: the control context's eight, then the device's.
    pub open spec fn word(self, i: int) -> u32 {
        if i < 8 {
            self.input_ctrl_ctx.word(i)
        } else {
            self.device_ctx.word(i - 8)
        }
    }

    /// The context as it lies in memory.
    pub fn to_words(&self) -> (r: Vec<u32>)
        ensures
            r@ == Seq::new(264, |i: int| self.word(i)),
    {
        let mut out: Vec<u32> = Vec::new();
        out.push(self.input_ctrl_ctx.drop_context_bitmap);
        out.push(self.input_ctrl_ctx.add_context_bitmap);
        let mut i: usize = 2;
        while i < 8
            invariant
                2 <= i <= 8,
                out@ =~= Seq::new(i as nat, |j: int| self.word(j)),
            decreases 8 - i,
        {
            out.push(0);
            i += 1;
        }
        let mut i: usize = 0;
        while i < 8
            invariant
                i <= 8,
                out@ =~= Seq::new((8 + i) as nat, |j: int| self.word(j)),
            decreases 8 - i,
        {
            out.push(self.device_ctx.slot_ctx[i]);
            i += 1;
        }
        let mut i: usize = 0;
        while i < 31
            invariant
                i <= 31,
                out@ =~= Seq::new((16 + 8 * i) as nat, |j: int| self.word(j)),
            decreases 31 - i,
        {
            let ep = self.device_ctx.ep_ctx[i];
            out.push(ep.info);
            out.push(ep.info2);
            out.push((ep.tr_deque_ptr % 0x1_0000_0000) as u32);
            out.push((ep.tr_deque_ptr / 0x1_0000_0000) as u32);
            out.push(ep.average_trb_length as u32 + 0x1_0000 * (ep.max_esit_payload_low as u32));
            out.push(0);
            out.push(0);
            out.push(0);
            i += 1;
        }
        out
    }
}

/// A table of scratchpad buffers: where it lies, and where the buffers lie.
#[derive(Debug)]
pub struct ScratchpadBuffers {
    pub table_ptr: u64,
    pub table: Vec<u64>,
}

impl ScratchpadBuffers {
    /// How many buffers a controller with these capabilities is given: as many as it asks
    /// for, and at least one.
    pub open spec fn count(cap_regs: CapabilityRegisters) -> int {
        if cap_regs.scratchpads() == 0 {
            1
        } else {
            cap_regs.scratchpads()
        }
    }

    /// The page size and the number of buffers to allocate, each as large as a page.
    pub fn demand(cap_regs: &CapabilityRegisters, op_regs: &OperationalRegisters) -> (r: Result<
        (usize, usize),
        &'static str,
    >)
        ensures
            r == (match op_regs.page_bytes() {
                Ok(page_size) => Ok::<(usize, usize), &'static str>(
                    (page_size, Self::count(*cap_regs) as usize),
                ),
                Err(e) => Err(e),
            }),
    {
        let page_size: usize = op_regs.page_size()?;
        let n: usize = cap_regs.num_scratchpad_bufs();
        let count: usize = if n > 1 {
            n
        } else {
            1
        };
        Ok((page_size, count))
    }

    /// The stores that fill the table.
    pub open spec fn table_stores(&self) -> Seq<Store> {
        Seq::new(
            self.table@.len(),
            |i: int| Store::Long { addr: (self.table_ptr + 8 * i) as u64, value: self.table@[i] },
        )
    }

    /// The table at `table_ptr` of the buffers at `bufs`, as many as the controller is to be
    /// given, and the stores that fill it.
    pub fn allocated(
        cap_regs: &CapabilityRegisters,
        table_ptr: u64,
        bufs: Vec<u64>,
        stores: &mut Vec<Store>,
    ) -> (r: Self)
        requires
            bufs@.len() == Self::count(*cap_regs),
            table_ptr + 8 * bufs@.len() <= u64::MAX,
        ensures
            r.table_ptr == table_ptr,
            r.table@ == bufs@,
            r.table@.len() == Self::count(*cap_regs),
            final(stores)@ == old(stores)@ + r.table_stores(),
    {
        let r = ScratchpadBuffers { table_ptr, table: bufs };
        let mut i: usize = 0;
        while i < r.table.len()
            invariant
                i <= r.table@.len(),
                r.table_ptr == table_ptr,
                table_ptr + 8 * r.table@.len() <= u64::MAX,
                stores@ =~= old(stores)@ + r.table_stores().take(i as int),
            decreases r.table@.len() - i,
        {
            stores.push(Store::Long { addr: table_ptr + 8 * (i as u64), value: r.table[i] });
            i += 1;
        }
        assert(r.table_stores().take(i as int) =~= r.table_stores());
        r
    }
}

/// Where the contexts of all devices lie: entry zero for the scratchpad table, the others
/// for the slots.
#[derive(Debug)]
pub struct DeviceContextBaseAddressArray {
    addr: u64,
    entries: [u64; 256],
}

impl View for DeviceContextBaseAddressArray {
    type V = Seq<u64>;

    closed spec fn view(&self) -> Seq<u64> {
        self.entries@
    }
}

impl DeviceContextBaseAddressArray {
    /// Where the array lies.
    pub closed spec fn address(&self) -> u64 {
        self.addr
    }

    /// An array at `addr` without devices.
    pub fn new(scratchpad_buffers: &ScratchpadBuffers, addr: u64) -> (r: Self)
        ensures
            r.address() == addr,
            r@ == Seq::new(
                256,
                |i: int|
                    if i == 0 {
                        scratchpad_buffers.table_ptr
                    } else {
                        0
                    },
            ),
    {
        let mut entries: [u64; 256] = [0; 256];
        entries[0] = scratchpad_buffers.table_ptr;
        let r = DeviceContextBaseAddressArray { addr, entries };
        assert(r@ =~= Seq::new(
            256,
            |i: int|
                if i == 0 {
                    scratchpad_buffers.table_ptr
                } else {
                    0
                },
        ));
        r
    }

    /// Sets where the output context of `slot` lies.
    pub fn set_output_context(&mut self, slot: u8, output_context: u64)
        requires
            slot >= 1,
        ensures
            final(self).address() == old(self).address(),
            final(self)@ == old(self)@.update(slot as int, output_context),
    {
        self.entries[slot as usize] = output_context;
    }

    /// Where the array lies.
    pub fn inner_mut_ptr(&self) -> (r: u64)
        ensures
            r == self.address(),
    {
        self.addr
    }

    /// Entry `i`.
    pub fn entry(&self, i: usize) -> (r: u64)
        requires
            i < 256,
        ensures
            r == self@[i as int],
    {
        self.entries[i]
    }
}

/// The sizes that the controller counts on, in bytes: 0x20 for the context of an endpoint
/// or the control context, 0x400 for a device, and an input context fits a page.
pub proof fn law_context_sizes(ctx: InputContext)
    ensures
        ctx.device_ctx.slot_ctx@.len() * 4 == 0x20,
        (ctx.device_ctx.slot_ctx@.len() + 8 * ctx.device_ctx.ep_ctx@.len()) * 4 == 0x400,
        Seq::new(264, |i: int| ctx.word(i)).len() * 4 == 0x20 + 0x400,
        0x20 + 0x400 <= 4096,
{
}

/// The kinds of endpoint have the numbers one to seven: isochronous, bulk and interrupt, out and
/// in, with control in the middle; the in kinds are four above the out kinds.
pub proof fn law_endpoint_kinds()
    ensures
        EndpointType::IsochOut.code() == 1,
        EndpointType::BulkOut.code() == 2,
        EndpointType::InterruptOut.code() == 3,
        EndpointType::Control.code() == 4,
        EndpointType::IsochIn.code() == 4 + EndpointType::IsochOut.code(),
        EndpointType::BulkIn.code() == 4 + EndpointType::BulkOut.code(),
        EndpointType::InterruptIn.code() == 4 + EndpointType::InterruptOut.code(),
{
}

/// What the context of an endpoint says: the packet size in the upper half of its second word,
/// no burst, the kind in three bits above three tries on errors; the ring's address with the
/// cycle state one in its lowest bit; and the average block length.
pub proof fn law_endpoint_context(kind: EndpointType, max_packet: u16, ring: u64, average: u16)
    requires
        ring % 16 == 0,
    ensures
        ({
            let ep = EndpointContext::endpoint(kind, max_packet, ring, average);
            &&& ep.info2 as int / 0x1_0000 == max_packet
            &&& ep.info2 as int / 0x100 % 0x100 == 0
            &&& ep.info2 as int / 8 % 0x20 == kind.code()
            &&& ep.info2 as int % 8 == 6
            &&& ep.tr_deque_ptr == ring + 1
            &&& ep.average_trb_length == average
            &&& ep.info == 0
            &&& ep.max_esit_payload_low == 0
        }),
{
    let v = EndpointContext::endpoint(kind, max_packet, ring, average).info2 as int;
    assert(v == 0x1_0000 * max_packet + 8 * kind.code() + 6);
    assert(v / 8 == 0x2000 * max_packet + kind.code());
    assert(v / 0x100 == 0x100 * max_packet);
}

/// Where the parts of an input context lie in memory, in words of four bytes: the contexts to
/// drop and to add, the slot from word 8 on, and the endpoint with the index `dci` from word
/// `8 + 8 * dci` on.
pub proof fn law_input_context_layout(ctx: InputContext, dci: int, i: int)
    requires
        1 <= dci <= 31,
        0 <= i < 8,
    ensures
        ctx.word(0) == ctx.input_ctrl_ctx.drop_context_bitmap,
        ctx.word(1) == ctx.input_ctrl_ctx.add_context_bitmap,
        i >= 2 ==> ctx.word(i) == 0,
        ctx.word(8 + i) == ctx.device_ctx.slot_ctx@[i],
        ({
            let ep = ctx.device_ctx.ep_ctx@[dci - 1];
            let at = 8 + 8 * dci;
            &&& ctx.word(at) == ep.info
            &&& ctx.word(at + 1) == ep.info2
            &&& ctx.word(at + 2) + 0x1_0000_0000 * ctx.word(at + 3) == ep.tr_deque_ptr
            &&& ctx.word(at + 4) as int % 0x1_0000 == ep.average_trb_length
            &&& ctx.word(at + 4) as int / 0x1_0000 == ep.max_esit_payload_low
            &&& ctx.word(at + 5) == 0 && ctx.word(at + 6) == 0 && ctx.word(at + 7) == 0
        }),
{
}

/// A controller gets as many scratchpad buffers as it asks for, and one if it asks for none.
pub proof fn law_scratchpad_count(cap: CapabilityRegisters)
    ensures
        ScratchpadBuffers::count(cap) >= 1,
        ScratchpadBuffers::count(cap) >= cap.scratchpads(),
        cap.scratchpads() >= 1 ==> ScratchpadBuffers::count(cap) == cap.scratchpads(),
        cap.scratchpads() < 1 ==> ScratchpadBuffers::count(cap) == 1,
{
}

/// Each entry of the scratchpad table is stored eight bytes after the one before it.
pub proof fn law_scratchpad_table(bufs: ScratchpadBuffers, i: int)
    requires
        0 <= i < bufs.table@.len(),
        bufs.table_ptr + 8 * bufs.table@.len() <= u64::MAX,
    ensures
        bufs.table_stores().len() == bufs.table@.len(),
        bufs.table_stores()[i] matches Store::Long { addr, value } && addr - bufs.table_ptr == 8
            * i && value == bufs.table@[i],
{
}

} // verus!
