//! The xHCI register file (xHCI chapter 5): the capability, operational and
//! runtime registers and the extended capabilities, with their reset values
//! and the bits a guest may write.
use crate::mmio_register::{
    Register, RegisterSpec, StaticRegister, StaticRegisterSpec,
};
use vstd::prelude::*;

verus! {

pub const XHCI_CAPLENGTH: u8 = 0x20;
pub const XHCI_DBOFF: u32 = 0x00002000;
pub const XHCI_RTSOFF: u32 = 0x00003000;

/// Device slots the controller has.
pub const MAX_SLOTS: u8 = 8;
/// Root hub ports the controller has.
pub const MAX_PORTS: u8 = 8;
/// Interrupters the controller has.
pub const MAX_INTERRUPTER: u8 = 1;

// Bits of the usbcmd register.
pub const USB_CMD_RUNSTOP: u32 = 0x1;
pub const USB_CMD_RESET: u32 = 0x2;
pub const USB_CMD_INTERRUPTER_ENABLE: u32 = 0x4;

// Bits of the usbsts register.
pub const USB_STS_HALTED: u32 = 0x1;
pub const USB_STS_EVENT_INTERRUPT: u32 = 0x8;
pub const USB_STS_PORT_CHANGE_DETECT: u32 = 0x10;
pub const USB_STS_CONTROLLER_NOT_READY: u32 = 0x800;
pub const USB_STS_SET_TO_CLEAR_MASK: u32 = 0x0000041C;

// Bits of the crcr register.
pub const CRCR_RING_CYCLE_STATE: u64 = 0x1;
pub const CRCR_COMMAND_STOP: u64 = 0x2;
pub const CRCR_COMMAND_ABORT: u64 = 0x4;
pub const CRCR_COMMAND_RING_RUNNING: u64 = 0x8;
pub const CRCR_COMMAND_RING_POINTER: u64 = 0xFFFFFFFFFFFFFFC0;

// Bits of the portsc registers.
pub const PORTSC_CURRENT_CONNECT_STATUS: u32 = 0x1;
pub const PORTSC_PORT_ENABLED: u32 = 0x2;
pub const PORTSC_PORT_RESET: u32 = 0x10;
pub const PORTSC_PORT_LINK_STATE_MASK: u32 = 0x000001E0;
pub const PORTSC_PORT_POWER: u32 = 0x200;
pub const PORTSC_CONNECT_STATUS_CHANGE: u32 = 0x20000;
pub const PORTSC_PORT_ENABLED_DISABLED_CHANGE: u32 = 0x40000;
pub const PORTSC_PORT_RESET_CHANGE: u32 = 0x200000;
pub const PORTSC_WARM_PORT_RESET: u32 = 0x80000000;
pub const PORTSC_SET_TO_CLEAR_MASK: u32 = 0x00FE0002;

// Bits of the iman register.
pub const IMAN_INTERRUPT_PENDING: u32 = 0x1;
pub const IMAN_INTERRUPT_ENABLE: u32 = 0x2;
pub const IMAN_SET_TO_CLEAR_MASK: u32 = 0x00000001;

// Fields of the imod register.
pub const IMOD_INTERRUPT_MODERATION_INTERVAL: u32 = 0xFFFF;
pub const IMOD_INTERRUPT_MODERATION_COUNTER_OFFSET: u32 = 16;

// Fields of the erstsz register.
pub const ERSTSZ_SEGMENT_TABLE_SIZE: u32 = 0xFFFF;

// Fields of the erstba register.
pub const ERSTBA_SEGMENT_TABLE_BASE_ADDRESS: u64 = 0xFFFFFFFFFFFFFFC0;

// Bits of the erdp register.
pub const ERDP_EVENT_HANDLER_BUSY: u64 = 0x8;
pub const ERDP_EVENT_RING_DEQUEUE_POINTER: u64 = 0xFFFFFFFFFFFFFFF0;
pub const ERDP_SET_TO_CLEAR_MASK: u64 = 0x0000000000000008;

// Fields of the doorbell registers.
pub const DOORBELL_TARGET: u32 = 0xFF;
pub const DOORBELL_STREAM_ID_OFFSET: u32 = 16;

// Fields of the structural parameter registers.
pub const HCSPARAMS1_MAX_INTERRUPTERS_MASK: u32 = 0x7FF00;
pub const HCSPARAMS1_MAX_INTERRUPTERS_OFFSET: u32 = 8;
pub const HCSPARAMS1_MAX_SLOTS_MASK: u32 = 0xFF;

// Fields of the extended capability registers.
pub const SPCAP_PORT_COUNT_MASK: u32 = 0xFF00;
pub const SPCAP_PORT_COUNT_OFFSET: u32 = 8;

/// Slot ids run from 1 to `MAX_SLOTS`.
pub open spec fn spec_valid_slot_id(slot_id: u8) -> bool {
    0 < slot_id <= MAX_SLOTS
}

/// Whether `slot_id` names a device slot.
pub fn valid_slot_id(slot_id: u8) -> (r: bool)
    ensures
        r == spec_valid_slot_id(slot_id),
{
    slot_id <= MAX_SLOTS && slot_id > 0
}

/// The registers the controller's logic reads and writes.
pub struct XHCIRegs {
    pub usbcmd: Register<u32>,
    pub usbsts: Register<u32>,
    pub dnctrl: Register<u32>,
    pub crcr: Register<u64>,
    pub dcbaap: Register<u64>,
    pub config: Register<u64>,
    pub portsc: Vec<Register<u32>>,
    pub doorbells: Vec<Register<u32>>,
    pub iman: Register<u32>,
    pub imod: Register<u32>,
    pub erstsz: Register<u32>,
    pub erstba: Register<u64>,
    pub erdp: Register<u64>,
}

/// The rest of the register file: registers whose value is fixed, and port
/// registers the logic does not look at.
pub struct XhciMmioSpace {
    pub caplength: StaticRegister<u8>,
    pub hciversion: StaticRegister<u16>,
    pub statics: Vec<StaticRegister<u32>>,
    pub portpmsc: Vec<Register<u32>>,
    pub portli: Vec<Register<u32>>,
    pub porthlpmc: Vec<Register<u32>>,
}

/// Offsets and values of the fixed 32-bit registers, in the order they are
/// listed.
pub open spec fn xhci_static_words() -> Seq<(u64, u32)> {
    seq![(0x04, 0x08000108), (0x08, 0xf0), (0x0c, 0x07FF000A), (0x10, 0x30000501), (0x14, XHCI_DBOFF), (0x18, XHCI_RTSOFF), (0x1c, 0), (0x28, 0x00000001), (0x3000, 0), (0xc000, 0x20), (0xc004, 0x20425355), (0xc008, 0x00000401), (0xc00c, 0), (0xc100, 0x03000002), (0xc104, 0x20425355), (0xc108, 0x00000405), (0xc10c, 0)]
}


/// A register at `offset` holding its reset value, with the given masks and
/// no write callback.
pub open spec fn fresh<T: crate::mmio_register::RegisterValue>(
    r: Register<T>,
    offset: u64,
    reset: T,
    wmask: T,
    w1c: T,
) -> bool {
    &&& r.offset() == offset
    &&& r.value() == reset
    &&& r.reset_value() == reset
    &&& r.writeable_mask() == wmask
    &&& r.w1c_mask() == w1c
    &&& !r.has_write_cb()
}

/// `cnt` registers `stride` bytes apart from `base_offset`, each freshly reset.
pub open spec fn fresh_array(
    v: Seq<Register<u32>>,
    cnt: nat,
    base_offset: u64,
    stride: u64,
    reset: u32,
    wmask: u32,
    w1c: u32,
) -> bool {
    &&& v.len() == cnt
    &&& forall|i: int|
        0 <= i < cnt ==> fresh(#[trigger] v[i], (base_offset + stride * i) as u64, reset, wmask, w1c)
}

/// Makes `cnt` registers `stride` bytes apart from `base_offset`, each
/// holding `reset_value`.
pub fn register_array32(
    name: &str,
    cnt: usize,
    base_offset: u64,
    stride: u64,
    reset_value: u32,
    guest_writeable_mask: u32,
    guest_write_1_to_clear_mask: u32,
) -> (r: Vec<Register<u32>>)
    requires
        cnt == 0 || base_offset + stride * (cnt - 1) + 3 <= u64::MAX,
    ensures
        fresh_array(r@, cnt as nat, base_offset, stride, reset_value, guest_writeable_mask, guest_write_1_to_clear_mask),
{
    let mut v: Vec<Register<u32>> = Vec::new();
    let mut i: usize = 0;
    while i < cnt
        invariant
            i <= cnt,
            cnt == 0 || base_offset + stride * (cnt - 1) + 3 <= u64::MAX,
            fresh_array(v@, i as nat, base_offset, stride, reset_value, guest_writeable_mask, guest_write_1_to_clear_mask),
        decreases cnt - i,
    {
        proof {
            assert(stride * i <= stride * (cnt - 1)) by (nonlinear_arith)
                requires
                    i < cnt,
            ;
        }
        let offset = base_offset + stride * (i as u64);
        let reg = Register::new(
            RegisterSpec {
                name: name.to_string(),
                offset,
                reset_value,
                guest_writeable_mask,
                guest_write_1_to_clear_mask,
            },
            reset_value,
        );
        v.push(reg);
        i = i + 1;
    }
    v
}

/// Makes a register at `offset` holding `reset_value`.
fn register32(name: &str, offset: u64, reset_value: u32, wmask: u32, w1c: u32) -> (r: Register<u32>)
    requires
        offset <= 0x10000,
    ensures
        fresh(r, offset, reset_value, wmask, w1c),
{
    Register::new(
        RegisterSpec {
            name: name.to_string(),
            offset,
            reset_value,
            guest_writeable_mask: wmask,
            guest_write_1_to_clear_mask: w1c,
        },
        reset_value,
    )
}

/// Makes a 64-bit register at `offset` holding `reset_value`.
fn register64(name: &str, offset: u64, reset_value: u64, wmask: u64, w1c: u64) -> (r: Register<u64>)
    requires
        offset <= 0x10000,
    ensures
        fresh(r, offset, reset_value, wmask, w1c),
{
    Register::new(
        RegisterSpec {
            name: name.to_string(),
            offset,
            reset_value,
            guest_writeable_mask: wmask,
            guest_write_1_to_clear_mask: w1c,
        },
        reset_value,
    )
}

/// The xHCI register file at reset (xHCI chapter 5): the fixed registers in
/// the first part, the registers the logic works with in the second.
pub fn init_xhci_mmio_space_and_regs() -> (r: (XhciMmioSpace, XHCIRegs))
    ensures
        r.0.caplength.offset() == 0 && r.0.caplength.value() == XHCI_CAPLENGTH,
        r.0.hciversion.offset() == 2 && r.0.hciversion.value() == 0x0110u16,
        r.0.statics@.len() == xhci_static_words().len(),
        forall|i: int|
            0 <= i < xhci_static_words().len() ==> (#[trigger] r.0.statics@[i]).offset()
                == xhci_static_words()[i].0 && r.0.statics@[i].value() == xhci_static_words()[i].1,
        fresh_array(r.0.portpmsc@, MAX_PORTS as nat, 0x424, 16, 0, 0x0001FFFF, 0),
        fresh_array(r.0.portli@, MAX_PORTS as nat, 0x428, 16, 0, 0, 0),
        fresh_array(r.0.porthlpmc@, MAX_PORTS as nat, 0x42c, 16, 0, 0x00003FFF, 0),
        fresh(r.1.usbcmd, 0x20, 0, 0x00002F0F, 0),
        fresh(r.1.usbsts, 0x24, 0x00000001, 0x0000041C, 0x0000041C),
        fresh(r.1.dnctrl, 0x34, 0, 0x0000FFFF, 0),
        fresh(r.1.crcr, 0x38, 9, 0xFFFFFFFFFFFFFFC7, 0),
        fresh(r.1.dcbaap, 0x50, 0, 0xFFFFFFFFFFFFFFC0, 0),
        fresh(r.1.config, 0x58, 0, 0x0000003F, 0),
        fresh_array(r.1.portsc@, MAX_PORTS as nat, 0x420, 16, 0x000002A0, 0x8EFFC3F2, 0x00FE0002),
        fresh_array(r.1.doorbells@, MAX_SLOTS as nat + 1, 0x2000, 4, 0, 0xFFFF00FF, 0),
        fresh(r.1.iman, 0x3020, 0, 0x00000003, 0x00000001),
        fresh(r.1.imod, 0x3024, 0x00000FA0, 0xFFFFFFFF, 0),
        fresh(r.1.erstsz, 0x3028, 0, 0x0000FFFF, 0),
        fresh(r.1.erstba, 0x3030, 0, 0xFFFFFFFFFFFFFFC0, 0),
        fresh(r.1.erdp, 0x3038, 0, 0xFFFFFFFFFFFFFFFF, 0x0000000000000008),
{
    // Host controller capability registers.
    // CAPLENGTH: operational registers start at 0x20.
    let caplength = StaticRegister::new(StaticRegisterSpec { offset: 0x00, value: XHCI_CAPLENGTH });
    // HCIVERSION: revision 1.1.
    let hciversion = StaticRegister::new(StaticRegisterSpec { offset: 0x02, value: 0x0110u16 });
    let mut statics: Vec<StaticRegister<u32>> = Vec::new();
    // HCSPARAMS1: max_slots = 8, max_interrupters = 1, max_ports = 8.
    statics.push(StaticRegister::new(StaticRegisterSpec { offset: 0x04, value: 0x08000108 }));
    // HCSPARAMS2: up to 32k event ring segment table entries, no scratchpad buffers.
    statics.push(StaticRegister::new(StaticRegisterSpec { offset: 0x08, value: 0xf0 }));
    // HCSPARAMS3: U1 and U2 exit latencies at their maximum.
    statics.push(StaticRegister::new(StaticRegisterSpec { offset: 0x0c, value: 0x07FF000A }));
    // HCCPARAMS1: 64-bit addressing, no streams, extended capabilities at 0xC000.
    statics.push(StaticRegister::new(StaticRegisterSpec { offset: 0x10, value: 0x30000501 }));
    // DBOFF: doorbell array at 0x2000.
    statics.push(StaticRegister::new(StaticRegisterSpec { offset: 0x14, value: XHCI_DBOFF }));
    // RTSOFF: runtime registers at 0x3000.
    statics.push(StaticRegister::new(StaticRegisterSpec { offset: 0x18, value: XHCI_RTSOFF }));
    // HCCPARAMS2.
    statics.push(StaticRegister::new(StaticRegisterSpec { offset: 0x1c, value: 0 }));
    // PAGESIZE.
    statics.push(StaticRegister::new(StaticRegisterSpec { offset: 0x28, value: 0x00000001 }));
    // MFINDEX.
    statics.push(StaticRegister::new(StaticRegisterSpec { offset: 0x3000, value: 0 }));
    // Supported protocol capability: USB 2.0, next capability 0x40 dwords on.
    statics.push(StaticRegister::new(StaticRegisterSpec { offset: 0xc000, value: 0x20 }));
    // Name string "USB ".
    statics.push(StaticRegister::new(StaticRegisterSpec { offset: 0xc004, value: 0x20425355 }));
    // Four ports starting at port 1.
    statics.push(StaticRegister::new(StaticRegisterSpec { offset: 0xc008, value: 0x00000401 }));
    // Reserved (xHCI 7.2.2.1.4).
    statics.push(StaticRegister::new(StaticRegisterSpec { offset: 0xc00c, value: 0 }));
    // Supported protocol capability: USB 3.0, no next capability.
    statics.push(StaticRegister::new(StaticRegisterSpec { offset: 0xc100, value: 0x03000002 }));
    // Name string "USB ".
    statics.push(StaticRegister::new(StaticRegisterSpec { offset: 0xc104, value: 0x20425355 }));
    // Four ports starting at port 5.
    statics.push(StaticRegister::new(StaticRegisterSpec { offset: 0xc108, value: 0x00000405 }));
    // Reserved (xHCI 7.2.2.1.4).
    statics.push(StaticRegister::new(StaticRegisterSpec { offset: 0xc10c, value: 0 }));

    // Host controller operational registers.
    let usbcmd = register32("usbcmd", 0x20, 0, 0x00002F0F, 0);
    let usbsts = register32("usbsts", 0x24, 0x00000001, 0x0000041C, 0x0000041C);
    let dnctrl = register32("dnctrl", 0x34, 0, 0x0000FFFF, 0);
    let crcr = register64("crcr", 0x38, 9, 0xFFFFFFFFFFFFFFC7, 0);
    let dcbaap = register64("dcbaap", 0x50, 0, 0xFFFFFFFFFFFFFFC0, 0);
    let config = register64("config", 0x58, 0, 0x0000003F, 0);
    let portsc = register_array32("portsc", MAX_PORTS as usize, 0x420, 16, 0x000002A0, 0x8EFFC3F2, 0x00FE0002);
    let portpmsc = register_array32("portpmsc", MAX_PORTS as usize, 0x424, 16, 0, 0x0001FFFF, 0);
    let portli = register_array32("portli", MAX_PORTS as usize, 0x428, 16, 0, 0, 0);
    let porthlpmc = register_array32("porthlpmc", MAX_PORTS as usize, 0x42c, 16, 0, 0x00003FFF, 0);
    // One doorbell for the command ring and one per device slot.
    let doorbells = register_array32("doorbell", MAX_SLOTS as usize + 1, 0x2000, 4, 0, 0xFFFF00FF, 0);

    // Runtime registers of the interrupter.
    let iman = register32("iman", 0x3020, 0, 0x00000003, 0x00000001);
    let imod = register32("imod", 0x3024, 0x00000FA0, 0xFFFFFFFF, 0);
    let erstsz = register32("erstsz", 0x3028, 0, 0x0000FFFF, 0);
    let erstba = register64("erstba", 0x3030, 0, 0xFFFFFFFFFFFFFFC0, 0);
    let erdp = register64("erdp", 0x3038, 0, 0xFFFFFFFFFFFFFFFF, 0x0000000000000008);

    let xhci_regs = XHCIRegs {
        usbcmd,
        usbsts,
        dnctrl,
        crcr,
        dcbaap,
        config,
        portsc,
        doorbells,
        iman,
        imod,
        erstsz,
        erstba,
        erdp,
    };
    let mmio = XhciMmioSpace { caplength, hciversion, statics, portpmsc, portli, porthlpmc };
    (mmio, xhci_regs)
}

} // verus!
