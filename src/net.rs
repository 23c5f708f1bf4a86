use std::collections::HashMap;

use vstd::prelude::*;
use vstd::string::StringExecFns;
use vstd::utf8::encode_utf8;

use crate::irq::{occurrences, IRQContext, IRQModel, SOFT_IRQ, STOP_IRQ};

verus! {

broadcast use vstd::std_specs::hash::group_hash_axioms;

/// Interrupt number of the dummy device.
pub const DUMMY_IRQ: i32 = 35;

/// Interrupt number of the loopback device.
pub const LOOPBACK_IRQ: i32 = 36;

/// Protocol tag of IP (its ethertype).
pub const NET_PROTOCOL_IP: u16 = 0x0800;

/// Largest payload, in bytes, that the current device variants accept.
pub const DEVICE_MTU: u16 = 65535;

/// Why a device operation failed.
#[derive(Debug, Clone, Copy, PartialEq, Eq, Structural)]
pub enum NetError {
    /// The device is up already.
    AlreadyOpened,
    /// The device is down.
    NotOpened,
    /// The payload is longer than the device's MTU.
    TooLong,
}

/// Length of a payload in bytes (its UTF-8 encoding), as `str::len` reports it.
pub open spec fn payload_len(data: Seq<char>) -> usize {
    encode_utf8(data).len() as usize
}

/// A frame waiting in a queue: its protocol tag and its payload.
pub struct QueueEntry {
    pub net_protocol_type: u16,
    pub data: String,
}

impl View for QueueEntry {
    type V = (u16, Seq<char>);

    open spec fn view(&self) -> (u16, Seq<char>) {
        (self.net_protocol_type, self.data@)
    }
}

/// The frames of a vector of queue entries, in order.
pub open spec fn frames(v: Seq<QueueEntry>) -> Seq<(u16, Seq<char>)> {
    v.map_values(|e: QueueEntry| e@)
}

/// A device that delivers what it sends back to its own receive path.
pub struct LoopbackNetDevice {
    queue: Vec<QueueEntry>,
}

impl View for LoopbackNetDevice {
    type V = Seq<(u16, Seq<char>)>;

    /// The frames sent and not yet delivered, oldest first.
    closed spec fn view(&self) -> Seq<(u16, Seq<char>)> {
        frames(self.queue@)
    }
}

impl LoopbackNetDevice {
    pub fn new() -> (r: LoopbackNetDevice)
        ensures
            r@ == Seq::<(u16, Seq<char>)>::empty(),
    {
        let r = LoopbackNetDevice { queue: Vec::new() };
        assert(r@ =~= Seq::<(u16, Seq<char>)>::empty());
        r
    }
}

pub enum NetDeviceType {
    Dummy,
    Loopback(LoopbackNetDevice),
}

impl NetDeviceType {
    pub open spec fn is_loopback(&self) -> bool {
        self is Loopback
    }

    /// The frames that a device of this type holds: none for a dummy device.
    pub open spec fn pending_frames(&self) -> Seq<(u16, Seq<char>)> {
        match self {
            NetDeviceType::Dummy => Seq::empty(),
            NetDeviceType::Loopback(l) => l@,
        }
    }
}

/// What a device holds.
pub struct DeviceModel {
    pub name: Seq<char>,
    pub loopback: bool,
    pub up: bool,
    /// Frames sent and not yet delivered; always empty for a dummy device.
    pub queue: Seq<(u16, Seq<char>)>,
}

/// The interrupt number that a device raises when it has sent.
pub open spec fn device_irq(loopback: bool) -> i32 {
    if loopback {
        LOOPBACK_IRQ
    } else {
        DUMMY_IRQ
    }
}

/// `open` on a device: the result and the device after.
pub open spec fn device_open(d: DeviceModel) -> (Result<(), NetError>, DeviceModel) {
    if d.up {
        (Err(NetError::AlreadyOpened), d)
    } else {
        (Ok(()), DeviceModel { up: true, ..d })
    }
}

/// `close` on a device: the result and the device after.
pub open spec fn device_close(d: DeviceModel) -> (Result<(), NetError>, DeviceModel) {
    if !d.up {
        (Err(NetError::NotOpened), d)
    } else {
        (Ok(()), DeviceModel { up: false, ..d })
    }
}

/// `transmit` on a device: the result and the device after. A loopback
/// device queues the frame; a dummy device drops it.
pub open spec fn device_transmit(d: DeviceModel, tag: u16, data: Seq<char>) -> (
    Result<(), NetError>,
    DeviceModel,
) {
    if !d.up {
        (Err(NetError::NotOpened), d)
    } else if payload_len(data) > DEVICE_MTU {
        (Err(NetError::TooLong), d)
    } else if d.loopback {
        (Ok(()), DeviceModel { queue: d.queue.push((tag, data)), ..d })
    } else {
        (Ok(()), d)
    }
}

/// A virtual network device.
pub struct NetDevice {
    name: String,
    net_device_type: NetDeviceType,
    flags: u16,
}

impl View for NetDevice {
    type V = DeviceModel;

    closed spec fn view(&self) -> DeviceModel {
        DeviceModel {
            name: self.name@,
            loopback: self.net_device_type.is_loopback(),
            up: self.flags & NetDevice::FLAG_UP != 0,
            queue: self.net_device_type.pending_frames(),
        }
    }
}

impl NetDevice {
    pub const FLAG_UP: u16 = 0x0001;

    /// A new device, down.
    pub fn new(name: String, net_device_type: NetDeviceType) -> (r: NetDevice)
        ensures
            r@ == (DeviceModel {
                name: name@,
                loopback: net_device_type.is_loopback(),
                up: false,
                queue: net_device_type.pending_frames(),
            }),
    {
        assert(0u16 & 1u16 == 0) by (bit_vector);
        NetDevice { name, net_device_type, flags: 0 }
    }

    /// Brings the device up; fails on a device that is up already.
    pub fn open(&mut self) -> (r: Result<(), NetError>)
        ensures
            (r, final(self)@) == device_open(old(self)@),
    {
        if self.is_up() {
            return Err(NetError::AlreadyOpened);
        }
        let f = self.flags;
        assert((f | 1u16) & 1u16 != 0) by (bit_vector);
        self.flags = self.flags | NetDevice::FLAG_UP;
        Ok(())
    }

    /// Takes the device down; fails on a device that is down already.
    pub fn close(&mut self) -> (r: Result<(), NetError>)
        ensures
            (r, final(self)@) == device_close(old(self)@),
    {
        if !self.is_up() {
            return Err(NetError::NotOpened);
        }
        let f = self.flags;
        assert((f & !1u16) & 1u16 == 0) by (bit_vector);
        self.flags = self.flags & !NetDevice::FLAG_UP;
        Ok(())
    }

    /// Sends `data` tagged `net_protocol_type`. Fails on a device that is
    /// down, or when the payload exceeds the MTU; then nothing changes.
    pub fn transmit(&mut self, net_protocol_type: u16, data: String) -> (r: Result<(), NetError>)
        ensures
            (r, final(self)@) == device_transmit(old(self)@, net_protocol_type, data@),
    {
        if !self.is_up() {
            return Err(NetError::NotOpened);
        }
        if data.as_str().len() > self.mtu() as usize {
            return Err(NetError::TooLong);
        }
        match &mut self.net_device_type {
            NetDeviceType::Dummy => {},
            NetDeviceType::Loopback(net_device) => {
                let ghost before = net_device.queue@;
                net_device.queue.push(QueueEntry { net_protocol_type, data });
                assert(frames(net_device.queue@) =~= frames(before).push((net_protocol_type, data@)));
            },
        }
        Ok(())
    }

    /// Services an interrupt: hands out the frames waiting in the device,
    /// oldest first, and leaves it with none. Fails on a device that is down.
    pub fn isr(&mut self, irq: i32) -> (r: Result<Vec<QueueEntry>, NetError>)
        ensures
            !old(self)@.up ==> r == Err::<Vec<QueueEntry>, NetError>(NetError::NotOpened)
                && final(self)@ == old(self)@,
            old(self)@.up ==> r is Ok && frames(r->Ok_0@) == old(self)@.queue && final(self)@ == (
            DeviceModel { queue: seq![], ..old(self)@ }),
            old(self)@.up && !old(self)@.loopback ==> r is Ok && r->Ok_0@.len() == 0
                && final(self)@ == old(self)@,
    {
        if !self.is_up() {
            return Err(NetError::NotOpened);
        }
        let mut taken: Vec<QueueEntry> = Vec::new();
        match &mut self.net_device_type {
            NetDeviceType::Dummy => {},
            NetDeviceType::Loopback(net_device) => {
                std::mem::swap(&mut taken, &mut net_device.queue);
            },
        }
        assert(frames(taken@) =~= old(self)@.queue);
        assert(self@.queue =~= seq![]);
        Ok(taken)
    }

    /// A dummy device never holds frames.
    pub proof fn lemma_dummy_holds_no_frames(&self)
        ensures
            !self@.loopback ==> self@.queue.len() == 0,
    {
    }

    /// Largest payload in bytes that the device accepts.
    pub fn mtu(&self) -> (r: u16)
        ensures
            r == DEVICE_MTU,
    {
        match &self.net_device_type {
            NetDeviceType::Dummy => u16::MAX,
            NetDeviceType::Loopback(_) => u16::MAX,
        }
    }

    pub fn is_up(&self) -> (r: bool)
        ensures
            r == self@.up,
    {
        self.flags & NetDevice::FLAG_UP != 0
    }

    /// "up" or "down".
    pub fn state(&self) -> (r: String)
        ensures
            r@ == (if self@.up {
                "up"@
            } else {
                "down"@
            }),
    {
        if self.is_up() {
            "up".to_string()
        } else {
            "down".to_string()
        }
    }

    /// The interrupt number that the device raises when it has sent.
    pub fn irq(&self) -> (r: i32)
        ensures
            r == device_irq(self@.loopback),
    {
        match &self.net_device_type {
            NetDeviceType::Dummy => DUMMY_IRQ,
            NetDeviceType::Loopback(_) => LOOPBACK_IRQ,
        }
    }

    pub fn name(&self) -> (r: &String)
        ensures
            r@ == self@.name,
    {
        &self.name
    }
}

/// One decimal digit as a character.
pub open spec fn digit_char(d: nat) -> char {
    if d == 0 {
        '0'
    } else if d == 1 {
        '1'
    } else if d == 2 {
        '2'
    } else if d == 3 {
        '3'
    } else if d == 4 {
        '4'
    } else if d == 5 {
        '5'
    } else if d == 6 {
        '6'
    } else if d == 7 {
        '7'
    } else if d == 8 {
        '8'
    } else {
        '9'
    }
}

/// The decimal digits of `n`, most significant first, without leading zeros.
pub open spec fn decimal(n: nat) -> Seq<char>
    decreases n,
{
    if n < 10 {
        seq![digit_char(n)]
    } else {
        decimal(n / 10).push(digit_char(n % 10))
    }
}

/// The name of the device registered at `index`: "net" and the index in decimal.
pub open spec fn device_name(index: u32) -> Seq<char> {
    seq!['n', 'e', 't'] + decimal(index as nat)
}

/// Relies on `<u32 as ToString>::to_string`, which writes the decimal digits
/// of the number through its `Display` impl.
#[verifier::external_body]
fn decimal_string(index: u32) -> (r: String)
    ensures
        r@ == decimal(index as nat),
{
    index.to_string()
}

/// The name of the device registered at `index`.
fn device_name_string(index: u32) -> (r: String)
    ensures
        r@ == device_name(index),
{
    let digits = decimal_string(index);
    let mut name = "net".to_owned();
    proof {
        reveal_strlit("net");
    }
    name.append(digits.as_str());
    name
}

/// What a registered protocol holds.
pub struct ProtocolModel {
    pub protocol_type: u16,
    /// Payloads waiting for deferred processing, oldest first.
    pub queue: Seq<Seq<char>>,
}

/// The payloads of a vector of strings, in order.
pub open spec fn payloads(v: Seq<String>) -> Seq<Seq<char>> {
    v.map_values(|s: String| s@)
}

struct NetProtocol {
    protocol_type: u16,
    queue: Vec<String>,
}

impl View for NetProtocol {
    type V = ProtocolModel;

    closed spec fn view(&self) -> ProtocolModel {
        ProtocolModel { protocol_type: self.protocol_type, queue: payloads(self.queue@) }
    }
}

impl NetProtocol {
    fn enqueue(&mut self, data: String)
        ensures
            final(self)@ == (ProtocolModel { queue: old(self)@.queue.push(data@), ..old(self)@ }),
    {
        self.queue.push(data);
        assert(payloads(self.queue@) =~= payloads(old(self).queue@).push(data@));
    }

    fn take_queue(&mut self) -> (r: Vec<String>)
        ensures
            payloads(r@) == old(self)@.queue,
            final(self)@ == (ProtocolModel { queue: seq![], ..old(self)@ }),
    {
        let mut taken: Vec<String> = Vec::new();
        std::mem::swap(&mut taken, &mut self.queue);
        assert(payloads(self.queue@) =~= seq![]);
        taken
    }
}

/// What the device registry holds.
pub struct RegistryModel {
    /// Devices in order of registration; a device's index is its position.
    pub devices: Seq<DeviceModel>,
    /// The device index that each interrupt number reaches.
    pub irq_map: Map<i32, u32>,
    pub irq: IRQModel,
    /// Registered protocols in order of registration.
    pub protocols: Seq<ProtocolModel>,
}

/// `i` is the first protocol registered for `tag`.
pub open spec fn is_first_protocol(ps: Seq<ProtocolModel>, tag: u16, i: int) -> bool {
    &&& 0 <= i < ps.len()
    &&& ps[i].protocol_type == tag
    &&& forall|j: int| 0 <= j < i ==> ps[j].protocol_type != tag
}

/// The first protocol registered for `tag`, if any.
pub open spec fn first_protocol(ps: Seq<ProtocolModel>, tag: u16) -> Option<int> {
    if exists|i: int| is_first_protocol(ps, tag, i) {
        Some(choose|i: int| is_first_protocol(ps, tag, i))
    } else {
        None
    }
}

/// `i` is the first device whose up flag is `up`.
pub open spec fn is_first_in_state(ds: Seq<DeviceModel>, up: bool, i: int) -> bool {
    &&& 0 <= i < ds.len()
    &&& ds[i].up == up
    &&& forall|j: int| 0 <= j < i ==> ds[j].up != up
}

/// The first device whose up flag is `up`, if any.
pub open spec fn first_in_state(ds: Seq<DeviceModel>, up: bool) -> Option<int> {
    if exists|i: int| is_first_in_state(ds, up, i) {
        Some(choose|i: int| is_first_in_state(ds, up, i))
    } else {
        None
    }
}

/// The devices with the up flag of the first `n` set to `up`.
pub open spec fn set_prefix(ds: Seq<DeviceModel>, n: int, up: bool) -> Seq<DeviceModel> {
    Seq::new(
        ds.len(),
        |j: int|
            if j < n {
                DeviceModel { up, ..ds[j] }
            } else {
                ds[j]
            },
    )
}

/// The registry after registering a device of the given kind.
pub open spec fn registry_register(
    c: RegistryModel,
    loopback: bool,
    queue: Seq<(u16, Seq<char>)>,
) -> RegistryModel {
    let i = c.devices.len() as u32;
    let irq = device_irq(loopback);
    RegistryModel {
        devices: c.devices.push(DeviceModel { name: device_name(i), loopback, up: false, queue }),
        irq_map: c.irq_map.insert(irq, i),
        irq: IRQModel { bindings: c.irq.bindings.push(irq), ..c.irq },
        ..c
    }
}

/// `input(tag, data)`: the first protocol registered for `tag` queues the
/// payload and the software interrupt is raised; with none, nothing changes.
pub open spec fn registry_input(c: RegistryModel, tag: u16, data: Seq<char>) -> RegistryModel {
    match first_protocol(c.protocols, tag) {
        Some(i) => RegistryModel {
            protocols: c.protocols.update(
                i,
                ProtocolModel { queue: c.protocols[i].queue.push(data), ..c.protocols[i] },
            ),
            irq: IRQModel { raised: c.irq.raised.push(SOFT_IRQ), ..c.irq },
            ..c
        },
        None => c,
    }
}

/// `input` on each frame in turn.
pub open spec fn input_all(c: RegistryModel, fs: Seq<(u16, Seq<char>)>) -> RegistryModel
    decreases fs.len(),
{
    if fs.len() == 0 {
        c
    } else {
        registry_input(input_all(c, fs.drop_last()), fs.last().0, fs.last().1)
    }
}

/// `transmit(index, tag, data)`: the result and the registry after. An
/// index with no device is a no-op; a send raises the device's interrupt.
pub open spec fn registry_transmit(c: RegistryModel, index: u32, tag: u16, data: Seq<char>) -> (
    Result<(), NetError>,
    RegistryModel,
) {
    if index >= c.devices.len() {
        (Ok(()), c)
    } else {
        let d = c.devices[index as int];
        let (r, d2) = device_transmit(d, tag, data);
        if r is Ok {
            (
                Ok(()),
                RegistryModel {
                    devices: c.devices.update(index as int, d2),
                    irq: IRQModel { raised: c.irq.raised.push(device_irq(d.loopback)), ..c.irq },
                    ..c
                },
            )
        } else {
            (r, c)
        }
    }
}

/// `isr(irq)`: the device that `irq` reaches hands out its frames, which go
/// to `input` in order. An interrupt that reaches no device is a no-op.
pub open spec fn registry_isr(c: RegistryModel, irq: i32) -> (Result<(), NetError>, RegistryModel) {
    if c.irq_map.contains_key(irq) && (c.irq_map[irq] as int) < c.devices.len() {
        let i = c.irq_map[irq] as int;
        let d = c.devices[i];
        if !d.up {
            (Err(NetError::NotOpened), c)
        } else {
            (
                Ok(()),
                input_all(
                    RegistryModel {
                        devices: c.devices.update(i, DeviceModel { queue: seq![], ..d }),
                        ..c
                    },
                    d.queue,
                ),
            )
        }
    } else {
        (Ok(()), c)
    }
}

/// `isr(irq)` `n` times, stopping at the first failure.
pub open spec fn isr_repeat(c: RegistryModel, irq: i32, n: nat) -> (
    Result<(), NetError>,
    RegistryModel,
)
    decreases n,
{
    if n == 0 {
        (Ok(()), c)
    } else {
        let (r, c1) = isr_repeat(c, irq, (n - 1) as nat);
        if r is Err {
            (r, c1)
        } else {
            registry_isr(c1, irq)
        }
    }
}

/// What the interrupt listener does on `signal`: `Ok(false)` on the stop
/// number; otherwise `isr(signal)` once for each binding of `signal`, and
/// nothing at all before the subsystem is attached.
pub open spec fn registry_signal(c: RegistryModel, signal: i32) -> (
    Result<bool, NetError>,
    RegistryModel,
) {
    if signal == STOP_IRQ {
        (Ok(false), c)
    } else if !c.irq.attached {
        (Ok(true), c)
    } else {
        let (r, c1) = isr_repeat(c, signal, occurrences(c.irq.bindings, signal));
        (
            match r {
                Ok(_) => Ok(true),
                Err(e) => Err(e),
            },
            c1,
        )
    }
}

/// `run`: opens the devices in order and stops at the first that is up
/// already, leaving those opened before it up.
pub open spec fn registry_run(c: RegistryModel) -> (Result<(), NetError>, RegistryModel) {
    match first_in_state(c.devices, true) {
        Some(i) => (
            Err(NetError::AlreadyOpened),
            RegistryModel { devices: set_prefix(c.devices, i, true), ..c },
        ),
        None => (Ok(()), RegistryModel { devices: set_prefix(c.devices, c.devices.len() as int, true), ..c }),
    }
}

/// `shutdown`: closes the devices in order and stops at the first that is
/// down already, leaving those closed before it down.
pub open spec fn registry_shutdown(c: RegistryModel) -> (Result<(), NetError>, RegistryModel) {
    match first_in_state(c.devices, false) {
        Some(i) => (
            Err(NetError::NotOpened),
            RegistryModel { devices: set_prefix(c.devices, i, false), ..c },
        ),
        None => (Ok(()), RegistryModel { devices: set_prefix(c.devices, c.devices.len() as int, false), ..c }),
    }
}

/// The tagged payloads of a protocol's queue, oldest first.
pub open spec fn tagged(p: ProtocolModel) -> Seq<(u16, Seq<char>)> {
    p.queue.map_values(|s: Seq<char>| (p.protocol_type, s))
}

/// What deferred processing hands out: each protocol's queue in turn, in
/// order of registration, each oldest first.
pub open spec fn dispatched(ps: Seq<ProtocolModel>) -> Seq<(u16, Seq<char>)>
    decreases ps.len(),
{
    if ps.len() == 0 {
        seq![]
    } else {
        dispatched(ps.drop_last()) + tagged(ps.last())
    }
}

/// The protocols with every queue emptied.
pub open spec fn drained(ps: Seq<ProtocolModel>) -> Seq<ProtocolModel> {
    ps.map_values(|p: ProtocolModel| ProtocolModel { queue: seq![], ..p })
}

/// The first protocol registered for a tag is the one `first_protocol` names.
pub proof fn lemma_first_protocol(ps: Seq<ProtocolModel>, tag: u16, i: int)
    requires
        is_first_protocol(ps, tag, i),
    ensures
        first_protocol(ps, tag) == Some(i),
{
    let k = choose|k: int| is_first_protocol(ps, tag, k);
    assert(is_first_protocol(ps, tag, k));
    if k < i {
        assert(ps[k].protocol_type != tag);
    } else if k > i {
        assert(ps[i].protocol_type != tag);
    }
}

/// The first device in a state is the one `first_in_state` names.
pub proof fn lemma_first_in_state(ds: Seq<DeviceModel>, up: bool, i: int)
    requires
        is_first_in_state(ds, up, i),
    ensures
        first_in_state(ds, up) == Some(i),
{
    let k = choose|k: int| is_first_in_state(ds, up, k);
    assert(is_first_in_state(ds, up, k));
    if k < i {
        assert(ds[k].up != up);
    } else if k > i {
        assert(ds[i].up != up);
    }
}

/// The device registry: devices, the interrupt routing, the interrupt
/// subsystem and the protocol queues.
pub struct NetDeviceContext {
    net_devices: Vec<NetDevice>,
    irq_device_map: HashMap<i32, u32>,
    irq_context: IRQContext,
    protocols: Vec<NetProtocol>,
}

impl View for NetDeviceContext {
    type V = RegistryModel;

    closed spec fn view(&self) -> RegistryModel {
        RegistryModel {
            devices: self.net_devices@.map_values(|d: NetDevice| d@),
            irq_map: self.irq_device_map@,
            irq: self.irq_context@,
            protocols: self.protocols@.map_values(|p: NetProtocol| p@),
        }
    }
}

impl NetDeviceContext {
    /// An empty registry whose interrupt subsystem is attached to it.
    pub fn new() -> (r: NetDeviceContext)
        ensures
            r@ == (RegistryModel {
                devices: seq![],
                irq_map: Map::empty(),
                irq: IRQModel { attached: true, bindings: seq![], raised: seq![] },
                protocols: seq![],
            }),
    {
        let mut irq_context = IRQContext::new();
        irq_context.set_net_device_context();
        let r = NetDeviceContext {
            net_devices: Vec::new(),
            irq_device_map: HashMap::new(),
            irq_context,
            protocols: Vec::new(),
        };
        assert(r@.devices =~= seq![]);
        assert(r@.protocols =~= seq![]);
        r
    }

    pub fn init(&self) {
        self.irq_context.init();
    }

    /// Registers a device under the next index, named after it, down, and
    /// binds the interrupt number of its variant to it.
    pub fn register(&mut self, net_device_type: NetDeviceType)
        requires
            old(self)@.devices.len() < u32::MAX,
        ensures
            final(self)@ == registry_register(
                old(self)@,
                net_device_type.is_loopback(),
                net_device_type.pending_frames(),
            ),
    {
        let index = self.net_devices.len() as u32;
        let name = device_name_string(index);
        let irq = match &net_device_type {
            NetDeviceType::Dummy => DUMMY_IRQ,
            NetDeviceType::Loopback(_) => LOOPBACK_IRQ,
        };
        let bound = self.irq_context.register(irq);
        assert(bound is Ok);
        self.irq_device_map.insert(irq, index);
        let net_device = NetDevice::new(name, net_device_type);
        self.net_devices.push(net_device);
        assert(self@.devices =~= old(self)@.devices.push(net_device@));
    }

    /// Registers a protocol with an empty queue; a tag registered twice gets
    /// a second queue.
    pub fn register_protocol(&mut self, protocol_type: u16)
        ensures
            final(self)@ == (RegistryModel {
                protocols: old(self)@.protocols.push(
                    ProtocolModel { protocol_type, queue: seq![] },
                ),
                ..old(self)@
            }),
    {
        let protocol = NetProtocol { protocol_type, queue: Vec::new() };
        assert(protocol@.queue =~= seq![]);
        self.protocols.push(protocol);
        assert(self@.protocols =~= old(self)@.protocols.push(protocol@));
    }

    /// Hands a received payload to the first protocol registered for its tag
    /// and raises the software interrupt; drops it when there is none.
    pub fn input(&mut self, protocol_type: u16, data: String)
        ensures
            final(self)@ == registry_input(old(self)@, protocol_type, data@),
    {
        let ghost ps = self@.protocols;
        let mut i: usize = 0;
        while i < self.protocols.len()
            invariant
                self@ == old(self)@,
                ps == self@.protocols,
                i <= ps.len(),
                forall|j: int| 0 <= j < i ==> ps[j].protocol_type != protocol_type,
            decreases ps.len() - i,
        {
            if self.protocols[i].protocol_type == protocol_type {
                proof {
                    lemma_first_protocol(ps, protocol_type, i as int);
                }
                self.protocols[i].enqueue(data);
                self.irq_context.raise(SOFT_IRQ);
                assert(self@.protocols =~= registry_input(old(self)@, protocol_type, data@).protocols);
                return;
            }
            i = i + 1;
        }
        assert(!exists|k: int| is_first_protocol(ps, protocol_type, k));
    }

    /// Sends `data` on the device at `index`; an index with no device is a
    /// no-op. A device that sends raises its interrupt.
    pub fn transmit(&mut self, index: u32, net_protocol_type: u16, data: String) -> (r: Result<
        (),
        NetError,
    >)
        ensures
            (r, final(self)@) == registry_transmit(old(self)@, index, net_protocol_type, data@),
    {
        if index as usize >= self.net_devices.len() {
            return Ok(());
        }
        let i = index as usize;
        let irq = self.net_devices[i].irq();
        let r = self.net_devices[i].transmit(net_protocol_type, data);
        if r.is_ok() {
            self.irq_context.raise(irq);
        }
        assert(self@.devices =~= old(self)@.devices.update(i as int, self.net_devices@[i as int]@));
        assert(r.is_err() ==> self@.devices =~= old(self)@.devices);
        r
    }

    /// Services `irq`: the device it reaches hands out its frames, which go
    /// to `input` in order. An interrupt that reaches no device is a no-op.
    pub fn isr(&mut self, irq: i32) -> (r: Result<(), NetError>)
        ensures
            (r, final(self)@) == registry_isr(old(self)@, irq),
    {
        let index = match self.irq_device_map.get(&irq) {
            Some(v) => *v,
            None => {
                return Ok(());
            },
        };
        if index as usize >= self.net_devices.len() {
            return Ok(());
        }
        let i = index as usize;
        let entries = match self.net_devices[i].isr(irq) {
            Ok(e) => e,
            Err(e) => {
                assert(self@.devices =~= old(self)@.devices);
                return Err(e);
            },
        };
        let ghost d = old(self)@.devices[i as int];
        let ghost c1 = RegistryModel {
            devices: old(self)@.devices.update(i as int, DeviceModel { queue: seq![], ..d }),
            ..old(self)@
        };
        let ghost fs = frames(entries@);
        assert(self@.devices =~= c1.devices);
        assert(fs.take(0) =~= seq![]);
        let mut k: usize = 0;
        while k < entries.len()
            invariant
                k <= entries@.len(),
                fs == frames(entries@),
                fs == d.queue,
                self@ == input_all(c1, fs.take(k as int)),
            decreases entries@.len() - k,
        {
            let e = &entries[k];
            let data = e.data.clone();
            self.input(e.net_protocol_type, data);
            assert(fs.take(k as int + 1).drop_last() =~= fs.take(k as int));
            k = k + 1;
        }
        assert(fs.take(k as int) =~= fs);
        Ok(())
    }

    /// What the interrupt listener does on `signal`. `Ok(false)` tells it to
    /// stop; otherwise `isr(signal)` runs once for each binding of `signal`.
    pub fn handle_signal(&mut self, signal: i32) -> (r: Result<bool, NetError>)
        ensures
            (r, final(self)@) == registry_signal(old(self)@, signal),
    {
        if signal == STOP_IRQ {
            return Ok(false);
        }
        if !self.irq_context.is_attached() {
            return Ok(true);
        }
        let n = self.irq_context.bound_count(signal);
        let ghost c0 = old(self)@;
        let mut k: usize = 0;
        while k < n
            invariant
                k <= n,
                c0 == old(self)@,
                c0.irq.attached,
                signal != STOP_IRQ,
                n == occurrences(c0.irq.bindings, signal),
                isr_repeat(c0, signal, k as nat) == (Ok::<(), NetError>(()), self@),
            decreases n - k,
        {
            let r = self.isr(signal);
            if let Err(e) = r {
                assert(isr_repeat(c0, signal, (k + 1) as nat) == (r, self@));
                proof {
                    lemma_isr_repeat_stops(c0, signal, (k + 1) as nat, n as nat);
                }
                return Err(e);
            }
            k = k + 1;
        }
        Ok(true)
    }

    /// Brings every device up, in order; stops at the first that is up
    /// already and reports it, leaving those before it up.
    pub fn run(&mut self) -> (r: Result<(), NetError>)
        ensures
            (r, final(self)@) == registry_run(old(self)@),
    {
        let ghost c0 = old(self)@;
        let mut k: usize = 0;
        assert(c0.devices =~= set_prefix(c0.devices, 0, true));
        while k < self.net_devices.len()
            invariant
                k <= c0.devices.len(),
                c0 == old(self)@,
                self.net_devices@.len() == c0.devices.len(),
                self@ == (RegistryModel { devices: set_prefix(c0.devices, k as int, true), ..c0 }),
                forall|j: int| 0 <= j < k ==> !c0.devices[j].up,
            decreases c0.devices.len() - k,
        {
            assert(self@.devices[k as int] == c0.devices[k as int]);
            assert(self.net_devices@[k as int]@ == c0.devices[k as int]);
            let ghost prev = self.net_devices@;
            let ghost prev_devs = self@.devices;
            let r = self.net_devices[k].open();
            if r.is_err() {
                proof {
                    lemma_first_in_state(c0.devices, true, k as int);
                }
                assert(self@.devices =~= set_prefix(c0.devices, k as int, true));
                return r;
            }
            assert forall|j: int| 0 <= j < c0.devices.len() implies #[trigger] self@.devices[j]
                == set_prefix(c0.devices, k as int + 1, true)[j] by {
                if j != k {
                    assert(self.net_devices@[j] == prev[j]);
                    assert(prev_devs[j] == prev[j]@);
                }
            }
            assert(self@.devices =~= set_prefix(c0.devices, k as int + 1, true));
            k = k + 1;
        }
        assert(!exists|i: int| is_first_in_state(c0.devices, true, i));
        Ok(())
    }

    /// Takes every device down, in order; stops at the first that is down
    /// already and reports it, leaving those before it down.
    pub fn shutdown(&mut self) -> (r: Result<(), NetError>)
        ensures
            (r, final(self)@) == registry_shutdown(old(self)@),
    {
        let ghost c0 = old(self)@;
        let mut k: usize = 0;
        assert(c0.devices =~= set_prefix(c0.devices, 0, false));
        while k < self.net_devices.len()
            invariant
                k <= c0.devices.len(),
                c0 == old(self)@,
                self.net_devices@.len() == c0.devices.len(),
                self@ == (RegistryModel { devices: set_prefix(c0.devices, k as int, false), ..c0 }),
                forall|j: int| 0 <= j < k ==> c0.devices[j].up,
            decreases c0.devices.len() - k,
        {
            assert(self@.devices[k as int] == c0.devices[k as int]);
            assert(self.net_devices@[k as int]@ == c0.devices[k as int]);
            let ghost prev = self.net_devices@;
            let ghost prev_devs = self@.devices;
            let r = self.net_devices[k].close();
            if r.is_err() {
                proof {
                    lemma_first_in_state(c0.devices, false, k as int);
                }
                assert(self@.devices =~= set_prefix(c0.devices, k as int, false));
                return r;
            }
            assert forall|j: int| 0 <= j < c0.devices.len() implies #[trigger] self@.devices[j]
                == set_prefix(c0.devices, k as int + 1, false)[j] by {
                if j != k {
                    assert(self.net_devices@[j] == prev[j]);
                    assert(prev_devs[j] == prev[j]@);
                }
            }
            assert(self@.devices =~= set_prefix(c0.devices, k as int + 1, false));
            k = k + 1;
        }
        assert(!exists|i: int| is_first_in_state(c0.devices, false, i));
        self.irq_context.shutdown();
        Ok(())
    }

    /// Deferred processing: empties every protocol queue and hands out what
    /// they held, protocol by protocol in order of registration, each oldest
    /// first.
    pub fn software_isr(&mut self) -> (r: Vec<QueueEntry>)
        ensures
            frames(r@) == dispatched(old(self)@.protocols),
            final(self)@ == (RegistryModel { protocols: drained(old(self)@.protocols), ..old(self)@ }),
    {
        let ghost c0 = old(self)@;
        let ghost ps = c0.protocols;
        let mut out: Vec<QueueEntry> = Vec::new();
        let mut i: usize = 0;
        assert(ps.take(0) =~= seq![]);
        assert(frames(out@) =~= seq![]);
        while i < self.protocols.len()
            invariant
                i <= ps.len(),
                c0 == old(self)@,
                ps == c0.protocols,
                self.protocols@.len() == ps.len(),
                self@.devices == c0.devices,
                self@.irq_map == c0.irq_map,
                self@.irq == c0.irq,
                self@.protocols == Seq::new(
                    ps.len(),
                    |j: int|
                        if j < i {
                            ProtocolModel { queue: seq![], ..ps[j] }
                        } else {
                            ps[j]
                        },
                ),
                frames(out@) == dispatched(ps.take(i as int)),
            decreases ps.len() - i,
        {
            assert(self@.protocols[i as int] == ps[i as int]);
            assert(self.protocols@[i as int]@ == ps[i as int]);
            let tag = self.protocols[i].protocol_type;
            let ghost prev = self.protocols@;
            let ghost prev_ps = self@.protocols;
            let queue = self.protocols[i].take_queue();
            append_tagged(&mut out, tag, &queue);
            assert(ps.take(i as int + 1).drop_last() =~= ps.take(i as int));
            assert forall|j: int| 0 <= j < ps.len() implies #[trigger] self@.protocols[j] == (
            if j < i + 1 {
                ProtocolModel { queue: seq![], ..ps[j] }
            } else {
                ps[j]
            }) by {
                if j != i {
                    assert(self.protocols@[j] == prev[j]);
                    assert(prev_ps[j] == prev[j]@);
                }
            }
            assert(self@.protocols =~= Seq::new(
                ps.len(),
                |j: int|
                    if j < i + 1 {
                        ProtocolModel { queue: seq![], ..ps[j] }
                    } else {
                        ps[j]
                    },
            ));
            i = i + 1;
        }
        assert(ps.take(i as int) =~= ps);
        assert(self@.protocols =~= drained(ps));
        out
    }

    /// Hands out the raised interrupts, oldest first, and empties the queue.
    pub fn take_raised_irqs(&mut self) -> (r: Vec<i32>)
        ensures
            r@ == old(self)@.irq.raised,
            final(self)@ == (RegistryModel {
                irq: IRQModel { raised: seq![], ..old(self)@.irq },
                ..old(self)@
            }),
    {
        self.irq_context.take_raised()
    }

    /// The interrupt numbers that the listener waits for.
    pub fn listened_irqs(&self) -> (r: Vec<i32>)
        ensures
            r@ == crate::irq::listened_irqs(),
    {
        self.irq_context.listened()
    }

    pub fn device_count(&self) -> (r: usize)
        ensures
            r == self@.devices.len(),
    {
        self.net_devices.len()
    }

    /// The device at `index`, if there is one.
    pub fn device(&self, index: u32) -> (r: Option<&NetDevice>)
        ensures
            r is Some <==> index < self@.devices.len(),
            r is Some ==> r->Some_0@ == self@.devices[index as int],
    {
        if (index as usize) < self.net_devices.len() {
            Some(&self.net_devices[index as usize])
        } else {
            None
        }
    }
}

/// Appends `tag` with each payload of `queue`, in order, to `out`.
fn append_tagged(out: &mut Vec<QueueEntry>, tag: u16, queue: &Vec<String>)
    ensures
        frames(final(out)@) == frames(old(out)@) + payloads(queue@).map_values(
            |s: Seq<char>| (tag, s),
        ),
{
    let ghost before = frames(out@);
    let ghost all = payloads(queue@).map_values(|s: Seq<char>| (tag, s));
    let mut j: usize = 0;
    assert(before =~= before + all.take(0));
    while j < queue.len()
        invariant
            j <= queue@.len(),
            all == payloads(queue@).map_values(|s: Seq<char>| (tag, s)),
            before == frames(old(out)@),
            frames(out@) == before + all.take(j as int),
        decreases queue@.len() - j,
    {
        let data = queue[j].clone();
        let ghost prev_out = out@;
        out.push(QueueEntry { net_protocol_type: tag, data });
        assert(frames(out@) =~= frames(prev_out).push((tag, queue@[j as int]@)));
        assert(all.take(j as int + 1) =~= all.take(j as int).push((tag, queue@[j as int]@)));
        assert(frames(out@) =~= before + all.take(j as int + 1));
        j = j + 1;
    }
    assert(all.take(j as int) =~= all);
}

/// Once one `isr` in a run of them fails, the rest do not run.
proof fn lemma_isr_repeat_stops(c: RegistryModel, irq: i32, k: nat, n: nat)
    requires
        k <= n,
        isr_repeat(c, irq, k).0 is Err,
    ensures
        isr_repeat(c, irq, n) == isr_repeat(c, irq, k),
    decreases n - k,
{
    if k < n {
        lemma_isr_repeat_stops(c, irq, k, (n - 1) as nat);
    }
}

/// A send succeeds exactly when the device is up and the payload fits its
/// MTU. Otherwise it fails with the error that names the cause, and nothing
/// changes.
pub proof fn law_transmit_outcome(c: RegistryModel, index: u32, tag: u16, data: Seq<char>)
    requires
        index < c.devices.len(),
    ensures
        registry_transmit(c, index, tag, data).0 is Ok <==> (c.devices[index as int].up
            && payload_len(data) <= DEVICE_MTU),
        !c.devices[index as int].up ==> registry_transmit(c, index, tag, data).0 == Err::<
            (),
            NetError,
        >(NetError::NotOpened),
        c.devices[index as int].up && payload_len(data) > DEVICE_MTU ==> registry_transmit(
            c,
            index,
            tag,
            data,
        ).0 == Err::<(), NetError>(NetError::TooLong),
        registry_transmit(c, index, tag, data).0 is Err ==> registry_transmit(c, index, tag, data).1
            == c,
{
}

/// Opening a device that is up fails with `AlreadyOpened` and changes
/// nothing; so a second `open` always fails.
pub proof fn law_open_when_up(d: DeviceModel)
    ensures
        d.up ==> device_open(d) == (Err::<(), NetError>(NetError::AlreadyOpened), d),
        device_open(device_open(d).1) == (
            Err::<(), NetError>(NetError::AlreadyOpened),
            device_open(d).1,
        ),
{
}

/// Closing a device that is down fails with `NotOpened` and changes nothing;
/// so a second `close` always fails.
pub proof fn law_close_when_down(d: DeviceModel)
    ensures
        !d.up ==> device_close(d) == (Err::<(), NetError>(NetError::NotOpened), d),
        device_close(device_close(d).1) == (
            Err::<(), NetError>(NetError::NotOpened),
            device_close(d).1,
        ),
{
}

/// Loopback: a send on an up loopback device with nothing pending, then its
/// interrupt, queues the payload exactly once on the first protocol
/// registered for its tag, and leaves the device with nothing pending.
/// Deferred processing then empties that queue.
pub proof fn law_loopback_path(c: RegistryModel, index: u32, tag: u16, data: Seq<char>, p: int)
    requires
        index < c.devices.len(),
        c.devices[index as int].loopback,
        c.devices[index as int].up,
        c.devices[index as int].queue.len() == 0,
        payload_len(data) <= DEVICE_MTU,
        c.irq_map.contains_key(LOOPBACK_IRQ),
        c.irq_map[LOOPBACK_IRQ] == index,
        is_first_protocol(c.protocols, tag, p),
    ensures
        registry_transmit(c, index, tag, data).0 is Ok,
        registry_isr(registry_transmit(c, index, tag, data).1, LOOPBACK_IRQ).0 is Ok,
        registry_isr(registry_transmit(c, index, tag, data).1, LOOPBACK_IRQ).1.protocols
            == c.protocols.update(
            p,
            ProtocolModel { queue: c.protocols[p].queue.push(data), ..c.protocols[p] },
        ),
        registry_isr(registry_transmit(c, index, tag, data).1, LOOPBACK_IRQ).1.devices[index as int].queue.len()
            == 0,
        drained(
            registry_isr(registry_transmit(c, index, tag, data).1, LOOPBACK_IRQ).1.protocols,
        )[p].queue.len() == 0,
{
    let c1 = registry_transmit(c, index, tag, data).1;
    let d = c1.devices[index as int];
    assert(d.queue =~= seq![(tag, data)]);
    let c1b = RegistryModel {
        devices: c1.devices.update(index as int, DeviceModel { queue: seq![], ..d }),
        ..c1
    };
    assert(d.queue.drop_last() =~= seq![]);
    assert(input_all(c1b, d.queue.drop_last()) == c1b);
    lemma_first_protocol(c1b.protocols, tag, p);
    assert(input_all(c1b, d.queue) == registry_input(c1b, tag, data));
}

/// A send to an index with no device is a no-op that succeeds.
pub proof fn law_unknown_index(c: RegistryModel, index: u32, tag: u16, data: Seq<char>)
    requires
        index >= c.devices.len(),
    ensures
        registry_transmit(c, index, tag, data) == (Ok::<(), NetError>(()), c),
{
}

/// A payload for a tag that no protocol is registered for is dropped:
/// nothing changes.
pub proof fn law_unregistered_tag(c: RegistryModel, tag: u16, data: Seq<char>)
    requires
        forall|i: int| 0 <= i < c.protocols.len() ==> c.protocols[i].protocol_type != tag,
    ensures
        registry_input(c, tag, data) == c,
{
}

/// An interrupt number that reaches no device is a no-op that succeeds.
pub proof fn law_unknown_irq(c: RegistryModel, irq: i32)
    requires
        !c.irq_map.contains_key(irq),
    ensures
        registry_isr(c, irq) == (Ok::<(), NetError>(()), c),
{
}

/// Two sends on one loopback device keep both payloads, in order: neither
/// overwrites the other.
pub proof fn law_transmits_keep_both(
    c: RegistryModel,
    index: u32,
    tag_a: u16,
    a: Seq<char>,
    tag_b: u16,
    b: Seq<char>,
)
    requires
        index < c.devices.len(),
        c.devices[index as int].loopback,
        c.devices[index as int].up,
        payload_len(a) <= DEVICE_MTU,
        payload_len(b) <= DEVICE_MTU,
    ensures
        registry_transmit(registry_transmit(c, index, tag_a, a).1, index, tag_b, b).1.devices[index as int].queue
            == c.devices[index as int].queue.push((tag_a, a)).push((tag_b, b)),
{
}

} // verus!
