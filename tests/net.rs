use rust_tcp_ip_stack::irq::{IRQContext, IRQError, SOFT_IRQ, STOP_IRQ};
use rust_tcp_ip_stack::net::{
    LoopbackNetDevice, NetDevice, NetDeviceContext, NetDeviceType, NetError, DUMMY_IRQ,
    LOOPBACK_IRQ, NET_PROTOCOL_IP,
};

fn loopback_registry() -> NetDeviceContext {
    let mut ctx = NetDeviceContext::new();
    ctx.init();
    ctx.register(NetDeviceType::Loopback(LoopbackNetDevice::new()));
    ctx.register_protocol(NET_PROTOCOL_IP);
    ctx
}

fn drained(ctx: &mut NetDeviceContext) -> Vec<(u16, String)> {
    ctx.software_isr()
        .into_iter()
        .map(|e| (e.net_protocol_type, e.data))
        .collect()
}

#[test]
fn transmit_on_down_device_fails() {
    let mut ctx = loopback_registry();
    assert_eq!(ctx.transmit(0, NET_PROTOCOL_IP, "hello".to_string()), Err(NetError::NotOpened));
    assert!(ctx.take_raised_irqs().is_empty());
}

#[test]
fn transmit_longer_than_mtu_fails() {
    let mut ctx = loopback_registry();
    ctx.run().unwrap();
    let long = "x".repeat(65536);
    assert_eq!(ctx.transmit(0, NET_PROTOCOL_IP, long), Err(NetError::TooLong));
    assert!(ctx.take_raised_irqs().is_empty());
    ctx.isr(LOOPBACK_IRQ).unwrap();
    assert!(drained(&mut ctx).is_empty());
}

#[test]
fn transmit_of_exactly_mtu_bytes_succeeds() {
    let mut ctx = loopback_registry();
    ctx.run().unwrap();
    let full = "x".repeat(65535);
    assert_eq!(ctx.transmit(0, NET_PROTOCOL_IP, full), Ok(()));
    assert_eq!(ctx.take_raised_irqs(), vec![LOOPBACK_IRQ]);
}

#[test]
fn mtu_counts_utf8_bytes() {
    let mut ctx = loopback_registry();
    ctx.run().unwrap();
    let wide = "é".repeat(32768);
    assert_eq!(wide.len(), 65536);
    assert_eq!(ctx.transmit(0, NET_PROTOCOL_IP, wide), Err(NetError::TooLong));
}

#[test]
fn transmit_to_unknown_index_is_a_no_op() {
    let mut ctx = loopback_registry();
    ctx.run().unwrap();
    assert_eq!(ctx.transmit(7, NET_PROTOCOL_IP, "hello".to_string()), Ok(()));
    assert!(ctx.take_raised_irqs().is_empty());
}

#[test]
fn loopback_delivers_to_protocol_queue() {
    let mut ctx = loopback_registry();
    ctx.run().unwrap();
    ctx.transmit(0, NET_PROTOCOL_IP, "hello".to_string()).unwrap();
    assert_eq!(ctx.take_raised_irqs(), vec![LOOPBACK_IRQ]);
    ctx.isr(LOOPBACK_IRQ).unwrap();
    assert_eq!(ctx.take_raised_irqs(), vec![SOFT_IRQ]);
    assert_eq!(drained(&mut ctx), vec![(NET_PROTOCOL_IP, "hello".to_string())]);
    assert!(drained(&mut ctx).is_empty());
}

#[test]
fn loopback_keeps_order_of_sends() {
    let mut ctx = loopback_registry();
    ctx.run().unwrap();
    ctx.transmit(0, NET_PROTOCOL_IP, "first".to_string()).unwrap();
    ctx.transmit(0, NET_PROTOCOL_IP, "second".to_string()).unwrap();
    ctx.isr(LOOPBACK_IRQ).unwrap();
    assert_eq!(ctx.take_raised_irqs(), vec![LOOPBACK_IRQ, LOOPBACK_IRQ, SOFT_IRQ, SOFT_IRQ]);
    assert_eq!(
        drained(&mut ctx),
        vec![(NET_PROTOCOL_IP, "first".to_string()), (NET_PROTOCOL_IP, "second".to_string())]
    );
}

#[test]
fn software_isr_goes_protocol_by_protocol() {
    let mut ctx = loopback_registry();
    ctx.register_protocol(0x0806);
    ctx.run().unwrap();
    ctx.transmit(0, 0x0806, "arp".to_string()).unwrap();
    ctx.transmit(0, NET_PROTOCOL_IP, "ip".to_string()).unwrap();
    ctx.isr(LOOPBACK_IRQ).unwrap();
    assert_eq!(
        drained(&mut ctx),
        vec![(NET_PROTOCOL_IP, "ip".to_string()), (0x0806, "arp".to_string())]
    );
}

#[test]
fn unregistered_protocol_is_dropped() {
    let mut ctx = loopback_registry();
    ctx.run().unwrap();
    ctx.transmit(0, 0x86DD, "v6".to_string()).unwrap();
    ctx.take_raised_irqs();
    ctx.isr(LOOPBACK_IRQ).unwrap();
    assert!(ctx.take_raised_irqs().is_empty());
    assert!(drained(&mut ctx).is_empty());
}

#[test]
fn input_goes_to_first_protocol_with_the_tag() {
    let mut ctx = loopback_registry();
    ctx.register_protocol(NET_PROTOCOL_IP);
    ctx.input(NET_PROTOCOL_IP, "once".to_string());
    assert_eq!(drained(&mut ctx), vec![(NET_PROTOCOL_IP, "once".to_string())]);
    assert_eq!(ctx.take_raised_irqs(), vec![SOFT_IRQ]);
}

#[test]
fn unknown_irq_is_a_no_op() {
    let mut ctx = loopback_registry();
    assert_eq!(ctx.isr(50), Ok(()));
    assert_eq!(ctx.isr(DUMMY_IRQ), Ok(()));
    assert!(ctx.take_raised_irqs().is_empty());
}

#[test]
fn isr_on_down_device_fails() {
    let mut ctx = loopback_registry();
    assert_eq!(ctx.isr(LOOPBACK_IRQ), Err(NetError::NotOpened));
}

#[test]
fn dummy_device_raises_its_irq_and_drops_data() {
    let mut ctx = NetDeviceContext::new();
    ctx.register(NetDeviceType::Dummy);
    ctx.register_protocol(NET_PROTOCOL_IP);
    ctx.run().unwrap();
    ctx.transmit(0, NET_PROTOCOL_IP, "gone".to_string()).unwrap();
    assert_eq!(ctx.take_raised_irqs(), vec![DUMMY_IRQ]);
    ctx.isr(DUMMY_IRQ).unwrap();
    assert!(ctx.take_raised_irqs().is_empty());
    assert!(drained(&mut ctx).is_empty());
}

#[test]
fn devices_are_named_by_index() {
    let mut ctx = NetDeviceContext::new();
    for _ in 0..11 {
        ctx.register(NetDeviceType::Dummy);
    }
    assert_eq!(ctx.device_count(), 11);
    assert_eq!(ctx.device(0).unwrap().name(), "net0");
    assert_eq!(ctx.device(10).unwrap().name(), "net10");
    assert!(ctx.device(11).is_none());
}

#[test]
fn run_then_run_again_fails() {
    let mut ctx = loopback_registry();
    ctx.register(NetDeviceType::Dummy);
    assert_eq!(ctx.run(), Ok(()));
    assert!(ctx.device(0).unwrap().is_up());
    assert!(ctx.device(1).unwrap().is_up());
    assert_eq!(ctx.run(), Err(NetError::AlreadyOpened));
    assert_eq!(ctx.shutdown(), Ok(()));
    assert!(!ctx.device(0).unwrap().is_up());
    assert_eq!(ctx.shutdown(), Err(NetError::NotOpened));
}

#[test]
fn run_stops_at_first_device_already_up() {
    let mut ctx = NetDeviceContext::new();
    ctx.register(NetDeviceType::Dummy);
    ctx.register(NetDeviceType::Dummy);
    ctx.run().unwrap();
    ctx.register(NetDeviceType::Dummy);
    assert_eq!(ctx.run(), Err(NetError::AlreadyOpened));
    assert_eq!(ctx.device(2).unwrap().state(), "down");
}

#[test]
fn open_and_close_are_not_repeatable() {
    let mut dev = NetDevice::new("eth0".to_string(), NetDeviceType::Dummy);
    assert_eq!(dev.state(), "down");
    assert_eq!(dev.close(), Err(NetError::NotOpened));
    assert_eq!(dev.open(), Ok(()));
    assert_eq!(dev.state(), "up");
    assert_eq!(dev.open(), Err(NetError::AlreadyOpened));
    assert!(dev.is_up());
    assert_eq!(dev.close(), Ok(()));
    assert_eq!(dev.close(), Err(NetError::NotOpened));
    assert!(!dev.is_up());
}

#[test]
fn device_mtu_and_irq() {
    let dummy = NetDevice::new("d".to_string(), NetDeviceType::Dummy);
    let lo = NetDevice::new("l".to_string(), NetDeviceType::Loopback(LoopbackNetDevice::new()));
    assert_eq!(dummy.mtu(), u16::MAX);
    assert_eq!(lo.mtu(), u16::MAX);
    assert_eq!(dummy.irq(), DUMMY_IRQ);
    assert_eq!(lo.irq(), LOOPBACK_IRQ);
    assert_eq!(lo.name(), "l");
}

#[test]
fn device_isr_hands_out_frames_oldest_first() {
    let mut lo = NetDevice::new("lo".to_string(), NetDeviceType::Loopback(LoopbackNetDevice::new()));
    assert_eq!(lo.isr(LOOPBACK_IRQ).err(), Some(NetError::NotOpened));
    lo.open().unwrap();
    lo.transmit(1, "a".to_string()).unwrap();
    lo.transmit(2, "b".to_string()).unwrap();
    let frames: Vec<(u16, String)> = lo
        .isr(LOOPBACK_IRQ)
        .unwrap()
        .into_iter()
        .map(|e| (e.net_protocol_type, e.data))
        .collect();
    assert_eq!(frames, vec![(1, "a".to_string()), (2, "b".to_string())]);
    assert!(lo.isr(LOOPBACK_IRQ).unwrap().is_empty());
}

#[test]
fn handle_signal_stops_on_stop_number() {
    let mut ctx = loopback_registry();
    assert_eq!(ctx.handle_signal(STOP_IRQ), Ok(false));
}

#[test]
fn handle_signal_services_bound_device() {
    let mut ctx = loopback_registry();
    ctx.run().unwrap();
    ctx.transmit(0, NET_PROTOCOL_IP, "ping".to_string()).unwrap();
    assert_eq!(ctx.handle_signal(LOOPBACK_IRQ), Ok(true));
    assert_eq!(drained(&mut ctx), vec![(NET_PROTOCOL_IP, "ping".to_string())]);
    assert_eq!(ctx.handle_signal(40), Ok(true));
}

#[test]
fn handle_signal_reports_down_device() {
    let mut ctx = loopback_registry();
    assert_eq!(ctx.handle_signal(LOOPBACK_IRQ), Err(NetError::NotOpened));
}

#[test]
fn listened_irqs_cover_stop_soft_and_device_range() {
    let ctx = NetDeviceContext::new();
    let irqs = ctx.listened_irqs();
    assert_eq!(irqs.len(), 31);
    assert_eq!(irqs[0], STOP_IRQ);
    assert_eq!(irqs[1], SOFT_IRQ);
    assert_eq!(irqs[2], 35);
    assert_eq!(irqs[30], 63);
}

#[test]
fn irq_context_bindings() {
    let mut irq = IRQContext::new();
    assert!(!irq.is_attached());
    irq.set_net_device_context();
    assert!(irq.is_attached());
    assert_eq!(irq.register(36), Ok(()));
    assert_eq!(irq.register(36), Ok(()));
    assert_eq!(irq.register(64), Err(IRQError::Unavailable));
    assert_eq!(irq.register(34), Err(IRQError::Unavailable));
    assert_eq!(irq.register(35), Ok(()));
    assert_eq!(irq.bound_count(36), 2);
    assert_eq!(irq.bound_count(35), 1);
    assert_eq!(irq.bound_count(64), 0);
}

#[test]
fn irq_context_raised_queue() {
    let mut irq = IRQContext::new();
    irq.raise(36);
    irq.raise(SOFT_IRQ);
    assert_eq!(irq.take_raised(), vec![36, SOFT_IRQ]);
    assert!(irq.take_raised().is_empty());
}

#[test]
fn dummy_isr_hands_out_nothing_and_changes_nothing() {
    let mut dev = NetDevice::new("d".to_string(), NetDeviceType::Dummy);
    dev.open().unwrap();
    dev.transmit(NET_PROTOCOL_IP, "x".to_string()).unwrap();
    assert!(dev.isr(DUMMY_IRQ).unwrap().is_empty());
    assert!(dev.is_up());
    assert_eq!(dev.name(), "d");
}
