use krun_boot::fdt::DeviceInfoForFDT;

struct Device(u64, u32, u64);

impl DeviceInfoForFDT for Device {
    fn addr(&self) -> u64 {
        self.0
    }

    fn irq(&self) -> u32 {
        self.1
    }

    fn length(&self) -> u64 {
        self.2
    }
}

#[test]
fn device_describes_itself() {
    let device = Device(0xd000_0000, 5, 0x1000);
    assert_eq!(device.addr(), 0xd000_0000);
    assert_eq!(device.irq(), 5);
    assert_eq!(device.length(), 0x1000);
}
