use lib::bios::handle_interrupt;
use lib::cpu::Cpu;
use lib::machine::ConsoleOutput;

fn boot_image(len: usize) -> Cpu {
    let mut rom = vec![0u8; len];
    for (i, b) in rom.iter_mut().enumerate() {
        *b = ((i / 512) % 256) as u8;
    }
    Cpu::new(&rom)
}

#[test]
fn teletype_filters_characters() {
    let mut cpu = boot_image(512);
    for c in [0x41u8, 0x07, 0x0A, 0x0D, 0x08, 0x01, 0x7F, 0x7E] {
        cpu.regs.ax = 0x0E00 | c as u16;
        assert!(handle_interrupt(&mut cpu, 0x10));
    }
    assert_eq!(
        cpu.console,
        vec![
            ConsoleOutput::Char(0x41),
            ConsoleOutput::Char(0x0A),
            ConsoleOutput::Char(0x0D),
            ConsoleOutput::Char(0x08),
            ConsoleOutput::Char(0x7E),
        ]
    );
}

#[test]
fn video_queries() {
    let mut cpu = boot_image(512);
    cpu.regs.ax = 0x0300;
    cpu.regs.cx = 0xFFFF;
    cpu.regs.dx = 0xFFFF;
    assert!(handle_interrupt(&mut cpu, 0x10));
    assert_eq!((cpu.regs.ax, cpu.regs.cx, cpu.regs.dx), (0, 0x0607, 0));
    cpu.regs.ax = 0x0F00;
    cpu.regs.bx = 0x1234;
    assert!(handle_interrupt(&mut cpu, 0x10));
    assert_eq!((cpu.regs.ax, cpu.regs.bx), (0x0003, 0x0034));
}

#[test]
fn equipment_and_keyboard() {
    let mut cpu = boot_image(512);
    assert!(handle_interrupt(&mut cpu, 0x11));
    assert_eq!(cpu.regs.ax, 0x0141);
    cpu.regs.ax = 0x0000;
    assert!(handle_interrupt(&mut cpu, 0x16));
    assert_eq!(cpu.regs.ax, 0x1C0D);
    cpu.regs.ax = 0x0100;
    cpu.regs.flags = 0;
    assert!(handle_interrupt(&mut cpu, 0x16));
    assert_eq!(cpu.regs.flags, 0x0040);
}

#[test]
fn disk_read_copies_sectors() {
    let mut cpu = boot_image(720 * 1024);
    // read 2 sectors from cylinder 0, head 1, sector 3 (LBA 11) to 0000:8000
    cpu.regs.ax = 0x0202;
    cpu.regs.cx = 0x0003;
    cpu.regs.dx = 0x0100;
    cpu.regs.es = 0;
    cpu.regs.bx = 0x8000;
    cpu.regs.flags = 1;
    assert!(handle_interrupt(&mut cpu, 0x13));
    assert_eq!(cpu.memory.read_u8(0x8000), 11);
    assert_eq!(cpu.memory.read_u8(0x81FF), 11);
    assert_eq!(cpu.memory.read_u8(0x8200), 12);
    assert_eq!(cpu.memory.read_u8(0x83FF), 12);
    assert_eq!(cpu.memory.read_u8(0x8400), 0);
    assert_eq!(cpu.regs.ax, 0x0002);
    assert_eq!(cpu.regs.flags & 1, 0);
}

#[test]
fn disk_read_stops_at_end_of_image() {
    let mut cpu = boot_image(3 * 512);
    cpu.regs.ax = 0x0205;
    cpu.regs.cx = 0x0002; // LBA 1
    cpu.regs.dx = 0;
    cpu.regs.bx = 0x9000;
    assert!(handle_interrupt(&mut cpu, 0x13));
    assert_eq!(cpu.memory.read_u8(0x9000), 1);
    assert_eq!(cpu.memory.read_u8(0x9200), 2);
    assert_eq!(cpu.memory.read_u8(0x93FF), 2);
    assert_eq!(cpu.memory.read_u16(0x9400), 0);
}

#[test]
fn disk_geometry_by_image_size() {
    let mut cpu = boot_image(1474560);
    cpu.regs.ax = 0x0800;
    assert!(handle_interrupt(&mut cpu, 0x13));
    assert_eq!((cpu.regs.ax, cpu.regs.bx, cpu.regs.cx, cpu.regs.dx), (0, 4, 0x4F12, 0x0102));
    let mut cpu = boot_image(512);
    cpu.regs.ax = 0x0800;
    assert!(handle_interrupt(&mut cpu, 0x13));
    assert_eq!(cpu.regs.cx, 0x4F09);
}

#[test]
fn disk_reset_and_unknown_function() {
    let mut cpu = boot_image(512);
    cpu.regs.ax = 0x0042;
    cpu.regs.flags = 1;
    assert!(handle_interrupt(&mut cpu, 0x13));
    assert_eq!(cpu.regs.ax, 0x0042);
    assert_eq!(cpu.regs.flags & 1, 0);
    cpu.regs.ax = 0x4100;
    assert!(handle_interrupt(&mut cpu, 0x13));
    assert_eq!(cpu.regs.flags & 1, 1);
}

#[test]
fn bootstrap_interrupt_stops() {
    let mut cpu = boot_image(512);
    cpu.regs.cs = 0x1234;
    cpu.regs.ip = 0x10;
    cpu.regs.sp = 0x100;
    cpu.regs.dx = 0x80;
    assert!(!handle_interrupt(&mut cpu, 0x19));
    assert_eq!((cpu.regs.cs, cpu.regs.ip, cpu.regs.sp, cpu.regs.dx), (0, 0x7C00, 0x7C00, 0));
}

#[test]
fn dos_print_string_and_exit() {
    let mut cpu = boot_image(512);
    for (i, b) in b"Hi!$more".iter().enumerate() {
        cpu.memory.write_u8(0x2000 + i, *b);
    }
    cpu.regs.ds = 0x200;
    cpu.regs.dx = 0;
    cpu.regs.ax = 0x0900;
    assert!(handle_interrupt(&mut cpu, 0x21));
    assert_eq!(
        cpu.console,
        vec![ConsoleOutput::Char(b'H'), ConsoleOutput::Char(b'i'), ConsoleOutput::Char(b'!')]
    );
    cpu.regs.ax = 0x4C00;
    cpu.regs.ip = 0x55;
    assert!(handle_interrupt(&mut cpu, 0x21));
    assert_eq!(cpu.regs.ip, 0);
    cpu.regs.ax = 0x3000;
    assert!(!handle_interrupt(&mut cpu, 0x21));
    cpu.regs.ip = 0x55;
    assert!(handle_interrupt(&mut cpu, 0x20));
    assert_eq!(cpu.regs.ip, 0);
    assert!(!handle_interrupt(&mut cpu, 0x05));
}
