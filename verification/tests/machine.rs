use task_kernel::boards::qemu::{
    device_init, irq_handler, plic_claim, plic_complete, plic_init, plic_init_hart, plic_sclaim, plic_senable,
    plic_spriority, Device, IrqAction, MmioWrite, PLIC_BASE, UART0_IRQ, VIRTIO0_IRQ,
};
use task_kernel::boot::{init_other_cpu, others_main, rust_main, Boot, BootBarrier, BootMove, BootStep};
use task_kernel::console::{print, print_in_color, push_decimal, Console};
use task_kernel::logging::{init, level_to_color_code, Level, LevelFilter, SimpleLogger};
use task_kernel::sync::up::IntrMaskingInfo;

#[test]
fn the_interrupt_controller_registers_by_core() {
    assert_eq!(PLIC_BASE, 0x0c00_0000);
    assert_eq!(plic_senable(0), 0x0c00_2080);
    assert_eq!(plic_senable(1), 0x0c00_2180);
    assert_eq!(plic_spriority(0), 0x0c20_1000);
    assert_eq!(plic_spriority(3), 0x0c20_7000);
    assert_eq!(plic_sclaim(0), 0x0c20_1004);
    assert_eq!(plic_sclaim(2), 0x0c20_5004);
}

#[test]
fn the_devices_get_a_priority() {
    assert_eq!((UART0_IRQ, VIRTIO0_IRQ), (10, 1));
    assert_eq!(
        plic_init(),
        [MmioWrite { addr: 0x0c00_0028, val: 1 }, MmioWrite { addr: 0x0c00_0004, val: 1 }]
    );
}

#[test]
fn a_core_enables_both_devices() {
    assert_eq!(
        plic_init_hart(1),
        [
            MmioWrite { addr: 0x0c00_2180, val: (1 << 10) | (1 << 1) },
            MmioWrite { addr: 0x0c20_3000, val: 0 }
        ]
    );
}

#[test]
fn device_init_writes_devices_then_core() {
    assert_eq!(
        device_init(2),
        vec![
            MmioWrite { addr: 0x0c00_0028, val: 1 },
            MmioWrite { addr: 0x0c00_0004, val: 1 },
            MmioWrite { addr: 0x0c00_2280, val: 0x402 },
            MmioWrite { addr: 0x0c20_5000, val: 0 },
        ]
    );
}

#[test]
fn a_claim_of_zero_is_no_interrupt() {
    assert_eq!(plic_claim(0), None);
    assert_eq!(plic_claim(10), Some(10));
    assert_eq!(plic_claim(u32::MAX), Some(u32::MAX));
    assert_eq!(plic_complete(3, 10), MmioWrite { addr: 0x0c20_7004, val: 10 });
}

#[test]
fn interrupts_go_to_the_driver_of_their_source() {
    assert_eq!(irq_handler(0, 0), IrqAction::Nothing);
    assert_eq!(
        irq_handler(0, 1),
        IrqAction::Serve { device: Device::Block, complete: MmioWrite { addr: 0x0c20_1004, val: 1 } }
    );
    assert_eq!(
        irq_handler(1, 10),
        IrqAction::Serve { device: Device::Uart, complete: MmioWrite { addr: 0x0c20_3004, val: 10 } }
    );
    assert_eq!(irq_handler(0, 2), IrqAction::Unsupported { irq: 2 });
    assert_eq!(irq_handler(3, 11), IrqAction::Unsupported { irq: 11 });
}

#[test]
fn the_first_core_sets_up_the_kernel() {
    assert_eq!(
        rust_main(0),
        vec![
            BootStep::ClearBss,
            BootStep::InitMemory,
            BootStep::RemapTest,
            BootStep::AddInitproc,
            BootStep::TrapInit,
            BootStep::EnableTimerInterrupt,
            BootStep::SetNextTrigger,
            BootStep::ListApps,
            BootStep::ReleaseOthers,
            BootStep::Barrier,
            BootStep::RunTasks,
        ]
    );
    assert!(init_other_cpu(0).is_empty());
}

#[test]
fn the_other_cores_wait_then_set_themselves_up() {
    let own = vec![
        BootStep::InitKernelSpace,
        BootStep::ThreadLocalInit,
        BootStep::TrapInit,
        BootStep::EnableTimerInterrupt,
        BootStep::SetNextTrigger,
    ];
    assert_eq!(others_main(), own);
    let mut waiting = vec![BootStep::WaitForRelease];
    waiting.extend(own);
    assert_eq!(init_other_cpu(2), waiting);
    waiting.push(BootStep::Barrier);
    waiting.push(BootStep::RunTasks);
    assert_eq!(rust_main(3), waiting);
}

#[test]
fn every_core_meets_the_barrier_once_just_before_it_runs_tasks() {
    for hart_id in 0..6 {
        let steps = rust_main(hart_id);
        assert_eq!(steps.iter().filter(|s| **s == BootStep::Barrier).count(), 1);
        assert_eq!(steps.iter().filter(|s| **s == BootStep::RunTasks).count(), 1);
        assert_eq!(steps[steps.len() - 2], BootStep::Barrier);
        assert_eq!(steps[steps.len() - 1], BootStep::RunTasks);
    }
}

/// Lets the cores start in the order `turns`, one move each, and checks
/// that no core runs tasks before every core has arrived at the barrier.
fn boot_in_order(cores: usize, turns: &[usize]) -> Boot {
    let mut boot = Boot::new(cores);
    let mut handed: Vec<Vec<BootStep>> = vec![Vec::new(); cores];
    for &hart_id in turns {
        let arrived_before = boot.barrier.arrived;
        match boot.next(hart_id) {
            BootMove::Perform(step) => {
                if step == BootStep::RunTasks {
                    // the counter has reached the number of cores
                    assert_eq!(boot.barrier.arrived, cores);
                    for other in 0..cores {
                        assert!(handed[other].contains(&BootStep::Barrier));
                        assert_eq!(handed[other][..], rust_main(other)[..handed[other].len()]);
                    }
                }
                if step == BootStep::Barrier {
                    // every core counts once
                    assert!(!handed[hart_id].contains(&BootStep::Barrier));
                    assert_eq!(boot.barrier.arrived, arrived_before + 1);
                } else {
                    assert_eq!(boot.barrier.arrived, arrived_before);
                }
                handed[hart_id].push(step);
            }
            BootMove::Wait => {
                assert!(boot.barrier.arrived < cores);
                assert_eq!(boot.barrier.arrived, arrived_before);
                assert_eq!(handed[hart_id].last(), Some(&BootStep::Barrier));
            }
            BootMove::Finished => {
                assert_eq!(handed[hart_id], rust_main(hart_id));
            }
        }
        assert!(boot.barrier.arrived <= cores);
    }
    boot
}

#[test]
fn no_core_runs_tasks_before_every_core_has_arrived() {
    // core 3 is quick and waits at the barrier for the others
    let mut turns = vec![3usize; 12];
    turns.extend([0, 1, 2].iter().cycle().take(3 * 9));
    let mut boot = boot_in_order(4, &turns);
    assert_eq!(boot.barrier, BootBarrier { arrived: 3, expected: 4 });
    assert_eq!(boot.next(3), BootMove::Wait);
    assert_eq!(boot.next(1), BootMove::Wait);
    // core 0 has set up the kernel and is the last to arrive
    assert_eq!(boot.next(0), BootMove::Perform(BootStep::Barrier));
    assert_eq!(boot.barrier, BootBarrier { arrived: 4, expected: 4 });
    // now every core goes on, and none waits
    for hart_id in 0..4 {
        assert_eq!(boot.next(hart_id), BootMove::Perform(BootStep::RunTasks));
        assert_eq!(boot.next(hart_id), BootMove::Finished);
    }
    assert_eq!(boot.barrier.arrived, 4);
}

#[test]
fn the_cores_boot_in_any_order() {
    let mut seed: u64 = 7;
    for _ in 0..50 {
        let mut turns = Vec::new();
        for _ in 0..120 {
            seed = seed.wrapping_mul(6364136223846793005).wrapping_add(1442695040888963407);
            turns.push(((seed >> 33) % 4) as usize);
        }
        // every core gets moves enough in the end
        for hart_id in 0..4 {
            turns.extend(vec![hart_id; 14]);
        }
        for hart_id in 0..4 {
            turns.extend(vec![hart_id; 2]);
        }
        let mut boot = boot_in_order(4, &turns);
        assert_eq!(boot.barrier.arrived, 4);
        for hart_id in 0..4 {
            assert_eq!(boot.next(hart_id), BootMove::Finished);
        }
    }
}

#[test]
fn a_single_core_passes_the_barrier_alone() {
    let mut boot = Boot::new(1);
    let mut handed = Vec::new();
    loop {
        match boot.next(0) {
            BootMove::Perform(step) => handed.push(step),
            BootMove::Wait => panic!("nobody to wait for"),
            BootMove::Finished => break,
        }
    }
    assert_eq!(handed, rust_main(0));
}

#[test]
fn the_barrier_opens_with_the_last_core() {
    let cores = 4;
    let mut barrier = BootBarrier::new(cores);
    for arrived in 0..cores {
        // nobody goes on before every core has arrived
        assert!(!barrier.released());
        assert_eq!(barrier.arrived, arrived);
        let last = barrier.arrive();
        assert_eq!(last, arrived + 1 == cores);
    }
    // every core that looks now goes on, however often it looks
    for _ in 0..cores {
        assert!(barrier.released());
    }
    assert_eq!(barrier, BootBarrier { arrived: 4, expected: 4 });
}

#[test]
fn a_barrier_for_one_core_opens_at_once() {
    let mut barrier = BootBarrier::new(1);
    assert!(!barrier.released());
    assert!(barrier.arrive());
    assert!(barrier.released());
    assert!(BootBarrier::new(0).released());
}

#[test]
fn a_delete_rubs_out_the_character_before() {
    let mut console = Console;
    assert_eq!(console.write_str(b"ab\x7fc"), vec![b'a', b'b', 8, b' ', 8, b'c']);
    assert_eq!(console.write_str(b""), Vec::<u8>::new());
    assert_eq!(console.write_str(b"\x7f\x7f"), vec![8, 32, 8, 8, 32, 8]);
    assert_eq!(console.write_str(b"\n\x08"), vec![10, 8]);
}

#[test]
fn decimal_digits() {
    for (n, text) in [(0usize, "0"), (7, "7"), (10, "10"), (96, "96"), (255, "255"), (12345, "12345")] {
        let mut out = vec![b'x'];
        push_decimal(&mut out, n);
        assert_eq!(out, format!("x{}", text).into_bytes());
    }
    let mut out = Vec::new();
    push_decimal(&mut out, usize::MAX);
    assert_eq!(out, format!("{}", usize::MAX).into_bytes());
}

#[test]
fn coloured_text_stands_between_escape_sequences() {
    assert_eq!(print_in_color(b"hi", 31), b"\x1b[31mhi\x1b[0m".to_vec());
    assert_eq!(print_in_color(b"", 0), b"\x1b[0m\x1b[0m".to_vec());
    assert_eq!(print_in_color(b"x", 255), b"\x1b[255mx\x1b[0m".to_vec());
}

#[test]
fn every_core_prints_in_its_colour() {
    assert_eq!(print(0, b"a"), b"\x1b[96ma\x1b[0m".to_vec());
    assert_eq!(print(1, b"a"), b"\x1b[94ma\x1b[0m".to_vec());
    assert_eq!(print(2, b"a"), b"\x1b[95ma\x1b[0m".to_vec());
    assert_eq!(print(3, b"a"), b"\x1b[93ma\x1b[0m".to_vec());
    assert_eq!(print(4, b"a"), b"\x1b[97ma\x1b[0m".to_vec());
    assert_eq!(print(usize::MAX, b"a"), b"\x1b[97ma\x1b[0m".to_vec());
}

#[test]
fn every_level_has_its_colour() {
    assert_eq!(level_to_color_code(Level::Error), 31);
    assert_eq!(level_to_color_code(Level::Warn), 34);
    assert_eq!(level_to_color_code(Level::Info), 33);
    assert_eq!(level_to_color_code(Level::Debug), 32);
    assert_eq!(level_to_color_code(Level::Trace), 90);
}

#[test]
fn the_setting_names_the_filter() {
    assert_eq!(init(Some(b"error")), LevelFilter::Error);
    assert_eq!(init(Some(b"warn")), LevelFilter::Warn);
    assert_eq!(init(Some(b"info")), LevelFilter::Info);
    assert_eq!(init(Some(b"debug")), LevelFilter::Debug);
    assert_eq!(init(Some(b"trace")), LevelFilter::Trace);
    assert_eq!(init(Some(b"ERROR")), LevelFilter::Off);
    assert_eq!(init(Some(b"warning")), LevelFilter::Off);
    assert_eq!(init(Some(b"")), LevelFilter::Off);
    assert_eq!(init(None), LevelFilter::Off);
}

#[test]
fn a_line_of_the_log() {
    let logger = SimpleLogger;
    assert!(logger.enabled(Level::Trace));
    assert_eq!(
        logger.log(Level::Warn, 2, b"exit_current_and_run_next schedule"),
        b"\x1b[34m[ WARN][2,-] exit_current_and_run_next schedule\n\x1b[0m".to_vec()
    );
    assert_eq!(logger.log(Level::Error, 0, b""), b"\x1b[31m[ERROR][0,-] \n\x1b[0m".to_vec());
    assert_eq!(logger.log(Level::Info, 13, b"x"), b"\x1b[33m[ INFO][13,-] x\n\x1b[0m".to_vec());
    assert_eq!(logger.log(Level::Debug, 1, b"y"), b"\x1b[32m[DEBUG][1,-] y\n\x1b[0m".to_vec());
    assert_eq!(logger.log(Level::Trace, 3, b"z"), b"\x1b[90m[TRACE][3,-] z\n\x1b[0m".to_vec());
    logger.flush();
}

#[test]
fn the_outermost_section_restores_the_interrupts() {
    let mut info = IntrMaskingInfo::new();
    assert_eq!(info, IntrMaskingInfo { nested_level: 0, sie_before_masking: false });
    info.enter(true);
    // interrupts are off inside: the inner section must not remember that
    info.enter(false);
    info.enter(false);
    assert_eq!(info, IntrMaskingInfo { nested_level: 3, sie_before_masking: true });
    assert!(!info.exit());
    assert!(!info.exit());
    assert!(info.exit());
    assert_eq!(info.nested_level, 0);
}

#[test]
fn interrupts_that_were_off_stay_off() {
    let mut info = IntrMaskingInfo::new();
    info.enter(false);
    info.enter(true);
    assert!(!info.exit());
    assert!(!info.exit());
    // a later section starts afresh
    info.enter(true);
    assert!(info.exit());
}
