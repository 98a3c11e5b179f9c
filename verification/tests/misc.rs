use kernel::threading::boot_stack::{stack_parts, BootStack, StackParts};
use kernel::framebuffer::{fill_framebuffer, BACKGROUND};
use kernel::memory::refcount::RefCountEntry;
use kernel::port::Port;
use kernel::qemu::{debug_con_port, debug_exit_port, exit_value, ExitStatus};
use kernel::timing::{system_time, tsc_probe_leaf, tsc_probe_start, tsc_probe_step, tsc_value, CpuidResult, TscProbe};

fn regs(eax: u32, ebx: u32, ecx: u32) -> CpuidResult {
    CpuidResult { eax, ebx, ecx, edx: 0 }
}

#[test]
fn port_keeps_address() {
    let p = Port::<u16>::new(0x3f8);
    assert_eq!(p.addr(), 0x3f8);
    let q = p;
    assert_eq!(q.clone().addr(), 0x3f8);
    assert_eq!(debug_con_port().addr(), 0xe9);
    assert_eq!(debug_exit_port().addr(), 0xf4);
}

#[test]
fn qemu_exit_values() {
    assert_eq!(exit_value(ExitStatus::Success), 0x10);
    assert_eq!(exit_value(ExitStatus::Failure), 0);
}

#[test]
fn framebuffer_is_cleared() {
    let mut pixels = vec![0u32; 17];
    fill_framebuffer(&mut pixels);
    assert!(pixels.iter().all(|&p| p == BACKGROUND));
    assert_eq!(BACKGROUND, 0xeeeeee);
}

#[test]
fn refcount_reports_last_reference() {
    let mut e = RefCountEntry::new(1, None);
    e.increment();
    assert_eq!(e.strong_count(), 2);
    assert!(!e.decrement());
    assert!(e.decrement());
    assert_eq!(e.strong_count(), 0);
    let mut w = RefCountEntry::new(usize::MAX, Some(3));
    w.increment();
    assert_eq!(w.strong_count(), 0);
}

fn run_probe(answers: &[(u32, CpuidResult)]) -> TscProbe {
    let mut p = tsc_probe_start();
    let mut i = 0;
    while let Some(leaf) = tsc_probe_leaf(p) {
        assert_eq!(leaf, answers[i].0);
        p = tsc_probe_step(p, answers[i].1);
        i += 1;
    }
    assert_eq!(i, answers.len());
    p
}

#[test]
fn tsc_from_leaf_15h() {
    // 24 MHz crystal, TSC = crystal * 100 / 1 -> 2.4 GHz.
    let p = run_probe(&[(0, regs(0x16, 0, 0)), (0x15, regs(1, 100, 24_000_000))]);
    match p {
        TscProbe::Done(Some(m)) => {
            assert_eq!(m.num(), 1_000_000_000);
            assert_eq!(m.denom(), 2_400_000_000);
            assert_eq!(system_time(2_400_000_000, m), 1_000_000_000);
        }
        _ => panic!("expected a multiplier"),
    }
}

#[test]
fn tsc_from_hypervisor_leaf() {
    let p = run_probe(&[
        (0, regs(0xd, 0, 0)),
        (1, regs(0, 0, 0x8000_0000)),
        (0x4000_0000, regs(0x4000_0010, 0, 0)),
        (0x4000_0010, regs(2_000_000, 0, 0)),
    ]);
    match p {
        TscProbe::Done(Some(m)) => {
            assert_eq!((m.num(), m.denom()), (1_000_000, 2_000_000));
            assert_eq!(system_time(4_000, m), 2_000);
        }
        _ => panic!("expected a multiplier"),
    }
}

#[test]
fn tsc_unknown_without_hypervisor() {
    assert_eq!(run_probe(&[(0, regs(0xd, 0, 0)), (1, regs(0, 0, 0x7fff_ffff))]), TscProbe::Done(None));
    assert_eq!(run_probe(&[(0, regs(0x15, 0, 0)), (0x15, regs(1, 0, 5))]), TscProbe::Done(None));
}

#[test]
fn tsc_halves_combine() {
    assert_eq!(tsc_value(0x89ab_cdef, 0x0123_4567), 0x0123_4567_89ab_cdef);
}

#[test]
fn boot_stack_parts() {
    let parts = stack_parts(BootStack { bottom_virt: 100, top_virt: 110, top_phys: 500 });
    assert_eq!(parts, StackParts { first_frame: 491, frame_count: 9, first_page: 100, page_count: 10 });
}
