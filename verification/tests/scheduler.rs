use chip8::cpu::Cpu;
use chip8::fault::Fault;
use chip8::host::{has_fired, run_cycle};
use chip8::timing::{check_timers, DoTick, Timer};

const NO_KEYS: [bool; 16] = [false; 16];

fn machine_with(rom: &[u8]) -> Cpu {
    let mut cpu = Cpu::new();
    cpu.load_rom(rom).unwrap();
    cpu
}

#[test]
fn period_is_a_million_over_the_frequency() {
    assert_eq!(Timer::new(1000, DoTick::Cpu).period(), 1000);
    assert_eq!(Timer::new(60, DoTick::Display).period(), 16666);
    assert_eq!(Timer::new(1, DoTick::SoundDelay).period(), 1_000_000);
    assert_eq!(Timer::new(1_000_000, DoTick::Cpu).period(), 1);
    assert_eq!(Timer::new(1_000_001, DoTick::Cpu).period(), 0);
    assert_eq!(Timer::new(u32::MAX, DoTick::Cpu).period(), 0);
    assert_eq!(Timer::new(3, DoTick::Cpu).period(), 333_333);
}

#[test]
fn a_new_timer_keeps_its_activity_and_has_not_fired() {
    let timer = Timer::new(60, DoTick::Display);
    assert_eq!(timer.activity(), DoTick::Display);
    assert_eq!(timer.last_fired(), 0);
    assert_eq!(Timer::new(60, DoTick::SoundDelay).activity(), DoTick::SoundDelay);
    assert_eq!(Timer::new(60, DoTick::Cpu).activity(), DoTick::Cpu);
}

#[test]
fn a_timer_fires_once_its_period_has_passed() {
    let mut timer = Timer::new(1000, DoTick::Cpu);
    assert!(!timer.try_tick_at(0));
    assert!(!timer.try_tick_at(999));
    assert_eq!(timer.last_fired(), 0);
    assert!(timer.try_tick_at(1000));
    assert_eq!(timer.last_fired(), 1000);
    assert!(!timer.try_tick_at(1000));
    assert!(!timer.try_tick_at(1999));
    assert!(timer.try_tick_at(2000));
    assert_eq!(timer.last_fired(), 2000);
}

#[test]
fn a_late_firing_counts_from_the_moment_it_fires() {
    let mut timer = Timer::new(1000, DoTick::Cpu);
    assert!(timer.try_tick_at(2500));
    assert_eq!(timer.last_fired(), 2500);
    assert!(!timer.try_tick_at(3000));
    assert!(!timer.try_tick_at(3499));
    assert!(timer.try_tick_at(3500));
}

#[test]
fn a_reading_before_the_last_firing_counts_as_no_time() {
    let mut timer = Timer::new(1000, DoTick::Cpu);
    assert!(timer.try_tick_at(5000));
    assert!(!timer.try_tick_at(10));
    assert_eq!(timer.last_fired(), 5000);
    let mut always = Timer::new(2_000_000, DoTick::Cpu);
    assert!(always.try_tick_at(5000));
    assert!(always.try_tick_at(10));
    assert_eq!(always.last_fired(), 10);
}

#[test]
fn a_timer_handles_the_largest_reading() {
    let mut timer = Timer::new(1, DoTick::Cpu);
    assert!(timer.try_tick_at(u128::MAX));
    assert_eq!(timer.last_fired(), u128::MAX);
    assert!(!timer.try_tick_at(u128::MAX));
}

#[test]
fn timers_of_different_rates_fire_independently() {
    let mut cpu = Timer::new(1000, DoTick::Cpu);
    let mut display = Timer::new(60, DoTick::Display);
    let mut cpu_fired = 0;
    let mut display_fired = 0;
    let mut now = 0;
    while now <= 100_000 {
        if cpu.try_tick_at(now) {
            cpu_fired += 1;
        }
        if display.try_tick_at(now) {
            display_fired += 1;
        }
        now += 500;
    }
    assert_eq!(cpu_fired, 100);
    assert_eq!(display_fired, 5);
}

#[test]
fn a_timer_of_period_zero_fires_at_every_poll() {
    let mut timer = Timer::new(2_000_000, DoTick::Display);
    for _ in 0..10 {
        assert!(timer.try_tick());
    }
}

#[test]
fn a_slow_timer_does_not_fire_right_away() {
    let mut timer = Timer::new(1, DoTick::Display);
    assert!(!timer.try_tick());
    assert_eq!(timer.last_fired(), 0);
    assert_eq!(timer.period(), 1_000_000);
    assert_eq!(timer.activity(), DoTick::Display);
}

#[test]
fn a_timer_fires_after_its_period_has_really_passed() {
    let mut timer = Timer::new(1000, DoTick::Cpu);
    let start = std::time::Instant::now();
    while start.elapsed().as_micros() < 5000 {}
    assert!(timer.try_tick());
    assert!(timer.last_fired() >= 5000);
}

#[test]
fn check_timers_reports_the_fired_activities_in_order() {
    let mut timers = vec![
        Timer::new(2_000_000, DoTick::Cpu),
        Timer::new(1, DoTick::Display),
        Timer::new(2_000_000, DoTick::SoundDelay),
    ];
    assert_eq!(check_timers(&mut timers), vec![DoTick::Cpu, DoTick::SoundDelay]);
    assert_eq!(check_timers(&mut timers), vec![DoTick::Cpu, DoTick::SoundDelay]);
    assert_eq!(timers.len(), 3);
    assert_eq!(timers[1].last_fired(), 0);
    assert_eq!(timers[0].activity(), DoTick::Cpu);
    assert_eq!(timers[1].activity(), DoTick::Display);
    assert_eq!(timers[2].period(), 0);
}

#[test]
fn check_timers_can_report_nothing_or_everything() {
    let mut none = vec![Timer::new(1, DoTick::Cpu), Timer::new(1, DoTick::Display)];
    assert!(check_timers(&mut none).is_empty());
    let mut all = vec![
        Timer::new(2_000_000, DoTick::SoundDelay),
        Timer::new(2_000_000, DoTick::Display),
        Timer::new(2_000_000, DoTick::Cpu),
    ];
    assert_eq!(check_timers(&mut all), vec![DoTick::SoundDelay, DoTick::Display, DoTick::Cpu]);
    let mut empty: Vec<Timer> = Vec::new();
    assert!(check_timers(&mut empty).is_empty());
}

#[test]
fn has_fired_looks_for_an_activity() {
    let fired = [DoTick::Cpu, DoTick::SoundDelay];
    assert!(has_fired(&fired, DoTick::Cpu));
    assert!(has_fired(&fired, DoTick::SoundDelay));
    assert!(!has_fired(&fired, DoTick::Display));
    assert!(!has_fired(&[], DoTick::Cpu));
}

#[test]
fn a_cycle_runs_the_instruction_before_the_timers_count_down() {
    let mut cpu = machine_with(&[0x61, 0x05, 0xF1, 0x15, 0xF2, 0x07]);
    assert_eq!(run_cycle(&mut cpu, &[DoTick::Cpu], &NO_KEYS, false), Ok(false));
    assert_eq!(run_cycle(&mut cpu, &[DoTick::Cpu, DoTick::SoundDelay], &NO_KEYS, false), Ok(false));
    assert_eq!(cpu.delay_timer(), 4);
    assert_eq!(
        run_cycle(&mut cpu, &[DoTick::SoundDelay, DoTick::Display, DoTick::Cpu], &NO_KEYS, false),
        Ok(true)
    );
    assert_eq!(cpu.register(2), 4);
    assert_eq!(cpu.delay_timer(), 3);
    assert_eq!(cpu.pc(), 0x206);
}

#[test]
fn a_cycle_does_only_what_fired() {
    let mut cpu = machine_with(&[0x61, 0x05, 0xF1, 0x15, 0xF1, 0x18]);
    assert_eq!(run_cycle(&mut cpu, &[], &NO_KEYS, false), Ok(false));
    assert_eq!(cpu.pc(), 0x200);
    assert_eq!(run_cycle(&mut cpu, &[DoTick::Display], &NO_KEYS, false), Ok(true));
    assert_eq!(cpu.pc(), 0x200);
    assert_eq!(run_cycle(&mut cpu, &[DoTick::SoundDelay], &NO_KEYS, false), Ok(false));
    assert_eq!(cpu.pc(), 0x200);
    assert_eq!(cpu.delay_timer(), 0);
    for _ in 0..3 {
        assert_eq!(run_cycle(&mut cpu, &[DoTick::Cpu], &NO_KEYS, false), Ok(false));
    }
    assert_eq!(cpu.delay_timer(), 5);
    assert_eq!(cpu.sound_timer(), 5);
    assert_eq!(run_cycle(&mut cpu, &[DoTick::SoundDelay], &NO_KEYS, false), Ok(false));
    assert_eq!(cpu.delay_timer(), 4);
    assert_eq!(cpu.sound_timer(), 4);
    assert_eq!(cpu.pc(), 0x206);
}

#[test]
fn a_paused_machine_only_shows_its_screen() {
    let mut cpu = machine_with(&[0x61, 0x05, 0xF1, 0x15, 0x12, 0x04]);
    for _ in 0..2 {
        run_cycle(&mut cpu, &[DoTick::Cpu], &NO_KEYS, false).unwrap();
    }
    let all = [DoTick::Cpu, DoTick::Display, DoTick::SoundDelay];
    assert_eq!(run_cycle(&mut cpu, &all, &NO_KEYS, true), Ok(true));
    assert_eq!(cpu.pc(), 0x204);
    assert_eq!(cpu.delay_timer(), 5);
    assert_eq!(run_cycle(&mut cpu, &[DoTick::Cpu], &NO_KEYS, true), Ok(false));
    assert_eq!(cpu.pc(), 0x204);
}

#[test]
fn a_fault_in_a_cycle_leaves_the_timers_alone() {
    let mut cpu = machine_with(&[0x61, 0x05, 0xF1, 0x15, 0xFF, 0xFF]);
    for _ in 0..2 {
        run_cycle(&mut cpu, &[DoTick::Cpu], &NO_KEYS, false).unwrap();
    }
    let all = [DoTick::Cpu, DoTick::Display, DoTick::SoundDelay];
    assert_eq!(
        run_cycle(&mut cpu, &all, &NO_KEYS, false),
        Err(Fault::Decode { pc: 0x204, opcode: 0xFFFF })
    );
    assert_eq!(cpu.delay_timer(), 5);
    assert_eq!(cpu.pc(), 0x204);
}

#[test]
fn waiting_for_a_key_does_not_hold_up_the_timers() {
    let mut cpu = machine_with(&[0x61, 0x03, 0xF1, 0x15, 0xF2, 0x0A]);
    for _ in 0..2 {
        run_cycle(&mut cpu, &[DoTick::Cpu], &NO_KEYS, false).unwrap();
    }
    let all = [DoTick::Cpu, DoTick::Display, DoTick::SoundDelay];
    for left in [2, 1, 0, 0] {
        assert_eq!(run_cycle(&mut cpu, &all, &NO_KEYS, false), Ok(true));
        assert_eq!(cpu.pc(), 0x204);
        assert_eq!(cpu.delay_timer(), left);
    }
    let mut keys = [false; 16];
    keys[9] = true;
    assert_eq!(run_cycle(&mut cpu, &all, &keys, false), Ok(true));
    assert_eq!(cpu.register(2), 9);
    assert_eq!(cpu.pc(), 0x206);
}
