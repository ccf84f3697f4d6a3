use pstate_monitor::frame::{axis_ticks, current_values, palette_index, total};
use pstate_monitor::history::{CpuFrequencyHistory, MonitorError};
use pstate_monitor::session::{
    is_quit_key, render_step, sampling_step, session_result, KeyInput, RenderAction,
    SamplingAction,
};

fn ring(h: &CpuFrequencyHistory, core: usize) -> Vec<u32> {
    h.series(core)
}

#[test]
fn new_history_is_zero_filled_and_running() {
    let h = CpuFrequencyHistory::new(2, 4, 800000, 4800000);
    assert!(h.is_running());
    assert_eq!(h.core_count(), 2);
    assert_eq!(h.capacity(), 4);
    assert_eq!(h.min_value(), 800000);
    assert_eq!(h.max_value(), 4800000);
    assert_eq!(ring(&h, 0), vec![0, 0, 0, 0]);
    assert_eq!(ring(&h, 1), vec![0, 0, 0, 0]);
}

#[test]
fn single_core_three_entry_capacity() {
    let mut h = CpuFrequencyHistory::new(1, 3, 1000000, 5000000);
    assert_eq!(ring(&h, 0), vec![0, 0, 0]);
    assert_eq!(h.append(vec![100]), Ok(()));
    assert_eq!(ring(&h, 0), vec![0, 0, 100]);
    assert_eq!(h.append(vec![200]), Ok(()));
    assert_eq!(ring(&h, 0), vec![0, 100, 200]);
    assert_eq!(h.append(vec![300]), Ok(()));
    assert_eq!(ring(&h, 0), vec![100, 200, 300]);
    assert_eq!(h.append(vec![400]), Ok(()));
    assert_eq!(ring(&h, 0), vec![200, 300, 400]);
}

#[test]
fn rings_keep_capacity_after_many_appends() {
    let mut h = CpuFrequencyHistory::new(3, 5, 0, 10);
    for k in 0..17u32 {
        assert_eq!(h.append(vec![k, k + 1, k + 2]), Ok(()));
        for c in 0..3 {
            assert_eq!(ring(&h, c).len(), 5);
        }
    }
}

#[test]
fn fifo_eviction_keeps_last_values_per_core() {
    let mut h = CpuFrequencyHistory::new(2, 3, 0, 10);
    for k in 1..=7u32 {
        assert_eq!(h.append(vec![k, 10 * k]), Ok(()));
    }
    assert_eq!(ring(&h, 0), vec![5, 6, 7]);
    assert_eq!(ring(&h, 1), vec![50, 60, 70]);
}

#[test]
fn snapshot_before_append_is_unaffected() {
    let mut h = CpuFrequencyHistory::new(2, 2, 0, 10);
    assert_eq!(h.append(vec![1, 2]), Ok(()));
    let before = h.snapshot();
    assert_eq!(h.append(vec![3, 4]), Ok(()));
    let after = h.snapshot();
    assert_eq!(ring(&before, 0), vec![0, 1]);
    assert_eq!(ring(&before, 1), vec![0, 2]);
    assert_eq!(ring(&after, 0), vec![1, 3]);
    assert_eq!(ring(&after, 1), vec![2, 4]);
    assert!(after.is_running());
}

#[test]
fn stop_twice_stays_stopped() {
    let mut h = CpuFrequencyHistory::new(1, 2, 0, 10);
    h.stop();
    assert!(!h.is_running());
    h.stop();
    assert!(!h.is_running());
    assert_eq!(h.append(vec![5]), Ok(()));
    assert!(!h.is_running());
    assert!(!h.snapshot().is_running());
}

#[test]
fn append_of_wrong_shape_is_refused() {
    let mut h = CpuFrequencyHistory::new(2, 2, 0, 10);
    assert_eq!(h.append(vec![1]), Err(MonitorError::ShapeMismatch));
    assert_eq!(h.append(vec![1, 2, 3]), Err(MonitorError::ShapeMismatch));
    assert_eq!(h.append(vec![]), Err(MonitorError::ShapeMismatch));
    assert_eq!(ring(&h, 0), vec![0, 0]);
    assert_eq!(ring(&h, 1), vec![0, 0]);
}

#[test]
fn zero_capacity_history_stays_empty() {
    let mut h = CpuFrequencyHistory::new(1, 0, 0, 0);
    assert_eq!(h.append(vec![9]), Ok(()));
    assert_eq!(ring(&h, 0), Vec::<u32>::new());
}

#[test]
fn axis_ticks_are_fifths_of_the_span() {
    assert_eq!(
        axis_ticks(800000, 4800000),
        vec![8000000, 12000000, 16000000, 20000000, 24000000]
    );
    assert_eq!(axis_ticks(7, 7), vec![35, 35, 35, 35, 35]);
    assert_eq!(
        axis_ticks(800000, 1000000),
        vec![4200000, 4400000, 4600000, 4800000, 5000000]
    );
    assert_eq!(axis_ticks(0, 12), vec![12, 24, 36, 48, 60]);
    let top = u32::MAX as u64;
    assert_eq!(axis_ticks(0, u32::MAX), vec![top, 2 * top, 3 * top, 4 * top, 5 * top]);
    let ticks = axis_ticks(3, 15);
    for k in 0..4 {
        assert_eq!(ticks[k + 1] - ticks[k], 12);
    }
}

#[test]
fn current_values_and_total() {
    let mut h = CpuFrequencyHistory::new(3, 2, 0, 10);
    assert_eq!(h.append(vec![2500000, 1000000, 4000000]), Ok(()));
    let cur = current_values(&h);
    assert_eq!(cur, vec![2500000, 1000000, 4000000]);
    assert_eq!(total(&cur), 7500000);
    assert_eq!(total(&vec![u32::MAX, u32::MAX]), 2 * (u32::MAX as u128));
    assert_eq!(total(&vec![]), 0);
}

#[test]
fn palette_cycles_and_skips_black() {
    assert_eq!(palette_index(0), 1);
    assert_eq!(palette_index(7), 8);
    assert_eq!(palette_index(8), 1);
    assert_eq!(palette_index(13), 6);
}

#[test]
fn sampling_step_appends_and_sleeps_while_running() {
    let mut h = CpuFrequencyHistory::new(1, 2, 0, 10);
    assert_eq!(sampling_step(&mut h, Ok(vec![7])), SamplingAction::Sleep);
    assert_eq!(ring(&h, 0), vec![0, 7]);
}

#[test]
fn sampling_step_reports_read_failure_without_appending() {
    let mut h = CpuFrequencyHistory::new(1, 2, 0, 10);
    assert_eq!(
        sampling_step(&mut h, Err(MonitorError::SampleRead)),
        SamplingAction::Fail(MonitorError::SampleRead)
    );
    assert_eq!(ring(&h, 0), vec![0, 0]);
    assert!(h.has_failed());
    assert_eq!(
        sampling_step(&mut h, Ok(vec![1, 2])),
        SamplingAction::Fail(MonitorError::ShapeMismatch)
    );
    assert_eq!(ring(&h, 0), vec![0, 0]);
}

#[test]
fn sampling_ends_one_append_after_stop() {
    let mut h = CpuFrequencyHistory::new(1, 3, 0, 10);
    assert_eq!(sampling_step(&mut h, Ok(vec![1])), SamplingAction::Sleep);
    h.stop();
    assert_eq!(sampling_step(&mut h, Ok(vec![2])), SamplingAction::Finish);
    assert_eq!(ring(&h, 0), vec![0, 1, 2]);
}

#[test]
fn quit_keys_stop_the_history() {
    assert!(is_quit_key(KeyInput::Char('q')));
    assert!(is_quit_key(KeyInput::Esc));
    assert!(!is_quit_key(KeyInput::Char('Q')));
    assert!(!is_quit_key(KeyInput::Other));

    let mut h = CpuFrequencyHistory::new(1, 1, 0, 10);
    assert_eq!(render_step(&mut h, None), RenderAction::Redraw);
    assert_eq!(render_step(&mut h, Some(KeyInput::Char('x'))), RenderAction::Redraw);
    assert!(h.is_running());
    assert_eq!(render_step(&mut h, Some(KeyInput::Esc)), RenderAction::Quit);
    assert!(!h.is_running());
}

#[test]
fn sampling_failure_ends_rendering() {
    let mut h = CpuFrequencyHistory::new(2, 2, 0, 10);
    assert!(!h.has_failed());
    assert_eq!(render_step(&mut h, None), RenderAction::Redraw);
    assert_eq!(
        sampling_step(&mut h, Ok(vec![1])),
        SamplingAction::Fail(MonitorError::ShapeMismatch)
    );
    assert!(h.has_failed());
    assert!(h.snapshot().has_failed());
    assert_eq!(render_step(&mut h, None), RenderAction::Quit);
    assert!(!h.is_running());

    let mut other = CpuFrequencyHistory::new(1, 1, 0, 10);
    other.record_failure();
    assert_eq!(render_step(&mut other, Some(KeyInput::Char('x'))), RenderAction::Quit);
}

#[test]
fn session_result_prefers_render_failure() {
    let ok: Result<(), u8> = Ok(());
    assert_eq!(session_result(Err(1u8), Err(2u8)), Err(1));
    assert_eq!(session_result(ok, Err(2u8)), Err(2));
    assert_eq!(session_result(Err(1u8), ok), Err(1));
    assert_eq!(session_result(ok, ok), Ok(()));
}
