use gvmkit_build::builder::{ContainerOptions, ImageBuilder};
use gvmkit_build::progress::{
    next_read_size, set_progress_bar_settings, ProgressBarSettings, ProgressContext, SpeedSampler,
};

#[test]
fn progress_counters_throttle_updates() {
    let mut pc = ProgressContext::new();
    assert_eq!(pc.total_bytes(), 0);
    // 100 kB exactly does not refresh yet; the next byte does.
    assert!(!pc.observe(100_000));
    assert_eq!(pc.total_bytes(), 100_000);
    assert!(pc.observe(1));
    assert_eq!(pc.total_bytes(), 100_001);
    // After a refresh the pending counter starts over.
    assert!(!pc.observe(99_000));
    assert_eq!(pc.total_bytes(), 199_001);
}

#[test]
fn read_sizes_are_capped() {
    assert_eq!(next_read_size(5), 5);
    assert_eq!(next_read_size(100_000), 100_000);
    assert_eq!(next_read_size(1_000_000), 100_000);
}

#[test]
fn sampler_reports_speed_and_eta() {
    let mut s = SpeedSampler::new(0);
    // First sample: no window yet.
    let r = s.on_tick(0, 10_000_000, 0);
    assert_eq!(r.speed, None);
    assert!(!r.reset);
    // One second later, one megabyte further.
    let r = s.on_tick(1_000_000, 10_000_000, 1);
    assert_eq!(r.speed, Some(1_000_000));
    assert_eq!(r.total_speed, Some(1_000_000));
    assert_eq!(r.eta_secs, Some(9));
    // A stalled transfer has no ETA.
    let mut s = SpeedSampler::new(0);
    s.on_tick(0, 10_000_000, 0);
    let r = s.on_tick(50, 10_000_000, 1);
    assert_eq!(r.speed, Some(50));
    assert_eq!(r.eta_secs, None);
}

#[test]
fn sampler_window_is_bounded_and_resets() {
    let mut s = SpeedSampler::new(0);
    for i in 0..20u64 {
        let r = s.on_tick(i * 1000, 1_000_000, i);
        assert!(!r.reset);
    }
    assert!(s.ticks.len() <= 11);
    // The clock jumping backward resets the window.
    let r = s.on_tick(20_000, 1_000_000, 3);
    assert!(r.reset);
    assert_eq!(s.ticks.len(), 0);
    assert_eq!(s.loop_no, 0);
}

#[test]
fn progress_bar_settings_are_stored() {
    let mut store = ProgressBarSettings::default();
    assert!(!store.hidden);
    set_progress_bar_settings(&mut store, ProgressBarSettings { hidden: true });
    assert!(store.hidden);
}

#[test]
fn builder_and_container_defaults() {
    let b = ImageBuilder::new(
        "user/repo:tag",
        Some("out.gvmi".to_string()),
        true,
        vec!["A=1".to_string()],
        vec!["/work".to_string()],
        None,
        "lzo".to_string(),
        Some(8),
    );
    assert_eq!(b.image_name, "user/repo:tag");
    assert_eq!(b.output.as_deref(), Some("out.gvmi"));
    assert!(b.force_overwrite);
    assert_eq!(b.env, vec!["A=1".to_string()]);
    assert_eq!(b.volumes, vec!["/work".to_string()]);
    assert_eq!(b.entrypoint, None);
    assert_eq!(b.compression_method, "lzo");
    assert_eq!(b.compression_level, Some(8));

    let c = ContainerOptions::default();
    assert_eq!(c.image_name, "");
    assert_eq!(c.container_name, "");
    assert!(c.mounts.is_none());
    assert!(c.cmd.is_none());
    assert!(c.env.is_none());
    assert!(c.volumes.is_none());
    assert!(c.entrypoint.is_none());
}
