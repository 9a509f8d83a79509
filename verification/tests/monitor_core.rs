use std::io;
use std::time::Duration;
use trueno_viz::interop::entrenar::label_to_color;
use trueno_viz::color::Rgba;
use trueno_viz::monitor::config::{Config, GlobalConfig};
use trueno_viz::monitor::debug::Level;
use trueno_viz::monitor::error::MonitorError;
use trueno_viz::monitor::ffi::wgpu::{
    GpuAdapterInfo, GpuDeviceType, WgpuBackendType, WgpuMonitor,
};
use trueno_viz::monitor::input::{Action, InputHandler, Key, KeyPress};
use trueno_viz::monitor::kernels::{simd_delta, simd_find_newlines};
use trueno_viz::monitor::ring_buffer::RingBuffer;

#[test]
fn test_config_default() {
    let config = Config::new();

    assert_eq!(config.version, 1);
    assert_eq!(config.global.update_ms, 1000);
    assert_eq!(config.global.history_size, 300);
    assert!(config.global.vim_keys);
}

#[test]
fn test_config_update_interval() {
    let mut config = Config::new();
    config.global.update_ms = 500;

    assert_eq!(config.update_interval(), Duration::from_millis(500));
}

#[test]
fn config_defaults_in_full() {
    let g = GlobalConfig::default();
    assert_eq!(g.temp_scale, "celsius");
    assert!(g.mouse);
    assert_eq!(Config::default().theme, "default");
}

#[test]
fn test_level_as_str() {
    assert_eq!(Level::Trace.as_str(), "TRACE");
    assert_eq!(Level::Debug.as_str(), "DEBUG");
    assert_eq!(Level::Info.as_str(), "INFO");
    assert_eq!(Level::Warn.as_str(), "WARN");
    assert_eq!(Level::Error.as_str(), "ERROR");
}

#[test]
fn test_level_has_color() {
    assert!(!Level::Trace.color_code().is_empty());
    assert!(!Level::Debug.color_code().is_empty());
    assert!(!Level::Info.color_code().is_empty());
    assert!(!Level::Warn.color_code().is_empty());
    assert!(!Level::Error.color_code().is_empty());
    assert_eq!(Level::Error.color_code(), "\x1b[31m");
}

#[test]
fn test_level_equality() {
    assert_eq!(Level::Trace, Level::Trace);
    assert_eq!(Level::Debug, Level::Debug);
    assert_ne!(Level::Trace, Level::Debug);
}

#[test]
fn test_level_clone() {
    let level = Level::Warn;
    let cloned = level;
    assert_eq!(level, cloned);
}

#[test]
fn test_io_error_conversion() {
    let io_err = io::Error::new(io::ErrorKind::NotFound, "file not found");
    let monitor_err: MonitorError = io_err.into();

    assert!(
        matches!(monitor_err, MonitorError::TerminalError(_)),
        "Should convert to TerminalError"
    );
}

fn adapter(index: usize, name: &str, device_type: GpuDeviceType) -> GpuAdapterInfo {
    GpuAdapterInfo {
        index,
        name: name.to_string(),
        backend: WgpuBackendType::Vulkan,
        device_type,
        driver: "test".to_string(),
        driver_info: "1.0".to_string(),
        vendor_id: 0,
        device_id: 0,
    }
}

#[test]
fn test_adapter_info_is_discrete() {
    let info = GpuAdapterInfo {
        index: 0,
        name: "Test GPU".to_string(),
        backend: WgpuBackendType::Vulkan,
        device_type: GpuDeviceType::DiscreteGpu,
        driver: "test".to_string(),
        driver_info: "1.0".to_string(),
        vendor_id: 0,
        device_id: 0,
    };

    assert!(info.is_discrete());
    assert!(!info.is_integrated());
}

#[test]
fn test_backend_type_debug() {
    let backend = WgpuBackendType::Metal;
    assert_eq!(format!("{:?}", backend), "Metal");
}

#[test]
fn test_device_type_debug() {
    let device_type = GpuDeviceType::DiscreteGpu;
    assert_eq!(format!("{:?}", device_type), "DiscreteGpu");
}

#[test]
fn test_wgpu_monitor_creation() {
    let monitor = WgpuMonitor::new();
    assert!(monitor.adapters().is_empty());
    assert!(monitor.primary_adapter().is_none());
}

#[test]
fn test_metrics_tracking() {
    let mut monitor = WgpuMonitor::from_adapters(vec![adapter(0, "GPU", GpuDeviceType::DiscreteGpu)]);

    monitor.record_submission(0);
    monitor.record_submission(0);
    monitor.record_dispatch(0);

    assert_eq!(monitor.queue_submissions(0), 2);
    assert_eq!(monitor.compute_dispatches(0), 1);
}

#[test]
fn test_invalid_index_handling() {
    let mut monitor = WgpuMonitor::new();
    monitor.record_submission(999);
    assert!(monitor.adapter_info(999).is_none());
    assert_eq!(monitor.queue_submissions(999), 0);
    assert_eq!(monitor.compute_dispatches(999), 0);
}

#[test]
fn test_round_robin() {
    let mut monitor = WgpuMonitor::from_adapters(vec![
        adapter(0, "AMD Radeon Pro W5700X", GpuDeviceType::DiscreteGpu),
        adapter(1, "Intel UHD", GpuDeviceType::IntegratedGpu),
        adapter(2, "AMD Radeon Pro W5700X", GpuDeviceType::DiscreteGpu),
    ]);
    assert_eq!(monitor.discrete_gpu_count(), 2);
    assert!(monitor.has_dual_amd());
    let picks: Vec<usize> = (0..5).map(|_| monitor.next_gpu_round_robin()).collect();
    assert_eq!(picks, vec![0, 1, 0, 1, 0]);
    let mut single = WgpuMonitor::new();
    assert_eq!(single.next_gpu_round_robin(), 0);
    assert!(!single.has_dual_amd());
}

#[test]
fn wgpu_counters_and_snapshot() {
    let mut monitor = WgpuMonitor::from_adapters(vec![
        adapter(0, "A", GpuDeviceType::DiscreteGpu),
        adapter(1, "B", GpuDeviceType::Cpu),
    ]);
    monitor.record_buffer_allocation(1, 4096);
    monitor.record_buffer_allocation(1, 4096);
    monitor.record_dispatch(1);
    assert_eq!(monitor.buffer_allocated_bytes(1), 8192);
    assert_eq!(monitor.buffer_allocated_bytes(0), 0);
    let m = monitor.collect_metrics();
    assert_eq!(m.adapter_count, 2);
    assert_eq!(m.buffer_bytes, vec![0, 8192]);
    assert_eq!(m.dispatches, vec![0, 1]);
    assert_eq!(m.submissions, vec![0, 0]);
    monitor.invalidate_adapter(1);
    monitor.refresh_adapters();
    assert_eq!(monitor.adapters().len(), 2);
    assert_eq!(monitor.adapter_info(1).unwrap().name, "B");
    assert_eq!(monitor.adapter_limits(0).max_buffer_size, 0);
}

#[test]
fn test_default_handler() {
    let handler = InputHandler::default();
    assert!(handler.vim_keys); // Default has vim keys enabled
}

#[test]
fn test_input_handler_clone() {
    let handler = InputHandler::new(true);
    let cloned = handler.clone();
    assert_eq!(handler.vim_keys, cloned.vim_keys);
}

fn press(key: Key) -> KeyPress {
    KeyPress { key, ctrl: false }
}

#[test]
fn key_mapping() {
    let vim = InputHandler::new(true);
    let plain = InputHandler::new(false);
    assert_eq!(vim.handle_key(press(Key::Char('q'))), Action::Quit);
    assert_eq!(vim.handle_key(press(Key::Esc)), Action::Quit);
    assert_eq!(vim.handle_key(KeyPress { key: Key::Char('c'), ctrl: true }), Action::Quit);
    assert_eq!(vim.handle_key(KeyPress { key: Key::Char('x'), ctrl: true }), Action::NoAction);
    assert_eq!(vim.handle_key(press(Key::Char('c'))), Action::NoAction);
    assert_eq!(vim.handle_key(press(Key::Char('k'))), Action::Up);
    assert_eq!(plain.handle_key(press(Key::Char('k'))), Action::NoAction);
    assert_eq!(plain.handle_key(press(Key::Up)), Action::Up);
    assert_eq!(vim.handle_key(press(Key::Char('7'))), Action::Preset(7));
    assert_eq!(vim.handle_key(press(Key::F(1))), Action::Help);
    assert_eq!(vim.handle_key(press(Key::F(5))), Action::Refresh);
    assert_eq!(vim.handle_key(press(Key::Char('K'))), Action::Kill);
    assert_eq!(vim.handle_key(press(Key::Char('/'))), Action::Filter);
    assert_eq!(vim.handle_key(press(Key::Enter)), Action::Select);
    assert_eq!(vim.handle_key(press(Key::Other)), Action::NoAction);
    assert_eq!(vim.handle_mouse(), Action::NoAction);
}

#[test]
fn newline_mask_and_delta() {
    assert_eq!(simd_find_newlines(b"ab\ncd\n"), 0b100100);
    assert_eq!(simd_find_newlines(b""), 0);
    let mut out = [9u64; 4];
    simd_delta(&[10, 5, 7], &[3, 6], &mut out);
    assert_eq!(out, [7, u64::MAX, 9, 9]);
}

#[test]
fn palette_cycles() {
    assert_eq!(label_to_color(0), Rgba::new(66, 133, 244, 255));
    assert_eq!(label_to_color(9), Rgba::new(234, 67, 53, 255));
    assert_eq!(label_to_color(7), Rgba::new(121, 85, 72, 255));
}

#[test]
fn test_monitor_feature_compiles() {
    assert!(true, "Monitor module should compile");
}

#[test]
fn test_prelude_exports() {
    let _buffer: RingBuffer<f64> = RingBuffer::new(1);
    let _error = MonitorError::ProcessNotFound(1);
}

#[test]
fn test_level_debug() {
    let debug_str = format!("{:?}", Level::Error);
    assert!(debug_str.contains("Error"));
}

#[test]
fn test_label_to_color_cycling() {
    let c0 = label_to_color(0);
    let c1 = label_to_color(1);
    let c8 = label_to_color(8);

    assert_ne!(c0, c1);
    assert_eq!(c0, c8);
}
