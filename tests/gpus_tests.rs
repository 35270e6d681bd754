use autoservice::gpus::consolidate_gpus;
use autoservice::models::GpuInfo;

fn gpu(name: &str, vendor: u32, device: u32, ty: &str, driver: &str, backend: &str) -> GpuInfo {
    GpuInfo {
        name: name.to_string(),
        vendor: Some(vendor),
        device: Some(device),
        device_type: Some(ty.to_string()),
        driver: Some(driver.to_string()),
        driver_info: None,
        backend: Some(backend.to_string()),
    }
}

#[test]
fn one_entry_per_device_best_backend() {
    let all = vec![
        gpu("NVIDIA RTX", 0x10de, 0x2684, "DiscreteGpu", "nv", "Vulkan"),
        gpu("NVIDIA RTX", 0x10de, 0x2684, "DiscreteGpu", "nv", "Dx12"),
        gpu("Intel UHD", 0x8086, 0x9bc4, "IntegratedGpu", "", "Gl"),
        gpu("Microsoft Basic Render Driver", 0x1414, 0x8c, "Cpu", "", "Dx12"),
    ];
    let out = consolidate_gpus(all);
    assert_eq!(out.len(), 2);
    assert_eq!(out[0].vendor, Some(0x10de));
    assert_eq!(out[0].backend.as_deref(), Some("Dx12"));
    assert_eq!(out[1].name, "Intel UHD");
}

#[test]
fn software_adapters_stay_when_nothing_else_exists() {
    let all = vec![gpu("llvmpipe", 0x10005, 0, "Cpu", "llvmpipe", "Vulkan")];
    let out = consolidate_gpus(all);
    assert_eq!(out.len(), 1);
    assert_eq!(out[0].name, "llvmpipe");
}

#[test]
fn deviceless_entries_of_known_vendors_are_dropped() {
    let all = vec![
        gpu("AMD Radeon (GL)", 0x1002, 0, "DiscreteGpu", "", "Gl"),
        gpu("AMD Radeon", 0x1002, 0x73bf, "DiscreteGpu", "amd", "Vulkan"),
        gpu("Other", 0x5143, 0, "IntegratedGpu", "", "Gl"),
    ];
    let out = consolidate_gpus(all);
    let names: Vec<&str> = out.iter().map(|g| g.name.as_str()).collect();
    assert_eq!(names, vec!["AMD Radeon", "Other"]);
}

#[test]
fn ties_keep_the_first_and_longer_drivers_win() {
    let all = vec![
        gpu("A", 1, 2, "DiscreteGpu", "short", "Vulkan"),
        gpu("B", 1, 2, "DiscreteGpu", "longer driver", "Vulkan"),
        gpu("C", 1, 3, "DiscreteGpu", "x", "Metal"),
        gpu("D", 1, 3, "DiscreteGpu", "y", "Metal"),
    ];
    let out = consolidate_gpus(all);
    let names: Vec<&str> = out.iter().map(|g| g.name.as_str()).collect();
    assert_eq!(names, vec!["B", "C"]);
    assert!(consolidate_gpus(Vec::new()).is_empty());
}
