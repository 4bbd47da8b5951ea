//! The boundary to the NVML bindings: the session, device handles and the
//! queries made of them. Nothing is claimed of what a query answers, since
//! that depends on the hardware and the driver at the time of the call.

use vstd::prelude::*;
use nvml_wrapper::bitmasks::device::ThrottleReasons;
use nvml_wrapper::enum_wrappers::device::TemperatureSensor;
use nvml_wrapper::error::NvmlError;
use nvml_wrapper::Device;
use nvml_wrapper::Nvml;
use crate::throttle::ThrottleFlags;

verus! {

#[verifier::external_type_specification]
#[verifier::external_body]
pub struct ExNvml(Nvml);

#[verifier::external_type_specification]
#[verifier::external_body]
pub struct ExDevice<'nvml>(Device<'nvml>);

#[verifier::external_type_specification]
#[verifier::external_body]
pub struct ExNvmlError(NvmlError);

/// `Nvml::init`: loads the NVML library and opens a session with the
/// driver. The session ends when the value is dropped.
#[verifier::external_body]
pub(crate) fn init_session() -> (r: Result<Nvml, NvmlError>) {
    Nvml::init()
}

/// Tells the variant `NvmlError::NotSupported` from the others: the device
/// does not offer what was asked of it.
#[verifier::external_body]
pub(crate) fn is_not_supported(error: &NvmlError) -> (r: bool) {
    matches!(error, NvmlError::NotSupported)
}

/// `Nvml::device_count`: the number of devices in the system.
#[verifier::external_body]
pub(crate) fn query_device_count(nvml: &Nvml) -> (r: Result<u32, NvmlError>) {
    nvml.device_count()
}

/// `Nvml::device_by_index`: the handle of the device with that ordinal.
#[verifier::external_body]
pub(crate) fn query_device<'a>(nvml: &'a Nvml, index: u32) -> (r: Result<Device<'a>, NvmlError>) {
    nvml.device_by_index(index)
}

/// `Nvml::sys_driver_version`: the version of the graphics driver.
#[verifier::external_body]
pub(crate) fn query_driver_version(nvml: &Nvml) -> (r: Result<String, NvmlError>) {
    nvml.sys_driver_version()
}

/// `Nvml::sys_cuda_driver_version`: the CUDA version of the driver, as
/// 1000 times the major version plus 10 times the minor one.
#[verifier::external_body]
pub(crate) fn query_cuda_version(nvml: &Nvml) -> (r: Result<i32, NvmlError>) {
    nvml.sys_cuda_driver_version()
}

/// `Device::index`: the ordinal of the device.
#[verifier::external_body]
pub(crate) fn query_index(device: &Device) -> (r: Result<u32, NvmlError>) {
    device.index()
}

/// `Device::name`: the product name of the device.
#[verifier::external_body]
pub(crate) fn query_name(device: &Device) -> (r: Result<String, NvmlError>) {
    device.name()
}

/// `Device::temperature` for the sensor on the GPU die, in degrees Celsius.
#[verifier::external_body]
pub(crate) fn query_temperature(device: &Device) -> (r: Result<u32, NvmlError>) {
    device.temperature(TemperatureSensor::Gpu)
}

/// `Device::power_usage`, in milliwatts.
#[verifier::external_body]
pub(crate) fn query_power_usage(device: &Device) -> (r: Result<u32, NvmlError>) {
    device.power_usage()
}

/// `Device::enforced_power_limit`, in milliwatts.
#[verifier::external_body]
pub(crate) fn query_power_limit(device: &Device) -> (r: Result<u32, NvmlError>) {
    device.enforced_power_limit()
}

/// `Device::utilization_rates`: the fields `gpu` and `memory`, in this
/// order.
#[verifier::external_body]
pub(crate) fn query_utilization(device: &Device) -> (r: Result<(u32, u32), NvmlError>) {
    let rates = device.utilization_rates()?;
    Ok((rates.gpu, rates.memory))
}

/// `Device::memory_info`: the fields `used` and `total`, in this order.
#[verifier::external_body]
pub(crate) fn query_memory(device: &Device) -> (r: Result<(u64, u64), NvmlError>) {
    let info = device.memory_info()?;
    Ok((info.used, info.total))
}

/// `Device::cuda_compute_capability`: the fields `major` and `minor`, in
/// this order.
#[verifier::external_body]
pub(crate) fn query_capability(device: &Device) -> (r: Result<(i32, i32), NvmlError>) {
    let capability = device.cuda_compute_capability()?;
    Ok((capability.major, capability.minor))
}

/// `Device::num_cores`: the number of cores of the device.
#[verifier::external_body]
pub(crate) fn query_cores(device: &Device) -> (r: Result<u32, NvmlError>) {
    device.num_cores()
}

/// `Device::current_throttle_reasons`, each flag of the bit set moved to
/// the field of its name.
#[verifier::external_body]
pub(crate) fn query_throttle(device: &Device) -> (r: Result<ThrottleFlags, NvmlError>) {
    let active = device.current_throttle_reasons()?;
    Ok(ThrottleFlags {
        gpu_idle: active.contains(ThrottleReasons::GPU_IDLE),
        applications_clocks_setting: active.contains(ThrottleReasons::APPLICATIONS_CLOCKS_SETTING),
        sw_power_cap: active.contains(ThrottleReasons::SW_POWER_CAP),
        hw_slowdown: active.contains(ThrottleReasons::HW_SLOWDOWN),
        sync_boost: active.contains(ThrottleReasons::SYNC_BOOST),
        sw_thermal_slowdown: active.contains(ThrottleReasons::SW_THERMAL_SLOWDOWN),
        hw_thermal_slowdown: active.contains(ThrottleReasons::HW_THERMAL_SLOWDOWN),
        hw_power_brake_slowdown: active.contains(ThrottleReasons::HW_POWER_BRAKE_SLOWDOWN),
        display_clock_setting: active.contains(ThrottleReasons::DISPLAY_CLOCK_SETTING),
    })
}

/// `Device::num_fans`: the number of fans of the device.
#[verifier::external_body]
pub(crate) fn query_fan_count(device: &Device) -> (r: Result<u32, NvmlError>) {
    device.num_fans()
}

/// `Device::fan_speed`: the speed of one fan, in percent of its full speed.
#[verifier::external_body]
pub(crate) fn query_fan_speed(device: &Device, fan: u32) -> (r: Result<u32, NvmlError>) {
    device.fan_speed(fan)
}

/// `Device::is_display_connected`: whether a display is attached.
#[verifier::external_body]
pub(crate) fn query_display_connected(device: &Device) -> (r: Result<bool, NvmlError>) {
    device.is_display_connected()
}

/// `Device::is_display_active`: whether the device drives a display.
#[verifier::external_body]
pub(crate) fn query_display_active(device: &Device) -> (r: Result<bool, NvmlError>) {
    device.is_display_active()
}

/// `Device::running_compute_processes`: the field `pid` of each entry, in
/// the order of the entries.
#[verifier::external_body]
pub(crate) fn query_processes(device: &Device) -> (r: Result<Vec<u32>, NvmlError>) {
    let processes = device.running_compute_processes()?;
    Ok(processes.iter().map(|process| process.pid).collect())
}

} // verus!
