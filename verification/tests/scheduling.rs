//! Frame-resource scheduling, denoiser chain sizing and version packing.

use nevr::engine::denoiser::VoxelDenoiser;
use nevr::engine::denoiser::a_trous_filter_radii;
use nevr::engine::denoiser::scratch_texture_count;
use nevr::engine::render::FramesInFlight;
use nevr::engine::render::MAX_FRAMES_IN_FLIGHT;
use nevr::engine::render::readback_buffer_size;
use nevr::engine::voxel::VoxelMaterialModel;
use nevr::engine::vulkan::VulkanVersion;

#[test]
fn frames_in_flight_wrap_around() {
    let mut frames = FramesInFlight::default();
    assert_eq!(frames.get(), 0);
    assert_eq!(frames.get_and_inc(), 0);
    assert_eq!(frames.get_and_inc(), 1);
    assert_eq!(frames.get_and_inc(), 2);
    // after the last slot the counter wraps back to the first
    assert_eq!(frames.get_and_inc(), 0);
    assert_eq!(frames.get(), 1);
}

#[test]
fn inc_steps_one_slot() {
    let mut frames = FramesInFlight::default();
    frames.inc();
    assert_eq!(frames.get(), 1);
    frames.inc();
    frames.inc();
    assert_eq!(frames.get(), 0);
    assert_eq!(MAX_FRAMES_IN_FLIGHT, 3);
}

#[test]
fn readback_buffer_holds_16_bytes_per_pixel() {
    assert_eq!(readback_buffer_size(1920, 1080), 1920 * 1080 * 16);
    assert_eq!(readback_buffer_size(1, 1), 16);
}

#[test]
fn camera_change_restarts_accumulation() {
    let mut frame_count: u32 = 17;
    nevr::reset_frame_count(false, &mut frame_count);
    assert_eq!(frame_count, 17);
    nevr::reset_frame_count(true, &mut frame_count);
    assert_eq!(frame_count, u32::MAX);
}

#[test]
fn denoiser_defaults_to_off() {
    assert_eq!(VoxelDenoiser::default(), VoxelDenoiser::Off);
}

#[test]
fn scratch_chain_holds_one_texture_per_pass() {
    assert_eq!(scratch_texture_count(1), 1);
    assert_eq!(scratch_texture_count(2), 2);
    assert_eq!(scratch_texture_count(3), 2);
    assert_eq!(scratch_texture_count(4), 3);
    assert_eq!(scratch_texture_count(7), 3);
    assert_eq!(scratch_texture_count(8), 4);
    assert_eq!(scratch_texture_count(u32::MAX), 32);
}

#[test]
fn filter_radii_double_up_to_the_configured_size() {
    assert_eq!(a_trous_filter_radii(1), vec![1]);
    assert_eq!(a_trous_filter_radii(5), vec![1, 2, 4]);
    assert_eq!(a_trous_filter_radii(8), vec![1, 2, 4, 8]);
    // one radius per scratch texture
    assert_eq!(a_trous_filter_radii(8).len(), scratch_texture_count(8));
}

#[test]
fn material_models_map_to_shader_indices() {
    assert_eq!(u32::from(VoxelMaterialModel::Lambertian), 0);
    assert_eq!(u32::from(VoxelMaterialModel::Metallic), 1);
    assert_eq!(u32::from(VoxelMaterialModel::Dielectric), 2);
    assert_eq!(u32::from(VoxelMaterialModel::Isotropic), 3);
    assert_eq!(u32::from(VoxelMaterialModel::DiffuseLight), 4);
}

#[test]
fn vulkan_versions_pack_their_fields() {
    assert_eq!(VulkanVersion::from((1u32, 2u32, 3u32)).0, (1 << 22) | (2 << 12) | 3);
    assert_eq!(VulkanVersion::from((1u32, 0u32, 0u32, 0u32)).0, 1 << 29);
    assert_eq!(VulkanVersion::from(42u32).0, 42);
    let v = VulkanVersion::from((0u32, 1u32, 3u32, 0u32));
    assert_eq!(VulkanVersion::from(&v).0, v.0);
    assert_eq!(VulkanVersion::make_api_version(0, 1, 3, 0).0, (1 << 22) | (3 << 12));
}
