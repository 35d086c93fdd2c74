pub mod arm7_hle;
pub mod cart_hle;
pub mod firmware_hle;
pub mod mic_hle;
pub mod power_manager_hle;
pub mod rtc_hle;
pub mod sound_hle;
pub mod sound_nitro;
pub mod touchscreen_hle;
pub mod wifi_hle;
