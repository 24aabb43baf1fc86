//! Camera preview helpers, verified with Verus: conversion of captured frames
//! into display pixels, scratch-buffer pooling, camera indices, the pacing
//! decisions of the capture loop, and the decisions of the preview
//! application (screen-update throttling, frame-error handling, status lines,
//! camera permissions).
pub mod async_frame_handler;
pub mod buffer_pool;
pub mod camera_app;
pub mod clock;
pub mod codec;
pub mod direct_preview;
pub mod frame;
pub mod frame_processor;
pub mod graphics;
pub mod nokhwa_camera;
pub mod pixels;
pub mod slint_renderer;
pub mod text;
pub mod windows_permissions;
