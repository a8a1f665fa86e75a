//! Verified core of the hell engine: the shader-description formats and
//! their parsers, the shader program layout planner, the resource
//! bookkeeping, and the decisions the renderer takes each frame.

pub mod config;
pub mod error;
pub mod text;
pub mod name_map;

pub mod glsl;
pub mod shader_definition;
pub mod hell_pest;

pub mod render_types;
pub mod renderer_resources;
pub mod shader_program;
pub mod generic_vulkan_shader;
pub mod vulkan_shader;
pub mod shader_utils;
pub mod shader_data;

pub mod resources;
pub mod render_data;
pub mod swapchain;
pub mod vulkan_image;
pub mod vulkan_backend;
pub mod pipeline;
pub mod gravity_system;
