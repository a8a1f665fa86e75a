# hell_engine

The verified core of a small Vulkan game engine, written in Verus.

`src/` holds the logic, each function with a contract that Verus proves:

- `glsl`, `shader_definition`, `hell_pest`: the shader description formats —
  GLSL types, `#hell` instructions and the line parser that gathers scopes and
  stages into GLSL files; the program configuration; the definitions read from
  a description's parse tree.
- `shader_program`, `generic_vulkan_shader`, `vulkan_shader`, `shader_utils`,
  `shader_data`: uniform layouts — which descriptor sets a program uses, where
  each scope's entries lie in the uniform buffer, which entry is bound, and
  where a uniform write lands.
- `resources`, `renderer_resources`, `render_data`: resources by path and by
  handle, materials, textures and the per-frame draw lists.
- `swapchain`, `vulkan_image`, `vulkan_backend`, `pipeline`: the choices the
  renderer makes from what the device reports and from its shaders (the
  swapchain plan, image transitions, memory types, clear values, draw
  bindings, present results, pipeline settings and layout).

`app/` holds the shader tool's `main`, file and image loading, the
floating-point parts, and conversions from the library's plain values to
`ash` types. It does not hold the renderer's device work: there is no
`HellRenderer` or `VulkanBackend`, no swapchain creation, no command pools or
command buffers, and no buffer upload. The library gives the decisions those
parts would act on (swapchain settings and sharing, layout barriers, memory
types, clear values, draw bindings, descriptor writes and bindings); nothing in
this repository performs them on a device.
`tests/` exercises the library on concrete values.
