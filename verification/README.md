# effects

Frame scopes and effect-pass validation for a colour-grading pipeline, verified
with Verus.

- `src/` — the verified library:
  - `color`: BT.601 luma and full-swing Cb/Cr bucket of an 8-bit pixel, with
    the sums evaluated as IEEE binary32 arithmetic does, held in integers.
  - `frame`: the model of a tightly packed 4-byte-per-pixel frame, and counting.
  - `histogram`, `waveform`, `vectorscope`, `parade`: the four scopes, binned
    from pixel bytes (RGBA, or BGRA).
  - `readback`: row padding of texture readbacks and the pixel-length check.
  - `scopes`: the scopes of a padded texture readback, and of an RGBA8 frame
    whose length is checked first.
  - `pipeline`: which uniforms each effect shader takes, the error a malformed
    pass is refused with, which uniform fills which uniform-buffer slot, and the
    3D-LUT texture layout.
  - `laws`: what the scopes' buckets add up to, how per-column scopes relate to
    the histogram, what the BGRA flag does, and how histograms of joined or
    reordered frames relate.
- `tests/` — tests of the library.
- `app/` — GPU readback (wgpu), uniform-buffer packing of `f32` values
  (bytemuck), error messages (thiserror) and the WASM bindings of the scopes.
