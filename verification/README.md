# noises

Continuous runtime generators for white, pink and brown noise, as a Verus
library.

The verified library (`src/`) holds:

- `q015`: signed Q0.15 fixed-point products (rounded toward zero) and saturation;
- `amplitude`: the output gain, held as the IEEE-754 binary32 encoding of its
  `f32` value, its range check and its exact Q0.15 rounding;
- `rng`: the SplitMix64 generator;
- `pink`, `brown`: the Q0.15 pink filter bank and brown integrator, with the
  bounds that keep their state free of overflow;
- `config`: noise colours, configuration, validation and errors;
- `generator`: the generator, whose Q0.15 output stream is specified by a
  model (`GeneratorModel`, `generator_next`, `q015_stream`) and the laws about it;
- `cli`, `float_text`: the argument grammar of the playback demo.

`app/` holds what the library does not: the floating-point signal path
(`f32` filters and gains), the C ABI, and the `cpal` playback demo. The
floating-point path draws its white noise from the same verified SplitMix64
stream (`NoiseGenerator::next_unit24`).
