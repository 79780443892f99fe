# audio-lab

A toolkit for offline audio research: test-signal generation, signal
containers in the time and frequency domain, spectrograms, trimming,
padding, convolution and deconvolution, fractional-octave smoothing and
filter banks, audio and NumPy files, playback and plot windows.

The crate under `src/` is the verified core, written in Verus. It holds
samples, sample rates and frequencies as binary64 bit patterns (`u64`) and
proves, among other things:

- the shape, order and comment of joined signals, and where each input
  channel lands;
- that cutting a signal into blocks and gluing them back returns every
  channel followed by zeros;
- trimming and padding (and that trimming undoes padding);
- the dimensioning of convolution, deconvolution, STFT and filter banks,
  and all their input checks with the exact error each input gets;
- test-signal layout (impulses, pulse trains, sweep fades);
- extreme values of x/y data with the tie rules of `max_by`/`min_by`;
- binary64 comparison, halving and integer conversion on bit patterns;
- interleaved sample order and its inverse;
- legend labels for plots (first line, clipped to 40 characters).

`app/` wraps the core in ordinary Rust: the floating-point work (FFTs,
windows, waveforms, gain), file I/O, playback and the `eframe` plot
windows. `tests/` exercises the core from outside.
