# megamonic

A terminal system monitor for 64-bit Linux: CPU, memory, swap, load,
network, sensors, GPU and a process list, redrawn as new readings come in.

## Layout

- `src/` is the library, verified with Verus. It holds everything the
  monitor decides or computes:
  - parsing of the kernel's text files (`text`, `cpu`, `memory`, `loadavg`,
    `network`, `swap`, `hostinfo`, `process`, `processes`), with the
    process table (`processes`) kept in an `ahash` map;
  - the bookkeeping of the io_uring used to read every process's stat line
    (`uring`);
  - the keyboard and signal handling and the main loop's dispatch
    (`events`), the terminal's raw-mode flags (`terminal`), and the clock's
    timing (`time`);
  - the screen: number formatting (`fmt`, `ui`), every widget's text
    (`ui/*`), and which widget a message redraws (`layout`).
- `tests/` exercises the library on concrete inputs.
- `app/` is the program around the library: command line, threads, system
  calls (files, `getdents64`, io_uring, epoll, signalfd, terminal ioctls),
  the sensor and GPU readings (libsensors, NVML), the panic hook, and the few parts that compute with floating point (CPU
  percentages, network rates, the overview and GPU widgets).
