# rmdadm

Management of Linux MD software RAID arrays, with its core verified by Verus.

- `src/` is the verified library: the 0.90 and 1.x superblock formats (encoding,
  loading, and what a load gives back of a write), the rules that decide each
  array operation (create, assemble, manage, reshape, bitmaps, spares), the
  parsers of what the kernel and the system tools print, the configuration,
  the API's authentication and rate limiting, migrations and the cluster's
  node list. Operations take what was read from the system as plain values
  and return what is to be done (sysfs writes, ioctl arguments, superblock
  bytes, answers).
- `app/` is the `rmdadm` program around it: the command line, sysfs and
  device I/O, MD ioctls, the HTTP server, the terminal monitor and logging.
- `tests/` exercises the library on concrete values.
